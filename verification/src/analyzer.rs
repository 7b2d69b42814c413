//! Signature Analyzer.
//!
//! Given one method definition, decides whether the method needs a
//! synthesized input record and/or output record, and extracts the ordered
//! list of real parameters — every parameter except a leading receiver.
//! A receiver parameter anywhere but first is a malformed signature.

use vstd::prelude::*;

use crate::error::{Error, ErrorKind, ErrorModel};
use crate::model::{clone_param, MethodDef, MethodModel, ParamModel, Parameter};

verus! {

/// The receiver parameter is recognised by its conventional name.
pub open spec fn is_receiver_name(n: Seq<char>) -> bool {
    n == "self"@
}

/// True when the method's first parameter is the receiver.
pub open spec fn has_receiver(m: MethodModel) -> bool {
    m.params.len() > 0 && is_receiver_name(m.params[0].name)
}

/// The parameters that go into the input record: every parameter except a
/// leading receiver, in declaration order.
pub open spec fn real_params(m: MethodModel) -> Seq<ParamModel> {
    if has_receiver(m) {
        m.params.skip(1)
    } else {
        m.params
    }
}

/// Position of the first receiver-named parameter at or after `i`, if any.
pub open spec fn first_receiver_from(params: Seq<ParamModel>, i: int) -> Option<int>
    decreases params.len() - i,
{
    if i < 0 || i >= params.len() {
        None
    } else if is_receiver_name(params[i].name) {
        Some(i)
    } else {
        first_receiver_from(params, i + 1)
    }
}

/// The analysis of one method signature.
pub struct Analysis {
    pub needs_input: bool,
    pub real_parameters: Vec<Parameter>,
    pub needs_output: bool,
}

/// Mathematical image of an [`Analysis`].
pub struct AnalysisModel {
    pub needs_input: bool,
    pub real_parameters: Seq<ParamModel>,
    pub needs_output: bool,
}

impl View for Analysis {
    type V = AnalysisModel;

    open spec fn view(&self) -> AnalysisModel {
        AnalysisModel {
            needs_input: self.needs_input,
            real_parameters: self.real_parameters@.map_values(|p: Parameter| p@),
            needs_output: self.needs_output,
        }
    }
}

/// What analyzing a method yields: an error for the first misplaced
/// receiver parameter, else the real parameters and the two record needs.
/// A method needs an input record exactly when it has at least one real
/// parameter, and an output record exactly when it declares a return type.
pub open spec fn analyze_model(m: MethodModel) -> Result<AnalysisModel, ErrorModel> {
    match first_receiver_from(m.params, 1) {
        Some(i) => Err(
            ErrorModel {
                kind: ErrorKind::MalformedSignature,
                method: m.name,
                other_method: Seq::empty(),
                name: m.params[i].name,
                position: i,
            },
        ),
        None => Ok(
            AnalysisModel {
                needs_input: real_params(m).len() > 0,
                real_parameters: real_params(m),
                needs_output: m.return_type is Some,
            },
        ),
    }
}

/// Compares a parameter name against the receiver's conventional name.
pub fn name_is_receiver(n: &String) -> (b: bool)
    ensures
        b == is_receiver_name(n@),
{
    let receiver: String = "self".to_owned();
    *n == receiver
}

/// Signature Analyzer: decides whether `m` needs input and output records
/// and extracts its real parameters, or reports the first misplaced
/// receiver parameter.
pub fn analyze(m: &MethodDef) -> (r: Result<Analysis, Error>)
    ensures
        match r {
            Ok(a) => analyze_model(m@) == Ok::<AnalysisModel, ErrorModel>(a@),
            Err(e) => analyze_model(m@) == Err::<AnalysisModel, ErrorModel>(e@),
        },
{
    let n = m.params.len();
    let mut i: usize = 1;
    while i < n
        invariant
            1 <= i,
            n == m.params@.len(),
            i <= n || n == 0,
            first_receiver_from(m@.params, 1) == first_receiver_from(m@.params, i as int),
        decreases n - i,
    {
        if name_is_receiver(&m.params[i].name) {
            assert(m@.params[i as int] == m.params@[i as int]@);
            assert(first_receiver_from(m@.params, i as int) == Some(i as int));
            return Err(
                Error {
                    kind: ErrorKind::MalformedSignature,
                    method: m.name.clone(),
                    other_method: String::new(),
                    name: m.params[i].name.clone(),
                    position: i,
                },
            );
        }
        proof {
            assert(m@.params[i as int] == m.params@[i as int]@);
            assert(first_receiver_from(m@.params, i as int) == first_receiver_from(
                m@.params,
                i as int + 1,
            ));
        }
        i += 1;
    }
    proof {
        assert(first_receiver_from(m@.params, i as int) is None);
    }
    let skip_receiver = n > 0 && name_is_receiver(&m.params[0].name);
    let mut j: usize = if skip_receiver {
        1
    } else {
        0
    };
    let ghost start: int = j as int;
    let mut rp: Vec<Parameter> = Vec::new();
    while j < n
        invariant
            0 <= start <= j <= n,
            n == m.params@.len(),
            j == start + rp@.len(),
            forall|k: int| 0 <= k < rp@.len() ==> rp@[k]@ == m@.params[start + k],
        decreases n - j,
    {
        rp.push(clone_param(&m.params[j]));
        proof {
            assert(m@.params[j as int] == m.params@[j as int]@);
        }
        j += 1;
    }
    let needs_input = rp.len() > 0;
    let needs_output = m.return_type.is_some();
    let r = Analysis { needs_input, real_parameters: rp, needs_output };
    proof {
        if n > 0 {
            assert(m@.params[0] == m.params@[0]@);
        }
        assert(has_receiver(m@) == skip_receiver);
        assert(r@.real_parameters.len() == rp@.len());
        assert(real_params(m@).len() == n - start);
        assert forall|k: int| 0 <= k < rp@.len() implies r@.real_parameters[k] == real_params(
            m@,
        )[k] by {
            assert(r@.real_parameters[k] == rp@[k]@);
            assert(rp@[k]@ == m@.params[start + k]);
            assert(real_params(m@)[k] == m@.params[start + k]);
        }
        assert(r@.real_parameters =~~= real_params(m@));
    }
    Ok(r)
}

} // verus!

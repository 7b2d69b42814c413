//! Record Synthesizer.
//!
//! For a method with at least one real parameter it produces an input
//! record named `<method>_input` whose fields are the real parameters,
//! names and type descriptors copied verbatim, order preserved. For a
//! method with a return type it produces an output record named
//! `<method>_output` with the single field `payload` holding the return
//! type. A duplicated parameter name is a generation error.

use vstd::prelude::*;

use crate::analyzer::{analyze_model, real_params, Analysis};
use crate::error::{Error, ErrorKind, ErrorModel};
use crate::model::{clone_param, MethodDef, MethodModel, ParamModel, Parameter};

verus! {

/// A synthesized record declaration: a type name and ordered, named,
/// serializable fields. Fields share the shape of parameters.
pub struct RecordDef {
    pub name: String,
    pub fields: Vec<Parameter>,
}

/// Mathematical image of a [`RecordDef`].
#[verifier::ext_equal]
pub struct RecordModel {
    pub name: Seq<char>,
    pub fields: Seq<ParamModel>,
}

impl View for RecordDef {
    type V = RecordModel;

    open spec fn view(&self) -> RecordModel {
        RecordModel { name: self.name@, fields: self.fields@.map_values(|p: Parameter| p@) }
    }
}

/// Image of an optional record.
pub open spec fn opt_record_view(o: Option<RecordDef>) -> Option<RecordModel> {
    match o {
        Some(r) => Some(r@),
        None => None,
    }
}

/// The input record's name: the method name with `_input` appended.
pub open spec fn input_record_name(method: Seq<char>) -> Seq<char> {
    method + "_input"@
}

/// The output record's name: the method name with `_output` appended.
pub open spec fn output_record_name(method: Seq<char>) -> Seq<char> {
    method + "_output"@
}

/// The fixed name of the output record's one field.
pub open spec fn payload_field_name() -> Seq<char> {
    "payload"@
}

/// The input record of a method: one field per real parameter, in
/// declaration order, or nothing when the method has no real parameters.
pub open spec fn input_record_model(m: MethodModel) -> Option<RecordModel> {
    if real_params(m).len() > 0 {
        Some(RecordModel { name: input_record_name(m.name), fields: real_params(m) })
    } else {
        None
    }
}

/// The output record of a method: exactly one field, `payload`, holding
/// the return type, or nothing when the method returns nothing.
pub open spec fn output_record_model(m: MethodModel) -> Option<RecordModel> {
    match m.return_type {
        Some(t) => Some(
            RecordModel {
                name: output_record_name(m.name),
                fields: seq![ParamModel { name: payload_field_name(), ty: t }],
            },
        ),
        None => None,
    }
}

/// True when the parameter at `j` repeats the name of an earlier one.
pub open spec fn name_occurs_before(ps: Seq<ParamModel>, j: int) -> bool {
    exists|i: int| 0 <= i < j && ps[i].name == ps[j].name
}

/// Position of the first parameter at or after `j` that repeats an
/// earlier name, if any.
pub open spec fn first_duplicate_from(ps: Seq<ParamModel>, j: int) -> Option<int>
    decreases ps.len() - j,
{
    if j < 0 || j >= ps.len() {
        None
    } else if name_occurs_before(ps, j) {
        Some(j)
    } else {
        first_duplicate_from(ps, j + 1)
    }
}

/// What synthesizing a method's records yields: an error for the first
/// duplicated field name, else the optional input and output records.
pub open spec fn synth_model(m: MethodModel) -> Result<
    (Option<RecordModel>, Option<RecordModel>),
    ErrorModel,
> {
    let rp = real_params(m);
    match first_duplicate_from(rp, 1) {
        Some(j) => Err(
            ErrorModel {
                kind: ErrorKind::DuplicateField,
                method: m.name,
                other_method: Seq::empty(),
                name: rp[j].name,
                position: j,
            },
        ),
        None => Ok((input_record_model(m), output_record_model(m))),
    }
}

/// Appends a suffix to a method name, making a record type name.
pub fn make_record_name(method: &String, suffix: &str) -> (r: String)
    ensures
        r@ == method@ + suffix@,
{
    let mut r = method.clone();
    r.append(suffix);
    r
}

/// Copies a record declaration. Spelled out so the copy is known to carry
/// the same name and fields.
pub fn clone_record(r: &RecordDef) -> (c: RecordDef)
    ensures
        c@ == r@,
{
    RecordDef { name: r.name.clone(), fields: clone_params(&r.fields) }
}

/// Copies a field list. Spelled out so the copy is known field for field.
fn clone_params(ps: &Vec<Parameter>) -> (r: Vec<Parameter>)
    ensures
        r@.map_values(|p: Parameter| p@) == ps@.map_values(|p: Parameter| p@),
{
    let mut r: Vec<Parameter> = Vec::new();
    let mut i: usize = 0;
    while i < ps.len()
        invariant
            i <= ps@.len(),
            r@.len() == i,
            forall|k: int| 0 <= k < i ==> r@[k]@ == ps@[k]@,
        decreases ps@.len() - i,
    {
        r.push(clone_param(&ps[i]));
        i += 1;
    }
    proof {
        assert(r@.map_values(|p: Parameter| p@) =~= ps@.map_values(|p: Parameter| p@));
    }
    r
}

/// Record Synthesizer: produces the optional input and output record of
/// `m` from its analysis, or reports the first duplicated field name.
pub fn synthesize(m: &MethodDef, a: &Analysis) -> (r: Result<
    (Option<RecordDef>, Option<RecordDef>),
    Error,
>)
    requires
        analyze_model(m@) == Ok::<_, ErrorModel>(a@),
    ensures
        match r {
            Ok(p) => synth_model(m@) == Ok::<_, ErrorModel>(
                (opt_record_view(p.0), opt_record_view(p.1)),
            ),
            Err(e) => synth_model(m@) == Err::<(Option<RecordModel>, Option<RecordModel>), _>(e@),
        },
{
    let ghost rpm = real_params(m@);
    let n = a.real_parameters.len();
    let mut j: usize = 1;
    while j < n
        invariant
            1 <= j,
            j <= n || n == 0,
            n == rpm.len(),
            a@.real_parameters == rpm,
            n == a.real_parameters@.len(),
            first_duplicate_from(rpm, 1) == first_duplicate_from(rpm, j as int),
            analyze_model(m@) == Ok::<_, ErrorModel>(a@),
        decreases n - j,
    {
        let mut i: usize = 0;
        while i < j
            invariant
                i <= j < n,
                n == rpm.len(),
                a@.real_parameters == rpm,
                n == a.real_parameters@.len(),
                rpm == real_params(m@),
                first_duplicate_from(rpm, 1) == first_duplicate_from(rpm, j as int),
                forall|k: int| 0 <= k < i ==> rpm[k].name != rpm[j as int].name,
            decreases j - i,
        {
            if a.real_parameters[i].name == a.real_parameters[j].name {
                proof {
                    assert(rpm[i as int] == a.real_parameters@[i as int]@);
                    assert(rpm[j as int] == a.real_parameters@[j as int]@);
                    assert(name_occurs_before(rpm, j as int));
                    assert(first_duplicate_from(rpm, j as int) == Some(j as int));
                }
                return Err(
                    Error {
                        kind: ErrorKind::DuplicateField,
                        method: m.name.clone(),
                        other_method: String::new(),
                        name: a.real_parameters[j].name.clone(),
                        position: j,
                    },
                );
            }
            proof {
                assert(rpm[i as int] == a.real_parameters@[i as int]@);
                assert(rpm[j as int] == a.real_parameters@[j as int]@);
            }
            i += 1;
        }
        proof {
            assert(!name_occurs_before(rpm, j as int));
            assert(first_duplicate_from(rpm, j as int) == first_duplicate_from(
                rpm,
                j as int + 1,
            ));
        }
        j += 1;
    }
    proof {
        assert(first_duplicate_from(rpm, j as int) is None);
        assert(first_duplicate_from(rpm, 1) is None);
    }
    let input = if n > 0 {
        Some(RecordDef { name: make_record_name(&m.name, "_input"), fields: clone_params(&a.real_parameters) })
    } else {
        None
    };
    let output = match &m.return_type {
        Some(t) => Some(
            RecordDef {
                name: make_record_name(&m.name, "_output"),
                fields: vec![Parameter { name: "payload".to_owned(), ty: t.clone() }],
            },
        ),
        None => None,
    };
    proof {
        assert(opt_record_view(input) == input_record_model(m@));
        if m@.return_type is Some {
            let rec = output->Some_0;
            assert(rec@.fields =~= seq![
                ParamModel { name: payload_field_name(), ty: m@.return_type->Some_0 },
            ]);
            assert(rec@ =~= output_record_model(m@)->Some_0);
        }
        assert(opt_record_view(output) == output_record_model(m@));
    }
    Ok((input, output))
}

} // verus!

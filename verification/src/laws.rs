//! The laws the generated artifacts obey, stated and proved once.
//!
//! The codec's round-trip law lives beside the codec itself, in
//! [`crate::codec::lemma_record_round_trip`].

use vstd::bytes::lemma_auto_spec_u16_to_from_le_bytes;
use vstd::bytes::spec_u16_to_le_bytes;
use vstd::prelude::*;

use crate::analyzer::real_params;
use crate::codec::{dec_fields, Value};
use crate::emitter::{gen_prefix, generate_model, step_model, GenState};
use crate::interface::{
    arm_input_kinds, dispatch_contract, invoke_frame, outcome_bytes, req_ordinal,
    response_matches, DispatchOutcome,
};
use crate::model::{MethodModel, ParamModel, ServiceModel};
use crate::records::{
    input_record_model, input_record_name, output_record_model, output_record_name,
    payload_field_name, RecordModel,
};

verus! {

/// In a successfully generated prefix, the dispatch table has one arm per
/// method, the arm at position `i` carries ordinal `i` and its method's
/// name, and its records are exactly the method's synthesized records.
pub proof fn lemma_gen_prefix_shape(methods: Seq<MethodModel>, n: int)
    requires
        0 <= n <= 0x10000,
        gen_prefix(methods, n) is Ok,
    ensures
        ({
            let st = gen_prefix(methods, n)->Ok_0;
            &&& st.arms.len() == n
            &&& forall|i: int|
                0 <= i < n ==> (#[trigger] st.arms[i]).ordinal == i as u16
                    && st.arms[i].method_name == methods[i].name && st.arms[i].input_record
                    == input_record_model(methods[i]) && st.arms[i].output_record
                    == output_record_model(methods[i])
        }),
    decreases n,
{
    if n > 0 {
        let prev = gen_prefix(methods, n - 1);
        assert(prev is Ok);
        lemma_gen_prefix_shape(methods, n - 1);
        let st_prev = prev->Ok_0;
        let st = gen_prefix(methods, n)->Ok_0;
        assert(step_model(st_prev, methods[n - 1], (n - 1) as u16) == Ok::<
            GenState,
            crate::error::ErrorModel,
        >(st));
        assert(st.arms.len() == n);
    }
}

/// Ordinal determinism: generation is a pure function of the service
/// interface definition, so regenerating from the same definition yields
/// the identical artifact.
pub proof fn lemma_regeneration_identical(s1: ServiceModel, s2: ServiceModel)
    requires
        s1 == s2,
    ensures
        generate_model(s1) == generate_model(s2),
{
}

/// Ordinal determinism: in a generated artifact every method's ordinal is
/// exactly its zero-based declaration position — never a name, an
/// attribute or a hash — and the table lists the methods in declaration
/// order.
pub proof fn lemma_ordinal_determinism(s: ServiceModel)
    requires
        s.methods.len() <= 0x10000,
        generate_model(s) is Ok,
    ensures
        ({
            let a = generate_model(s)->Ok_0;
            &&& a.arms.len() == s.methods.len()
            &&& forall|i: int|
                0 <= i < s.methods.len() ==> (#[trigger] a.arms[i]).ordinal == i as u16
                    && a.arms[i].method_name == s.methods[i].name
        }),
{
    lemma_gen_prefix_shape(s.methods, s.methods.len() as int);
}

/// Record shape fidelity: the arm of a method with real parameters
/// carries an input record whose fields are exactly those parameters,
/// names and types verbatim, in declaration order; the arm of a method
/// without real parameters carries no input record.
pub proof fn lemma_record_shape_fidelity(s: ServiceModel, i: int)
    requires
        s.methods.len() <= 0x10000,
        generate_model(s) is Ok,
        0 <= i < s.methods.len(),
    ensures
        ({
            let a = generate_model(s)->Ok_0;
            let m = s.methods[i];
            &&& real_params(m).len() > 0 ==> a.arms[i].input_record == Some(
                RecordModel { name: input_record_name(m.name), fields: real_params(m) },
            )
            &&& real_params(m).len() == 0 ==> a.arms[i].input_record is None
        }),
{
    lemma_gen_prefix_shape(s.methods, s.methods.len() as int);
}

/// Output wrapping, at generation: the arm of a method with a return type
/// carries an output record with exactly one field, `payload`, holding
/// that type; the arm of a method without one carries no output record.
pub proof fn lemma_output_wrapping(s: ServiceModel, i: int)
    requires
        s.methods.len() <= 0x10000,
        generate_model(s) is Ok,
        0 <= i < s.methods.len(),
    ensures
        ({
            let a = generate_model(s)->Ok_0;
            let m = s.methods[i];
            &&& m.return_type is Some ==> a.arms[i].output_record == Some(
                RecordModel {
                    name: output_record_name(m.name),
                    fields: seq![
                        ParamModel { name: payload_field_name(), ty: m.return_type->Some_0 },
                    ],
                },
            )
            &&& m.return_type is None ==> a.arms[i].output_record is None
        }),
{
    lemma_gen_prefix_shape(s.methods, s.methods.len() as int);
}

/// Output wrapping, at dispatch: whenever the arm of a method without a
/// return type is dispatched, the reply's bytes are exactly empty.
pub proof fn lemma_void_method_empty_reply(
    arms: Seq<crate::emitter::ArmModel>,
    req: Seq<u8>,
    r: DispatchOutcome,
)
    requires
        dispatch_contract(arms, req, r),
        req.len() >= 2,
        (req_ordinal(req) as int) < arms.len(),
        arms[req_ordinal(req) as int].output_record is None,
        arm_input_kinds(arms[req_ordinal(req) as int]) is Some,
        dec_fields(arm_input_kinds(arms[req_ordinal(req) as int])->Some_0, req.skip(2)) is Some,
    ensures
        r is Reply,
        outcome_bytes(r) == Seq::<u8>::empty(),
{
    let ord = req_ordinal(req) as int;
    let v = choose|v: Value| response_matches(arms[ord], v, outcome_bytes(r));
    assert(response_matches(arms[ord], v, outcome_bytes(r)));
}

/// Unknown ordinal safety: dispatching an ordinal at or past the table's
/// length answers `UnknownOrdinal`, with empty bytes on the wire, and is
/// not a fatal condition.
pub proof fn lemma_unknown_ordinal_safety(
    arms: Seq<crate::emitter::ArmModel>,
    req: Seq<u8>,
    r: DispatchOutcome,
)
    requires
        dispatch_contract(arms, req, r),
        req.len() >= 2,
        req_ordinal(req) as int >= arms.len(),
    ensures
        r is UnknownOrdinal,
        outcome_bytes(r) == Seq::<u8>::empty(),
{
}

/// Clean shutdown: a request of zero bytes — the reader yielded nothing —
/// answers `CleanEof`, with empty bytes on the wire, and is not an error.
pub proof fn lemma_clean_shutdown(
    arms: Seq<crate::emitter::ArmModel>,
    req: Seq<u8>,
    r: DispatchOutcome,
)
    requires
        dispatch_contract(arms, req, r),
        req.len() == 0,
    ensures
        r is CleanEof,
        outcome_bytes(r) == Seq::<u8>::empty(),
{
}

/// Frame symmetry: a dispatcher reading the frame the invoker built sees
/// exactly the ordinal and the payload that were framed.
pub proof fn lemma_invoke_dispatch_symmetry(ord: u16, payload: Option<Vec<u8>>)
    ensures
        ({
            let f = invoke_frame(ord, payload);
            &&& f.len() >= 2
            &&& req_ordinal(f) == ord
            &&& f.skip(2) == (match payload {
                Some(b) => b@,
                None => Seq::<u8>::empty(),
            })
        }),
{
    lemma_auto_spec_u16_to_from_le_bytes();
    let f = invoke_frame(ord, payload);
    assert(spec_u16_to_le_bytes(ord).len() == 2);
    assert(f.take(2) =~= spec_u16_to_le_bytes(ord));
    assert(f.skip(2) =~= (match payload {
        Some(b) => b@,
        None => Seq::<u8>::empty(),
    }));
}

} // verus!

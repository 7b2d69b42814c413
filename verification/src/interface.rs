//! The generated dispatcher and invoker.
//!
//! One dispatch call answers exactly one framed request: the first two
//! bytes are the method ordinal, little-endian, and the rest is the
//! encoded input record. An empty request is the clean end-of-stream
//! signal; a single byte is a broken ordinal read and fatal; an ordinal
//! with no arm is deliberately answered with empty bytes and no method is
//! invoked; a payload the arm's shape cannot decode is fatal for the
//! request. The invoker builds the symmetric client-side frame.

use vstd::bytes::{spec_u16_from_le_bytes, spec_u16_to_le_bytes, u16_from_le_bytes, u16_to_le_bytes};
use vstd::prelude::*;
use vstd::slice::slice_subrange;

use crate::codec::{
    dec_fields, decode_record, enc_value, encode_value, kind_byte_len, shape_size, Value, WireKind,
};
use crate::emitter::{ArmModel, Artifact, DispatchArm};
use crate::model::ParamModel;
use crate::records::RecordDef;

verus! {

/// The wire kind a type descriptor names, if the codec knows it.
pub open spec fn wire_kind_of_ty(t: Seq<char>) -> Option<WireKind> {
    if t == "()"@ {
        Some(WireKind::Unit)
    } else if t == "bool"@ {
        Some(WireKind::Bool)
    } else if t == "u8"@ {
        Some(WireKind::U8)
    } else if t == "i32"@ {
        Some(WireKind::I32)
    } else if t == "u64"@ {
        Some(WireKind::U64)
    } else {
        None
    }
}

/// The shape of a field list: the wire kind of each field in order, or
/// nothing when some field's type lies outside the codec's universe.
pub open spec fn shape_of_fields(fs: Seq<ParamModel>) -> Option<Seq<WireKind>>
    decreases fs.len(),
{
    if fs.len() == 0 {
        Some(Seq::empty())
    } else {
        match wire_kind_of_ty(fs[0].ty) {
            None => None,
            Some(k) => match shape_of_fields(fs.skip(1)) {
                None => None,
                Some(ks) => Some(seq![k] + ks),
            },
        }
    }
}

/// The input shape of an arm: the empty shape when the method takes no
/// input record.
pub open spec fn arm_input_kinds(arm: ArmModel) -> Option<Seq<WireKind>> {
    match arm.input_record {
        None => Some(Seq::empty()),
        Some(r) => shape_of_fields(r.fields),
    }
}

/// Maps a type descriptor to its wire kind at run time.
pub fn wire_kind_for(t: &String) -> (r: Option<WireKind>)
    ensures
        r == wire_kind_of_ty(t@),
{
    let unit_ty: String = "()".to_owned();
    let bool_ty: String = "bool".to_owned();
    let u8_ty: String = "u8".to_owned();
    let i32_ty: String = "i32".to_owned();
    let u64_ty: String = "u64".to_owned();
    if *t == unit_ty {
        Some(WireKind::Unit)
    } else if *t == bool_ty {
        Some(WireKind::Bool)
    } else if *t == u8_ty {
        Some(WireKind::U8)
    } else if *t == i32_ty {
        Some(WireKind::I32)
    } else if *t == u64_ty {
        Some(WireKind::U64)
    } else {
        None
    }
}

/// How a shape prefix combines with the shape of the fields left.
pub open spec fn kinds_combine(done: Seq<WireKind>, rest: Option<Seq<WireKind>>) -> Option<
    Seq<WireKind>,
> {
    match rest {
        None => None,
        Some(ks) => Some(done + ks),
    }
}

/// The shape of a record declaration, if every field's type is known to
/// the codec.
pub fn record_shape(rec: &RecordDef) -> (r: Option<Vec<WireKind>>)
    ensures
        match r {
            Some(ks) => shape_of_fields(rec@.fields) == Some(ks@),
            None => shape_of_fields(rec@.fields) is None,
        },
{
    let n = rec.fields.len();
    let mut out: Vec<WireKind> = Vec::new();
    let mut i: usize = 0;
    proof {
        assert(rec@.fields.skip(0) =~= rec@.fields);
        assert(out@ + Seq::<WireKind>::empty() =~= out@);
    }
    while i < n
        invariant
            i <= n,
            n == rec.fields@.len(),
            rec@.fields.len() == n,
            shape_of_fields(rec@.fields) == kinds_combine(
                out@,
                shape_of_fields(rec@.fields.skip(i as int)),
            ),
        decreases n - i,
    {
        proof {
            assert(rec@.fields[i as int] == rec.fields@[i as int]@);
            assert(rec@.fields.skip(i as int)[0] == rec@.fields[i as int]);
        }
        match wire_kind_for(&rec.fields[i].ty) {
            None => {
                proof {
                    assert(shape_of_fields(rec@.fields.skip(i as int)) is None);
                }
                return None;
            },
            Some(k) => {
                proof {
                    let rest2 = shape_of_fields(rec@.fields.skip(i as int + 1));
                    assert(rec@.fields.skip(i as int).skip(1) =~= rec@.fields.skip(i as int + 1));
                    assert(shape_of_fields(rec@.fields.skip(i as int)) == kinds_combine(
                        seq![k],
                        rest2,
                    ));
                    if rest2 is Some {
                        assert(out@ + (seq![k] + rest2->Some_0) =~= out@.push(k) + rest2->Some_0);
                    }
                }
                out.push(k);
            },
        }
        i += 1;
    }
    proof {
        assert(rec@.fields.skip(i as int) =~= Seq::<ParamModel>::empty());
        assert(out@ + Seq::<WireKind>::empty() =~= out@);
    }
    Some(out)
}

/// The input shape of an arm at run time.
pub fn input_kinds(arm: &DispatchArm) -> (r: Option<Vec<WireKind>>)
    ensures
        match r {
            Some(ks) => arm_input_kinds(arm@) == Some(ks@),
            None => arm_input_kinds(arm@) is None,
        },
{
    match &arm.input_record {
        None => {
            let out: Vec<WireKind> = Vec::new();
            Some(out)
        },
        Some(rec) => record_shape(rec),
    }
}

/// What one dispatch call came to.
///
/// Clean end of stream and an unknown ordinal both answer with empty
/// bytes on the wire, but they are distinct outcomes, as are the two
/// fatal conditions: a broken ordinal read and a payload the arm's shape
/// could not decode.
#[derive(Debug)]
pub enum DispatchOutcome {
    /// The method was invoked; these are the response bytes — empty for a
    /// method without a return type.
    Reply(Vec<u8>),
    /// The stream ended cleanly before any ordinal byte.
    CleanEof,
    /// The ordinal named no arm; deliberately not an error.
    UnknownOrdinal,
    /// The ordinal read broke off after one byte; fatal.
    TruncatedOrdinal,
    /// The input payload did not decode under the arm's shape; fatal for
    /// this request.
    MalformedPayload,
}

/// The bytes an outcome puts on the wire: the reply's bytes, else none.
pub open spec fn outcome_bytes(o: DispatchOutcome) -> Seq<u8> {
    match o {
        DispatchOutcome::Reply(b) => b@,
        _ => Seq::empty(),
    }
}

impl DispatchOutcome {
    /// The raw response bytes, as the wire carries them: every outcome
    /// but a reply answers with empty bytes.
    pub fn into_bytes(self) -> (r: Vec<u8>)
        ensures
            r@ == outcome_bytes(self),
    {
        match self {
            DispatchOutcome::Reply(b) => b,
            _ => Vec::new(),
        }
    }
}

/// The service instance the generated dispatcher invokes. An
/// implementation receives the method's ordinal and its decoded input
/// record fields, in declaration order, and returns the method's result —
/// `Value::Unit` for a method that returns nothing.
pub trait Handler {
    fn handle(&self, ordinal: u16, args: Vec<Value>) -> Value;
}

/// The ordinal a request names: its first two bytes, little-endian.
pub open spec fn req_ordinal(req: Seq<u8>) -> u16 {
    spec_u16_from_le_bytes(req.take(2))
}

/// How a reply's bytes relate to the value the handler returned: the
/// encoded value for an arm with an output record, nothing otherwise.
pub open spec fn response_matches(arm: ArmModel, v: Value, bytes: Seq<u8>) -> bool {
    if arm.output_record is Some {
        bytes == enc_value(v)
    } else {
        bytes == Seq::<u8>::empty()
    }
}

/// The dispatch contract, for every request and whatever the handler
/// returns: an empty request is the clean end of stream; one byte is a
/// broken ordinal read; an ordinal at or past the table answers
/// `UnknownOrdinal` and invokes nothing; a payload the arm's shape cannot
/// decode is `MalformedPayload`; otherwise the method was invoked and the
/// reply carries its encoded result — exactly empty when the method has
/// no output record.
pub open spec fn dispatch_contract(arms: Seq<ArmModel>, req: Seq<u8>, r: DispatchOutcome) -> bool {
    &&& (req.len() == 0 ==> r is CleanEof)
    &&& (req.len() == 1 ==> r is TruncatedOrdinal)
    &&& (req.len() >= 2 ==> {
        let ord = req_ordinal(req) as int;
        if ord >= arms.len() {
            r is UnknownOrdinal
        } else {
            match arm_input_kinds(arms[ord]) {
                None => r is MalformedPayload,
                Some(ks) => match dec_fields(ks, req.skip(2)) {
                    None => r is MalformedPayload,
                    Some(_args) => r is Reply && exists|v: Value|
                        response_matches(arms[ord], v, outcome_bytes(r)),
                },
            }
        }
    })
}

/// The client-side frame for one invocation: the ordinal as two
/// little-endian bytes, then the encoded input record, if any.
pub open spec fn invoke_frame(ord: u16, payload: Option<Vec<u8>>) -> Seq<u8> {
    spec_u16_to_le_bytes(ord) + match payload {
        Some(b) => b@,
        None => Seq::empty(),
    }
}

/// The shared contract every generated service implementation satisfies:
/// one dispatch operation answering framed requests and one invoke
/// operation building the symmetric client-side frame.
pub trait IpcInterface {
    /// The dispatch table the implementation answers for.
    spec fn arms_model(&self) -> Seq<ArmModel>;

    /// Answers one framed request.
    fn dispatch(&self, request: &Vec<u8>) -> (r: DispatchOutcome)
        ensures
            dispatch_contract(self.arms_model(), request@, r),
    ;

    /// Encodes one invocation frame: ordinal first, as two little-endian
    /// bytes, then the encoded input record bytes, if any.
    fn invoke(&self, method_num: u16, payload: &Option<Vec<u8>>) -> (r: Vec<u8>)
        ensures
            r@ == invoke_frame(method_num, *payload),
    ;
}

/// A generated artifact bound to the service instance whose methods its
/// dispatch arms invoke.
pub struct IpcServer<S> {
    pub artifact: Artifact,
    pub service: S,
}

impl<S: Handler> IpcServer<S> {
    /// Binds a generated artifact to a service instance.
    pub fn new(artifact: Artifact, service: S) -> (r: IpcServer<S>)
        ensures
            r.artifact == artifact,
            r.service == service,
    {
        IpcServer { artifact, service }
    }
}

impl<S: Handler> IpcInterface for IpcServer<S> {
    open spec fn arms_model(&self) -> Seq<ArmModel> {
        self.artifact@.arms
    }

    fn dispatch(&self, request: &Vec<u8>) -> (r: DispatchOutcome) {
        if request.len() == 0 {
            return DispatchOutcome::CleanEof;
        }
        if request.len() == 1 {
            return DispatchOutcome::TruncatedOrdinal;
        }
        let head = slice_subrange(request.as_slice(), 0, 2);
        proof {
            assert(head@ =~= request@.take(2));
        }
        let ord = u16_from_le_bytes(head);
        if ord as usize >= self.artifact.arms.len() {
            return DispatchOutcome::UnknownOrdinal;
        }
        let arm = &self.artifact.arms[ord as usize];
        proof {
            assert(arm@ == self.artifact@.arms[ord as int]);
        }
        let ks = match input_kinds(arm) {
            None => {
                return DispatchOutcome::MalformedPayload;
            },
            Some(ks) => ks,
        };
        let payload = slice_subrange(request.as_slice(), 2, request.len());
        proof {
            assert(payload@ =~= request@.skip(2));
        }
        let args = match decode_record(&ks, payload) {
            None => {
                return DispatchOutcome::MalformedPayload;
            },
            Some(args) => args,
        };
        let ret = self.service.handle(ord, args);
        let needs_output = arm.output_record.is_some();
        proof {
            assert(needs_output == (arm@.output_record is Some));
        }
        let body = if needs_output {
            encode_value(&ret)
        } else {
            Vec::new()
        };
        let r = DispatchOutcome::Reply(body);
        proof {
            assert(response_matches(arm@, ret, outcome_bytes(r)));
        }
        r
    }

    fn invoke(&self, method_num: u16, payload: &Option<Vec<u8>>) -> (r: Vec<u8>) {
        let mut out = u16_to_le_bytes(method_num);
        match payload {
            None => {
                proof {
                    assert(out@ + Seq::<u8>::empty() =~= out@);
                }
            },
            Some(b) => {
                let n = b.len();
                let mut i: usize = 0;
                proof {
                    assert(out@ + b@.take(0) =~= out@);
                }
                while i < n
                    invariant
                        i <= n,
                        n == b@.len(),
                        out@ == spec_u16_to_le_bytes(method_num) + b@.take(i as int),
                    decreases n - i,
                {
                    out.push(b[i]);
                    proof {
                        assert(spec_u16_to_le_bytes(method_num) + b@.take(i as int + 1) =~= (
                        spec_u16_to_le_bytes(method_num) + b@.take(i as int)).push(b@[i as int]));
                    }
                    i += 1;
                }
                proof {
                    assert(b@.take(n as int) =~= b@);
                }
            },
        }
        out
    }
}

/// A kind's width is never negative, so neither is a shape's.
pub proof fn lemma_shape_size_nonneg(ks: Seq<WireKind>)
    ensures
        shape_size(ks) >= 0,
    decreases ks.len(),
{
    if ks.len() > 0 {
        lemma_shape_size_nonneg(ks.skip(1));
    }
}

impl Artifact {
    /// The fixed byte length of the input payload the arm at `ordinal`
    /// expects: nothing when the ordinal names no arm, when some field
    /// type lies outside the codec's universe, or when the length would
    /// not fit the machine.
    pub fn input_payload_size(&self, ordinal: u16) -> (r: Option<usize>)
        ensures
            ({
                let arms = self@.arms;
                if ordinal as int >= arms.len() {
                    r is None
                } else {
                    match arm_input_kinds(arms[ordinal as int]) {
                        None => r is None,
                        Some(ks) => match r {
                            Some(sz) => sz as int == shape_size(ks),
                            None => shape_size(ks) > usize::MAX as int,
                        },
                    }
                }
            }),
    {
        if ordinal as usize >= self.arms.len() {
            return None;
        }
        let arm = &self.arms[ordinal as usize];
        proof {
            assert(arm@ == self@.arms[ordinal as int]);
        }
        let ks = match input_kinds(arm) {
            None => {
                return None;
            },
            Some(ks) => ks,
        };
        let n = ks.len();
        let mut acc: usize = 0;
        let mut i: usize = 0;
        proof {
            assert(ks@.skip(0) =~= ks@);
        }
        while i < n
            invariant
                i <= n,
                n == ks@.len(),
                (ordinal as int) < self@.arms.len(),
                arm_input_kinds(self@.arms[ordinal as int]) == Some(ks@),
                shape_size(ks@) == acc + shape_size(ks@.skip(i as int)),
            decreases n - i,
        {
            let k = ks[i];
            let sz = kind_byte_len(k);
            proof {
                assert(ks@.skip(i as int)[0] == ks@[i as int]);
                assert(ks@.skip(i as int).skip(1) =~= ks@.skip(i as int + 1));
                lemma_shape_size_nonneg(ks@.skip(i as int + 1));
            }
            if acc > usize::MAX - sz {
                proof {
                    assert(shape_size(ks@) > usize::MAX as int);
                }
                return None;
            }
            acc = acc + sz;
            i += 1;
        }
        proof {
            assert(ks@.skip(i as int) =~= Seq::<WireKind>::empty());
        }
        Some(acc)
    }
}

} // verus!

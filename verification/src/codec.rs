//! The record codec.
//!
//! Record values are flat lists of primitive field values. A value is
//! encoded as its little-endian fixed-width bytes and a record as the
//! concatenation of its field encodings, so a record's byte length is a
//! function of its shape alone and the stream stays self-delimiting.
//! Decoding is directed by the record's shape — the list of wire kinds of
//! its fields — and rejects malformed or leftover bytes.

use vstd::bytes::{
    lemma_auto_spec_u32_to_from_le_bytes, lemma_auto_spec_u64_to_from_le_bytes,
    spec_u32_from_le_bytes, spec_u32_to_le_bytes, spec_u64_from_le_bytes, spec_u64_to_le_bytes,
    u32_from_le_bytes, u32_to_le_bytes, u64_from_le_bytes, u64_to_le_bytes,
};
use vstd::prelude::*;
use vstd::slice::slice_subrange;

verus! {

/// The wire kinds the codec understands. A type descriptor outside this
/// universe cannot be decoded; the compiler still copies it verbatim.
#[derive(Clone, Copy, PartialEq, Eq, Structural, Debug)]
pub enum WireKind {
    Unit,
    Bool,
    U8,
    I32,
    U64,
}

/// One primitive field value of a record at run time.
#[derive(Clone, Copy, PartialEq, Eq, Structural, Debug)]
pub enum Value {
    Unit,
    Bool(bool),
    U8(u8),
    I32(i32),
    U64(u64),
}

/// The wire kind a value belongs to.
pub open spec fn kind_of(v: Value) -> WireKind {
    match v {
        Value::Unit => WireKind::Unit,
        Value::Bool(_) => WireKind::Bool,
        Value::U8(_) => WireKind::U8,
        Value::I32(_) => WireKind::I32,
        Value::U64(_) => WireKind::U64,
    }
}

/// The encoded width of a kind, in bytes.
pub open spec fn kind_size(k: WireKind) -> int {
    match k {
        WireKind::Unit => 0,
        WireKind::Bool => 1,
        WireKind::U8 => 1,
        WireKind::I32 => 4,
        WireKind::U64 => 8,
    }
}

/// The encoding of one value: its little-endian fixed-width bytes.
pub open spec fn enc_value(v: Value) -> Seq<u8> {
    match v {
        Value::Unit => Seq::empty(),
        Value::Bool(b) => seq![
            if b {
                1u8
            } else {
                0u8
            },
        ],
        Value::U8(x) => seq![x],
        Value::I32(x) => spec_u32_to_le_bytes(x as u32),
        Value::U64(x) => spec_u64_to_le_bytes(x),
    }
}

/// Decoding one value of kind `k` from exactly its encoded bytes.
pub open spec fn dec_value(k: WireKind, b: Seq<u8>) -> Option<Value> {
    match k {
        WireKind::Unit => if b.len() == 0 {
            Some(Value::Unit)
        } else {
            None
        },
        WireKind::Bool => if b.len() == 1 && b[0] == 0 {
            Some(Value::Bool(false))
        } else if b.len() == 1 && b[0] == 1 {
            Some(Value::Bool(true))
        } else {
            None
        },
        WireKind::U8 => if b.len() == 1 {
            Some(Value::U8(b[0]))
        } else {
            None
        },
        WireKind::I32 => if b.len() == 4 {
            Some(Value::I32(spec_u32_from_le_bytes(b) as i32))
        } else {
            None
        },
        WireKind::U64 => if b.len() == 8 {
            Some(Value::U64(spec_u64_from_le_bytes(b)))
        } else {
            None
        },
    }
}

/// The encoding of a record: the concatenation of its field encodings.
pub open spec fn enc_fields(vs: Seq<Value>) -> Seq<u8>
    decreases vs.len(),
{
    if vs.len() == 0 {
        Seq::empty()
    } else {
        enc_value(vs[0]) + enc_fields(vs.skip(1))
    }
}

/// Decoding a record of shape `ks` from exactly `b`: every field in
/// order, with nothing left over.
pub open spec fn dec_fields(ks: Seq<WireKind>, b: Seq<u8>) -> Option<Seq<Value>>
    decreases ks.len(),
{
    if ks.len() == 0 {
        if b.len() == 0 {
            Some(Seq::empty())
        } else {
            None
        }
    } else {
        let sz = kind_size(ks[0]);
        if b.len() < sz {
            None
        } else {
            match dec_value(ks[0], b.take(sz)) {
                None => None,
                Some(v) => match dec_fields(ks.skip(1), b.skip(sz)) {
                    None => None,
                    Some(vs) => Some(seq![v] + vs),
                },
            }
        }
    }
}

/// True when the values fit the shape, field for field.
pub open spec fn matches_shape(vs: Seq<Value>, ks: Seq<WireKind>) -> bool {
    vs.len() == ks.len() && forall|i: int| 0 <= i < vs.len() ==> kind_of(vs[i]) == ks[i]
}

/// The encoded byte length of a record of shape `ks`.
pub open spec fn shape_size(ks: Seq<WireKind>) -> int
    decreases ks.len(),
{
    if ks.len() == 0 {
        0
    } else {
        kind_size(ks[0]) + shape_size(ks.skip(1))
    }
}

/// A value encodes to exactly its kind's width.
pub proof fn lemma_enc_value_len(v: Value)
    ensures
        enc_value(v).len() == kind_size(kind_of(v)),
{
    match v {
        Value::I32(_) => lemma_auto_spec_u32_to_from_le_bytes(),
        Value::U64(_) => lemma_auto_spec_u64_to_from_le_bytes(),
        _ => {},
    }
}

/// Decoding a value's encoding gives the value back.
pub proof fn lemma_value_round_trip(v: Value)
    ensures
        dec_value(kind_of(v), enc_value(v)) == Some(v),
{
    lemma_enc_value_len(v);
    match v {
        Value::I32(x) => {
            lemma_auto_spec_u32_to_from_le_bytes();
            assert(spec_u32_from_le_bytes(spec_u32_to_le_bytes(x as u32)) == x as u32);
            assert((x as u32) as i32 == x) by (bit_vector);
        },
        Value::U64(x) => {
            lemma_auto_spec_u64_to_from_le_bytes();
        },
        _ => {},
    }
}

/// Record encodings concatenate.
pub proof fn lemma_enc_fields_append(a: Seq<Value>, b: Seq<Value>)
    ensures
        enc_fields(a + b) == enc_fields(a) + enc_fields(b),
    decreases a.len(),
{
    if a.len() == 0 {
        assert(a + b =~= b);
        assert(enc_fields(a) + enc_fields(b) =~= enc_fields(b));
    } else {
        assert((a + b).skip(1) =~= a.skip(1) + b);
        lemma_enc_fields_append(a.skip(1), b);
        assert((a + b)[0] == a[0]);
        assert(enc_value(a[0]) + (enc_fields(a.skip(1)) + enc_fields(b)) =~= (enc_value(a[0])
            + enc_fields(a.skip(1))) + enc_fields(b));
    }
}

/// Round trip: decoding a record's encoding under its own shape gives the
/// record back, for arbitrary field values.
pub proof fn lemma_record_round_trip(vs: Seq<Value>, ks: Seq<WireKind>)
    requires
        matches_shape(vs, ks),
    ensures
        dec_fields(ks, enc_fields(vs)) == Some(vs),
    decreases vs.len(),
{
    if vs.len() == 0 {
        assert(enc_fields(vs) =~= Seq::<u8>::empty());
        assert(Seq::<Value>::empty() =~= vs);
    } else {
        let v0 = vs[0];
        let b = enc_fields(vs);
        let sz = kind_size(ks[0]);
        lemma_enc_value_len(v0);
        assert(kind_of(v0) == ks[0]);
        assert(b == enc_value(v0) + enc_fields(vs.skip(1)));
        assert(b.take(sz) =~= enc_value(v0));
        assert(b.skip(sz) =~= enc_fields(vs.skip(1)));
        lemma_value_round_trip(v0);
        assert forall|i: int| 0 <= i < vs.skip(1).len() implies kind_of(vs.skip(1)[i]) == ks.skip(
            1,
        )[i] by {
            assert(vs.skip(1)[i] == vs[i + 1]);
            assert(ks.skip(1)[i] == ks[i + 1]);
        }
        lemma_record_round_trip(vs.skip(1), ks.skip(1));
        assert(seq![v0] + vs.skip(1) =~= vs);
    }
}

/// The encoded width of a kind, at run time.
pub fn kind_byte_len(k: WireKind) -> (s: usize)
    ensures
        s as int == kind_size(k),
{
    match k {
        WireKind::Unit => 0,
        WireKind::Bool => 1,
        WireKind::U8 => 1,
        WireKind::I32 => 4,
        WireKind::U64 => 8,
    }
}

/// Encodes one value.
pub fn encode_value(v: &Value) -> (r: Vec<u8>)
    ensures
        r@ == enc_value(*v),
{
    match *v {
        Value::Unit => Vec::new(),
        Value::Bool(b) => {
            let mut r: Vec<u8> = Vec::new();
            r.push(
                if b {
                    1u8
                } else {
                    0u8
                },
            );
            proof {
                assert(r@ =~= enc_value(*v));
            }
            r
        },
        Value::U8(x) => {
            let mut r: Vec<u8> = Vec::new();
            r.push(x);
            proof {
                assert(r@ =~= enc_value(*v));
            }
            r
        },
        Value::I32(x) => u32_to_le_bytes(x as u32),
        Value::U64(x) => u64_to_le_bytes(x),
    }
}

/// Encodes a record value: the concatenation of its field encodings.
pub fn encode_record(vals: &Vec<Value>) -> (r: Vec<u8>)
    ensures
        r@ == enc_fields(vals@),
{
    let mut out: Vec<u8> = Vec::new();
    let mut i: usize = 0;
    while i < vals.len()
        invariant
            i <= vals@.len(),
            out@ == enc_fields(vals@.take(i as int)),
        decreases vals@.len() - i,
    {
        let mut chunk = encode_value(&vals[i]);
        out.append(&mut chunk);
        proof {
            let x = vals@[i as int];
            assert(vals@.take(i as int + 1) =~= vals@.take(i as int) + seq![x]);
            lemma_enc_fields_append(vals@.take(i as int), seq![x]);
            assert(seq![x].skip(1) =~= Seq::<Value>::empty());
            assert(enc_fields(Seq::<Value>::empty()) == Seq::<u8>::empty());
            assert(enc_value(x) + Seq::<u8>::empty() =~= enc_value(x));
            assert(enc_fields(seq![x]) =~= enc_value(x));
        }
        i += 1;
    }
    proof {
        assert(vals@.take(vals@.len() as int) =~= vals@);
    }
    out
}

/// How a partial decode combines with the decode of what is left.
pub open spec fn dec_combine(done: Seq<Value>, rest: Option<Seq<Value>>) -> Option<Seq<Value>> {
    match rest {
        None => None,
        Some(r) => Some(done + r),
    }
}

/// Decodes a record of shape `kinds` from exactly `payload`, or reports
/// that the bytes are malformed for that shape.
pub fn decode_record(kinds: &Vec<WireKind>, payload: &[u8]) -> (r: Option<Vec<Value>>)
    ensures
        match r {
            Some(vs) => dec_fields(kinds@, payload@) == Some(vs@),
            None => dec_fields(kinds@, payload@) is None,
        },
{
    let nk = kinds.len();
    let np = payload.len();
    let mut out: Vec<Value> = Vec::new();
    let mut off: usize = 0;
    let mut ki: usize = 0;
    proof {
        assert(kinds@.skip(0) =~= kinds@);
        assert(payload@.skip(0) =~= payload@);
        assert(dec_combine(out@, dec_fields(kinds@, payload@)) == dec_fields(kinds@, payload@));
    }
    while ki < nk
        invariant
            ki <= nk,
            off <= np,
            nk == kinds@.len(),
            np == payload@.len(),
            dec_fields(kinds@, payload@) == dec_combine(
                out@,
                dec_fields(kinds@.skip(ki as int), payload@.skip(off as int)),
            ),
        decreases nk - ki,
    {
        let ghost rest_ks = kinds@.skip(ki as int);
        let ghost rest_b = payload@.skip(off as int);
        let k = kinds[ki];
        proof {
            assert(rest_ks[0] == kinds@[ki as int]);
        }
        let sz = kind_byte_len(k);
        if np - off < sz {
            proof {
                assert(rest_b.len() < kind_size(k));
                assert(dec_fields(rest_ks, rest_b) is None);
            }
            return None;
        }
        let ghost chunk = rest_b.take(kind_size(k));
        proof {
            assert(chunk =~= payload@.subrange(off as int, off as int + kind_size(k)));
        }
        let v: Value = match k {
            WireKind::Unit => Value::Unit,
            WireKind::Bool => {
                let byte = payload[off];
                if byte == 0 {
                    Value::Bool(false)
                } else if byte == 1 {
                    Value::Bool(true)
                } else {
                    proof {
                        assert(chunk[0] == payload@[off as int]);
                        assert(dec_value(k, chunk) is None);
                        assert(dec_fields(rest_ks, rest_b) is None);
                    }
                    return None;
                }
            },
            WireKind::U8 => Value::U8(payload[off]),
            WireKind::I32 => {
                let s = slice_subrange(payload, off, off + 4);
                Value::I32(u32_from_le_bytes(s) as i32)
            },
            WireKind::U64 => {
                let s = slice_subrange(payload, off, off + 8);
                Value::U64(u64_from_le_bytes(s))
            },
        };
        proof {
            if k is Bool {
                assert(chunk[0] == payload@[off as int]);
            }
            assert(dec_value(k, chunk) == Some(v));
            assert(rest_ks.skip(1) =~= kinds@.skip(ki as int + 1));
            assert(rest_b.skip(kind_size(k)) =~= payload@.skip(off as int + kind_size(k)));
            let rest2 = dec_fields(kinds@.skip(ki as int + 1), payload@.skip(
                off as int + kind_size(k),
            ));
            assert(dec_fields(rest_ks, rest_b) == dec_combine(seq![v], rest2));
            if rest2 is Some {
                assert(out@ + (seq![v] + rest2->Some_0) =~= (out@.push(v)) + rest2->Some_0);
            }
            assert(dec_combine(out@, dec_fields(rest_ks, rest_b)) == dec_combine(
                out@.push(v),
                rest2,
            ));
        }
        out.push(v);
        off += sz;
        ki += 1;
    }
    proof {
        assert(kinds@.skip(ki as int) =~= Seq::<WireKind>::empty());
    }
    if off == np {
        proof {
            assert(payload@.skip(off as int).len() == 0);
            assert(dec_fields(kinds@.skip(ki as int), payload@.skip(off as int)) == Some(
                Seq::<Value>::empty(),
            ));
            assert(out@ + Seq::<Value>::empty() =~= out@);
        }
        Some(out)
    } else {
        proof {
            assert(payload@.skip(off as int).len() > 0);
            assert(dec_fields(kinds@.skip(ki as int), payload@.skip(off as int)) is None);
        }
        None
    }
}

} // verus!

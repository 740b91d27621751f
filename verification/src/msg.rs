//! Payload message bodies.
//!
//! A body is a sequence of numbered fields, each a varint (integers,
//! booleans, enum values) or a length-prefixed byte string (texts and
//! nested messages). Field keys carry the field number shifted left by
//! three with the wire kind in the low bits, as in the header codec.
//! Decoding is proved to invert encoding.
use vstd::prelude::*;

use crate::codec::{spec_take_varint, spec_varint, encode_varint, lemma_take_varint_consumes,
    lemma_varint_round_trip, take_varint};

verus! {

/// A field's value: a number or a byte string.
pub enum FieldVal {
    Varint(u64),
    Bytes(Vec<u8>),
}

/// Mathematical image of a field value.
pub enum FieldValV {
    Varint(u64),
    Bytes(Seq<u8>),
}

impl View for FieldVal {
    type V = FieldValV;

    open spec fn view(&self) -> FieldValV {
        match self {
            FieldVal::Varint(v) => FieldValV::Varint(*v),
            FieldVal::Bytes(b) => FieldValV::Bytes(b@),
        }
    }
}

/// One numbered field of a message body.
pub struct Field {
    pub num: u32,
    pub val: FieldVal,
}

/// Mathematical image of a field.
pub struct FieldV {
    pub num: u32,
    pub val: FieldValV,
}

impl View for Field {
    type V = FieldV;

    open spec fn view(&self) -> FieldV {
        FieldV { num: self.num, val: self.val@ }
    }
}

/// The images of a field sequence.
pub open spec fn spec_fields_view(s: Seq<Field>) -> Seq<FieldV> {
    s.map_values(|f: Field| f@)
}

/// Encoding of one field.
pub open spec fn spec_msg_field_bytes(f: FieldV) -> Seq<u8> {
    match f.val {
        FieldValV::Varint(v) => spec_varint((f.num * 8) as u64) + spec_varint(v),
        FieldValV::Bytes(b) => spec_varint((f.num * 8 + 2) as u64) + spec_varint(b.len() as u64)
            + b,
    }
}

/// Encoding of a message body: its fields in order.
pub open spec fn spec_msg_bytes(fs: Seq<FieldV>) -> Seq<u8>
    decreases fs.len(),
{
    if fs.len() == 0 {
        Seq::empty()
    } else {
        spec_msg_field_bytes(fs[0]) + spec_msg_bytes(fs.drop_first())
    }
}

/// Field encoding distributes over concatenation.
pub proof fn lemma_msg_bytes_append(a: Seq<FieldV>, b: Seq<FieldV>)
    ensures
        spec_msg_bytes(a + b) == spec_msg_bytes(a) + spec_msg_bytes(b),
    decreases a.len(),
{
    if a.len() == 0 {
        assert(a + b =~= b);
        assert(spec_msg_bytes(a) + spec_msg_bytes(b) =~= spec_msg_bytes(b));
    } else {
        assert((a + b).drop_first() =~= a.drop_first() + b);
        lemma_msg_bytes_append(a.drop_first(), b);
        assert(spec_msg_bytes(a + b) =~= spec_msg_bytes(a) + spec_msg_bytes(b));
    }
}

/// The encoding of a single field sequence is that field's encoding.
pub proof fn lemma_msg_bytes_singleton(f: FieldV)
    ensures
        spec_msg_bytes(seq![f]) == spec_msg_field_bytes(f),
{
    assert(seq![f].drop_first() =~= Seq::<FieldV>::empty());
    assert(spec_msg_bytes(Seq::<FieldV>::empty()) =~= Seq::<u8>::empty());
    assert(spec_msg_bytes(seq![f]) =~= spec_msg_field_bytes(f));
}

/// All the fields read from a byte sequence, or nothing if the bytes
/// are not a whole message body.
pub open spec fn spec_parse_msg(s: Seq<u8>) -> Option<Seq<FieldV>>
    decreases s.len(),
    via spec_parse_msg_decreases
{
    if s.len() == 0 {
        Some(Seq::empty())
    } else {
        match spec_take_varint(s) {
            None => None,
            Some((key, n)) => {
                if key / 8 == 0 || key / 8 > u32::MAX {
                    None
                } else if key % 8 == 0 {
                    match spec_take_varint(s.skip(n)) {
                        None => None,
                        Some((v, m)) => match spec_parse_msg(s.skip(n + m)) {
                            None => None,
                            Some(rest) => Some(
                                seq![FieldV { num: (key / 8) as u32, val: FieldValV::Varint(v) }]
                                    + rest,
                            ),
                        },
                    }
                } else if key % 8 == 2 {
                    match spec_take_varint(s.skip(n)) {
                        None => None,
                        Some((len, m)) => {
                            if len > s.len() - n - m {
                                None
                            } else {
                                let b = s.skip(n + m).take(len as int);
                                match spec_parse_msg(s.skip(n + m + len)) {
                                    None => None,
                                    Some(rest) => Some(
                                        seq![
                                            FieldV {
                                                num: (key / 8) as u32,
                                                val: FieldValV::Bytes(b),
                                            },
                                        ] + rest,
                                    ),
                                }
                            }
                        },
                    }
                } else {
                    None
                }
            },
        }
    }
}

#[via_fn]
proof fn spec_parse_msg_decreases(s: Seq<u8>) {
    lemma_take_varint_consumes(s);
    if s.len() != 0 {
        if let Some((key, n)) = spec_take_varint(s) {
            lemma_take_varint_consumes(s.skip(n));
        }
    }
}

/// A field sequence fit for the wire: nonzero field numbers, byte
/// strings whose length a varint can carry.
pub open spec fn wf_fields(fs: Seq<FieldV>) -> bool {
    forall|i: int|
        0 <= i < fs.len() ==> (#[trigger] fs[i]).num >= 1 && (fs[i].val matches FieldValV::Bytes(b)
            ==> b.len() <= u64::MAX)
}

/// Parsing inverts message encoding for well-formed fields.
#[verifier::rlimit(50)]
pub proof fn lemma_parse_msg_round_trip(fs: Seq<FieldV>)
    requires
        wf_fields(fs),
    ensures
        spec_parse_msg(spec_msg_bytes(fs)) == Some(fs),
    decreases fs.len(),
{
    if fs.len() == 0 {
    } else {
        let f = fs[0];
        let restb = spec_msg_bytes(fs.drop_first());
        let s = spec_msg_bytes(fs);
        assert(wf_fields(fs.drop_first())) by {
            assert(forall|i: int|
                0 <= i < fs.drop_first().len() ==> (#[trigger] fs.drop_first()[i]) == fs[i + 1]);
        };
        lemma_parse_msg_round_trip(fs.drop_first());
        assert(fs[0].num >= 1 && (fs[0].val matches FieldValV::Bytes(b) ==> b.len() <= u64::MAX));
        match f.val {
            FieldValV::Varint(v) => {
                let key = (f.num * 8) as u64;
                assert(s =~= spec_varint(key) + (spec_varint(v) + restb));
                lemma_varint_round_trip(key, spec_varint(v) + restb);
                let n = spec_varint(key).len() as int;
                assert(key % 8 == 0 && key / 8 == f.num);
                assert(s.skip(n) =~= spec_varint(v) + restb);
                lemma_varint_round_trip(v, restb);
                let m = spec_varint(v).len() as int;
                assert(s.skip(n + m) =~= restb);
                assert(seq![FieldV { num: (key / 8) as u32, val: FieldValV::Varint(v) }]
                    + fs.drop_first() =~= fs);
            },
            FieldValV::Bytes(b) => {
                let key = (f.num * 8 + 2) as u64;
                assert(s =~= spec_varint(key) + (spec_varint(b.len() as u64) + (b + restb)));
                lemma_varint_round_trip(key, spec_varint(b.len() as u64) + (b + restb));
                let n = spec_varint(key).len() as int;
                assert(key % 8 == 2 && key / 8 == f.num) by {
                    assert((f.num * 8 + 2) % 8 == 2 && (f.num * 8 + 2) / 8 == f.num) by (nonlinear_arith);
                };
                assert(s.skip(n) =~= spec_varint(b.len() as u64) + (b + restb));
                lemma_varint_round_trip(b.len() as u64, b + restb);
                let m = spec_varint(b.len() as u64).len() as int;
                assert(s.skip(n + m) =~= b + restb);
                assert(b.len() <= s.len() - n - m);
                assert(s.skip(n + m).take(b.len() as int) =~= b);
                assert(s.skip(n + m + b.len()) =~= restb);
                assert(seq![FieldV { num: (key / 8) as u32, val: FieldValV::Bytes(b) }]
                    + fs.drop_first() =~= fs);
            },
        }
    }
}

/// Encode a message body.
pub fn encode_fields(fields: &Vec<Field>) -> (r: Vec<u8>)
    ensures
        r@ == spec_msg_bytes(spec_fields_view(fields@)),
{
    let ghost all = spec_fields_view(fields@);
    let mut out: Vec<u8> = Vec::new();
    let mut i: usize = 0;
    proof {
        assert(all.take(0int) =~= Seq::<FieldV>::empty());
        assert(out@ =~= spec_msg_bytes(all.take(0int)));
    }
    while i < fields.len()
        invariant
            0 <= i <= fields.len(),
            all == spec_fields_view(fields@),
            all.len() == fields@.len(),
            out@ == spec_msg_bytes(all.take(i as int)),
        decreases fields.len() - i,
    {
        let ghost prefix = all.take(i as int);
        let f = &fields[i];
        proof {
            assert(all[i as int] == fields@[i as int]@);
        }
        match &f.val {
            FieldVal::Varint(v) => {
                encode_varint(&mut out, (f.num as u64) * 8);
                encode_varint(&mut out, *v);
                proof {
                    assert((f.num as u64) * 8 == ((f.num * 8) as u64));
                }
            },
            FieldVal::Bytes(b) => {
                encode_varint(&mut out, (f.num as u64) * 8 + 2);
                encode_varint(&mut out, b.len() as u64);
                proof {
                    assert((f.num as u64) * 8 + 2 == ((f.num * 8 + 2) as u64));
                }
                let mut j: usize = 0;
                let ghost mid = out@;
                while j < b.len()
                    invariant
                        0 <= j <= b.len(),
                        out@ == mid + b@.take(j as int),
                    decreases b.len() - j,
                {
                    out.push(b[j]);
                    proof {
                        assert(out@ =~= mid + b@.take(j as int + 1));
                    }
                    j += 1;
                }
                proof {
                    assert(b@.take(b@.len() as int) =~= b@);
                }
            },
        }
        proof {
            lemma_msg_bytes_singleton(all[i as int]);
            lemma_msg_bytes_append(prefix, seq![all[i as int]]);
            assert(prefix + seq![all[i as int]] =~= all.take(i as int + 1));
            assert(out@ =~= spec_msg_bytes(all.take(i as int + 1)));
        }
        i += 1;
    }
    proof {
        assert(all.take(all.len() as int) =~= all);
    }
    out
}

/// Read all the fields of a message body, the exec mirror of
/// [`spec_parse_msg`].
pub fn parse_fields(s: &[u8]) -> (r: Option<Vec<Field>>)
    ensures
        match r {
            Some(v) => spec_parse_msg(s@) == Some(spec_fields_view(v@)),
            None => spec_parse_msg(s@) is None,
        },
{
    let mut acc: Vec<Field> = Vec::new();
    let mut pos: usize = 0;
    proof {
        assert(s@.skip(0) =~= s@);
        if let Some(rest) = spec_parse_msg(s@) {
            assert(spec_fields_view(acc@) + rest =~= rest);
        }
    }
    while pos < s.len()
        invariant
            0 <= pos <= s@.len(),
            match spec_parse_msg(s@.skip(pos as int)) {
                Some(rest) => spec_parse_msg(s@) == Some(spec_fields_view(acc@) + rest),
                None => spec_parse_msg(s@) is None,
            },
        decreases s@.len() - pos,
    {
        let ghost rem = s@.skip(pos as int);
        let (key, n1) = match take_varint(s, pos) {
            Some(kv) => kv,
            None => {
                return None;
            },
        };
        if key / 8 == 0 || key / 8 > u32::MAX as u64 {
            return None;
        }
        let num = (key / 8) as u32;
        proof {
            lemma_take_varint_consumes(rem);
            assert(rem.skip(n1 as int) =~= s@.skip(pos as int + n1 as int));
        }
        if key % 8 == 0 {
            let (v, n2) = match take_varint(s, pos + n1) {
                Some(vm) => vm,
                None => {
                    return None;
                },
            };
            proof {
                lemma_take_varint_consumes(s@.skip(pos as int + n1 as int));
                assert(rem.skip(n1 as int + n2 as int) =~= s@.skip(
                    pos as int + n1 as int + n2 as int,
                ));
            }
            let ghost old_acc = spec_fields_view(acc@);
            acc.push(Field { num, val: FieldVal::Varint(v) });
            proof {
                let fv = FieldV { num: num, val: FieldValV::Varint(v) };
                assert(spec_fields_view(acc@) =~= old_acc.push(fv));
                match spec_parse_msg(s@.skip(pos as int + n1 as int + n2 as int)) {
                    Some(rest2) => {
                        assert(spec_parse_msg(rem) == Some(seq![fv] + rest2));
                        assert(old_acc + (seq![fv] + rest2) =~= old_acc.push(fv) + rest2);
                    },
                    None => {
                        assert(spec_parse_msg(rem) is None);
                    },
                }
            }
            pos = pos + n1 + n2;
        } else if key % 8 == 2 {
            let (len, n2) = match take_varint(s, pos + n1) {
                Some(vm) => vm,
                None => {
                    return None;
                },
            };
            proof {
                lemma_take_varint_consumes(s@.skip(pos as int + n1 as int));
                assert(rem.skip(n1 as int + n2 as int) =~= s@.skip(
                    pos as int + n1 as int + n2 as int,
                ));
            }
            let start = pos + n1 + n2;
            if len > (s.len() - start) as u64 {
                return None;
            }
            let len_us = len as usize;
            let bslice = vstd::slice::slice_subrange(s, start, start + len_us);
            let b = vstd::slice::slice_to_vec(bslice);
            proof {
                assert(b@ =~= rem.skip(n1 as int + n2 as int).take(len as int));
                assert(rem.skip(n1 as int + n2 as int + len as int) =~= s@.skip(
                    start as int + len as int,
                ));
            }
            let ghost old_acc = spec_fields_view(acc@);
            acc.push(Field { num, val: FieldVal::Bytes(b) });
            proof {
                let fv = FieldV { num: num, val: FieldValV::Bytes(rem.skip(
                    n1 as int + n2 as int,
                ).take(len as int)) };
                assert(spec_fields_view(acc@) =~= old_acc.push(fv));
                match spec_parse_msg(s@.skip(start as int + len as int)) {
                    Some(rest2) => {
                        assert(spec_parse_msg(rem) == Some(seq![fv] + rest2));
                        assert(old_acc + (seq![fv] + rest2) =~= old_acc.push(fv) + rest2);
                    },
                    None => {
                        assert(spec_parse_msg(rem) is None);
                    },
                }
            }
            pos = start + len_us;
        } else {
            return None;
        }
    }
    proof {
        assert(s@.skip(pos as int) =~= Seq::<u8>::empty());
        assert(spec_fields_view(acc@) + Seq::<FieldV>::empty() =~= spec_fields_view(acc@));
    }
    Some(acc)
}

} // verus!

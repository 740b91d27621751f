//! Framed wire codec.
//!
//! A frame is `u16-be header-length || header-bytes || payload-bytes`.
//! The header is a little message of numeric fields, each encoded as a
//! varint key (field number shifted left by three, low bits zero for
//! the varint wire type) followed by a varint value: `sort`, `type`,
//! `size` and optional `oseq`, plus any extra numeric fields such as
//! the response-correlation field 100 and the mirrored-status field
//! 101. `size` gives the payload length. Decoding is proved to invert
//! encoding.
use vstd::prelude::*;

verus! {

/// Varint encoding of a value: seven bits per byte, low group first,
/// the high bit of a byte marking continuation.
pub open spec fn spec_varint(v: u64) -> Seq<u8>
    decreases v,
{
    if v < 128 {
        seq![v as u8]
    } else {
        seq![(v % 128 + 128) as u8] + spec_varint((v / 128) as u64)
    }
}

/// Varint read from the front of a byte sequence: the value and how
/// many bytes it took, or nothing on truncated or oversized input.
pub open spec fn spec_take_varint(s: Seq<u8>) -> Option<(u64, int)>
    decreases s.len(),
{
    if s.len() == 0 {
        None
    } else if s[0] < 128 {
        Some((s[0] as u64, 1))
    } else {
        match spec_take_varint(s.skip(1)) {
            None => None,
            Some((v, n)) => {
                let total = (s[0] - 128) + v * 128;
                if total <= u64::MAX {
                    Some((total as u64, n + 1))
                } else {
                    None
                }
            },
        }
    }
}

/// Reading a varint consumes at least one byte and no more than there are.
pub proof fn lemma_take_varint_consumes(s: Seq<u8>)
    ensures
        spec_take_varint(s) matches Some((v, n)) ==> 1 <= n <= s.len(),
    decreases s.len(),
{
    if s.len() != 0 && s[0] >= 128 {
        lemma_take_varint_consumes(s.skip(1));
    }
}

/// Reading the encoding of `v`, whatever follows it, gives `v` back
/// and consumes exactly the encoding.
pub proof fn lemma_varint_round_trip(v: u64, rest: Seq<u8>)
    ensures
        spec_take_varint(spec_varint(v) + rest) == Some((v, spec_varint(v).len() as int)),
    decreases v,
{
    let s = spec_varint(v) + rest;
    if v < 128 {
        assert(s[0] == v as u8);
    } else {
        let b = (v % 128 + 128) as u8;
        assert(s[0] == b);
        assert(b >= 128);
        lemma_varint_round_trip((v / 128) as u64, rest);
        assert(s.skip(1) =~= spec_varint((v / 128) as u64) + rest);
        assert((b - 128) + (v / 128) * 128 == v) by {
            assert(v % 128 + (v / 128) * 128 == v) by (nonlinear_arith);
        };
    }
}

/// The exec mirror of [`spec_take_varint`], reading from position
/// `pos` of a slice.
pub fn take_varint(s: &[u8], pos: usize) -> (r: Option<(u64, usize)>)
    requires
        pos <= s@.len(),
    ensures
        match r {
            Some((v, n)) => spec_take_varint(s@.skip(pos as int)) == Some((v, n as int)) && pos
                + n <= s@.len(),
            None => spec_take_varint(s@.skip(pos as int)) is None,
        },
    decreases s@.len() - pos,
{
    proof {
        lemma_take_varint_consumes(s@.skip(pos as int));
    }
    if pos >= s.len() {
        return None;
    }
    let b = s[pos];
    proof {
        assert(s@.skip(pos as int)[0] == s@[pos as int]);
    }
    if b < 128 {
        Some((b as u64, 1))
    } else {
        proof {
            assert(s@.skip(pos as int).skip(1) =~= s@.skip(pos as int + 1));
        }
        match take_varint(s, pos + 1) {
            None => None,
            Some((v, n)) => {
                let low = (b - 128) as u64;
                if v <= (u64::MAX - low) / 128 {
                    proof {
                        assert(v * 128 <= u64::MAX - low) by (nonlinear_arith)
                            requires
                                v <= (u64::MAX - low) / 128,
                                low < 128,
                        ;
                    }
                    Some((low + v * 128, n + 1))
                } else {
                    proof {
                        assert(low + v * 128 > u64::MAX) by (nonlinear_arith)
                            requires
                                v > (u64::MAX - low) / 128,
                                low < 128,
                        ;
                    }
                    None
                }
            },
        }
    }
}

/// Append the varint encoding of `v`.
pub fn encode_varint(out: &mut Vec<u8>, v: u64)
    ensures
        final(out)@ == old(out)@ + spec_varint(v),
{
    let mut cur = v;
    while cur >= 128
        invariant
            out@ + spec_varint(cur) == old(out)@ + spec_varint(v),
        decreases cur,
    {
        let ghost prev = out@;
        let ghost prev_cur = cur;
        out.push((cur % 128 + 128) as u8);
        cur = cur / 128;
        proof {
            assert(out@ + spec_varint(cur) =~= prev + spec_varint(prev_cur));
        }
    }
    let ghost prev = out@;
    out.push(cur as u8);
    proof {
        assert(out@ =~= prev + spec_varint(cur));
    }
}

/// Mathematical image of a [`Header`]: the same fields with the extra
/// numeric fields as a sequence.
#[verifier::ext_equal]
pub struct HeaderV {
    pub sort: u32,
    pub type_: u32,
    pub size: u32,
    pub oseq: Option<u32>,
    pub unknown: Seq<(u32, u64)>,
}

impl HeaderV {
    /// Extra fields stay clear of the four named field numbers.
    pub open spec fn wf(self) -> bool {
        forall|i: int| 0 <= i < self.unknown.len() ==> (#[trigger] self.unknown[i]).0 >= 5
    }

    /// The same header with `size` replaced.
    pub open spec fn with_size(self, n: u32) -> HeaderV {
        HeaderV { size: n, ..self }
    }
}

/// A message header: family discriminator `sort`, message `type_`,
/// payload length `size`, the sender's optional sequence number `oseq`,
/// and any extra numeric fields, as `(field number, value)` pairs.
#[derive(Debug, Clone)]
pub struct Header {
    pub sort: u32,
    pub type_: u32,
    pub size: u32,
    pub oseq: Option<u32>,
    pub unknown: Vec<(u32, u64)>,
}

impl View for Header {
    type V = HeaderV;

    open spec fn view(&self) -> HeaderV {
        HeaderV {
            sort: self.sort,
            type_: self.type_,
            size: self.size,
            oseq: self.oseq,
            unknown: self.unknown@,
        }
    }
}

/// The header all of whose fields are unset.
pub open spec fn spec_empty_header() -> HeaderV {
    HeaderV { sort: 0, type_: 0, size: 0, oseq: None, unknown: Seq::empty() }
}

impl Header {
    /// A header with every field unset.
    pub fn new() -> (r: Header)
        ensures
            r@ == spec_empty_header(),
    {
        let r = Header { sort: 0, type_: 0, size: 0, oseq: None, unknown: Vec::new() };
        proof {
            assert(r@ =~= spec_empty_header());
        }
        r
    }
}

/// One header plus the raw payload bytes that follow it in a frame.
#[derive(Debug, Clone)]
pub struct ProtoPayload {
    pub header: Header,
    pub payload: Vec<u8>,
}

impl View for ProtoPayload {
    type V = (HeaderV, Seq<u8>);

    open spec fn view(&self) -> (HeaderV, Seq<u8>) {
        (self.header@, self.payload@)
    }
}

/// Why a frame failed to decode: the bytes end mid-frame, or the
/// header bytes are not a valid header.
#[derive(Debug, Clone, Copy, PartialEq, Eq, Structural)]
pub enum CodecError {
    Truncated,
    BadHeader,
}

/// Encoding of one numeric header field: varint key then varint value.
pub open spec fn spec_field_bytes(field: u32, v: u64) -> Seq<u8> {
    spec_varint((field * 8) as u64) + spec_varint(v)
}

/// Encoding of a sequence of numeric fields, in order.
pub open spec fn spec_pairs_bytes(pairs: Seq<(u32, u64)>) -> Seq<u8>
    decreases pairs.len(),
{
    if pairs.len() == 0 {
        Seq::empty()
    } else {
        spec_field_bytes(pairs[0].0, pairs[0].1) + spec_pairs_bytes(pairs.drop_first())
    }
}

/// The encoding of a single field sequence is that field's encoding.
pub proof fn lemma_pairs_bytes_singleton(p: (u32, u64))
    ensures
        spec_pairs_bytes(seq![p]) == spec_field_bytes(p.0, p.1),
{
    assert(seq![p].drop_first() =~= Seq::<(u32, u64)>::empty());
    assert(spec_pairs_bytes(Seq::<(u32, u64)>::empty()) =~= Seq::<u8>::empty());
    assert(spec_pairs_bytes(seq![p]) =~= spec_field_bytes(p.0, p.1));
}

/// Field encoding distributes over concatenation of field sequences.
pub proof fn lemma_pairs_bytes_append(a: Seq<(u32, u64)>, b: Seq<(u32, u64)>)
    ensures
        spec_pairs_bytes(a + b) == spec_pairs_bytes(a) + spec_pairs_bytes(b),
    decreases a.len(),
{
    if a.len() == 0 {
        assert(a + b =~= b);
        assert(spec_pairs_bytes(a) + spec_pairs_bytes(b) =~= spec_pairs_bytes(b));
    } else {
        assert((a + b).drop_first() =~= a.drop_first() + b);
        lemma_pairs_bytes_append(a.drop_first(), b);
        assert(spec_pairs_bytes(a + b) =~= spec_pairs_bytes(a) + spec_pairs_bytes(b));
    }
}

/// The fields of a header, in the order they are encoded: the three
/// required fields, the optional `oseq`, then the extra fields.
pub open spec fn spec_pairs_of_header(h: HeaderV) -> Seq<(u32, u64)> {
    seq![(1u32, h.sort as u64), (2u32, h.type_ as u64), (3u32, h.size as u64)] + (match h.oseq {
        Some(q) => seq![(4u32, q as u64)],
        None => Seq::empty(),
    }) + h.unknown
}

/// The byte encoding of a header.
pub open spec fn spec_header_bytes(h: HeaderV) -> Seq<u8> {
    spec_pairs_bytes(spec_pairs_of_header(h))
}

/// All the `(field, value)` pairs read from a byte sequence, or
/// nothing if the bytes are not a whole sequence of varint fields.
pub open spec fn spec_parse_pairs(s: Seq<u8>) -> Option<Seq<(u32, u64)>>
    decreases s.len(),
    via spec_parse_pairs_decreases
{
    if s.len() == 0 {
        Some(Seq::empty())
    } else {
        match spec_take_varint(s) {
            None => None,
            Some((key, n)) => {
                if key % 8 != 0 || key / 8 == 0 || key / 8 > u32::MAX {
                    None
                } else {
                    match spec_take_varint(s.skip(n)) {
                        None => None,
                        Some((v, m)) => match spec_parse_pairs(s.skip(n + m)) {
                            None => None,
                            Some(rest) => Some(seq![((key / 8) as u32, v)] + rest),
                        },
                    }
                }
            },
        }
    }
}

#[via_fn]
proof fn spec_parse_pairs_decreases(s: Seq<u8>) {
    lemma_take_varint_consumes(s);
    if s.len() != 0 {
        if let Some((key, n)) = spec_take_varint(s) {
            lemma_take_varint_consumes(s.skip(n));
        }
    }
}

/// Parsing inverts field encoding for any fields with nonzero numbers.
pub proof fn lemma_parse_pairs_round_trip(pairs: Seq<(u32, u64)>)
    requires
        forall|i: int| 0 <= i < pairs.len() ==> (#[trigger] pairs[i]).0 >= 1,
    ensures
        spec_parse_pairs(spec_pairs_bytes(pairs)) == Some(pairs),
    decreases pairs.len(),
{
    if pairs.len() == 0 {
    } else {
        let p = pairs[0];
        let key = (p.0 * 8) as u64;
        let restb = spec_pairs_bytes(pairs.drop_first());
        let s = spec_pairs_bytes(pairs);
        assert(s =~= spec_varint(key) + (spec_varint(p.1) + restb));
        lemma_varint_round_trip(key, spec_varint(p.1) + restb);
        let n = spec_varint(key).len() as int;
        assert(spec_take_varint(s) == Some((key, n)));
        assert(key % 8 == 0 && key / 8 == p.0);
        assert(s.skip(n) =~= spec_varint(p.1) + restb);
        lemma_varint_round_trip(p.1, restb);
        let m = spec_varint(p.1).len() as int;
        assert(spec_take_varint(s.skip(n)) == Some((p.1, m)));
        assert(s.skip(n + m) =~= restb);
        lemma_parse_pairs_round_trip(pairs.drop_first());
        assert(seq![((key / 8) as u32, p.1)] + pairs.drop_first() =~= pairs);
    }
}

/// Apply one parsed field to a header under construction: the named
/// field numbers set their field if the value fits in 32 bits, any
/// other field is kept among the extra fields.
pub open spec fn spec_apply_pair(h: HeaderV, p: (u32, u64)) -> Option<HeaderV> {
    if p.0 == 1 {
        if p.1 <= u32::MAX {
            Some(HeaderV { sort: p.1 as u32, ..h })
        } else {
            None
        }
    } else if p.0 == 2 {
        if p.1 <= u32::MAX {
            Some(HeaderV { type_: p.1 as u32, ..h })
        } else {
            None
        }
    } else if p.0 == 3 {
        if p.1 <= u32::MAX {
            Some(HeaderV { size: p.1 as u32, ..h })
        } else {
            None
        }
    } else if p.0 == 4 {
        if p.1 <= u32::MAX {
            Some(HeaderV { oseq: Some(p.1 as u32), ..h })
        } else {
            None
        }
    } else {
        Some(HeaderV { unknown: h.unknown.push(p), ..h })
    }
}

/// Fold a sequence of parsed fields into a header, left to right.
pub open spec fn spec_fold_pairs(h: HeaderV, pairs: Seq<(u32, u64)>) -> Option<HeaderV>
    decreases pairs.len(),
{
    if pairs.len() == 0 {
        Some(h)
    } else {
        match spec_apply_pair(h, pairs[0]) {
            None => None,
            Some(h2) => spec_fold_pairs(h2, pairs.drop_first()),
        }
    }
}

/// The header denoted by a byte sequence, if the bytes parse.
pub open spec fn spec_decode_header(s: Seq<u8>) -> Option<HeaderV> {
    match spec_parse_pairs(s) {
        None => None,
        Some(pairs) => spec_fold_pairs(spec_empty_header(), pairs),
    }
}

/// Folding fields distributes over concatenation.
pub proof fn lemma_fold_pairs_append(h: HeaderV, a: Seq<(u32, u64)>, b: Seq<(u32, u64)>)
    ensures
        spec_fold_pairs(h, a + b) == (match spec_fold_pairs(h, a) {
            None => None,
            Some(h2) => spec_fold_pairs(h2, b),
        }),
    decreases a.len(),
{
    if a.len() == 0 {
        assert(a + b =~= b);
    } else {
        assert((a + b)[0] == a[0]);
        assert((a + b).drop_first() =~= a.drop_first() + b);
        match spec_apply_pair(h, a[0]) {
            None => {},
            Some(h2) => {
                lemma_fold_pairs_append(h2, a.drop_first(), b);
            },
        }
    }
}

/// Folding fields that all have numbers five or above only appends
/// them to the extra fields.
pub proof fn lemma_fold_pairs_unknown(h: HeaderV, u: Seq<(u32, u64)>)
    requires
        forall|i: int| 0 <= i < u.len() ==> (#[trigger] u[i]).0 >= 5,
    ensures
        spec_fold_pairs(h, u) == Some(HeaderV { unknown: h.unknown + u, ..h }),
    decreases u.len(),
{
    if u.len() == 0 {
        assert(h.unknown + u =~= h.unknown);
        assert(HeaderV { unknown: h.unknown + u, ..h } =~= h);
    } else {
        let h2 = HeaderV { unknown: h.unknown.push(u[0]), ..h };
        lemma_fold_pairs_unknown(h2, u.drop_first());
        assert(h.unknown.push(u[0]) + u.drop_first() =~= h.unknown + u);
        assert(HeaderV { unknown: h2.unknown + u.drop_first(), ..h2 } =~= HeaderV {
            unknown: h.unknown + u,
            ..h
        });
    }
}

/// Decoding inverts header encoding for well-formed headers.
pub proof fn lemma_header_round_trip(h: HeaderV)
    requires
        h.wf(),
    ensures
        spec_decode_header(spec_header_bytes(h)) == Some(h),
{
    let pairs = spec_pairs_of_header(h);
    assert(forall|i: int| 0 <= i < pairs.len() ==> (#[trigger] pairs[i]).0 >= 1);
    lemma_parse_pairs_round_trip(pairs);
    let base = seq![(1u32, h.sort as u64), (2u32, h.type_ as u64), (3u32, h.size as u64)];
    let oseqs = match h.oseq {
        Some(q) => seq![(4u32, q as u64)],
        None => Seq::<(u32, u64)>::empty(),
    };
    let h0 = spec_empty_header();
    lemma_fold_pairs_append(h0, base + oseqs, h.unknown);
    lemma_fold_pairs_append(h0, base, oseqs);
    let h3 = HeaderV { sort: h.sort, type_: h.type_, size: h.size, oseq: None, unknown: Seq::empty() };
    assert(spec_fold_pairs(h0, base) == Some(h3)) by {
        let s1 = HeaderV { sort: h.sort, ..h0 };
        let s2 = HeaderV { type_: h.type_, ..s1 };
        let b1 = seq![(2u32, h.type_ as u64), (3u32, h.size as u64)];
        let b2 = seq![(3u32, h.size as u64)];
        assert(base[0] == (1u32, h.sort as u64));
        assert(spec_apply_pair(h0, (1u32, h.sort as u64)) == Some(s1));
        assert(base.drop_first() =~= b1);
        assert(spec_fold_pairs(h0, base) == spec_fold_pairs(s1, b1));
        assert(spec_apply_pair(s1, (2u32, h.type_ as u64)) == Some(s2));
        assert(b1.drop_first() =~= b2);
        assert(spec_fold_pairs(s1, b1) == spec_fold_pairs(s2, b2));
        assert(spec_apply_pair(s2, (3u32, h.size as u64)) == Some(h3));
        assert(b2.drop_first() =~= Seq::<(u32, u64)>::empty());
        assert(spec_fold_pairs(s2, b2) == spec_fold_pairs(h3, Seq::<(u32, u64)>::empty()));
        assert(spec_fold_pairs(h3, Seq::<(u32, u64)>::empty()) == Some(h3));
    };
    let h4 = HeaderV { oseq: h.oseq, ..h3 };
    assert(spec_fold_pairs(h3, oseqs) == Some(h4)) by {
        match h.oseq {
            Some(q) => {
                assert(oseqs[0] == (4u32, q as u64));
                assert(spec_apply_pair(h3, (4u32, q as u64)) == Some(h4));
                assert(oseqs.drop_first() =~= Seq::<(u32, u64)>::empty());
                assert(spec_fold_pairs(h3, oseqs) == spec_fold_pairs(
                    h4,
                    Seq::<(u32, u64)>::empty(),
                ));
            },
            None => {
                assert(h4 =~= h3);
            },
        }
    };
    lemma_fold_pairs_unknown(h4, h.unknown);
    assert(Seq::<(u32, u64)>::empty() + h.unknown =~= h.unknown);
    assert(HeaderV { unknown: h4.unknown + h.unknown, ..h4 } =~= h);
}

/// Encode a header into bytes.
pub fn encode_header(h: &Header) -> (r: Vec<u8>)
    ensures
        r@ == spec_header_bytes(h@),
{
    let ghost pairs = spec_pairs_of_header(h@);
    let ghost base = seq![(1u32, h@.sort as u64), (2u32, h@.type_ as u64), (3u32, h@.size as u64)];
    let ghost oseqs = match h@.oseq {
        Some(q) => seq![(4u32, q as u64)],
        None => Seq::<(u32, u64)>::empty(),
    };
    let mut out: Vec<u8> = Vec::new();
    encode_varint(&mut out, 8);
    encode_varint(&mut out, h.sort as u64);
    encode_varint(&mut out, 16);
    encode_varint(&mut out, h.type_ as u64);
    encode_varint(&mut out, 24);
    encode_varint(&mut out, h.size as u64);
    proof {
        lemma_pairs_bytes_singleton((1u32, h@.sort as u64));
        lemma_pairs_bytes_singleton((2u32, h@.type_ as u64));
        lemma_pairs_bytes_singleton((3u32, h@.size as u64));
        lemma_pairs_bytes_append(seq![(1u32, h@.sort as u64)], seq![(2u32, h@.type_ as u64)]);
        lemma_pairs_bytes_append(
            seq![(1u32, h@.sort as u64), (2u32, h@.type_ as u64)],
            seq![(3u32, h@.size as u64)],
        );
        assert(seq![(1u32, h@.sort as u64)] + seq![(2u32, h@.type_ as u64)] =~= seq![
            (1u32, h@.sort as u64),
            (2u32, h@.type_ as u64),
        ]);
        assert(seq![(1u32, h@.sort as u64), (2u32, h@.type_ as u64)] + seq![
            (3u32, h@.size as u64),
        ] =~= base);
        assert((1u32 * 8) as u64 == 8u64);
        assert((2u32 * 8) as u64 == 16u64);
        assert((3u32 * 8) as u64 == 24u64);
        assert(out@ =~= spec_pairs_bytes(base));
    }
    if let Some(q) = h.oseq {
        encode_varint(&mut out, 32);
        encode_varint(&mut out, q as u64);
    }
    proof {
        match h@.oseq {
            Some(q) => {
                lemma_pairs_bytes_singleton((4u32, q as u64));
                assert((4u32 * 8) as u64 == 32u64);
            },
            None => {},
        }
        lemma_pairs_bytes_append(base, oseqs);
        assert(out@ =~= spec_pairs_bytes(base + oseqs));
    }
    let ghost head = base + oseqs;
    let mut i: usize = 0;
    while i < h.unknown.len()
        invariant
            0 <= i <= h.unknown.len(),
            out@ == spec_pairs_bytes(head + h.unknown@.take(i as int)),
            head == base + oseqs,
        decreases h.unknown.len() - i,
    {
        let (field, v) = h.unknown[i];
        let ghost prefix = head + h.unknown@.take(i as int);
        encode_varint(&mut out, (field as u64) * 8);
        encode_varint(&mut out, v);
        proof {
            assert((field as u64) * 8 == ((field * 8) as u64));
            assert(prefix + seq![(field, v)] =~= head + h.unknown@.take(i as int + 1));
            lemma_pairs_bytes_append(prefix, seq![(field, v)]);
            lemma_pairs_bytes_singleton((field, v));
            assert(out@ =~= spec_pairs_bytes(head + h.unknown@.take(i as int + 1)));
        }
        i += 1;
    }
    proof {
        assert(h.unknown@.take(h.unknown@.len() as int) =~= h.unknown@);
        assert(head + h.unknown@ =~= pairs);
    }
    out
}

/// Read all the fields of a byte sequence, the exec mirror of
/// [`spec_parse_pairs`].
pub fn parse_pairs(s: &[u8]) -> (r: Option<Vec<(u32, u64)>>)
    ensures
        match r {
            Some(v) => spec_parse_pairs(s@) == Some(v@),
            None => spec_parse_pairs(s@) is None,
        },
{
    let mut acc: Vec<(u32, u64)> = Vec::new();
    let mut pos: usize = 0;
    proof {
        assert(s@.skip(0) =~= s@);
        if let Some(rest) = spec_parse_pairs(s@) {
            assert(acc@ + rest =~= rest);
        }
    }
    while pos < s.len()
        invariant
            0 <= pos <= s@.len(),
            match spec_parse_pairs(s@.skip(pos as int)) {
                Some(rest) => spec_parse_pairs(s@) == Some(acc@ + rest),
                None => spec_parse_pairs(s@) is None,
            },
        decreases s@.len() - pos,
    {
        let ghost rem = s@.skip(pos as int);
        let (key, n1) = match take_varint(s, pos) {
            Some(kv) => kv,
            None => {
                return None;
            },
        };
        if key % 8 != 0 || key / 8 == 0 || key / 8 > u32::MAX as u64 {
            return None;
        }
        let field = (key / 8) as u32;
        proof {
            lemma_take_varint_consumes(rem);
            assert(rem.skip(n1 as int) =~= s@.skip(pos as int + n1 as int));
        }
        let (v, n2) = match take_varint(s, pos + n1) {
            Some(vm) => vm,
            None => {
                return None;
            },
        };
        proof {
            lemma_take_varint_consumes(s@.skip(pos as int + n1 as int));
            assert(rem.skip(n1 as int + n2 as int) =~= s@.skip(
                pos as int + n1 as int + n2 as int,
            ));
        }
        let ghost old_acc = acc@;
        acc.push((field, v));
        proof {
            match spec_parse_pairs(s@.skip(pos as int + n1 as int + n2 as int)) {
                Some(rest2) => {
                    assert(spec_parse_pairs(rem) == Some(seq![(field, v)] + rest2));
                    assert(old_acc + (seq![(field, v)] + rest2) =~= acc@ + rest2);
                },
                None => {
                    assert(spec_parse_pairs(rem) is None);
                },
            }
        }
        pos = pos + n1 + n2;
    }
    proof {
        assert(s@.skip(pos as int) =~= Seq::<u8>::empty());
        assert(acc@ + Seq::<(u32, u64)>::empty() =~= acc@);
    }
    Some(acc)
}

/// Decode a header from bytes, the exec mirror of
/// [`spec_decode_header`].
pub fn decode_header(s: &[u8]) -> (r: Option<Header>)
    ensures
        match r {
            Some(h) => spec_decode_header(s@) == Some(h@),
            None => spec_decode_header(s@) is None,
        },
{
    let pairs = match parse_pairs(s) {
        Some(p) => p,
        None => {
            return None;
        },
    };
    let mut h = Header::new();
    let mut i: usize = 0;
    proof {
        assert(pairs@.skip(0) =~= pairs@);
    }
    while i < pairs.len()
        invariant
            0 <= i <= pairs.len(),
            spec_parse_pairs(s@) == Some(pairs@),
            spec_fold_pairs(h@, pairs@.skip(i as int)) == spec_fold_pairs(
                spec_empty_header(),
                pairs@,
            ),
        decreases pairs.len() - i,
    {
        let ghost pre = h@;
        let (field, v) = pairs[i];
        proof {
            assert(pairs@.skip(i as int)[0] == pairs@[i as int]);
            assert(pairs@.skip(i as int).drop_first() =~= pairs@.skip(i as int + 1));
        }
        if field == 1 {
            if v > u32::MAX as u64 {
                return None;
            }
            h.sort = v as u32;
        } else if field == 2 {
            if v > u32::MAX as u64 {
                return None;
            }
            h.type_ = v as u32;
        } else if field == 3 {
            if v > u32::MAX as u64 {
                return None;
            }
            h.size = v as u32;
        } else if field == 4 {
            if v > u32::MAX as u64 {
                return None;
            }
            h.oseq = Some(v as u32);
        } else {
            h.unknown.push((field, v));
        }
        proof {
            assert(spec_apply_pair(pre, (field, v)) == Some(h@));
        }
        i += 1;
    }
    proof {
        assert(pairs@.skip(pairs@.len() as int) =~= Seq::<(u32, u64)>::empty());
    }
    Some(h)
}

/// A varint takes at most ten bytes; five when the value fits 32 bits;
/// one when it is under 128.
pub proof fn lemma_varint_len(v: u64)
    ensures
        spec_varint(v).len() <= 10,
        v <= u32::MAX ==> spec_varint(v).len() <= 5,
        v < 128 ==> spec_varint(v).len() == 1,
        spec_varint(v).len() >= 1,
    decreases v,
{
    if v >= 128 {
        let w = (v / 128) as u64;
        lemma_varint_len(w);
        assert(v < 0x4000 ==> w < 0x80);
        assert(v < 0x200000 ==> w < 0x4000);
        assert(v < 0x10000000 ==> w < 0x200000);
        assert(v < 0x8_0000_0000 ==> w < 0x10000000);
        assert(v < 0x400_0000_0000 ==> w < 0x8_0000_0000);
        assert(v < 0x2_0000_0000_0000 ==> w < 0x400_0000_0000);
        assert(v < 0x100_0000_0000_0000 ==> w < 0x2_0000_0000_0000);
        assert(v < 0x8000_0000_0000_0000 ==> w < 0x100_0000_0000_0000);
        assert(w < 0x8000_0000_0000_0000);
        lemma_varint_len_staged(w);
    }
}

/// Staged size bounds for varints, one per possible byte count.
pub proof fn lemma_varint_len_staged(v: u64)
    ensures
        v < 0x80 ==> spec_varint(v).len() <= 1,
        v < 0x4000 ==> spec_varint(v).len() <= 2,
        v < 0x200000 ==> spec_varint(v).len() <= 3,
        v < 0x10000000 ==> spec_varint(v).len() <= 4,
        v < 0x8_0000_0000 ==> spec_varint(v).len() <= 5,
        v < 0x400_0000_0000 ==> spec_varint(v).len() <= 6,
        v < 0x2_0000_0000_0000 ==> spec_varint(v).len() <= 7,
        v < 0x100_0000_0000_0000 ==> spec_varint(v).len() <= 8,
        v < 0x8000_0000_0000_0000 ==> spec_varint(v).len() <= 9,
        spec_varint(v).len() <= 10,
    decreases v,
{
    if v >= 128 {
        let w = (v / 128) as u64;
        lemma_varint_len_staged(w);
        assert(v < 0x4000 ==> w < 0x80);
        assert(v < 0x200000 ==> w < 0x4000);
        assert(v < 0x10000000 ==> w < 0x200000);
        assert(v < 0x8_0000_0000 ==> w < 0x10000000);
        assert(v < 0x400_0000_0000 ==> w < 0x8_0000_0000);
        assert(v < 0x2_0000_0000_0000 ==> w < 0x400_0000_0000);
        assert(v < 0x100_0000_0000_0000 ==> w < 0x2_0000_0000_0000);
        assert(v < 0x8000_0000_0000_0000 ==> w < 0x100_0000_0000_0000);
        assert(w < 0x8000_0000_0000_0000);
    }
}

/// Each encoded field takes at most 20 bytes.
pub proof fn lemma_pairs_bytes_field_bound(pairs: Seq<(u32, u64)>)
    ensures
        spec_pairs_bytes(pairs).len() <= 20 * pairs.len(),
    decreases pairs.len(),
{
    if pairs.len() > 0 {
        lemma_varint_len((pairs[0].0 * 8) as u64);
        lemma_varint_len(pairs[0].1);
        lemma_pairs_bytes_field_bound(pairs.drop_first());
    }
}

/// A header's encoding is at most 24 bytes for the named fields plus
/// 20 for each extra field.
pub proof fn lemma_header_bytes_len(h: HeaderV)
    ensures
        spec_header_bytes(h).len() <= 24 + 20 * h.unknown.len(),
{
    let p1 = (1u32, h.sort as u64);
    let p2 = (2u32, h.type_ as u64);
    let p3 = (3u32, h.size as u64);
    let base = seq![p1, p2, p3];
    let oseqs = match h.oseq {
        Some(q) => seq![(4u32, q as u64)],
        None => Seq::<(u32, u64)>::empty(),
    };
    lemma_pairs_bytes_append(base + oseqs, h.unknown);
    lemma_pairs_bytes_append(base, oseqs);
    assert(spec_pairs_of_header(h) == base + oseqs + h.unknown);
    lemma_pairs_bytes_field_bound(h.unknown);
    assert(spec_pairs_bytes(base).len() <= 18) by {
        lemma_pairs_bytes_singleton(p1);
        lemma_pairs_bytes_singleton(p2);
        lemma_pairs_bytes_singleton(p3);
        lemma_pairs_bytes_append(seq![p1], seq![p2]);
        lemma_pairs_bytes_append(seq![p1, p2], seq![p3]);
        assert(seq![p1] + seq![p2] =~= seq![p1, p2]);
        assert(seq![p1, p2] + seq![p3] =~= base);
        lemma_varint_len((1u32 * 8) as u64);
        lemma_varint_len(h.sort as u64);
        lemma_varint_len((2u32 * 8) as u64);
        lemma_varint_len(h.type_ as u64);
        lemma_varint_len((3u32 * 8) as u64);
        lemma_varint_len(h.size as u64);
    };
    assert(spec_pairs_bytes(oseqs).len() <= 6) by {
        match h.oseq {
            Some(q) => {
                lemma_pairs_bytes_singleton((4u32, q as u64));
                lemma_varint_len((4u32 * 8) as u64);
                lemma_varint_len(q as u64);
            },
            None => {},
        }
    };
}

/// The two-byte big-endian length prefix.
pub open spec fn spec_be16(n: u16) -> Seq<u8> {
    seq![(n / 256) as u8, (n % 256) as u8]
}

/// The byte encoding of a whole frame: length prefix, header bytes,
/// payload bytes.
pub open spec fn spec_frame_bytes(h: HeaderV, p: Seq<u8>) -> Seq<u8> {
    spec_be16(spec_header_bytes(h).len() as u16) + spec_header_bytes(h) + p
}

/// The frame denoted by a byte sequence: its header, with `size`
/// giving the payload length, and the payload. `Truncated` when the
/// bytes end mid-frame, `BadHeader` when the header bytes do not parse.
pub open spec fn spec_decode_frame(s: Seq<u8>) -> Result<(HeaderV, Seq<u8>), CodecError> {
    if s.len() < 2 {
        Err(CodecError::Truncated)
    } else {
        let hlen = s[0] * 256 + s[1];
        if s.len() < 2 + hlen {
            Err(CodecError::Truncated)
        } else {
            match spec_decode_header(s.subrange(2, 2 + hlen)) {
                None => Err(CodecError::BadHeader),
                Some(hv) => {
                    if s.len() < 2 + hlen + hv.size {
                        Err(CodecError::Truncated)
                    } else {
                        Ok((hv, s.subrange(2 + hlen, 2 + hlen + hv.size)))
                    }
                },
            }
        }
    }
}

/// Encode a frame: the header, its `size` set to the payload length,
/// then the payload, behind the length prefix.
pub fn encode_frame(header: &mut Header, payload: &Vec<u8>) -> (r: Vec<u8>)
    requires
        payload@.len() <= u32::MAX,
        spec_header_bytes(old(header)@.with_size(payload@.len() as u32)).len() <= u16::MAX,
    ensures
        final(header)@ == old(header)@.with_size(payload@.len() as u32),
        r@ == spec_frame_bytes(final(header)@, payload@),
{
    header.size = payload.len() as u32;
    proof {
        assert(header@ =~= old(header)@.with_size(payload@.len() as u32));
    }
    let hb = encode_header(header);
    let hlen: u16 = hb.len() as u16;
    let mut out: Vec<u8> = Vec::new();
    out.push((hlen / 256) as u8);
    out.push((hlen % 256) as u8);
    proof {
        assert(out@ =~= spec_be16(hlen));
    }
    let mut i: usize = 0;
    while i < hb.len()
        invariant
            0 <= i <= hb.len(),
            out@ == spec_be16(hlen) + hb@.take(i as int),
        decreases hb.len() - i,
    {
        let ghost prev = out@;
        out.push(hb[i]);
        proof {
            assert(out@ =~= spec_be16(hlen) + hb@.take(i as int + 1));
        }
        i += 1;
    }
    proof {
        assert(hb@.take(hb@.len() as int) =~= hb@);
    }
    let mut j: usize = 0;
    while j < payload.len()
        invariant
            0 <= j <= payload.len(),
            out@ == spec_be16(hlen) + hb@ + payload@.take(j as int),
        decreases payload.len() - j,
    {
        let ghost prev = out@;
        out.push(payload[j]);
        proof {
            assert(out@ =~= spec_be16(hlen) + hb@ + payload@.take(j as int + 1));
        }
        j += 1;
    }
    proof {
        assert(payload@.take(payload@.len() as int) =~= payload@);
        assert(out@ =~= spec_frame_bytes(header@, payload@));
    }
    out
}

/// Decode a frame from bytes, the exec mirror of
/// [`spec_decode_frame`]. Everything past the frame is ignored.
pub fn decode_frame(s: &[u8]) -> (r: Result<ProtoPayload, CodecError>)
    ensures
        match r {
            Ok(pp) => spec_decode_frame(s@) == Ok::<_, CodecError>(pp@),
            Err(e) => spec_decode_frame(s@) == Err::<(HeaderV, Seq<u8>), _>(e),
        },
{
    if s.len() < 2 {
        return Err(CodecError::Truncated);
    }
    let hlen: usize = (s[0] as usize) * 256 + (s[1] as usize);
    if s.len() < 2 + hlen {
        return Err(CodecError::Truncated);
    }
    let hslice = vstd::slice::slice_subrange(s, 2, 2 + hlen);
    let header = match decode_header(hslice) {
        None => {
            return Err(CodecError::BadHeader);
        },
        Some(h) => h,
    };
    let size = header.size as usize;
    if s.len() - (2 + hlen) < size {
        return Err(CodecError::Truncated);
    }
    let pslice = vstd::slice::slice_subrange(s, 2 + hlen, 2 + hlen + size);
    let payload = vstd::slice::slice_to_vec(pslice);
    Ok(ProtoPayload { header, payload })
}

/// Decoding inverts encoding: a frame encoded from a well-formed
/// header and any payload decodes to the same header, its `size` now
/// the payload length, and the same payload.
pub proof fn lemma_frame_round_trip(h: HeaderV, p: Seq<u8>)
    requires
        h.wf(),
        p.len() <= u32::MAX,
        spec_header_bytes(h.with_size(p.len() as u32)).len() <= u16::MAX,
    ensures
        spec_decode_frame(spec_frame_bytes(h.with_size(p.len() as u32), p)) == Ok::<
            _,
            CodecError,
        >((h.with_size(p.len() as u32), p)),
{
    let hs = h.with_size(p.len() as u32);
    let hb = spec_header_bytes(hs);
    let s = spec_frame_bytes(hs, p);
    let hlen16 = hb.len() as u16;
    assert(s.len() == 2 + hb.len() + p.len());
    assert(s[0] == (hlen16 / 256) as u8);
    assert(s[1] == (hlen16 % 256) as u8);
    assert(s[0] * 256 + s[1] == hb.len());
    assert(s.subrange(2, 2 + hb.len() as int) =~= hb);
    lemma_header_round_trip(hs);
    assert(hs.size == p.len());
    assert(s.subrange(2 + hb.len() as int, 2 + hb.len() as int + p.len() as int) =~= p);
}

/// Stamp a response for its request: the response carries the
/// request's `sort`, and, when the request had a sequence number, the
/// correlation field 100 holding it.
pub open spec fn spec_correlated(req: HeaderV, resp: HeaderV) -> HeaderV {
    let sorted = HeaderV { sort: req.sort, ..resp };
    match req.oseq {
        Some(k) => HeaderV { unknown: sorted.unknown.push((100u32, k as u64)), ..sorted },
        None => sorted,
    }
}

/// Frame a response for the wire: mirror the request's `sort`, carry
/// its `oseq` back in field 100, set the payload size, and encode.
pub fn build_response_frame(request: &Header, response: &mut ProtoPayload) -> (r: Vec<u8>)
    requires
        old(response).payload@.len() <= u32::MAX,
        spec_header_bytes(
            spec_correlated(request@, old(response).header@).with_size(
                old(response).payload@.len() as u32,
            ),
        ).len() <= u16::MAX,
    ensures
        final(response).header@ == spec_correlated(request@, old(response).header@).with_size(
            old(response).payload@.len() as u32,
        ),
        final(response).payload@ == old(response).payload@,
        r@ == spec_frame_bytes(final(response).header@, final(response).payload@),
{
    response.header.sort = request.sort;
    if let Some(k) = request.oseq {
        response.header.unknown.push((100u32, k as u64));
    }
    proof {
        assert(response.header@ =~= spec_correlated(request@, old(response).header@));
    }
    let frame = encode_frame(&mut response.header, &response.payload);
    frame
}

/// A framed response to a request with sequence number `k` decodes to
/// a header that carries `k` in the correlation field 100.
pub proof fn lemma_response_carries_oseq(req: HeaderV, resp: HeaderV, p: Seq<u8>, k: u32)
    requires
        req.oseq == Some(k),
        resp.wf(),
        p.len() <= u32::MAX,
        spec_header_bytes(spec_correlated(req, resp).with_size(p.len() as u32)).len()
            <= u16::MAX,
    ensures
        (spec_decode_frame(
            spec_frame_bytes(spec_correlated(req, resp).with_size(p.len() as u32), p),
        ) matches Ok((h2, p2)) && h2.unknown.contains((100u32, k as u64)) && p2 == p),
{
    let c = spec_correlated(req, resp);
    assert(c.wf());
    lemma_frame_round_trip(c, p);
    assert(c.with_size(p.len() as u32).unknown == c.unknown);
    assert(c.unknown.last() == (100u32, k as u64));
    assert(c.unknown.contains((100u32, k as u64)));
}

/// Mirror a remote HTTP status to the peer in field 101.
pub fn add_status(header: &mut Header, status: u32)
    ensures
        final(header)@ == (HeaderV {
            unknown: old(header)@.unknown.push((101u32, status as u64)),
            ..old(header)@
        }),
{
    header.unknown.push((101u32, status as u64));
    proof {
        assert(header@ =~= HeaderV {
            unknown: old(header)@.unknown.push((101u32, status as u64)),
            ..old(header)@
        });
    }
}

} // verus!

//! Decimal identifiers.
//!
//! The remote service writes every id as a decimal text; the wire and
//! the cache carry them as integers. These are the two readings'
//! meeting point: a verified parser from text to integer.
use vstd::prelude::*;
use vstd::string::StringSliceAdditionalSpecFns;

verus! {

/// Whether a byte sequence is one or more decimal digits.
pub open spec fn spec_is_digits(s: Seq<u8>) -> bool {
    s.len() > 0 && (forall|i: int| 0 <= i < s.len() ==> 48 <= #[trigger] s[i] <= 57)
}

/// The number a digit sequence denotes.
pub open spec fn spec_digits_value(s: Seq<u8>) -> nat
    decreases s.len(),
{
    if s.len() == 0 {
        0
    } else {
        (spec_digits_value(s.drop_last()) * 10 + (s.last() - 48)) as nat
    }
}

/// A longer digit prefix never denotes a smaller number.
proof fn lemma_digits_value_monotone(s: Seq<u8>, i: int)
    requires
        0 <= i <= s.len(),
        forall|j: int| 0 <= j < s.len() ==> 48 <= #[trigger] s[j] <= 57,
    ensures
        spec_digits_value(s) >= spec_digits_value(s.take(i)),
    decreases s.len() - i,
{
    if i < s.len() {
        lemma_digits_value_monotone(s, i + 1);
        let t = s.take(i + 1);
        assert(t.drop_last() =~= s.take(i));
        assert(t.last() == s[i]);
        assert(spec_digits_value(s.take(i + 1)) >= spec_digits_value(s.take(i)));
    } else {
        assert(s.take(i) =~= s);
    }
}

/// Parse a decimal text into a 64-bit number. Succeeds exactly on
/// texts of digits whose value fits.
pub fn parse_u64(s: &str) -> (r: Option<u64>)
    ensures
        (r matches Some(v) ==> spec_is_digits(s.spec_bytes()) && v == spec_digits_value(
            s.spec_bytes(),
        )),
        r is None ==> !spec_is_digits(s.spec_bytes()) || spec_digits_value(s.spec_bytes())
            > u64::MAX,
{
    let bytes = s.as_bytes();
    if bytes.len() == 0 {
        return None;
    }
    let mut acc: u64 = 0;
    let mut i: usize = 0;
    proof {
        assert(bytes@.take(0int) =~= Seq::<u8>::empty());
    }
    while i < bytes.len()
        invariant
            0 <= i <= bytes@.len(),
            bytes@ == s.spec_bytes(),
            acc == spec_digits_value(bytes@.take(i as int)),
            forall|j: int| 0 <= j < i ==> 48 <= #[trigger] bytes@[j] <= 57,
        decreases bytes@.len() - i,
    {
        let b = bytes[i];
        if b < 48 || b > 57 {
            return None;
        }
        let d = (b - 48) as u64;
        if acc > (u64::MAX - d) / 10 {
            proof {
                assert(acc * 10 + d > u64::MAX) by (nonlinear_arith)
                    requires
                        acc > (u64::MAX - d) / 10,
                        d < 10,
                ;
                let t = bytes@.take(i as int + 1);
                assert(t.drop_last() =~= bytes@.take(i as int));
                assert(t.last() == bytes@[i as int]);
                assert(spec_digits_value(t) > u64::MAX);
                if spec_is_digits(bytes@) {
                    lemma_digits_value_monotone(bytes@, i as int + 1);
                }
            }
            return None;
        }
        proof {
            assert(acc * 10 + d <= u64::MAX) by (nonlinear_arith)
                requires
                    acc <= (u64::MAX - d) / 10,
                    d < 10,
            ;
            let t = bytes@.take(i as int + 1);
            assert(t.drop_last() =~= bytes@.take(i as int));
            assert(t.last() == bytes@[i as int]);
        }
        acc = acc * 10 + d;
        i += 1;
    }
    proof {
        assert(bytes@.take(bytes@.len() as int) =~= bytes@);
    }
    Some(acc)
}

/// Parse a decimal text into a signed 64-bit id. Ids are never
/// negative, so a minus sign is not accepted.
pub fn parse_i64(s: &str) -> (r: Option<i64>)
    ensures
        (r matches Some(v) ==> spec_is_digits(s.spec_bytes()) && v == spec_digits_value(
            s.spec_bytes(),
        )),
        r is None ==> !spec_is_digits(s.spec_bytes()) || spec_digits_value(s.spec_bytes())
            > i64::MAX,
{
    match parse_u64(s) {
        Some(v) => {
            if v <= i64::MAX as u64 {
                Some(v as i64)
            } else {
                proof {
                    lemma_digits_value_monotone(
                        s.spec_bytes(),
                        s.spec_bytes().len() as int,
                    );
                }
                None
            }
        },
        None => None,
    }
}

} // verus!

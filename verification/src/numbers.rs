use vstd::prelude::*;
use vstd::string::*;
use crate::error::DmiError;

verus! {

/// True of an ASCII decimal digit byte.
pub open spec fn is_digit(b: u8) -> bool {
    48 <= b && b <= 57
}

/// All bytes of the sequence are decimal digits.
pub open spec fn all_digits(s: Seq<u8>) -> bool {
    forall|i: int| 0 <= i < s.len() ==> is_digit(#[trigger] s[i])
}

/// The number a digit string writes, most significant digit first.
pub open spec fn digits_val(s: Seq<u8>) -> int
    decreases s.len(),
{
    if s.len() == 0 {
        0
    } else {
        digits_val(s.drop_last()) * 10 + (s.last() - 48)
    }
}

/// The digit part of a number string: one leading '+' is allowed,
/// as `str::parse::<u32>` allows it.
pub open spec fn digit_part(s: Seq<u8>) -> Seq<u8> {
    if s.len() >= 1 && s[0] == 43 {
        s.drop_first()
    } else {
        s
    }
}

/// When a string parses as a `u32`: at least one digit after the optional
/// sign, digits only, and a value that fits.
pub open spec fn u32_parses(s: Seq<u8>) -> bool {
    &&& digit_part(s).len() >= 1
    &&& all_digits(digit_part(s))
    &&& digits_val(digit_part(s)) <= u32::MAX
}

/// The value such a string parses to.
pub open spec fn u32_value(s: Seq<u8>) -> int {
    digits_val(digit_part(s))
}

proof fn lemma_digits_val_nonneg(s: Seq<u8>)
    requires
        all_digits(s),
    ensures
        digits_val(s) >= 0,
    decreases s.len(),
{
    if s.len() > 0 {
        assert(all_digits(s.drop_last()));
        lemma_digits_val_nonneg(s.drop_last());
    }
}

/// A digit string is worth at least any of its prefixes.
proof fn lemma_digits_val_prefix(s: Seq<u8>, k: int)
    requires
        0 <= k <= s.len(),
        all_digits(s),
    ensures
        digits_val(s) >= digits_val(s.take(k)),
    decreases s.len() - k,
{
    if k == s.len() {
        assert(s.take(k) =~= s);
    } else {
        assert(s.take(k + 1).drop_last() =~= s.take(k));
        assert(s.take(k + 1).last() == s[k]);
        assert(all_digits(s.take(k)));
        lemma_digits_val_nonneg(s.take(k));
        assert(digits_val(s.take(k + 1)) == digits_val(s.take(k)) * 10 + (s[k] - 48));
        lemma_digits_val_prefix(s, k + 1);
    }
}

/// Parses a base-10 `u32`, exactly as `str::parse::<u32>` accepts it:
/// an optional leading '+', then one or more ASCII digits, and a value
/// no greater than `u32::MAX`.
pub fn parse_u32(s: &str) -> (r: Result<u32, DmiError>)
    ensures
        r is Ok <==> u32_parses(s.spec_bytes()),
        r matches Ok(v) ==> v == u32_value(s.spec_bytes()),
        r matches Err(e) ==> e == DmiError::ParseError,
{
    let b = s.as_bytes();
    let n = b.len();
    let mut i: usize = 0;
    if n >= 1 && b[0] == 43u8 {
        i = 1;
    }
    let start = i;
    let ghost d = digit_part(s.spec_bytes());
    proof {
        assert(d =~= s.spec_bytes().skip(start as int));
    }
    if i == n {
        return Err(DmiError::ParseError);
    }
    let mut val: u32 = 0;
    while i < n
        invariant
            start <= i <= n,
            n == b@.len(),
            b@ == s.spec_bytes(),
            d == digit_part(s.spec_bytes()),
            d =~= s.spec_bytes().skip(start as int),
            all_digits(d.take(i - start)),
            val == digits_val(d.take(i - start)),
        decreases n - i,
    {
        let c = b[i];
        if c < 48 || c > 57 {
            proof {
                assert(d[i - start] == c);
                assert(!is_digit(d[i - start]));
                assert(!all_digits(d));
            }
            return Err(DmiError::ParseError);
        }
        let dv: u32 = (c - 48) as u32;
        if val > 429496729 || (val == 429496729 && dv > 5) {
            proof {
                assert(d.take(i - start + 1).drop_last() =~= d.take(i - start));
                assert(d.take(i - start + 1).last() == d[i - start]);
                assert(digits_val(d.take(i - start + 1)) == val * 10 + dv);
                assert(digits_val(d.take(i - start + 1)) > u32::MAX);
                if all_digits(d) {
                    lemma_digits_val_prefix(d, i - start + 1);
                    assert(digits_val(d) > u32::MAX);
                }
            }
            return Err(DmiError::ParseError);
        }
        proof {
            assert(d.take(i - start + 1).drop_last() =~= d.take(i - start));
            assert(d.take(i - start + 1).last() == d[i - start]);
        }
        val = val * 10 + dv;
        i += 1;
    }
    proof {
        assert(d.take(i - start) =~= d);
        assert(d.len() >= 1);
    }
    Ok(val)
}

} // verus!

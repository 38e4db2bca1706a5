//! Numeric text handling: the platform writes numbers inside decorated text
//! fragments ("(3P)", "237 entries"), and the submission endpoint returns the
//! balance as a bare decimal string.

use vstd::prelude::*;

verus! {

use crate::ExtractError;

/// True of the ten ASCII digits.
pub open spec fn is_digit(c: char) -> bool {
    '0' <= c && c <= '9'
}

/// Numeric value of one ASCII digit.
pub open spec fn digit_val(c: char) -> nat
    recommends
        is_digit(c),
{
    (c as nat - '0' as nat) as nat
}

/// The digit characters of `s`, in order, with everything else stripped.
pub open spec fn digits_of(s: Seq<char>) -> Seq<char>
    decreases s.len(),
{
    if s.len() == 0 {
        Seq::empty()
    } else if is_digit(s.last()) {
        digits_of(s.drop_last()).push(s.last())
    } else {
        digits_of(s.drop_last())
    }
}

/// The value of a digit string read in base ten.
pub open spec fn decimal_value(s: Seq<char>) -> nat
    decreases s.len(),
{
    if s.len() == 0 {
        0
    } else {
        decimal_value(s.drop_last()) * 10 + digit_val(s.last())
    }
}

/// True when every character of `s` is an ASCII digit.
pub open spec fn all_digits(s: Seq<char>) -> bool {
    forall|i: int| 0 <= i < s.len() ==> is_digit(s[i])
}

/// What stripping-and-reading yields on a text fragment: the value of the
/// fragment's digits when there are any and they fit, else the exact error.
pub open spec fn spec_extract_number(s: Seq<char>) -> Result<u32, ExtractError> {
    if digits_of(s).len() == 0 {
        Err(ExtractError::NotNumeric)
    } else if decimal_value(digits_of(s)) > u32::MAX {
        Err(ExtractError::NumberTooLarge)
    } else {
        Ok(decimal_value(digits_of(s)) as u32)
    }
}

/// Strips every non-digit character from `s` and reads the remainder as an
/// unsigned decimal number.  Fails with `NotNumeric` when no digit remains,
/// and with `NumberTooLarge` when the remainder does not fit in a `u32`.
pub fn extract_number(s: &str) -> (r: Result<u32, ExtractError>)
    ensures
        r == spec_extract_number(s@),
{
    let len = s.unicode_len();
    let mut i: usize = 0;
    let mut acc: u32 = 0;
    let mut seen: bool = false;
    let mut over: bool = false;
    while i < len
        invariant
            i <= len,
            len == s@.len(),
            seen == (digits_of(s@.subrange(0, i as int)).len() > 0),
            !over ==> acc == decimal_value(digits_of(s@.subrange(0, i as int))),
            over ==> decimal_value(digits_of(s@.subrange(0, i as int))) > u32::MAX,
        decreases len - i,
    {
        let c = s.get_char(i);
        proof {
            let pre = s@.subrange(0, i as int);
            let ext = s@.subrange(0, i + 1 as int);
            assert(ext.drop_last() =~= pre);
            assert(ext.last() == c);
            if is_digit(c) {
                assert(digits_of(ext) == digits_of(pre).push(c));
                assert(digits_of(ext).drop_last() =~= digits_of(pre));
                assert(decimal_value(digits_of(ext)) == decimal_value(digits_of(pre)) * 10
                    + digit_val(c));
            } else {
                assert(digits_of(ext) == digits_of(pre));
            }
        }
        if '0' <= c && c <= '9' {
            seen = true;
            let d: u32 = (c as u32) - 48;
            if !over {
                let wide: u64 = (acc as u64) * 10 + (d as u64);
                if wide > u32::MAX as u64 {
                    over = true;
                } else {
                    acc = wide as u32;
                }
            }
        }
        i = i + 1;
    }
    proof {
        assert(s@.subrange(0, len as int) =~= s@);
    }
    if !seen {
        Err(ExtractError::NotNumeric)
    } else if over {
        Err(ExtractError::NumberTooLarge)
    } else {
        Ok(acc)
    }
}

/// The number of ASCII digits a text holds.
pub fn count_digits(s: &str) -> (n: usize)
    ensures
        n == digits_of(s@).len(),
{
    let len = s.unicode_len();
    let mut i: usize = 0;
    let mut n: usize = 0;
    while i < len
        invariant
            i <= len,
            n <= i,
            len == s@.len(),
            n == digits_of(s@.subrange(0, i as int)).len(),
        decreases len - i,
    {
        let c = s.get_char(i);
        proof {
            let pre = s@.subrange(0, i as int);
            let ext = s@.subrange(0, i + 1 as int);
            assert(ext.drop_last() =~= pre);
            assert(ext.last() == c);
        }
        if '0' <= c && c <= '9' {
            n = n + 1;
        }
        i = i + 1;
    }
    proof {
        assert(s@.subrange(0, len as int) =~= s@);
    }
    n
}

/// Reads a bare decimal string: every character must be a digit and the value
/// must fit in a `u32`, else nothing is returned.
pub fn parse_u32(s: &str) -> (r: Option<u32>)
    ensures
        (r is Some) == (s@.len() > 0 && all_digits(s@) && decimal_value(s@) <= u32::MAX),
        r is Some ==> r.unwrap() == decimal_value(s@),
{
    let len = s.unicode_len();
    if len == 0 {
        return None;
    }
    let mut i: usize = 0;
    let mut acc: u32 = 0;
    while i < len
        invariant
            i <= len,
            len == s@.len(),
            len > 0,
            all_digits(s@.subrange(0, i as int)),
            acc == decimal_value(s@.subrange(0, i as int)),
            decimal_value(s@.subrange(0, i as int)) <= u32::MAX,
        decreases len - i,
    {
        let c = s.get_char(i);
        proof {
            let pre = s@.subrange(0, i as int);
            let ext = s@.subrange(0, i + 1 as int);
            assert(ext.drop_last() =~= pre);
            assert(ext.last() == c);
            assert(decimal_value(ext) == decimal_value(pre) * 10 + digit_val(c));
        }
        if !('0' <= c && c <= '9') {
            proof {
                assert(!all_digits(s@)) by {
                    assert(s@[i as int] == c);
                }
            }
            return None;
        }
        let d: u32 = (c as u32) - 48;
        let wide: u64 = (acc as u64) * 10 + (d as u64);
        if wide > u32::MAX as u64 {
            proof {
                lemma_decimal_value_monotonic(s@, i + 1 as int);
            }
            return None;
        }
        acc = wide as u32;
        i = i + 1;
    }
    proof {
        assert(s@.subrange(0, len as int) =~= s@);
    }
    Some(acc)
}

/// Appending digits never shrinks a decimal value: the value of the first
/// `k` characters bounds the value of the whole string from below.
proof fn lemma_decimal_value_monotonic(s: Seq<char>, k: int)
    requires
        0 <= k <= s.len(),
    ensures
        decimal_value(s.subrange(0, k)) <= decimal_value(s),
    decreases s.len() - k,
{
    if k == s.len() {
        assert(s.subrange(0, k) =~= s);
    } else {
        lemma_decimal_value_monotonic(s, k + 1);
        let pre = s.subrange(0, k);
        let ext = s.subrange(0, k + 1);
        assert(ext.drop_last() =~= pre);
        assert(decimal_value(ext) == decimal_value(pre) * 10 + digit_val(s[k]));
    }
}

} // verus!

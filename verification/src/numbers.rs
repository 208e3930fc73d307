//! Base-10 parsing of unsigned integers from the value part of a token.
//!
//! The accepted grammar is an optional leading `+` followed by one or more
//! ASCII digits, and the value must fit in the target type; anything else
//! fails, and a failed value is ignored by the dispatch step.

use vstd::prelude::*;

verus! {

/// An ASCII decimal digit.
pub open spec fn is_digit_char(c: char) -> bool {
    0x30 <= c as u32 && c as u32 <= 0x39
}

/// The numeric value of one ASCII digit.
pub open spec fn digit_val(c: char) -> int {
    c as u32 - 0x30
}

pub open spec fn all_digits(s: Seq<char>) -> bool {
    forall|i: int| 0 <= i < s.len() ==> is_digit_char(#[trigger] s[i])
}

/// The base-10 value of a digit string.
pub open spec fn digits_val(s: Seq<char>) -> int
    decreases s.len(),
{
    if s.len() == 0 {
        0
    } else {
        10 * digits_val(s.drop_last()) + digit_val(s.last())
    }
}

/// The digit part of a numeric literal: the text after an optional leading `+`.
pub open spec fn digits_of(s: Seq<char>) -> Seq<char> {
    if s.len() > 0 && s[0] == '+' {
        s.drop_first()
    } else {
        s
    }
}

/// What `value.parse::<u32>()` accepts: an optional `+`, then only digits,
/// and a value no greater than `u32::MAX`.
pub open spec fn parse_u32_spec(s: Seq<char>) -> Option<u32> {
    let d = digits_of(s);
    if d.len() > 0 && all_digits(d) && digits_val(d) <= u32::MAX {
        Some(digits_val(d) as u32)
    } else {
        None
    }
}

/// What `value.parse::<usize>()` accepts.
pub open spec fn parse_usize_spec(s: Seq<char>) -> Option<usize> {
    let d = digits_of(s);
    if d.len() > 0 && all_digits(d) && digits_val(d) <= usize::MAX {
        Some(digits_val(d) as usize)
    } else {
        None
    }
}

pub proof fn lemma_digits_val_nonneg(s: Seq<char>)
    requires
        all_digits(s),
    ensures
        digits_val(s) >= 0,
    decreases s.len(),
{
    if s.len() > 0 {
        assert forall|i: int| 0 <= i < s.drop_last().len() implies is_digit_char(
            #[trigger] s.drop_last()[i],
        ) by {
            assert(s.drop_last()[i] == s[i]);
        }
        lemma_digits_val_nonneg(s.drop_last());
        assert(s.last() == s[s.len() - 1]);
    }
}

/// A digit string is worth at least any of its prefixes: appending digits
/// can only grow the value.
pub proof fn lemma_digits_val_prefix(s: Seq<char>, m: int)
    requires
        0 <= m <= s.len(),
        all_digits(s),
    ensures
        digits_val(s.subrange(0, m)) <= digits_val(s),
    decreases s.len() - m,
{
    if m == s.len() {
        assert(s.subrange(0, m) =~= s);
    } else {
        lemma_digits_val_prefix(s, m + 1);
        let p = s.subrange(0, m + 1);
        assert(p.drop_last() =~= s.subrange(0, m));
        assert forall|i: int| 0 <= i < s.subrange(0, m).len() implies is_digit_char(
            #[trigger] s.subrange(0, m)[i],
        ) by {
            assert(s.subrange(0, m)[i] == s[i]);
        }
        lemma_digits_val_nonneg(s.subrange(0, m));
        assert(p.last() == s[m]);
        assert(digits_val(p) == 10 * digits_val(s.subrange(0, m)) + digit_val(p.last()));
    }
}

/// Base-10 parse of a `u32`, as `str::parse::<u32>` would do it.
pub fn parse_u32_dec(s: &str) -> (r: Option<u32>)
    ensures
        r == parse_u32_spec(s@),
{
    let ghost d = digits_of(s@);
    let n = s.unicode_len();
    let mut start: usize = 0;
    if n > 0 && s.get_char(0) == '+' {
        start = 1;
    }
    proof {
        assert(d =~= s@.subrange(start as int, n as int));
    }
    if start >= n {
        return None;
    }
    let mut acc: u32 = 0;
    let mut k: usize = start;
    while k < n
        invariant
            start <= k <= n,
            n == s@.len(),
            start < n,
            d == s@.subrange(start as int, n as int),
            d == digits_of(s@),
            forall|j: int| 0 <= j < k - start ==> is_digit_char(#[trigger] d[j]),
            acc == digits_val(d.subrange(0, k - start)),
        decreases n - k,
    {
        let ghost m = k - start;
        let c = s.get_char(k);
        let u = c as u32;
        if !(0x30 <= u && u <= 0x39) {
            assert(!is_digit_char(d[m]));
            return None;
        }
        let dv: u32 = u - 0x30;
        proof {
            assert(d.subrange(0, m + 1).drop_last() =~= d.subrange(0, m));
            assert(d.subrange(0, m + 1).last() == d[m]);
        }
        if acc > u32::MAX / 10 || (acc == u32::MAX / 10 && dv > u32::MAX % 10) {
            proof {
                assert(digits_val(d.subrange(0, m + 1)) > u32::MAX);
                if all_digits(d) {
                    lemma_digits_val_prefix(d, m + 1);
                }
            }
            return None;
        }
        acc = acc * 10 + dv;
        k += 1;
    }
    proof {
        assert(d.subrange(0, n - start) =~= d);
    }
    Some(acc)
}

/// Base-10 parse of a `usize`, as `str::parse::<usize>` would do it.
pub fn parse_usize_dec(s: &str) -> (r: Option<usize>)
    ensures
        r == parse_usize_spec(s@),
{
    let ghost d = digits_of(s@);
    let n = s.unicode_len();
    let mut start: usize = 0;
    if n > 0 && s.get_char(0) == '+' {
        start = 1;
    }
    proof {
        assert(d =~= s@.subrange(start as int, n as int));
    }
    if start >= n {
        return None;
    }
    let mut acc: usize = 0;
    let mut k: usize = start;
    while k < n
        invariant
            start <= k <= n,
            n == s@.len(),
            start < n,
            d == s@.subrange(start as int, n as int),
            d == digits_of(s@),
            forall|j: int| 0 <= j < k - start ==> is_digit_char(#[trigger] d[j]),
            acc == digits_val(d.subrange(0, k - start)),
        decreases n - k,
    {
        let ghost m = k - start;
        let c = s.get_char(k);
        let u = c as u32;
        if !(0x30 <= u && u <= 0x39) {
            assert(!is_digit_char(d[m]));
            return None;
        }
        let dv: usize = (u - 0x30) as usize;
        proof {
            assert(d.subrange(0, m + 1).drop_last() =~= d.subrange(0, m));
            assert(d.subrange(0, m + 1).last() == d[m]);
        }
        if acc > usize::MAX / 10 || (acc == usize::MAX / 10 && dv > usize::MAX % 10) {
            proof {
                assert(digits_val(d.subrange(0, m + 1)) > usize::MAX);
                if all_digits(d) {
                    lemma_digits_val_prefix(d, m + 1);
                }
            }
            return None;
        }
        acc = acc * 10 + dv;
        k += 1;
    }
    proof {
        assert(d.subrange(0, n - start) =~= d);
    }
    Some(acc)
}

} // verus!

//! The fragmentation-range grammar.
//!
//! A range option is a string of the form `<min>-<max>`: exactly one `-`,
//! and on each side a decimal number that fits in `u64`, optionally
//! surrounded by ASCII whitespace. A range is accepted only when
//! `min <= max`.

use vstd::prelude::*;
use crate::text::{
    count_of, digit_val, digits_value, first_at, is_digit_char, is_digits, is_space_char,
    lemma_count_take_step, lemma_digits_value_prefix_le, lemma_first_at, lemma_take_full,
    lemma_trim_back_idx, lemma_trim_front_idx, trimmed,
};

verus! {

/// The number a range side denotes: its text with surrounding whitespace
/// removed must be a non-empty digit run whose value fits in `u64`.
pub open spec fn part_value(s: Seq<char>) -> Option<u64> {
    let t = trimmed(s);
    if is_digits(t) && digits_value(t) <= u64::MAX {
        Some(digits_value(t) as u64)
    } else {
        None
    }
}

/// What a fragmentation-range string denotes: `Some((min, max))` exactly
/// when the string has exactly one `-`, both sides denote numbers, and
/// `min <= max`.
pub open spec fn fragment_range(s: Seq<char>) -> Option<(u64, u64)> {
    if count_of(s, '-') == 1 {
        let i = first_at(s, '-');
        match (part_value(s.take(i)), part_value(s.skip(i + 1))) {
            (Some(lo), Some(hi)) => if lo <= hi {
                Some((lo, hi))
            } else {
                None
            },
            _ => None,
        }
    } else {
        None
    }
}

/// Whether `c` is ASCII whitespace.
fn is_space(c: char) -> (r: bool)
    ensures
        r == is_space_char(c),
{
    let u = c as u32;
    u == 32 || u == 9 || u == 10 || u == 11 || u == 12 || u == 13
}

/// Parses the slice of `s` between `lo` and `hi` as one range side.
fn scan_part(s: &str, lo: usize, hi: usize) -> (r: Option<u64>)
    requires
        lo <= hi <= s@.len(),
    ensures
        r == part_value(s@.subrange(lo as int, hi as int)),
{
    let ghost p = s@.subrange(lo as int, hi as int);
    let mut a = lo;
    while a < hi && is_space(s.get_char(a))
        invariant
            lo <= a <= hi <= s@.len(),
            forall|j: int| lo <= j < a ==> is_space_char(#[trigger] s@[j]),
        decreases hi - a,
    {
        a = a + 1;
    }
    let mut b = hi;
    while b > a && is_space(s.get_char(b - 1))
        invariant
            a <= b <= hi <= s@.len(),
            forall|j: int| b <= j < hi ==> is_space_char(#[trigger] s@[j]),
        decreases b - a,
    {
        b = b - 1;
    }
    proof {
        assert forall|j: int| 0 <= j < a - lo implies is_space_char(#[trigger] p[j]) by {
            assert(p[j] == s@[lo + j]);
        }
        if a < hi {
            assert(p[a - lo] == s@[a as int]);
        }
        lemma_trim_front_idx(p, a - lo);
        let q = p.skip(a - lo);
        assert forall|j: int| b - a <= j < q.len() implies is_space_char(#[trigger] q[j]) by {
            assert(q[j] == s@[a + j]);
        }
        if b > a {
            assert(q[b - a - 1] == s@[b - 1]);
        }
        lemma_trim_back_idx(q, b - a);
        assert(trimmed(p) =~= s@.subrange(a as int, b as int));
    }
    let ghost t = s@.subrange(a as int, b as int);
    if a == b {
        // an empty side is not a number
        assert(!is_digits(t));
        return None;
    }
    let mut value: u64 = 0;
    let mut j = a;
    while j < b
        invariant
            lo <= a <= j <= b <= hi <= s@.len(),
            a < b,
            t == s@.subrange(a as int, b as int),
            t == trimmed(s@.subrange(lo as int, hi as int)),
            forall|k: int| 0 <= k < j - a ==> is_digit_char(#[trigger] t[k]),
            value == digits_value(t.take(j - a)),
        decreases b - j,
    {
        let c = s.get_char(j);
        let u = c as u32;
        proof {
            assert(t[j - a] == s@[j as int]);
        }
        if u < 48 || u > 57 {
            // a non-digit character: the side is not a number
            assert(!is_digit_char(t[j - a]));
            assert(!is_digits(t));
            return None;
        }
        let d: u64 = (u - 48) as u64;
        proof {
            assert(t.take(j - a + 1).drop_last() =~= t.take(j - a));
            assert(t.take(j - a + 1).last() == t[j - a]);
            assert(digit_val(t[j - a]) == d);
        }
        let scaled = match value.checked_mul(10) {
            Some(v) => v,
            None => {
                proof {
                    assert(digits_value(t.take(j - a + 1)) > u64::MAX);
                    if is_digits(t) {
                        lemma_digits_value_prefix_le(t, j - a + 1);
                    }
                }
                return None;
            },
        };
        value = match scaled.checked_add(d) {
            Some(v) => v,
            None => {
                proof {
                    assert(digits_value(t.take(j - a + 1)) > u64::MAX);
                    if is_digits(t) {
                        lemma_digits_value_prefix_le(t, j - a + 1);
                    }
                }
                return None;
            },
        };
        j = j + 1;
    }
    proof {
        lemma_take_full(t);
        assert(is_digits(t));
    }
    Some(value)
}

/// Parses a fragmentation-range option of the form `<min>-<max>`.
///
/// Returns `Some((min, max))` exactly when the string contains exactly
/// one `-`, both sides (after removing surrounding ASCII whitespace) are
/// decimal numbers that fit in `u64`, and `min <= max`.
pub fn parse_fragment_option(option: String) -> (r: Option<(u64, u64)>)
    ensures
        r == fragment_range(option@),
        r matches Some(p) ==> p.0 <= p.1,
{
    let s = option.as_str();
    let n = s.unicode_len();
    let mut i: usize = 0;
    let mut dashes: usize = 0;
    let mut dash_idx: usize = 0;
    while i < n
        invariant
            0 <= i <= n,
            n == s@.len(),
            dashes <= i,
            dashes as nat == count_of(s@.take(i as int), '-'),
            dashes == 0 ==> forall|j: int| 0 <= j < i ==> s@[j] != '-',
            dashes >= 1 ==> dash_idx < i && s@[dash_idx as int] == '-' && forall|j: int|
                0 <= j < dash_idx ==> s@[j] != '-',
        decreases n - i,
    {
        let c = s.get_char(i);
        proof {
            lemma_count_take_step(s@, '-', i as int);
        }
        if c == '-' {
            if dashes == 0 {
                dash_idx = i;
            }
            dashes = dashes + 1;
        }
        i = i + 1;
    }
    proof {
        lemma_take_full(s@);
    }
    if dashes != 1 {
        return None;
    }
    proof {
        lemma_first_at(s@, '-', dash_idx as int);
    }
    let left = scan_part(s, 0, dash_idx);
    let right = scan_part(s, dash_idx + 1, n);
    proof {
        assert(s@.subrange(0, dash_idx as int) =~= s@.take(dash_idx as int));
        assert(s@.subrange(dash_idx + 1, n as int) =~= s@.skip(dash_idx + 1));
    }
    match (left, right) {
        (Some(lo), Some(hi)) => if lo <= hi {
            Some((lo, hi))
        } else {
            None
        },
        _ => None,
    }
}

} // verus!

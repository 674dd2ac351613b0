//! The `address:port` grammar.
//!
//! A listen or server endpoint is written as a numeric address and a
//! port: either a dotted-quad IPv4 address `a.b.c.d:port`, or a
//! bracketed IPv6 address `[groups]:port` where the groups are runs of
//! one to four hexadecimal digits separated by `:`, with at most one
//! `::` compression standing for at least one elided group. Host names,
//! zone identifiers and embedded IPv4 tails are not part of the grammar.
//! The port is a run of decimal digits whose value fits in `u16`.

use vstd::prelude::*;
use crate::text::{
    count_of, digits_value, first_at, is_digit_char, is_digits, is_hex_char,
    lemma_count_take_step, lemma_digits_value_prefix_le, lemma_first_at, lemma_first_at_none,
    lemma_take_full,
};

verus! {

/// One IPv4 octet: one to three digits, value at most 255, no leading
/// zero except for `0` itself.
pub open spec fn valid_octet(s: Seq<char>) -> bool {
    is_digits(s) && s.len() <= 3 && digits_value(s) <= 255 && (s.len() > 1 ==> s[0] != '0')
}

/// A dotted-quad IPv4 address: four octets separated by `.`.
pub open spec fn valid_ipv4(s: Seq<char>) -> bool {
    let p1 = first_at(s, '.');
    p1 < s.len() && {
        let r1 = s.skip(p1 + 1);
        let q2 = first_at(r1, '.');
        q2 < r1.len() && {
            let r2 = r1.skip(q2 + 1);
            let q3 = first_at(r2, '.');
            q3 < r2.len() && valid_octet(s.take(p1)) && valid_octet(r1.take(q2)) && valid_octet(
                r2.take(q3),
            ) && valid_octet(r2.skip(q3 + 1))
        }
    }
}

/// How many positions start a `::` pair.
pub open spec fn double_colon_count(s: Seq<char>) -> nat
    decreases s.len(),
{
    if s.len() < 2 {
        0
    } else {
        double_colon_count(s.drop_last()) + if s[s.len() - 2] == ':' && s.last() == ':' {
            1nat
        } else {
            0nat
        }
    }
}

/// How many maximal runs of hexadecimal digits occur: one for each hex
/// character that is at the start or right after a `:`.
pub open spec fn hex_run_count(s: Seq<char>) -> nat
    decreases s.len(),
{
    if s.len() == 0 {
        0
    } else {
        hex_run_count(s.drop_last()) + if is_hex_char(s.last()) && (s.len() == 1 || s[s.len()
            - 2] == ':') {
            1nat
        } else {
            0nat
        }
    }
}

/// Five consecutive hexadecimal digits starting at `i`.
pub open spec fn five_hex_at(s: Seq<char>, i: int) -> bool {
    0 <= i && i + 5 <= s.len() && forall|j: int| i <= j < i + 5 ==> is_hex_char(#[trigger] s[j])
}

/// Some group would be longer than four digits.
pub open spec fn has_five_hex(s: Seq<char>) -> bool {
    exists|i: int| five_hex_at(s, i)
}

/// An IPv6 address, written as it stands between the brackets: only hex
/// digits and `:`; no group longer than four digits; no single leading
/// or trailing `:`; at most one `::`; and exactly eight groups, or up to
/// seven when a `::` elides the rest.
pub open spec fn valid_ipv6(s: Seq<char>) -> bool {
    &&& s.len() >= 2
    &&& forall|i: int| 0 <= i < s.len() ==> is_hex_char(#[trigger] s[i]) || s[i] == ':'
    &&& count_of(s, ':') >= 1
    &&& (s[0] == ':' ==> s[1] == ':')
    &&& (s[s.len() - 1] == ':' ==> s[s.len() - 2] == ':')
    &&& double_colon_count(s) <= 1
    &&& !has_five_hex(s)
    &&& (if double_colon_count(s) == 1 {
        hex_run_count(s) <= 7
    } else {
        hex_run_count(s) == 8
    })
}

/// The port a digit run denotes, when it has one and it fits in `u16`.
pub open spec fn port_value(s: Seq<char>) -> Option<u16> {
    if is_digits(s) && digits_value(s) <= 65535 {
        Some(digits_value(s) as u16)
    } else {
        None
    }
}

/// What an `address:port` string denotes: the address text and the port
/// number, or nothing when the string is not in the grammar.
pub open spec fn host_port(s: Seq<char>) -> Option<(Seq<char>, u16)> {
    if s.len() > 0 && s[0] == '[' {
        let rb = first_at(s, ']');
        if rb + 2 <= s.len() && s[rb + 1] == ':' && valid_ipv6(s.subrange(1, rb)) {
            match port_value(s.skip(rb + 2)) {
                Some(p) => Some((s.subrange(1, rb), p)),
                None => None,
            }
        } else {
            None
        }
    } else {
        let c = first_at(s, ':');
        if c < s.len() && valid_ipv4(s.take(c)) {
            match port_value(s.skip(c + 1)) {
                Some(p) => Some((s.take(c), p)),
                None => None,
            }
        } else {
            None
        }
    }
}

/// Extending a prefix by one character adds a `::` start exactly when
/// the last two characters are both `:`.
proof fn lemma_dcc_step(s: Seq<char>, i: int)
    requires
        0 <= i < s.len(),
    ensures
        double_colon_count(s.take(i + 1)) == double_colon_count(s.take(i)) + if i >= 1 && s[i - 1]
            == ':' && s[i] == ':' {
            1nat
        } else {
            0nat
        },
{
    assert(s.take(i + 1).drop_last() =~= s.take(i));
    assert(s.take(i + 1).last() == s[i]);
    if i >= 1 {
        assert(s.take(i + 1)[i - 1] == s[i - 1]);
    }
}

/// Extending a prefix by one character starts a new hex run exactly when
/// the new character is hex and stands at the start or after a `:`.
proof fn lemma_hrc_step(s: Seq<char>, i: int)
    requires
        0 <= i < s.len(),
    ensures
        hex_run_count(s.take(i + 1)) == hex_run_count(s.take(i)) + if is_hex_char(s[i]) && (i == 0
            || s[i - 1] == ':') {
            1nat
        } else {
            0nat
        },
{
    assert(s.take(i + 1).drop_last() =~= s.take(i));
    assert(s.take(i + 1).last() == s[i]);
    if i >= 1 {
        assert(s.take(i + 1)[i - 1] == s[i - 1]);
    }
}

/// A prefix free of five-hex windows stays free when the next character
/// is not hex, or is hex but fewer than four hex characters precede it.
proof fn lemma_five_hex_step(t: Seq<char>, i: int, run: int)
    requires
        0 <= i < t.len(),
        0 <= run <= 4,
        run <= i,
        !has_five_hex(t.take(i)),
        forall|j: int| i - run <= j < i ==> is_hex_char(#[trigger] t[j]),
        run < i ==> !is_hex_char(t[i - run - 1]),
        !is_hex_char(t[i]) || run < 4,
    ensures
        !has_five_hex(t.take(i + 1)),
{
    if has_five_hex(t.take(i + 1)) {
        let w = choose|w: int| #[trigger] five_hex_at(t.take(i + 1), w);
        assert(five_hex_at(t.take(i + 1), w));
        assert forall|j: int| w <= j < w + 5 implies is_hex_char(#[trigger] t[j]) by {
            assert(t.take(i + 1)[j] == t[j]);
            assert(is_hex_char(t.take(i + 1)[j]));
        }
        if w + 5 <= i {
            assert forall|j: int| w <= j < w + 5 implies is_hex_char(#[trigger] t.take(i)[j]) by {
                assert(t.take(i)[j] == t[j]);
            }
            assert(five_hex_at(t.take(i), w));
            assert(false);
        } else {
            assert(w == i - 4);
            assert(is_hex_char(t[i]));
            assert(run < 4);
            assert(w <= i - run - 1 < i);
            assert(is_hex_char(t[i - run - 1]));
            assert(false);
        }
    }
}

/// Whether `c` is a hexadecimal digit.
fn is_hex(c: char) -> (r: bool)
    ensures
        r == is_hex_char(c),
{
    let u = c as u32;
    (48 <= u && u <= 57) || (97 <= u && u <= 102) || (65 <= u && u <= 70)
}

/// The index of the first occurrence of `c` in `s`, if any.
fn find_first(s: &str, c: char) -> (r: Option<usize>)
    ensures
        match r {
            Some(i) => i < s@.len() && s@[i as int] == c && first_at(s@, c) == i as int,
            None => first_at(s@, c) == s@.len() as int && forall|j: int|
                0 <= j < s@.len() ==> s@[j] != c,
        },
{
    let n = s.unicode_len();
    let mut i: usize = 0;
    while i < n
        invariant
            0 <= i <= n,
            n == s@.len(),
            forall|j: int| 0 <= j < i ==> s@[j] != c,
        decreases n - i,
    {
        if s.get_char(i) == c {
            proof {
                lemma_first_at(s@, c, i as int);
            }
            return Some(i);
        }
        i = i + 1;
    }
    proof {
        lemma_first_at_none(s@, c);
    }
    None
}

/// Whether `s` is one valid IPv4 octet.
fn octet_ok(s: &str) -> (r: bool)
    ensures
        r == valid_octet(s@),
{
    let n = s.unicode_len();
    if n == 0 || n > 3 {
        return false;
    }
    if n > 1 && s.get_char(0) == '0' {
        return false;
    }
    let mut value: u32 = 0;
    let mut j: usize = 0;
    while j < n
        invariant
            0 <= j <= n <= 3,
            n == s@.len(),
            forall|k: int| 0 <= k < j ==> is_digit_char(#[trigger] s@[k]),
            value == digits_value(s@.take(j as int)),
            j == 0 ==> value == 0,
            j <= 1 ==> value < 10,
            j <= 2 ==> value < 100,
            value < 1000,
        decreases n - j,
    {
        let c = s.get_char(j);
        let u = c as u32;
        if u < 48 || u > 57 {
            assert(!is_digit_char(s@[j as int]));
            return false;
        }
        proof {
            assert(s@.take(j + 1).drop_last() =~= s@.take(j as int));
            assert(s@.take(j + 1).last() == s@[j as int]);
        }
        value = value * 10 + (u - 48);
        j = j + 1;
    }
    proof {
        lemma_take_full(s@);
    }
    value <= 255
}

/// Whether `s` is a valid dotted-quad IPv4 address.
fn ipv4_ok(s: &str) -> (r: bool)
    ensures
        r == valid_ipv4(s@),
{
    let n = s.unicode_len();
    let d1 = match find_first(s, '.') {
        Some(i) => i,
        None => {
            return false;
        },
    };
    let rest1 = s.substring_char(d1 + 1, n);
    proof {
        assert(rest1@ =~= s@.skip(d1 + 1));
    }
    let n1 = rest1.unicode_len();
    let d2 = match find_first(rest1, '.') {
        Some(i) => i,
        None => {
            return false;
        },
    };
    let rest2 = rest1.substring_char(d2 + 1, n1);
    proof {
        assert(rest2@ =~= rest1@.skip(d2 + 1));
    }
    let n2 = rest2.unicode_len();
    let d3 = match find_first(rest2, '.') {
        Some(i) => i,
        None => {
            return false;
        },
    };
    let o1 = s.substring_char(0, d1);
    let o2 = rest1.substring_char(0, d2);
    let o3 = rest2.substring_char(0, d3);
    let o4 = rest2.substring_char(d3 + 1, n2);
    proof {
        assert(o1@ =~= s@.take(d1 as int));
        assert(o2@ =~= rest1@.take(d2 as int));
        assert(o3@ =~= rest2@.take(d3 as int));
        assert(o4@ =~= rest2@.skip(d3 + 1));
    }
    octet_ok(o1) && octet_ok(o2) && octet_ok(o3) && octet_ok(o4)
}

/// Whether `s` is a valid IPv6 address as written between brackets.
fn ipv6_ok(s: &str) -> (r: bool)
    ensures
        r == valid_ipv6(s@),
{
    let n = s.unicode_len();
    if n < 2 {
        return false;
    }
    let mut i: usize = 0;
    let mut colons: usize = 0;
    let mut dcc: usize = 0;
    let mut hrc: usize = 0;
    let mut run: usize = 0;
    let mut prev: char = ' ';
    while i < n
        invariant
            0 <= i <= n,
            n == s@.len(),
            n >= 2,
            colons as nat == count_of(s@.take(i as int), ':'),
            dcc as nat == double_colon_count(s@.take(i as int)),
            hrc as nat == hex_run_count(s@.take(i as int)),
            forall|j: int| 0 <= j < i ==> is_hex_char(#[trigger] s@[j]) || s@[j] == ':',
            i > 0 ==> prev == s@[i - 1],
            run <= 4,
            run <= i,
            forall|j: int| i - run <= j < i ==> is_hex_char(#[trigger] s@[j]),
            run < i ==> !is_hex_char(s@[i - run - 1]),
            !has_five_hex(s@.take(i as int)),
            colons <= i,
            dcc <= i,
            hrc <= i,
        decreases n - i,
    {
        let c = s.get_char(i);
        let hex = is_hex(c);
        if !hex && c != ':' {
            assert(!(is_hex_char(s@[i as int]) || s@[i as int] == ':'));
            return false;
        }
        if hex && run == 4 {
            assert(five_hex_at(s@, i - 4));
            assert(has_five_hex(s@));
            return false;
        }
        proof {
            lemma_count_take_step(s@, ':', i as int);
            lemma_dcc_step(s@, i as int);
            lemma_hrc_step(s@, i as int);
            lemma_five_hex_step(s@, i as int, run as int);
        }
        if hex {
            if i == 0 || prev == ':' {
                hrc = hrc + 1;
            }
            run = run + 1;
        } else {
            if i > 0 && prev == ':' {
                dcc = dcc + 1;
            }
            colons = colons + 1;
            run = 0;
        }
        prev = c;
        i = i + 1;
    }
    proof {
        lemma_take_full(s@);
    }
    let head_ok = !(s.get_char(0) == ':') || s.get_char(1) == ':';
    let tail_ok = !(s.get_char(n - 1) == ':') || s.get_char(n - 2) == ':';
    let shape_ok = if dcc == 1 {
        hrc <= 7
    } else {
        dcc == 0 && hrc == 8
    };
    colons >= 1 && head_ok && tail_ok && shape_ok
}

/// Parses `s` as a run of decimal digits denoting a port.
fn scan_port(s: &str) -> (r: Option<u16>)
    ensures
        r == port_value(s@),
{
    let n = s.unicode_len();
    if n == 0 {
        return None;
    }
    let mut value: u32 = 0;
    let mut j: usize = 0;
    while j < n
        invariant
            0 <= j <= n,
            n == s@.len(),
            n > 0,
            forall|k: int| 0 <= k < j ==> is_digit_char(#[trigger] s@[k]),
            value == digits_value(s@.take(j as int)),
            value <= 65535,
        decreases n - j,
    {
        let c = s.get_char(j);
        let u = c as u32;
        if u < 48 || u > 57 {
            assert(!is_digit_char(s@[j as int]));
            return None;
        }
        proof {
            assert(s@.take(j + 1).drop_last() =~= s@.take(j as int));
            assert(s@.take(j + 1).last() == s@[j as int]);
        }
        value = value * 10 + (u - 48);
        if value > 65535 {
            proof {
                assert(digits_value(s@.take(j + 1)) > 65535);
                if is_digits(s@) {
                    lemma_digits_value_prefix_le(s@, j + 1);
                }
            }
            return None;
        }
        j = j + 1;
    }
    proof {
        lemma_take_full(s@);
    }
    Some(value as u16)
}

/// Parses an `address:port` endpoint, yielding the address text exactly
/// as written and the port number. Returns `None` exactly when the
/// string is outside the grammar.
pub fn parse_host_port(s: &str) -> (r: Option<(String, u16)>)
    ensures
        match r {
            Some(hp) => host_port(s@) == Some((hp.0@, hp.1)),
            None => host_port(s@) is None,
        },
{
    let n = s.unicode_len();
    if n == 0 {
        return None;
    }
    if s.get_char(0) == '[' {
        let rb = match find_first(s, ']') {
            Some(i) => i,
            None => {
                return None;
            },
        };
        if rb >= n - 1 || s.get_char(rb + 1) != ':' {
            return None;
        }
        assert(rb >= 1);
        let inner = s.substring_char(1, rb);
        let port_str = s.substring_char(rb + 2, n);
        proof {
            assert(inner@ =~= s@.subrange(1, rb as int));
            assert(port_str@ =~= s@.skip(rb + 2));
        }
        if !ipv6_ok(inner) {
            return None;
        }
        match scan_port(port_str) {
            Some(p) => Some((inner.to_owned(), p)),
            None => None,
        }
    } else {
        let c = match find_first(s, ':') {
            Some(i) => i,
            None => {
                return None;
            },
        };
        let host = s.substring_char(0, c);
        let port_str = s.substring_char(c + 1, n);
        proof {
            assert(host@ =~= s@.take(c as int));
            assert(port_str@ =~= s@.skip(c + 1));
        }
        if !ipv4_ok(host) {
            return None;
        }
        match scan_port(port_str) {
            Some(p) => Some((host.to_owned(), p)),
            None => None,
        }
    }
}

} // verus!

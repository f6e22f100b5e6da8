//! The single-instance channel: the name of the file that holds the port of
//! the running instance, how that port is read back, and which received lines
//! are paths.
//!
//! A later instance sends each path on a line of its own to the first one,
//! over a local TCP connection whose port the first instance wrote down.

use vstd::prelude::*;
use crate::text::{chars_of, join3, spec_trim, string_of, trim};

verus! {

/// The name of the port file in the temporary directory, for the user named
/// by `USERNAME`, else `USER`, else `default`.
pub open spec fn spec_port_file_name(username: Option<Seq<char>>, user: Option<Seq<char>>) -> Seq<char> {
    let who = match username {
        Some(u) => u,
        None => match user {
            Some(u) => u,
            None => "default"@,
        },
    };
    "hash_checker_"@ + who + ".port"@
}

/// The port file's name: `hash_checker_<user>.port`, the user being the value
/// of `USERNAME`, else of `USER`, else `default`.
pub fn port_file_name(username: Option<&str>, user: Option<&str>) -> (r: String)
    ensures
        r@ == spec_port_file_name(
            match username {
                Some(u) => Some(u@),
                None => None,
            },
            match user {
                Some(u) => Some(u@),
                None => None,
            },
        ),
{
    let who = match username {
        Some(u) => u,
        None => match user {
            Some(u) => u,
            None => "default",
        },
    };
    join3("hash_checker_", who, ".port")
}

/// A decimal digit.
pub open spec fn is_digit(c: char) -> bool {
    '0' <= c && c <= '9'
}

/// The value of a sequence of decimal digits, most significant first.
pub open spec fn digits_value(s: Seq<char>) -> int
    decreases s.len(),
{
    if s.len() == 0 {
        0
    } else {
        digits_value(s.drop_last()) * 10 + (s.last() as int - '0' as int)
    }
}

/// The digits of an unsigned number: the text without one leading `+`.
pub open spec fn unsigned_digits(t: Seq<char>) -> Seq<char> {
    if t.len() > 0 && t[0] == '+' {
        t.drop_first()
    } else {
        t
    }
}

/// Every character is a decimal digit.
pub open spec fn all_digits(s: Seq<char>) -> bool {
    forall|i: int| 0 <= i < s.len() ==> is_digit(#[trigger] s[i])
}

/// The port written in a port file (`u16` parsing of the trimmed text: an
/// optional `+`, then at least one decimal digit, the value at most 65535).
pub open spec fn spec_parse_port(text: Seq<char>) -> Option<u16> {
    let d = unsigned_digits(spec_trim(text));
    if d.len() > 0 && all_digits(d) && digits_value(d) <= 65535 {
        Some(digits_value(d) as u16)
    } else {
        None
    }
}

proof fn lemma_digits_value_grows(s: Seq<char>, i: int)
    requires
        0 <= i <= s.len(),
        forall|j: int| 0 <= j < s.len() ==> is_digit(#[trigger] s[j]),
    ensures
        0 <= digits_value(s.take(i)) <= digits_value(s),
    decreases s.len() - i,
{
    if i < s.len() {
        lemma_digits_value_grows(s, i + 1);
        assert(s.take(i + 1).drop_last() =~= s.take(i));
        assert(is_digit(s[i]));
    } else {
        assert(s.take(i) =~= s);
    }
    lemma_digits_value_nonneg(s);
}

proof fn lemma_digits_value_nonneg(s: Seq<char>)
    requires
        forall|j: int| 0 <= j < s.len() ==> is_digit(#[trigger] s[j]),
    ensures
        digits_value(s) >= 0,
    decreases s.len(),
{
    if s.len() > 0 {
        assert(is_digit(s[s.len() - 1]));
        lemma_digits_value_nonneg(s.drop_last());
    }
}

/// Reads the port written in a port file's text: the trimmed text as a `u16`
/// (an optional `+`, then decimal digits); `None` when it is not one.
pub fn parse_port(text: &str) -> (r: Option<u16>)
    ensures
        r == spec_parse_port(text@),
{
    let t = trim(&chars_of(text));
    let start: usize = if t.len() > 0 && t[0] == '+' {
        1
    } else {
        0
    };
    let ghost d = unsigned_digits(t@);
    assert(d =~= t@.subrange(start as int, t@.len() as int));
    if start >= t.len() {
        return None;
    }
    let mut value: u32 = 0;
    let mut i: usize = start;
    while i < t.len()
        invariant
            start <= i <= t.len(),
            start < t.len(),
            t@ == spec_trim(text@),
            d == unsigned_digits(t@),
            d =~= t@.subrange(start as int, t@.len() as int),
            forall|j: int| start <= j < i ==> is_digit(#[trigger] t@[j]),
            value == digits_value(d.take(i - start)),
            value <= 65535,
        decreases t.len() - i,
    {
        let c = t[i];
        if !(c >= '0' && c <= '9') {
            assert(!is_digit(d[i - start]));
            return None;
        }
        let digit: u32 = (c as u32) - ('0' as u32);
        assert(d.take(i - start + 1).drop_last() =~= d.take(i - start));
        assert(d.take(i - start + 1).last() == c);
        let next: u32 = value * 10 + digit;
        if next > 65535 {
            proof {
                assert forall|j: int| 0 <= j < d.len() implies is_digit(#[trigger] d[j]) || j > i
                    - start by {
                    if j <= i - start {
                        assert(d[j] == t@[start + j]);
                    }
                }
                if all_digits(d) {
                    lemma_digits_value_grows(d, i - start + 1);
                }
            }
            return None;
        }
        value = next;
        i += 1;
    }
    assert(d.take(i - start) =~= d);
    assert forall|j: int| 0 <= j < d.len() implies is_digit(#[trigger] d[j]) by {
        assert(d[j] == t@[start + j]);
    }
    Some(value as u16)
}

/// A line received from another instance, as a path: the trimmed line, or
/// `None` when it is blank.
pub fn received_path(line: &str) -> (r: Option<String>)
    ensures
        match r {
            Some(p) => p@ == spec_trim(line@) && p@.len() > 0,
            None => spec_trim(line@).len() == 0,
        },
{
    let t = trim(&chars_of(line));
    if t.len() == 0 {
        None
    } else {
        Some(string_of(&t))
    }
}

} // verus!

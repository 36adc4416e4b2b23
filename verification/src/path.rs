//! Navigation of segment paths through resolved values.
//!
//! A segment names an entry of an object or, written as a decimal number, a
//! position in a list. Following a path never fails: a segment that is
//! missing, or that does not fit the value it meets, gives absence.

use vstd::prelude::*;
use vstd::string::is_ascii_spec_bytes;
use vstd::utf8::is_ascii_chars;
use crate::text::views;
use crate::value::{Value, ValueView, entry_value, find_entry, lemma_list_view};

verus! {

/// Whether `c` is one of the ten ASCII decimal digits.
pub open spec fn is_digit(c: char) -> bool {
    '0' <= c && c <= '9'
}

/// The number that the digits of `s` spell in base ten.
pub open spec fn digits_value(s: Seq<char>) -> nat
    decreases s.len(),
{
    if s.len() == 0 {
        0
    } else {
        (digits_value(s.drop_last()) * 10 + (s.last() as u32 - '0' as u32)) as nat
    }
}

/// The digits of a segment: the segment without a leading plus sign.
pub open spec fn index_digits(segment: Seq<char>) -> Seq<char> {
    if segment.len() > 0 && segment[0] == '+' {
        segment.skip(1)
    } else {
        segment
    }
}

/// The list position that a segment names: the segment is an optional plus
/// sign followed by one or more decimal digits and nothing else.
pub open spec fn index_of(segment: Seq<char>) -> Option<nat> {
    let digits = index_digits(segment);
    if digits.len() > 0 && (forall|i: int| 0 <= i < digits.len() ==> is_digit(#[trigger] digits[i])) {
        Some(digits_value(digits))
    } else {
        None
    }
}

/// A longer run of digits never spells a smaller number than its prefix.
pub proof fn lemma_digits_value_monotonic(s: Seq<char>, k: int)
    requires
        0 <= k <= s.len(),
        forall|i: int| 0 <= i < s.len() ==> is_digit(#[trigger] s[i]),
    ensures
        digits_value(s.take(k)) <= digits_value(s),
    decreases s.len() - k,
{
    if k == s.len() {
        assert(s.take(k) =~= s);
    } else {
        let next = s.take(k + 1);
        assert(next.drop_last() =~= s.take(k));
        assert(is_digit(s[k]));
        assert(next.last() == s[k]);
        assert(digits_value(next) >= digits_value(s.take(k)) * 10);
        lemma_digits_value_monotonic(s, k + 1);
    }
}

/// Reads a segment as a list position. Gives nothing where the segment is no
/// decimal number or names a position beyond what the machine can address.
pub fn parse_index(segment: &str) -> (r: Option<usize>)
    ensures
        r == match index_of(segment@) {
            Some(n) => if n <= usize::MAX {
                Some(n as usize)
            } else {
                None
            },
            None => None,
        },
{
    broadcast use is_ascii_spec_bytes;

    if !segment.is_ascii() {
        proof {
            let s = segment@;
            let bad = choose|i: int| 0 <= i < s.len() && !('\0' <= #[trigger] s[i] <= '\u{7f}');
            let digits = index_digits(s);
            if bad == 0 && s[0] == '+' {
            } else if s.len() > 0 && s[0] == '+' {
                assert(digits[bad - 1] == s[bad]);
                assert(!is_digit(digits[bad - 1]));
            } else {
                assert(!is_digit(digits[bad]));
            }
        }
        return None;
    }
    let bytes = segment.as_bytes();
    assert(bytes@.len() == segment@.len());
    assert(forall|i: int| 0 <= i < bytes@.len() ==> bytes@[i] == segment@[i] as u8);
    let n = bytes.len();
    let start: usize = if n > 0 && bytes[0] == 43u8 {
        1
    } else {
        0
    };
    let ghost digits = index_digits(segment@);
    assert(digits =~= segment@.skip(start as int));
    if start == n {
        return None;
    }
    let mut acc: usize = 0;
    let mut i: usize = start;
    while i < n
        invariant
            start <= i <= n,
            n == bytes@.len(),
            n == segment@.len(),
            digits == segment@.skip(start as int),
            digits == index_digits(segment@),
            is_ascii_chars(segment@),
            forall|j: int| 0 <= j < bytes@.len() ==> bytes@[j] == segment@[j] as u8,
            forall|j: int| 0 <= j < i - start ==> is_digit(#[trigger] digits[j]),
            acc == digits_value(digits.take(i - start)),
        decreases n - i,
    {
        let b = bytes[i];
        let ghost c = segment@[i as int];
        assert(digits[i - start] == c);
        assert('\0' <= c <= '\u{7f}');
        if b < 48u8 || b > 57u8 {
            assert(!is_digit(digits[i - start]));
            return None;
        }
        assert(is_digit(c));
        let d: usize = (b - 48u8) as usize;
        proof {
            let next = digits.take(i - start + 1);
            assert(next.drop_last() =~= digits.take(i - start));
            assert(next.last() == c);
            assert(digits_value(next) == acc * 10 + d);
        }
        let grown = match acc.checked_mul(10) {
            Some(m) => m.checked_add(d),
            None => None,
        };
        match grown {
            Some(v) => {
                acc = v;
            },
            None => {
                proof {
                    assert(digits_value(digits.take(i - start + 1)) > usize::MAX);
                    if forall|j: int| 0 <= j < digits.len() ==> is_digit(#[trigger] digits[j]) {
                        lemma_digits_value_monotonic(digits, i - start + 1);
                    }
                }
                return None;
            },
        }
        i += 1;
    }
    proof {
        assert(digits.take(n - start) =~= digits);
    }
    Some(acc)
}

/// One step of a path: the entry of an object that `segment` names, or the
/// item of a list at the position that it spells.
pub open spec fn step_value(value: ValueView, segment: Seq<char>) -> Option<ValueView> {
    match value {
        ValueView::Object(entries) => entry_value(entries, segment),
        ValueView::List(items) => match index_of(segment) {
            Some(n) => if n < items.len() {
                Some(items[n as int])
            } else {
                None
            },
            None => None,
        },
        _ => None,
    }
}

/// The value that `path` leads to from `value`, one step per segment. The
/// empty path leads to the value itself.
pub open spec fn path_value(value: ValueView, path: Seq<Seq<char>>) -> Option<ValueView>
    decreases path.len(),
{
    if path.len() == 0 {
        Some(value)
    } else {
        match step_value(value, path[0]) {
            Some(next) => path_value(next, path.skip(1)),
            None => None,
        }
    }
}

/// Follows `path` from `input`: through an object by the name of an entry,
/// through a list by a position written in decimal. Gives nothing as soon as
/// a segment is missing or does not fit the value that it meets.
pub fn get_path_value<'a>(input: &'a Value, path: &[String]) -> (r: Option<&'a Value>)
    ensures
        match r {
            Some(v) => path_value(input@, views(path@)) == Some(v@),
            None => path_value(input@, views(path@)) is None,
        },
{
    let ghost segments = views(path@);
    let mut value: &'a Value = input;
    let mut i: usize = 0;
    assert(segments.skip(0) =~= segments);
    while i < path.len()
        invariant
            i <= path.len(),
            segments == views(path@),
            path_value(input@, segments) == path_value(value@, segments.skip(i as int)),
        decreases path.len() - i,
    {
        let ghost rest = segments.skip(i as int);
        assert(rest[0] == path@[i as int]@);
        assert(rest.skip(1) =~= segments.skip(i as int + 1));
        let segment = path[i].as_str();
        match value {
            Value::Object(entries) => {
                match find_entry(entries, segment) {
                    Some(v) => {
                        value = v;
                    },
                    None => {
                        return None;
                    },
                }
            },
            Value::List(items) => {
                let len = items.len();
                proof {
                    lemma_list_view(items@);
                }
                match parse_index(segment) {
                    Some(n) => {
                        if n < len {
                            value = &items[n];
                        } else {
                            return None;
                        }
                    },
                    None => {
                        return None;
                    },
                }
            },
            _ => {
                return None;
            },
        }
        i += 1;
    }
    assert(segments.skip(path.len() as int).len() == 0);
    Some(value)
}

} // verus!

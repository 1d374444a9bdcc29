//! Tolerant comparison of dot-separated version strings.
//!
//! A version string is split at its dots. Each segment that is written as a
//! non-negative integer is a component with that value; any other segment is
//! a component 0. Two versions are compared component by component from the
//! left, and a position that one of them lacks counts as 0. Nothing here
//! fails: every string is a version.

use vstd::prelude::*;

verus! {

/// The largest value that a single component can hold.
pub open spec fn component_limit() -> nat {
    u32::MAX as nat
}

/// `c` is one of the ten decimal digits.
pub open spec fn is_digit(c: char) -> bool {
    '0' <= c && c <= '9'
}

/// Every character of `s` is a decimal digit.
pub open spec fn all_digits(s: Seq<char>) -> bool {
    forall|i: int| 0 <= i < s.len() ==> is_digit(#[trigger] s[i])
}

/// The number that a run of decimal digits denotes, most significant digit first.
pub open spec fn decimal_value(digits: Seq<char>) -> nat
    decreases digits.len(),
{
    if digits.len() == 0 {
        0
    } else {
        (10 * decimal_value(digits.drop_last()) + (digits.last() as int - '0' as int)) as nat
    }
}

/// A segment without the single plus sign that may precede its digits.
pub open spec fn unsigned_part(segment: Seq<char>) -> Seq<char> {
    if segment.len() > 0 && segment[0] == '+' {
        segment.skip(1)
    } else {
        segment
    }
}

/// `segment` is written as a non-negative integer that fits a component:
/// an optional plus sign, then one or more digits, denoting at most
/// `component_limit()`.
pub open spec fn is_numeral(segment: Seq<char>) -> bool {
    let digits = unsigned_part(segment);
    digits.len() > 0 && all_digits(digits) && decimal_value(digits) <= component_limit()
}

/// The value of one segment: its number where it is a numeral, otherwise 0.
pub open spec fn segment_value(segment: Seq<char>) -> nat {
    if is_numeral(segment) {
        decimal_value(unsigned_part(segment))
    } else {
        0
    }
}

/// The length of the part of `s` that precedes its first dot, or of all of
/// `s` where it holds no dot.
pub open spec fn first_segment_len(s: Seq<char>) -> nat
    decreases s.len(),
{
    if s.len() == 0 || s[0] == '.' {
        0
    } else {
        1 + first_segment_len(s.skip(1))
    }
}

/// The values of the segments that the dots of `s` separate, in order. A
/// string without a dot is one segment, so the result is never empty.
pub open spec fn segment_values(s: Seq<char>) -> Seq<nat>
    decreases s.len(),
{
    let n = first_segment_len(s) as int;
    if n >= s.len() {
        seq![segment_value(s)]
    } else {
        seq![segment_value(s.take(n))] + segment_values(s.skip(n + 1))
    }
}

/// The components of a version string. The empty string has none; any other
/// string has one component for each of its dot-separated segments.
pub open spec fn version_components(version: Seq<char>) -> Seq<nat> {
    if version.len() == 0 {
        Seq::empty()
    } else {
        segment_values(version)
    }
}

/// The component at position `i`, where a position past the end holds 0.
pub open spec fn component_at(parts: Seq<nat>, i: int) -> nat {
    if 0 <= i < parts.len() {
        parts[i]
    } else {
        0
    }
}

/// `a` and `b` hold the same component at every position before `i`.
pub open spec fn agree_before(a: Seq<nat>, b: Seq<nat>, i: int) -> bool {
    forall|j: int| 0 <= j < i ==> #[trigger] component_at(a, j) == component_at(b, j)
}

/// `latest` is strictly greater than `current`: at the first position where
/// the two differ, `latest` holds the greater component.
pub open spec fn components_newer(latest: Seq<nat>, current: Seq<nat>) -> bool {
    exists|i: int|
        0 <= i && agree_before(latest, current, i) && #[trigger] component_at(latest, i)
            > component_at(current, i)
}

/// The version string `latest` denotes a strictly newer version than `current`.
pub open spec fn is_newer(latest: Seq<char>, current: Seq<char>) -> bool {
    components_newer(version_components(latest), version_components(current))
}

/// The components that a vector of machine integers stands for.
pub open spec fn as_components(parts: Seq<u32>) -> Seq<nat> {
    parts.map_values(|p: u32| p as nat)
}

/// Where `smaller` and `greater` agree before position `i` and `smaller`
/// holds the smaller component there, `greater` is the greater of the two.
pub proof fn lemma_first_difference_decides(smaller: Seq<nat>, greater: Seq<nat>, i: int)
    requires
        0 <= i,
        agree_before(smaller, greater, i),
        component_at(smaller, i) < component_at(greater, i),
    ensures
        components_newer(greater, smaller),
        !components_newer(smaller, greater),
{
}

/// Where `a` and `b` agree before a position that neither reaches, neither
/// is greater than the other.
pub proof fn lemma_agreeing_throughout(a: Seq<nat>, b: Seq<nat>, n: int)
    requires
        a.len() <= n,
        b.len() <= n,
        agree_before(a, b, n),
    ensures
        !components_newer(a, b),
        !components_newer(b, a),
{
}

/// The first segment of `s` holds no dot and ends at a dot or at the end of `s`.
pub proof fn lemma_first_segment_is_dot_free(s: Seq<char>)
    ensures
        first_segment_len(s) <= s.len(),
        forall|i: int| 0 <= i < first_segment_len(s) ==> s[i] != '.',
        first_segment_len(s) < s.len() ==> s[first_segment_len(s) as int] == '.',
    decreases s.len(),
{
    if s.len() > 0 && s[0] != '.' {
        let rest = s.skip(1);
        lemma_first_segment_is_dot_free(rest);
        assert forall|i: int| 0 <= i < first_segment_len(s) implies s[i] != '.' by {
            if i > 0 {
                assert(s[i] == rest[i - 1]);
            }
        }
    }
}

/// A run of digits denotes at least what any of its prefixes denotes.
proof fn lemma_decimal_value_grows(digits: Seq<char>, n: int)
    requires
        all_digits(digits),
        0 <= n <= digits.len(),
    ensures
        decimal_value(digits.take(n)) <= decimal_value(digits),
    decreases digits.len(),
{
    if n == digits.len() {
        assert(digits.take(n) =~= digits);
    } else {
        let shorter = digits.drop_last();
        assert(shorter.take(n) =~= digits.take(n));
        lemma_decimal_value_grows(shorter, n);
    }
}

/// Where `s` holds no dot before position `n`, and a dot or its end there,
/// its first segment has length `n`.
pub proof fn lemma_first_segment_len(s: Seq<char>, n: int)
    requires
        0 <= n <= s.len(),
        forall|i: int| 0 <= i < n ==> s[i] != '.',
        n < s.len() ==> s[n] == '.',
    ensures
        first_segment_len(s) == n,
    decreases n,
{
    if n > 0 {
        lemma_first_segment_len(s.skip(1), n - 1);
    }
}

/// The digit that `c` stands for, where it is one.
fn digit_of(c: char) -> (d: Option<u32>)
    ensures
        d is Some <==> is_digit(c),
        d matches Some(n) ==> n == c as int - '0' as int,
{
    let code: u32 = c as u32;
    if 48 <= code && code <= 57 {
        Some(code - 48)
    } else {
        None
    }
}

/// The characters of `text`, in order.
fn chars_of(text: &str) -> (chars: Vec<char>)
    ensures
        chars@ == text@,
{
    let mut chars: Vec<char> = Vec::new();
    for c in it: text.chars()
        invariant
            it.seq() == text@,
            chars@ == it.seq().take(it.index()),
    {
        chars.push(c);
    }
    chars
}

/// The value of the segment that `text` holds from `start` up to `end`.
fn parse_segment(text: &Vec<char>, start: usize, end: usize) -> (value: u32)
    requires
        start <= end <= text.len(),
    ensures
        value == segment_value(text@.subrange(start as int, end as int)),
{
    let mut i: usize = start;
    if i < end && text[i] == '+' {
        i = i + 1;
    }
    let first: usize = i;
    let ghost digits = text@.subrange(first as int, end as int);
    if first == end {
        return 0;
    }
    let mut value: u32 = 0;
    while i < end
        invariant
            start <= first <= i <= end <= text.len(),
            digits == text@.subrange(first as int, end as int),
            digits == unsigned_part(text@.subrange(start as int, end as int)),
            all_digits(digits.take(i - first)),
            value == decimal_value(digits.take(i - first)),
        decreases end - i,
    {
        assert(digits.take(i - first + 1).drop_last() =~= digits.take(i - first));
        match digit_of(text[i]) {
            None => {
                assert(!is_digit(digits[i - first]));
                return 0;
            },
            Some(d) => {
                if value > (u32::MAX - d) / 10 {
                    proof {
                        if all_digits(digits) {
                            lemma_decimal_value_grows(digits, i - first + 1);
                        }
                    }
                    return 0;
                }
                value = value * 10 + d;
            },
        }
        i = i + 1;
    }
    assert(digits.take(i - first) =~= digits);
    value
}

/// The position of the first dot of `text` at or after `start`, or the
/// length of `text` where there is none.
fn segment_end(text: &Vec<char>, start: usize) -> (end: usize)
    requires
        start <= text.len(),
    ensures
        start <= end <= text.len(),
        end - start == first_segment_len(text@.skip(start as int)),
{
    let mut end: usize = start;
    while end < text.len() && text[end] != '.'
        invariant
            start <= end <= text.len(),
            forall|i: int| start <= i < end ==> text[i] != '.',
        decreases text.len() - end,
    {
        end = end + 1;
    }
    proof {
        lemma_first_segment_len(text@.skip(start as int), end - start);
    }
    end
}

/// Splits a version string at its dots and reads each segment as a
/// non-negative integer. A segment that is not one counts as 0.
pub fn parse_version(version: &str) -> (parts: Vec<u32>)
    ensures
        as_components(parts@) == version_components(version@),
{
    let text = chars_of(version);
    let mut parts: Vec<u32> = Vec::new();
    if text.len() == 0 {
        return parts;
    }
    let mut start: usize = 0;
    let mut end: usize = segment_end(&text, 0);
    assert(text@.skip(0) =~= text@);
    while end < text.len()
        invariant
            start <= end <= text.len(),
            end - start == first_segment_len(text@.skip(start as int)),
            segment_values(text@) =~= as_components(parts@) + segment_values(
                text@.skip(start as int),
            ),
        decreases text.len() - start,
    {
        let ghost rest = text@.skip(start as int);
        assert(rest.take(end - start) =~= text@.subrange(start as int, end as int));
        assert(rest.skip(end - start + 1) =~= text@.skip(end + 1));
        let value = parse_segment(&text, start, end);
        parts.push(value);
        start = end + 1;
        end = segment_end(&text, start);
    }
    let value = parse_segment(&text, start, end);
    parts.push(value);
    parts
}

/// The component of `parts` at position `i`, 0 past its end.
fn component(parts: &Vec<u32>, i: usize) -> (value: u32)
    ensures
        value == component_at(as_components(parts@), i as int),
{
    if i < parts.len() {
        parts[i]
    } else {
        0
    }
}

/// Whether `latest` denotes a strictly newer version than `current`.
///
/// Both strings are split at their dots; a segment that is not a number, and
/// a position that one string lacks, count as 0. Equal versions are not newer.
pub fn is_newer_version(latest: &str, current: &str) -> (newer: bool)
    ensures
        newer == is_newer(latest@, current@),
{
    let latest_parts = parse_version(latest);
    let current_parts = parse_version(current);
    let ghost a = version_components(latest@);
    let ghost b = version_components(current@);
    let count: usize = if latest_parts.len() > current_parts.len() {
        latest_parts.len()
    } else {
        current_parts.len()
    };
    let mut i: usize = 0;
    while i < count
        invariant
            i <= count,
            count >= a.len(),
            count >= b.len(),
            a == version_components(latest@),
            b == version_components(current@),
            a == as_components(latest_parts@),
            b == as_components(current_parts@),
            agree_before(a, b, i as int),
        decreases count - i,
    {
        let l = component(&latest_parts, i);
        let c = component(&current_parts, i);
        if l > c {
            return true;
        }
        if l < c {
            proof {
                lemma_first_difference_decides(a, b, i as int);
            }
            return false;
        }
        i = i + 1;
    }
    proof {
        lemma_agreeing_throughout(a, b, count as int);
    }
    false
}

} // verus!

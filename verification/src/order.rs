//! What holds of the comparison of versions, whatever the strings.
//!
//! "Newer than" is a strict order on versions once two spellings of the
//! same version are taken as one: it is irreflexive, one-sided and
//! transitive, and of two versions that differ one is the newer. A segment
//! `0`, a segment that is no number and a missing segment all read alike.

use crate::version::{
    agree_before, component_at, components_newer, decimal_value, first_segment_len, is_newer,
    is_numeral, lemma_first_difference_decides, lemma_first_segment_is_dot_free,
    lemma_first_segment_len, segment_value, segment_values, version_components,
};
use vstd::prelude::*;

verus! {

/// Two strings spell the same version: they hold the same component at
/// every position, a missing position read as 0.
pub open spec fn same_version(a: Seq<char>, b: Seq<char>) -> bool {
    forall|i: int|
        0 <= i ==> #[trigger] component_at(version_components(a), i) == component_at(
            version_components(b),
            i,
        )
}

/// `a` and `b` with one dot between them.
pub open spec fn joined(a: Seq<char>, b: Seq<char>) -> Seq<char> {
    a + seq!['.'] + b
}

/// `segment` holds no dot.
pub open spec fn is_segment(segment: Seq<char>) -> bool {
    forall|i: int| 0 <= i < segment.len() ==> segment[i] != '.'
}

/// No version is newer than itself.
pub proof fn lemma_not_newer_than_itself(version: Seq<char>)
    ensures
        !is_newer(version, version),
{
}

/// Where two versions agree before position `i` and `older` holds the smaller
/// component there, `newer` is newer than `older` and `older` is not newer
/// than `newer`.
pub proof fn lemma_smaller_component_is_older(older: Seq<char>, newer: Seq<char>, i: int)
    requires
        0 <= i,
        agree_before(version_components(older), version_components(newer), i),
        component_at(version_components(older), i) < component_at(version_components(newer), i),
    ensures
        is_newer(newer, older),
        !is_newer(older, newer),
{
    lemma_first_difference_decides(version_components(older), version_components(newer), i);
}

/// Of two versions, at most one is newer than the other.
pub proof fn lemma_newer_is_one_sided(a: Seq<char>, b: Seq<char>)
    requires
        is_newer(a, b),
    ensures
        !is_newer(b, a),
{
    let x = version_components(a);
    let y = version_components(b);
    let i = choose|i: int|
        0 <= i && agree_before(x, y, i) && #[trigger] component_at(x, i) > component_at(y, i);
    lemma_first_difference_decides(y, x, i);
}

/// Where `a` is newer than `b` and `b` is newer than `c`, `a` is newer than `c`.
pub proof fn lemma_newer_is_transitive(a: Seq<char>, b: Seq<char>, c: Seq<char>)
    requires
        is_newer(a, b),
        is_newer(b, c),
    ensures
        is_newer(a, c),
{
    let x = version_components(a);
    let y = version_components(b);
    let z = version_components(c);
    let i = choose|i: int|
        0 <= i && agree_before(x, y, i) && #[trigger] component_at(x, i) > component_at(y, i);
    let j = choose|j: int|
        0 <= j && agree_before(y, z, j) && #[trigger] component_at(y, j) > component_at(z, j);
    let k = if i <= j {
        i
    } else {
        j
    };
    assert forall|m: int| 0 <= m < k implies #[trigger] component_at(x, m) == component_at(
        z,
        m,
    ) by {}
    assert(component_at(x, k) > component_at(z, k));
}

/// Two component sequences agree before position `n`, or one of them is
/// greater than the other.
proof fn lemma_ordered_up_to(a: Seq<nat>, b: Seq<nat>, n: int)
    requires
        0 <= n,
    ensures
        agree_before(a, b, n) || components_newer(a, b) || components_newer(b, a),
    decreases n,
{
    if n > 0 {
        lemma_ordered_up_to(a, b, n - 1);
    }
}

/// Of two versions one is newer than the other, unless they are the same
/// version.
pub proof fn lemma_versions_are_ordered(a: Seq<char>, b: Seq<char>)
    ensures
        is_newer(a, b) || is_newer(b, a) || same_version(a, b),
{
    let x = version_components(a);
    let y = version_components(b);
    let n = if x.len() >= y.len() {
        x.len() as int
    } else {
        y.len() as int
    };
    lemma_ordered_up_to(x, y, n);
    if agree_before(x, y, n) {
        assert forall|i: int| 0 <= i implies #[trigger] component_at(x, i) == component_at(
            y,
            i,
        ) by {}
    }
}

/// Whether one sequence of components is greater than another depends only
/// on what their positions hold once a missing position is read as 0.
proof fn lemma_newer_reads_padded(a: Seq<nat>, b: Seq<nat>, c: Seq<nat>, d: Seq<nat>)
    requires
        forall|i: int| 0 <= i ==> #[trigger] component_at(a, i) == component_at(c, i),
        forall|i: int| 0 <= i ==> #[trigger] component_at(b, i) == component_at(d, i),
        components_newer(a, b),
    ensures
        components_newer(c, d),
{
    let k = choose|k: int|
        0 <= k && agree_before(a, b, k) && #[trigger] component_at(a, k) > component_at(b, k);
    assert forall|j: int| 0 <= j < k implies #[trigger] component_at(c, j) == component_at(
        d,
        j,
    ) by {
        assert(component_at(a, j) == component_at(b, j));
    }
}

/// Two spellings of the same version compare alike with every version, and
/// neither is newer than the other.
pub proof fn lemma_same_version_compares_alike(a: Seq<char>, b: Seq<char>, other: Seq<char>)
    requires
        same_version(a, b),
    ensures
        is_newer(a, other) == is_newer(b, other),
        is_newer(other, a) == is_newer(other, b),
        !is_newer(a, b),
        !is_newer(b, a),
{
    let x = version_components(a);
    let y = version_components(b);
    let z = version_components(other);
    assert forall|i: int| 0 <= i implies #[trigger] component_at(y, i) == component_at(x, i) by {}
    if is_newer(a, other) {
        lemma_newer_reads_padded(x, z, y, z);
    }
    if is_newer(b, other) {
        lemma_newer_reads_padded(y, z, x, z);
    }
    if is_newer(other, a) {
        lemma_newer_reads_padded(z, x, z, y);
    }
    if is_newer(other, b) {
        lemma_newer_reads_padded(z, y, z, x);
    }
}

/// The segments of two strings with a dot between them are the segments of
/// the first, then those of the second.
pub proof fn lemma_segment_values_of_joined(a: Seq<char>, b: Seq<char>)
    ensures
        segment_values(joined(a, b)) == segment_values(a) + segment_values(b),
    decreases a.len(),
{
    let whole = joined(a, b);
    let n = first_segment_len(a) as int;
    lemma_first_segment_is_dot_free(a);
    lemma_first_segment_len(whole, n);
    if n >= a.len() {
        assert(whole.take(n) =~= a);
        assert(whole.skip(n + 1) =~= b);
    } else {
        let rest = a.skip(n + 1);
        assert(whole.take(n) =~= a.take(n));
        assert(whole.skip(n + 1) =~= joined(rest, b));
        lemma_segment_values_of_joined(rest, b);
    }
}

/// A string without a dot is one segment.
proof fn lemma_single_segment(segment: Seq<char>)
    requires
        is_segment(segment),
    ensures
        segment_values(segment) == seq![segment_value(segment)],
{
    lemma_first_segment_len(segment, segment.len() as int);
}

/// The segment `0` has the value 0.
proof fn lemma_zero_segment()
    ensures
        is_segment(seq!['0']),
        segment_value(seq!['0']) == 0,
{
    let zero = seq!['0'];
    assert(decimal_value(zero.drop_last()) == 0);
}

/// A missing trailing segment counts as 0: a version with `.0` written
/// behind it is the same version.
pub proof fn lemma_trailing_zero_is_padding(version: Seq<char>)
    ensures
        same_version(joined(version, seq!['0']), version),
{
    let zero = seq!['0'];
    let longer = version_components(joined(version, zero));
    let shorter = version_components(version);
    lemma_segment_values_of_joined(version, zero);
    lemma_zero_segment();
    lemma_single_segment(zero);
    if version.len() == 0 {
        lemma_single_segment(version);
    }
    assert forall|i: int| 0 <= i implies #[trigger] component_at(longer, i) == component_at(
        shorter,
        i,
    ) by {}
}

/// A segment that is no number counts as 0: with `0` written in its place,
/// alone or between the same neighbours, the version is the same.
pub proof fn lemma_unreadable_segment_counts_as_zero(
    before: Seq<char>,
    segment: Seq<char>,
    after: Seq<char>,
)
    requires
        is_segment(segment),
        !is_numeral(segment),
    ensures
        same_version(segment, seq!['0']),
        same_version(joined(before, segment), joined(before, seq!['0'])),
        same_version(joined(segment, after), joined(seq!['0'], after)),
        same_version(joined(joined(before, segment), after), joined(joined(before, seq!['0']), after)),
{
    let zero = seq!['0'];
    lemma_zero_segment();
    lemma_single_segment(zero);
    lemma_single_segment(segment);
    lemma_segment_values_of_joined(before, segment);
    lemma_segment_values_of_joined(before, zero);
    lemma_segment_values_of_joined(segment, after);
    lemma_segment_values_of_joined(zero, after);
    lemma_segment_values_of_joined(joined(before, segment), after);
    lemma_segment_values_of_joined(joined(before, zero), after);
}

/// The empty version is newer than no version.
pub proof fn lemma_empty_is_never_newer(current: Seq<char>)
    ensures
        !is_newer(Seq::<char>::empty(), current),
{
}

/// The comparison strips no prefix: a version that begins with the letter
/// `v` has a first segment that is no number, so its first component is 0.
pub proof fn lemma_prefix_is_not_stripped(version: Seq<char>)
    requires
        version.len() > 0,
        version[0] == 'v',
    ensures
        component_at(version_components(version), 0) == 0,
{
    lemma_first_segment_is_dot_free(version);
}

} // verus!

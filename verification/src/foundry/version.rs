//! Lenient ordering for `FoundryVTT` package version strings.
//!
//! Version strings in the wild are free-form: alongside plain `1.2.3` the
//! index contains `V1.0.1`, `2.0-beta.3`, `1..1`, `3+` and worse. This
//! module implements a piecewise comparison (split on dots, compare
//! numerically where both segments are numbers and case-insensitively
//! lexicographic otherwise) and an explicit "different but not provably
//! newer" outcome, so callers never have to pretend to know more than they do.

use vstd::prelude::*;
use std::cmp::Ordering;
use crate::text;

verus! {

/// How an available version relates to the installed one.
#[derive(Clone, Copy, Debug, Eq, PartialEq, Structural)]
pub enum Comparison {
    /// The version strings are identical.
    Same,
    /// The available version is newer under the lenient ordering.
    Newer,
    /// The versions differ, but the available one is not provably newer
    /// (incomparable strings, or the ordering says it is older). The index
    /// only ever holds the latest release, so this usually means the local
    /// version string is unusual rather than ahead.
    Changed,
}

/// The dot-separated segments of a version.
pub open spec fn segments(version: Seq<char>) -> Seq<Seq<char>> {
    text::split_on(version, set!['.'])
}

/// Whether segment `l` is below segment `r`, given the lowercase form of each:
/// by value when both are numbers, however large, by lowercase text otherwise.
pub open spec fn folded_below(
    l: Seq<char>,
    r: Seq<char>,
    l_lower: Seq<char>,
    r_lower: Seq<char>,
) -> bool {
    match (text::number(l), text::number(r)) {
        (Some(x), Some(y)) => x < y,
        _ => text::before(l_lower, r_lower),
    }
}

/// Whether two segments rank alike, given the lowercase form of each.
pub open spec fn folded_level(
    l: Seq<char>,
    r: Seq<char>,
    l_lower: Seq<char>,
    r_lower: Seq<char>,
) -> bool {
    match (text::number(l), text::number(r)) {
        (Some(x), Some(y)) => x == y,
        _ => l_lower == r_lower,
    }
}

/// Whether segment `l` is below segment `r`.
pub open spec fn segment_below(l: Seq<char>, r: Seq<char>) -> bool {
    folded_below(l, r, text::lowercased(l), text::lowercased(r))
}

/// Whether two segments rank alike.
pub open spec fn segment_level(l: Seq<char>, r: Seq<char>) -> bool {
    folded_level(l, r, text::lowercased(l), text::lowercased(r))
}

/// Whether the segments `a` rank below the segments `b`: at the first pair
/// that differs, or by having fewer segments.
pub open spec fn segments_below(a: Seq<Seq<char>>, b: Seq<Seq<char>>) -> bool
    decreases a.len(),
{
    if b.len() == 0 {
        false
    } else if a.len() == 0 {
        true
    } else if segment_level(a[0], b[0]) {
        segments_below(a.drop_first(), b.drop_first())
    } else {
        segment_below(a[0], b[0])
    }
}

/// Whether two lists of segments rank alike: pairwise, and equally many.
pub open spec fn segments_level(a: Seq<Seq<char>>, b: Seq<Seq<char>>) -> bool {
    a.len() == b.len() && forall|i: int|
        0 <= i < a.len() ==> segment_level(#[trigger] a[i], b[i])
}

/// Whether version `a` is older than version `b`.
pub open spec fn older(a: Seq<char>, b: Seq<char>) -> bool {
    segments_below(segments(a), segments(b))
}

/// Whether two versions rank alike.
pub open spec fn level(a: Seq<char>, b: Seq<char>) -> bool {
    segments_level(segments(a), segments(b))
}

/// How the available version relates to the installed one.
pub open spec fn relation(installed: Seq<char>, available: Seq<char>) -> Comparison {
    if installed == available {
        Comparison::Same
    } else if older(installed, available) {
        Comparison::Newer
    } else {
        Comparison::Changed
    }
}

/// Classifies an available version against the installed one.
#[must_use]
pub fn against_installed(installed: &str, available: &str) -> (comparison: Comparison)
    ensures
        comparison == relation(installed@, available@),
{
    if text::same(installed, available) {
        return Comparison::Same;
    }
    match compare(installed, available) {
        Ordering::Less => Comparison::Newer,
        Ordering::Equal => Comparison::Changed,
        Ordering::Greater => Comparison::Changed,
    }
}

/// Compares two version strings under the lenient piecewise ordering. A version
/// ranks like itself in ASCII lowercase.
#[must_use]
pub fn compare(a: &str, b: &str) -> (ordering: Ordering)
    ensures
        ordering is Less <==> older(a@, b@),
        ordering is Equal <==> level(a@, b@),
        b@ == text::ascii_lowercased(a@) ==> ordering is Equal,
{
    let left = text::split(a, '.');
    let right = text::split(b, '.');
    let at = level_prefix(&left, &right);
    proof {
        decided_at(text::views(left@), text::views(right@), at);
        segments_lowercase_alike(a@);
    }
    if at < left.len() && at < right.len() {
        compare_segment(left[at].as_str(), right[at].as_str())
    } else if left.len() < right.len() {
        Ordering::Less
    } else if left.len() == right.len() {
        Ordering::Equal
    } else {
        Ordering::Greater
    }
}

/// Compares one dot-separated segment: numerically when both sides are
/// numbers, case-insensitively lexicographic otherwise. A segment ranks like
/// itself in ASCII lowercase.
pub fn compare_segment(l: &str, r: &str) -> (ordering: Ordering)
    ensures
        ordering is Less <==> segment_below(l@, r@),
        ordering is Equal <==> segment_level(l@, r@),
        r@ == text::ascii_lowercased(l@) ==> ordering is Equal,
{
    let l_lower = text::to_lowercase(l);
    let r_lower = text::to_lowercase(r);
    proof {
        numbers_have_no_case(l@);
    }
    compare_folded(l, r, l_lower.as_str(), r_lower.as_str())
}

/// Compares two segments, given the lowercase form of each.
pub fn compare_folded(l: &str, r: &str, l_lower: &str, r_lower: &str) -> (ordering: Ordering)
    ensures
        ordering is Less <==> folded_below(l@, r@, l_lower@, r_lower@),
        ordering is Equal <==> folded_level(l@, r@, l_lower@, r_lower@),
{
    match (text::significant_digits(l), text::significant_digits(r)) {
        (Some(x), Some(y)) => {
            proof {
                text::significant_digits_keep_the_value(text::unsigned_part(l@));
                text::significant_digits_keep_the_value(text::unsigned_part(r@));
            }
            if text::is_smaller(&x, &y) {
                Ordering::Less
            } else if text::is_smaller(&y, &x) {
                Ordering::Greater
            } else {
                Ordering::Equal
            }
        },
        _ => {
            proof {
                text::before_is_total(l_lower@, r_lower@);
            }
            if text::same(l_lower, r_lower) {
                Ordering::Equal
            } else if text::is_before(l_lower, r_lower) {
                Ordering::Less
            } else {
                Ordering::Greater
            }
        },
    }
}

/// A number is written the same in lowercase.
proof fn numbers_have_no_case(segment: Seq<char>)
    ensures
        text::number(text::ascii_lowercased(segment)) is Some ==> text::ascii_lowercased(segment)
            == segment,
{
    let lower = text::ascii_lowercased(segment);
    if text::number(lower) is Some {
        let digits = text::unsigned_part(lower);
        assert forall|i: int| 0 <= i < segment.len() implies lower[i] == segment[i] by {
            assert(lower[i] == text::ascii_lower(segment[i]));
            if digits.len() < lower.len() {
                if i > 0 {
                    assert(digits[i - 1] == lower[i]);
                    assert(text::is_digit(digits[i - 1]));
                }
            } else {
                assert(text::is_digit(digits[i]));
            }
        }
        assert(lower =~= segment);
    }
}

/// The segments of a version in lowercase are its segments in lowercase.
proof fn segments_lowercase_alike(version: Seq<char>)
    ensures
        segments(text::ascii_lowercased(version)).len() == segments(version).len(),
        forall|i: int|
            0 <= i < segments(version).len() ==> #[trigger] segments(
                text::ascii_lowercased(version),
            )[i] == text::ascii_lowercased(segments(version)[i]),
    decreases version.len(),
{
    let lower = text::ascii_lowercased(version);
    if version.len() == 0 {
        assert(lower =~= version);
        assert(text::ascii_lowercased(segments(version)[0]) =~= segments(version)[0]);
    } else {
        let init = version.drop_last();
        segments_lowercase_alike(init);
        text::split_is_never_empty(init, set!['.']);
        assert(lower.drop_last() =~= text::ascii_lowercased(init));
        assert(lower.last() == text::ascii_lower(version.last()));
        let before = segments(init);
        let after = segments(version);
        assert forall|i: int| 0 <= i < after.len() implies #[trigger] segments(lower)[i]
            == text::ascii_lowercased(after[i]) by {
            if i < before.len() {
                assert(segments(text::ascii_lowercased(init))[i] == text::ascii_lowercased(before[i]));
            }
            assert(segments(lower)[i] =~= text::ascii_lowercased(after[i]));
        }
    }
}

/// How many leading segments rank alike.
fn level_prefix(left: &Vec<String>, right: &Vec<String>) -> (at: usize)
    ensures
        at <= left@.len(),
        at <= right@.len(),
        forall|i: int| 0 <= i < at ==> segment_level(#[trigger] text::views(left@)[i], text::views(right@)[i]),
        at < left@.len() && at < right@.len() ==> !segment_level(
            text::views(left@)[at as int],
            text::views(right@)[at as int],
        ) && text::views(right@)[at as int] != text::ascii_lowercased(
            text::views(left@)[at as int],
        ),
{
    let mut at: usize = 0;
    while at < left.len() && at < right.len()
        invariant
            at <= left@.len(),
            at <= right@.len(),
            forall|i: int|
                0 <= i < at ==> segment_level(#[trigger] text::views(left@)[i], text::views(right@)[i]),
        decreases left@.len() - at,
    {
        if !same_rank(left[at].as_str(), right[at].as_str()) {
            return at;
        }
        at = at + 1;
    }
    at
}

/// Whether two segments rank alike.
fn same_rank(l: &str, r: &str) -> (alike: bool)
    ensures
        alike == segment_level(l@, r@),
        r@ == text::ascii_lowercased(l@) ==> alike,
{
    match compare_segment(l, r) {
        Ordering::Equal => true,
        _ => false,
    }
}

/// The first pair of segments that differs decides the comparison.
proof fn decided_at(a: Seq<Seq<char>>, b: Seq<Seq<char>>, at: usize)
    requires
        at <= a.len(),
        at <= b.len(),
        forall|i: int| 0 <= i < at ==> segment_level(#[trigger] a[i], b[i]),
        at < a.len() && at < b.len() ==> !segment_level(a[at as int], b[at as int]),
    ensures
        segments_below(a, b) == if at < a.len() && at < b.len() {
            segment_below(a[at as int], b[at as int])
        } else {
            a.len() < b.len()
        },
        segments_level(a, b) == (a.len() == b.len() && at == a.len()),
    decreases a.len(),
{
    if at > 0 {
        let a_rest = a.drop_first();
        let b_rest = b.drop_first();
        assert(segment_level(a[0], b[0]));
        assert forall|i: int| 0 <= i < at - 1 implies segment_level(#[trigger] a_rest[i], b_rest[i]) by {
            assert(segment_level(a[i + 1], b[i + 1]));
        }
        decided_at(a_rest, b_rest, (at - 1) as usize);
    }
}

/// Segments rank below, alike or above, never two of these at once, and the
/// answer is mirrored when the two sides are exchanged.
pub proof fn segment_order_is_total(l: Seq<char>, r: Seq<char>)
    ensures
        segment_level(l, r) == segment_level(r, l),
        !(segment_below(l, r) && segment_below(r, l)),
        segment_level(l, r) ==> !segment_below(l, r) && !segment_below(r, l),
        !segment_level(l, r) ==> segment_below(l, r) || segment_below(r, l),
        segment_level(l, l),
{
    text::before_is_total(text::lowercased(l), text::lowercased(r));
    text::before_is_total(text::lowercased(r), text::lowercased(l));
}

/// Lists of segments rank below, alike or above, never two of these at once.
proof fn segments_order_is_total(a: Seq<Seq<char>>, b: Seq<Seq<char>>)
    ensures
        segments_level(a, b) == segments_level(b, a),
        !(segments_below(a, b) && segments_below(b, a)),
        segments_level(a, b) ==> !segments_below(a, b) && !segments_below(b, a),
        !segments_level(a, b) ==> segments_below(a, b) || segments_below(b, a),
    decreases a.len(),
{
    if a.len() > 0 && b.len() > 0 {
        segment_order_is_total(a[0], b[0]);
        let a_rest = a.drop_first();
        let b_rest = b.drop_first();
        segments_order_is_total(a_rest, b_rest);
        assert(segments_level(a, b) == (segment_level(a[0], b[0]) && segments_level(a_rest, b_rest)))
            by {
            if segment_level(a[0], b[0]) && segments_level(a_rest, b_rest) {
                assert forall|i: int| 0 <= i < a.len() implies segment_level(#[trigger] a[i], b[i]) by {
                    if i > 0 {
                        assert(segment_level(a_rest[i - 1], b_rest[i - 1]));
                    }
                }
            }
            if segments_level(a, b) {
                assert forall|i: int| 0 <= i < a_rest.len() implies segment_level(
                    #[trigger] a_rest[i],
                    b_rest[i],
                ) by {
                    assert(segment_level(a[i + 1], b[i + 1]));
                }
            }
        }
        assert(segments_level(b, a) == segments_level(a, b)) by {
            assert forall|i: int| #![trigger a[i]] #![trigger b[i]]
                0 <= i < a.len() && a.len() == b.len() implies segment_level(a[i], b[i])
                == segment_level(b[i], a[i]) by {
                segment_order_is_total(a[i], b[i]);
            }
        }
    }
}

/// Any two versions compare as older, alike or newer, and never as two of
/// these at once: exchanging them mirrors the answer.
pub proof fn versions_are_totally_compared(a: Seq<char>, b: Seq<char>)
    ensures
        level(a, b) == level(b, a),
        !(older(a, b) && older(b, a)),
        level(a, b) ==> !older(a, b) && !older(b, a),
        !level(a, b) ==> older(a, b) || older(b, a),
        level(a, a),
{
    segments_order_is_total(segments(a), segments(b));
    let own = segments(a);
    assert forall|i: int| 0 <= i < own.len() implies segment_level(#[trigger] own[i], own[i]) by {
        segment_order_is_total(own[i], own[i]);
    }
}

/// An update never goes both ways: when one version is an update for the
/// other, the other is at most a change for it. Identical versions are never
/// an update, and different ones never count as the same.
pub proof fn updates_go_one_way(installed: Seq<char>, available: Seq<char>)
    ensures
        relation(installed, available) is Newer ==> relation(available, installed) is Changed,
        relation(installed, available) is Same <==> installed == available,
{
    versions_are_totally_compared(installed, available);
}

/// Whether every segment of a version is a number.
pub open spec fn numeric(version: Seq<char>) -> bool {
    forall|i: int| 0 <= i < segments(version).len() ==> text::number(#[trigger] segments(version)[i]) is Some
}

/// Ranking below is transitive over lists of numbers.
proof fn numeric_segments_are_ordered(a: Seq<Seq<char>>, b: Seq<Seq<char>>, c: Seq<Seq<char>>)
    requires
        forall|i: int| 0 <= i < a.len() ==> text::number(#[trigger] a[i]) is Some,
        forall|i: int| 0 <= i < b.len() ==> text::number(#[trigger] b[i]) is Some,
        forall|i: int| 0 <= i < c.len() ==> text::number(#[trigger] c[i]) is Some,
        segments_below(a, b),
        segments_below(b, c),
    ensures
        segments_below(a, c),
    decreases a.len(),
{
    if a.len() > 0 {
        assert(text::number(a[0]) is Some && text::number(b[0]) is Some && text::number(c[0]) is Some);
        if segment_level(a[0], b[0]) && segment_level(b[0], c[0]) {
            let (x, y, z) = (a.drop_first(), b.drop_first(), c.drop_first());
            assert forall|i: int| 0 <= i < x.len() implies text::number(#[trigger] x[i]) is Some by {
                assert(x[i] == a[i + 1]);
            }
            assert forall|i: int| 0 <= i < y.len() implies text::number(#[trigger] y[i]) is Some by {
                assert(y[i] == b[i + 1]);
            }
            assert forall|i: int| 0 <= i < z.len() implies text::number(#[trigger] z[i]) is Some by {
                assert(z[i] == c[i + 1]);
            }
            numeric_segments_are_ordered(x, y, z);
        }
    }
}

/// Versions made of numbers are ordered: what is older than an older version
/// is older.
pub proof fn numeric_versions_are_ordered(a: Seq<char>, b: Seq<char>, c: Seq<char>)
    requires
        numeric(a),
        numeric(b),
        numeric(c),
        older(a, b),
        older(b, c),
    ensures
        older(a, c),
{
    numeric_segments_are_ordered(segments(a), segments(b), segments(c));
}

/// Whether two segments are both numbers.
pub open spec fn are_numbers(l: Seq<char>, r: Seq<char>) -> bool {
    text::number(l) is Some && text::number(r) is Some
}

/// Segments are compared by value when both are numbers, and otherwise by their
/// text, whatever the case.
pub proof fn segments_are_compared_by_value(l: Seq<char>, r: Seq<char>)
    ensures
        are_numbers(l, r) ==> (segment_below(l, r) <==> text::number(l)->0 < text::number(r)->0),
        are_numbers(l, r) ==> (segment_level(l, r) <==> text::number(l) == text::number(r)),
        !are_numbers(l, r) ==> (segment_below(l, r) <==> text::before(
            text::lowercased(l),
            text::lowercased(r),
        )),
        !are_numbers(l, r) ==> (segment_level(l, r) <==> text::lowercased(l) == text::lowercased(r)),
{
}

/// Whether the segments of two versions rank alike up to a place, and there the
/// first one ends or has the lower segment.
pub open spec fn falls_behind_at(a: Seq<Seq<char>>, b: Seq<Seq<char>>, at: int) -> bool {
    &&& 0 <= at <= a.len()
    &&& at < b.len()
    &&& forall|i: int| 0 <= i < at ==> segment_level(#[trigger] a[i], b[i])
    &&& at == a.len() || (!segment_level(a[at], b[at]) && segment_below(a[at], b[at]))
}

/// How many leading segments rank alike, as a number.
proof fn first_difference(a: Seq<Seq<char>>, b: Seq<Seq<char>>) -> (at: int)
    ensures
        0 <= at <= a.len(),
        at <= b.len(),
        forall|i: int| 0 <= i < at ==> segment_level(#[trigger] a[i], b[i]),
        at < a.len() && at < b.len() ==> !segment_level(a[at], b[at]),
        segments_below(a, b) == if at < a.len() && at < b.len() {
            segment_below(a[at], b[at])
        } else {
            a.len() < b.len()
        },
    decreases a.len(),
{
    if a.len() == 0 || b.len() == 0 || !segment_level(a[0], b[0]) {
        0
    } else {
        let a_rest = a.drop_first();
        let b_rest = b.drop_first();
        let rest = first_difference(a_rest, b_rest);
        assert forall|i: int| 0 <= i < rest + 1 implies segment_level(#[trigger] a[i], b[i]) by {
            if i > 0 {
                assert(segment_level(a_rest[i - 1], b_rest[i - 1]));
            }
        }
        rest + 1
    }
}

/// A version is older than another just when their segments rank alike up to
/// some place, and there it ends or has the lower segment.
pub proof fn the_first_difference_decides(a: Seq<char>, b: Seq<char>)
    ensures
        older(a, b) <==> exists|at: int| #[trigger]
            falls_behind_at(segments(a), segments(b), at),
{
    let left = segments(a);
    let right = segments(b);
    let at = first_difference(left, right);
    if older(a, b) {
        assert(falls_behind_at(left, right, at));
    }
    if exists|k: int| #[trigger] falls_behind_at(left, right, k) {
        let k = choose|k: int| #[trigger] falls_behind_at(left, right, k);
        if k < at {
            assert(segment_level(left[k], right[k]));
        } else if at < k {
            assert(segment_level(left[at], right[at]));
        }
    }
}

/// The segments of a version are what stands between its dots: they hold none,
/// and joined by dots they are the version again.
pub proof fn segments_stand_between_dots(version: Seq<char>)
    ensures
        text::joined(segments(version), seq!['.']) == version,
        forall|i: int, j: int|
            0 <= i < segments(version).len() && 0 <= j < segments(version)[i].len()
                ==> #[trigger] segments(version)[i][j] != '.',
{
    text::joining_undoes_splitting(version, '.');
    text::pieces_hold_no_separator(version, set!['.']);
    assert forall|i: int, j: int|
        0 <= i < segments(version).len() && 0 <= j < segments(version)[i].len() implies
        #[trigger] segments(version)[i][j] != '.' by {
        assert(!set!['.'].contains(segments(version)[i][j]));
    }
}

/// The decimal notation of a number, as a function.
pub open spec fn notation() -> spec_fn(nat) -> Seq<char> {
    |number: nat| text::decimal(number)
}

/// The version with numbers as its segments.
pub open spec fn numbered(numbers: Seq<nat>) -> Seq<char> {
    text::joined(numbers.map_values(notation()), seq!['.'])
}

/// The segments of a version made of numbers are these numbers.
proof fn numbered_segments(numbers: Seq<nat>)
    requires
        numbers.len() > 0,
    ensures
        segments(numbered(numbers)) == numbers.map_values(notation()),
        forall|i: int|
            0 <= i < numbers.len() ==> text::number(#[trigger] segments(numbered(numbers))[i])
                == Some(numbers[i]),
{
    let parts = numbers.map_values(notation());
    assert forall|i: int, j: int| 0 <= i < parts.len() && 0 <= j < parts[i].len() implies
        #[trigger] parts[i][j] != '.' by {
        text::numbers_are_read_back(numbers[i]);
        assert(text::is_digit(text::decimal(numbers[i])[j]));
    }
    text::splitting_undoes_joining(parts, '.');
    assert forall|i: int| 0 <= i < numbers.len() implies text::number(
        #[trigger] segments(numbered(numbers))[i],
    ) == Some(numbers[i]) by {
        text::numbers_are_read_back(numbers[i]);
        assert(parts[i] == text::decimal(numbers[i]));
    }
}

/// Versions made of numbers are ordered like their numbers: at the first place
/// where they differ the smaller number is older, and a version that ends there
/// is older than one that goes on.
pub proof fn numbered_versions_go_by_their_numbers(a: Seq<nat>, b: Seq<nat>)
    requires
        a.len() > 0,
        b.len() > 0,
    ensures
        older(numbered(a), numbered(b)) <==> exists|at: int|
            0 <= at <= a.len() && at < b.len() && #[trigger] a.take(at) == b.take(at) && (at
                == a.len() || a[at] < b[at]),
        level(numbered(a), numbered(b)) <==> a == b,
{
    let left = segments(numbered(a));
    let right = segments(numbered(b));
    numbered_segments(a);
    numbered_segments(b);
    the_first_difference_decides(numbered(a), numbered(b));
    assert forall|i: int|
        #![trigger a[i]]
        #![trigger left[i]]
        0 <= i < a.len() && i < b.len() implies (segment_level(left[i], right[i]) <==> a[i] == b[i])
        && (segment_below(left[i], right[i]) <==> a[i] < b[i]) by {
        assert(text::number(left[i]) == Some(a[i]) && text::number(right[i]) == Some(b[i]));
    }
    if older(numbered(a), numbered(b)) {
        let at = choose|at: int| #[trigger] falls_behind_at(left, right, at);
        assert forall|i: int| 0 <= i < at implies a[i] == b[i] by {
            assert(segment_level(left[i], right[i]));
        }
        assert(a.take(at) =~= b.take(at));
    }
    if exists|at: int|
        0 <= at <= a.len() && at < b.len() && #[trigger] a.take(at) == b.take(at) && (at == a.len()
            || a[at] < b[at]) {
        let at = choose|at: int|
            0 <= at <= a.len() && at < b.len() && #[trigger] a.take(at) == b.take(at) && (at
                == a.len() || a[at] < b[at]);
        assert forall|i: int| 0 <= i < at implies segment_level(#[trigger] left[i], right[i]) by {
            assert(a.take(at)[i] == b.take(at)[i]);
            assert(a[i] == b[i]);
        }
        assert(falls_behind_at(left, right, at));
    }
    if level(numbered(a), numbered(b)) {
        assert forall|i: int| 0 <= i < a.len() implies a[i] == b[i] by {
            assert(segment_level(left[i], right[i]));
        }
        assert(a =~= b);
    }
    if a == b {
        assert forall|i: int| 0 <= i < left.len() implies segment_level(#[trigger] left[i], right[i]) by {
            assert(a[i] == b[i]);
        }
    }
}

/// An available version is an update just when it is not the installed one and
/// the installed one is older; it is a mere change when it is neither.
pub proof fn updates_are_newer(installed: Seq<char>, available: Seq<char>)
    ensures
        relation(installed, available) is Newer <==> installed != available && older(
            installed,
            available,
        ),
        relation(installed, available) is Changed <==> installed != available && !older(
            installed,
            available,
        ),
{
}

} // verus!

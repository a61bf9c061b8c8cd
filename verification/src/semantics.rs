//! The meaning of the synthesized conversion functions.
//!
//! A synthesized decode is a first-match linear scan over the plain
//! members in declaration order; a synthesized encode is an exhaustive
//! dispatch returning each plain member's discriminant. This module
//! states that meaning as specification functions, and proves the laws
//! the generated code obeys: decode of the extended form never fails,
//! both round trips hold, ties go to the earlier-declared member, and the
//! two comparison modes treat a matching catch-all differently.

use vstd::prelude::*;
use crate::model::PlainMember;

verus! {

/// A value of the extended enumeration: either the plain member at
/// `index` in declaration order, or the catch-all wrapping an arbitrary
/// base-type value.
#[derive(Clone, Copy, Debug, PartialEq, Eq)]
pub enum ExtValue {
    Plain { index: usize },
    CatchAll { value: u128 },
}

/// Whether a value speaks of an existing member of the member table.
pub open spec fn ext_value_wf(arms: Seq<PlainMember>, v: ExtValue) -> bool {
    match v {
        ExtValue::Plain { index } => index < arms.len(),
        ExtValue::CatchAll { .. } => true,
    }
}

/// The index of the first member at or after `i` whose discriminant is
/// `value`, if any: the meaning of the scan's tail starting at `i`.
pub open spec fn first_match_from(arms: Seq<PlainMember>, value: u128, i: int) -> Option<int>
    decreases arms.len() - i,
{
    if i < 0 || i >= arms.len() {
        None
    } else if arms[i].disc == value {
        Some(i)
    } else {
        first_match_from(arms, value, i + 1)
    }
}

/// The index of the first member whose discriminant is `value`, if any.
pub open spec fn spec_first_match(arms: Seq<PlainMember>, value: u128) -> Option<int> {
    first_match_from(arms, value, 0)
}

/// What the synthesized extended-form decode returns: the first matching
/// plain member, or the catch-all wrapping the unmatched value.
pub open spec fn spec_decode(arms: Seq<PlainMember>, value: u128) -> ExtValue {
    match spec_first_match(arms, value) {
        Some(i) => ExtValue::Plain { index: i as usize },
        None => ExtValue::CatchAll { value },
    }
}

/// What the synthesized encode returns: a plain member's discriminant, or
/// the catch-all's carried payload verbatim.
pub open spec fn spec_encode(arms: Seq<PlainMember>, v: ExtValue) -> u128 {
    match v {
        ExtValue::Plain { index } => arms[index as int].disc,
        ExtValue::CatchAll { value } => value,
    }
}

/// Equality under the declared-order mode: the structural derivation on
/// the discriminant-stripped enumeration. A catch-all instance never
/// equals a plain member.
pub open spec fn spec_eq_declared_order(a: ExtValue, b: ExtValue) -> bool {
    match (a, b) {
        (ExtValue::Plain { index: i }, ExtValue::Plain { index: j }) => i == j,
        (ExtValue::CatchAll { value: x }, ExtValue::CatchAll { value: y }) => x == y,
        _ => false,
    }
}

/// Equality under the value-based mode: both operands are first encoded
/// to the base type.
pub open spec fn spec_eq_value_based(arms: Seq<PlainMember>, a: ExtValue, b: ExtValue) -> bool {
    spec_encode(arms, a) == spec_encode(arms, b)
}

/// Whether all discriminants of the member table are pairwise distinct.
pub open spec fn unique_discriminants(arms: Seq<PlainMember>) -> bool {
    forall|p: int, q: int| 0 <= p < q < arms.len() ==> arms[p].disc != arms[q].disc
}

/// The scan's result is the first match: at a matching index, with no
/// match before it; or absent, with no match at all.
pub proof fn lemma_first_match_from_characterization(arms: Seq<PlainMember>, value: u128, i: int)
    requires
        0 <= i <= arms.len(),
    ensures
        match first_match_from(arms, value, i) {
            Some(j) => i <= j < arms.len() && arms[j].disc == value && forall|k: int|
                i <= k < j ==> arms[k].disc != value,
            None => forall|k: int| i <= k < arms.len() ==> arms[k].disc != value,
        },
    decreases arms.len() - i,
{
    if i < arms.len() && arms[i].disc != value {
        lemma_first_match_from_characterization(arms, value, i + 1);
    }
}

/// Conversely, an index that matches with no earlier match is the scan's
/// result.
pub proof fn lemma_first_match_from_is(arms: Seq<PlainMember>, value: u128, i: int, j: int)
    requires
        0 <= i <= j < arms.len(),
        arms[j].disc == value,
        forall|k: int| i <= k < j ==> arms[k].disc != value,
    ensures
        first_match_from(arms, value, i) == Some(j),
    decreases arms.len() - i,
{
    if i < j {
        lemma_first_match_from_is(arms, value, i + 1, j);
    }
}

/// No matching index means the scan finds nothing.
pub proof fn lemma_first_match_from_none(arms: Seq<PlainMember>, value: u128, i: int)
    requires
        0 <= i <= arms.len(),
        forall|k: int| i <= k < arms.len() ==> arms[k].disc != value,
    ensures
        first_match_from(arms, value, i) is None,
    decreases arms.len() - i,
{
    if i < arms.len() {
        lemma_first_match_from_none(arms, value, i + 1);
    }
}

/// Exhaustiveness: for every base-type value, decode returns either the
/// first plain member whose discriminant equals the value, or the
/// catch-all wrapping the value when no discriminant equals it. Decode
/// never fails.
pub proof fn lemma_decode_exhaustive(arms: Seq<PlainMember>, value: u128)
    requires
        arms.len() <= usize::MAX,
    ensures
        match spec_decode(arms, value) {
            ExtValue::Plain { index } => index < arms.len() && arms[index as int].disc == value
                && forall|k: int| 0 <= k < index as int ==> arms[k].disc != value,
            ExtValue::CatchAll { value: v } => v == value && forall|k: int|
                0 <= k < arms.len() ==> arms[k].disc != value,
        },
{
    lemma_first_match_from_characterization(arms, value, 0);
}

/// Round trip through a plain member: decoding a member's encoding yields
/// the first member that shares its discriminant — a member no later than
/// the one encoded.
pub proof fn lemma_round_trip_plain(arms: Seq<PlainMember>, i: int)
    requires
        arms.len() <= usize::MAX,
        0 <= i < arms.len(),
    ensures
        (spec_decode(arms, spec_encode(arms, ExtValue::Plain { index: i as usize })) matches
            ExtValue::Plain { index: j } && j as int <= i && arms[j as int].disc == arms[i].disc),
{
    let value = arms[i].disc;
    lemma_first_match_from_characterization(arms, value, 0);
    match spec_first_match(arms, value) {
        Some(j) => {
            assert(j <= i);
        },
        None => {
            assert(arms[i].disc == value);
        },
    }
}

/// Round trip through a plain member, under unique discriminants: the
/// very member comes back.
pub proof fn lemma_round_trip_plain_unique(arms: Seq<PlainMember>, i: int)
    requires
        arms.len() <= usize::MAX,
        0 <= i < arms.len(),
        unique_discriminants(arms),
    ensures
        (spec_decode(arms, spec_encode(arms, ExtValue::Plain { index: i as usize }))
            == ExtValue::Plain { index: i as usize }),
{
    lemma_round_trip_plain(arms, i);
    let r = spec_decode(arms, spec_encode(arms, ExtValue::Plain { index: i as usize }));
    match r {
        ExtValue::Plain { index: j } => {
            if (j as int) < i {
                assert(arms[j as int].disc != arms[i].disc);
            }
        },
        ExtValue::CatchAll { .. } => {},
    }
}

/// Round trip through the catch-all: encoding the decode of a value that
/// equals no plain discriminant gives the value back.
pub proof fn lemma_round_trip_catch_all(arms: Seq<PlainMember>, value: u128)
    requires
        forall|k: int| 0 <= k < arms.len() ==> arms[k].disc != value,
    ensures
        spec_encode(arms, spec_decode(arms, value)) == value,
{
    lemma_first_match_from_none(arms, value, 0);
}

/// Tie-break determinism: when two plain members share a discriminant,
/// decoding that discriminant yields a member declared no later than the
/// earlier of the two — never the later one.
pub proof fn lemma_tie_break(arms: Seq<PlainMember>, i: int, j: int)
    requires
        arms.len() <= usize::MAX,
        0 <= i < j < arms.len(),
        arms[i].disc == arms[j].disc,
    ensures
        (spec_decode(arms, arms[i].disc) matches ExtValue::Plain { index: k } && k as int <= i),
{
    lemma_first_match_from_characterization(arms, arms[i].disc, 0);
}

/// Comparison-mode semantics: a catch-all carrying a plain member's
/// discriminant compares equal to that member under the value-based mode,
/// and unequal under the declared-order mode.
pub proof fn lemma_compare_mode_semantics(arms: Seq<PlainMember>, i: int, d: u128)
    requires
        arms.len() <= usize::MAX,
        0 <= i < arms.len(),
        arms[i].disc == d,
    ensures
        spec_eq_value_based(arms, ExtValue::CatchAll { value: d }, ExtValue::Plain { index: i as usize }),
        !spec_eq_declared_order(ExtValue::CatchAll { value: d }, ExtValue::Plain { index: i as usize }),
{
}

} // verus!

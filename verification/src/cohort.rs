//! Exact, bounded screen-space cohort selection for projection points: the
//! members inside a selection rectangle, deduplicated and bounded, with the
//! source ranges and byte statistics that explain them.

use std::ops::Range;

use vstd::prelude::*;

use std::collections::BTreeSet;

use crate::discovery::{provenance_view, ExactProvenance};
use crate::ordered::{ascending_offsets, insert_identity, insert_offset, new_identity_set, MemberIdentity};
use crate::projection::{kind_label, projection_code, projection_code_spec, ProjectionKind};
use crate::ranges::ByteRange;
use crate::text::{decimal_digits, hex_padded, push_decimal, push_hex, push_str};
use crate::ranges::{
    all_nonempty, covers, lemma_covers_same_elements, lemma_merge_sorted_normalizes,
    lemma_merged_within, lemma_sorted_pairs_same_elements, merge_pairs, merge_sorted, separated,
    sort_pairs, sorted_pairs,
};
use crate::session::{StoredCohort, StoredRange};

verus! {

/// Most selected members retained in one selection.
pub const MAX_COHORT_MEMBERS: usize = 4096;

/// A projection point's exact provenance: the source offsets that
/// contributed to it and the half-open span analyzed to produce it.
#[derive(Clone, Copy, Debug, PartialEq, Eq)]
pub struct ProjectedMember {
    pub source_offsets: [usize; 3],
    pub source_range: [usize; 2],
}

/// The most frequent selected source byte.
#[derive(Clone, Copy, Debug, PartialEq, Eq, Structural)]
pub struct SourceByteConcentration {
    /// Most frequent byte, the lower one on a tie.
    pub byte: u8,
    /// Selected offsets that hold `byte`.
    pub occurrences: usize,
    /// Selected offsets readable from the supplied bytes.
    pub observed_offsets: usize,
}

/// Explanation values kept with a selection.
#[derive(Clone, Debug)]
pub struct CohortMetrics {
    pub member_count: usize,
    pub source_span: Option<Range<usize>>,
    pub unique_byte_count: usize,
    pub source_byte_concentration: Option<SourceByteConcentration>,
}

/// An exact selection with its source explanation.
#[derive(Clone, Debug)]
pub struct CohortSelection {
    /// Retained members in their input order.
    pub members: Vec<ProjectedMember>,
    /// Sorted, coalesced half-open ranges of the retained members.
    pub source_ranges: Vec<Range<usize>>,
    pub metrics: CohortMetrics,
    /// Whether more matching members existed than the bound retains.
    pub truncated: bool,
}

/// A failure while building or explaining a selection.
#[derive(Clone, Copy, Debug, PartialEq, Eq, Structural)]
pub enum CohortError {
    /// A rectangle endpoint was not finite.
    NonFiniteRectangle,
    /// A rectangle had no width or no height.
    EmptyRectangle,
    /// A member's analyzed range was empty or reversed.
    OffsetOverflow,
}

/// The identity under which duplicate instances of one datum collapse.
pub open spec fn identity_of(member: ProjectedMember) -> MemberIdentity {
    (
        member.source_offsets[0],
        member.source_offsets[1],
        member.source_offsets[2],
        member.source_range[0],
        member.source_range[1],
    )
}

/// Whether member `i` lies inside the rectangle; positions without a flag
/// count as outside.
pub open spec fn is_selected(selected: Seq<bool>, i: int) -> bool {
    0 <= i < selected.len() && selected[i]
}

/// The state after scanning the first `n` members: the retained members,
/// the identities seen, and whether the bound cut the scan short.
pub open spec fn scan(members: Seq<ProjectedMember>, selected: Seq<bool>, n: int) -> (
    Seq<ProjectedMember>,
    Set<MemberIdentity>,
    bool,
)
    decreases n,
{
    if n <= 0 {
        (Seq::empty(), Set::empty(), false)
    } else {
        let previous = scan(members, selected, n - 1);
        let member = members[n - 1];
        let identity = identity_of(member);
        if previous.2 || !is_selected(selected, n - 1) || previous.1.contains(identity) {
            previous
        } else if previous.0.len() == MAX_COHORT_MEMBERS {
            (previous.0, previous.1.insert(identity), true)
        } else {
            (previous.0.push(member), previous.1.insert(identity), false)
        }
    }
}

/// A member's analyzed range as a pair.
pub open spec fn member_pair(member: ProjectedMember) -> (u64, u64) {
    (member.source_range[0] as u64, member.source_range[1] as u64)
}

/// The analyzed ranges of the members, in order.
pub open spec fn member_pairs(members: Seq<ProjectedMember>) -> Seq<(u64, u64)> {
    members.map_values(|member: ProjectedMember| member_pair(member))
}

/// The members' ranges, sorted and coalesced.
pub open spec fn coalesced_spec(members: Seq<ProjectedMember>) -> Seq<(u64, u64)> {
    merge_sorted(sorted_pairs(member_pairs(members)))
}

/// Live ranges as pairs.
pub open spec fn live_pairs(ranges: Seq<Range<usize>>) -> Seq<(u64, u64)> {
    ranges.map_values(|range: Range<usize>| (range.start as u64, range.end as u64))
}

/// Every member's analyzed range is non-empty.
pub open spec fn members_nonempty(members: Seq<ProjectedMember>) -> bool {
    forall|i: int|
        0 <= i < members.len() ==> (#[trigger] members[i]).source_range[0]
            < members[i].source_range[1]
}

/// `n`, capped at `usize::MAX` (the result of repeated saturating adds).
pub open spec fn saturated(n: nat) -> nat {
    if n > usize::MAX {
        usize::MAX as nat
    } else {
        n
    }
}

/// Total length of the pairs.
pub open spec fn total_len(pairs: Seq<(u64, u64)>) -> nat
    decreases pairs.len(),
{
    if pairs.len() == 0 {
        0
    } else {
        total_len(pairs.drop_last()) + (if pairs.last().0 < pairs.last().1 {
            (pairs.last().1 - pairs.last().0) as nat
        } else {
            0
        })
    }
}

/// Whether a range can be read from the bytes.
pub open spec fn readable(bytes: Seq<u8>, range: (u64, u64)) -> bool {
    range.0 <= range.1 && range.1 <= bytes.len()
}

/// The bytes inside every readable range, range after range.
pub open spec fn observed_bytes(bytes: Seq<u8>, ranges: Seq<(u64, u64)>) -> Seq<u8>
    decreases ranges.len(),
{
    if ranges.len() == 0 {
        Seq::empty()
    } else {
        let previous = observed_bytes(bytes, ranges.drop_last());
        let range = ranges.last();
        if readable(bytes, range) {
            previous + bytes.subrange(range.0 as int, range.1 as int)
        } else {
            previous
        }
    }
}

/// How often `byte` occurs in the sequence.
pub open spec fn count_byte(s: Seq<u8>, byte: int) -> nat
    decreases s.len(),
{
    if s.len() == 0 {
        0
    } else {
        count_byte(s.drop_last(), byte) + if s.last() == byte {
            1nat
        } else {
            0nat
        }
    }
}

/// `concentration` is the dominant byte of `seen`: no byte is counted more
/// often, every lower byte strictly less often, with counts capped at
/// `usize::MAX`.
pub open spec fn is_concentration_of(seen: Seq<u8>, c: SourceByteConcentration) -> bool {
    &&& c.observed_offsets == saturated(seen.len())
    &&& c.occurrences == saturated(count_byte(seen, c.byte as int))
    &&& forall|b: int|
        0 <= b < 256 ==> saturated(#[trigger] count_byte(seen, b)) <= c.occurrences
    &&& forall|b: int| 0 <= b < c.byte ==> saturated(#[trigger] count_byte(seen, b)) < c.occurrences
}

/// What `concentration` returns for the bytes and ranges.
pub open spec fn concentration_matches(
    bytes: Seq<u8>,
    ranges: Seq<(u64, u64)>,
    result: Option<SourceByteConcentration>,
) -> bool {
    let seen = observed_bytes(bytes, ranges);
    &&& result is None <==> seen.len() == 0
    &&& result matches Some(c) ==> is_concentration_of(seen, c)
}

proof fn lemma_scan_stops(members: Seq<ProjectedMember>, selected: Seq<bool>, n: int, m: int)
    requires
        0 <= n <= m,
        scan(members, selected, n).2,
    ensures
        scan(members, selected, m) == scan(members, selected, n),
    decreases m - n,
{
    if m > n {
        lemma_scan_stops(members, selected, n, m - 1);
    }
}

proof fn lemma_scan_bounded(members: Seq<ProjectedMember>, selected: Seq<bool>, n: int)
    ensures
        scan(members, selected, n).0.len() <= MAX_COHORT_MEMBERS,
    decreases n,
{
    if n > 0 {
        lemma_scan_bounded(members, selected, n - 1);
    }
}

/// Whether `member` is one of the first `n` members and marked as inside.
pub open spec fn is_input_member(
    members: Seq<ProjectedMember>,
    selected: Seq<bool>,
    n: int,
    member: ProjectedMember,
) -> bool {
    exists|k: int| 0 <= k < n && is_selected(selected, k) && #[trigger] members[k] == member
}

/// A selection keeps at most [`MAX_COHORT_MEMBERS`] members, is cut short
/// only when it is full, never keeps two instances of one datum, and keeps
/// only members marked as inside the rectangle.
pub proof fn lemma_selection_bounded_and_distinct(
    members: Seq<ProjectedMember>,
    selected: Seq<bool>,
    n: int,
)
    requires
        0 <= n <= members.len(),
    ensures
        scan(members, selected, n).0.len() <= MAX_COHORT_MEMBERS,
        scan(members, selected, n).2 ==> scan(members, selected, n).0.len() == MAX_COHORT_MEMBERS,
        forall|i: int, j: int|
            0 <= i < j < scan(members, selected, n).0.len() ==> identity_of(
                #[trigger] scan(members, selected, n).0[i],
            ) != identity_of(#[trigger] scan(members, selected, n).0[j]),
        forall|i: int|
            0 <= i < scan(members, selected, n).0.len() ==> scan(members, selected, n).1.contains(
                identity_of(#[trigger] scan(members, selected, n).0[i]),
            ),
        forall|i: int|
            0 <= i < scan(members, selected, n).0.len() ==> is_input_member(
                members,
                selected,
                n,
                #[trigger] scan(members, selected, n).0[i],
            ),
    decreases n,
{
    if n > 0 {
        lemma_selection_bounded_and_distinct(members, selected, n - 1);
        let previous = scan(members, selected, n - 1);
        let current = scan(members, selected, n);
        assert forall|i: int|
            0 <= i < current.0.len() implies is_input_member(members, selected, n, #[trigger] current.0[i]) by {
            if i < previous.0.len() {
                assert(current.0[i] == previous.0[i]);
                assert(is_input_member(members, selected, n - 1, previous.0[i]));
                let k = choose|k: int|
                    0 <= k < n - 1 && is_selected(selected, k) && #[trigger] members[k] == previous.0[i];
                assert(0 <= k < n && is_selected(selected, k) && members[k] == current.0[i]);
            } else {
                assert(members[n - 1] == current.0[i]);
                assert(is_selected(selected, n - 1));
            }
        }
        assert forall|i: int|
            0 <= i < current.0.len() implies current.1.contains(identity_of(#[trigger] current.0[i])) by {
            if i < previous.0.len() {
                assert(current.0[i] == previous.0[i]);
            }
        }
        assert forall|i: int, j: int|
            0 <= i < j < current.0.len() implies identity_of(#[trigger] current.0[i]) != identity_of(
                #[trigger] current.0[j],
            ) by {
            if j < previous.0.len() {
                assert(current.0[i] == previous.0[i] && current.0[j] == previous.0[j]);
            } else {
                assert(current.0[i] == previous.0[i]);
                assert(previous.1.contains(identity_of(previous.0[i])));
            }
        }
    }
}

/// The members' analyzed ranges, sorted by `(start, end)` and coalesced
/// where they overlap or touch; refused when one is empty or reversed.
pub fn coalesce_ranges(members: &[ProjectedMember]) -> (result: Result<Vec<Range<usize>>, CohortError>)
    ensures
        result is Ok <==> members_nonempty(members@),
        result matches Err(error) ==> error == CohortError::OffsetOverflow,
        result matches Ok(ranges) ==> live_pairs(ranges@) == coalesced_spec(members@),
{
    let mut candidates: Vec<(u64, u64)> = Vec::new();
    let mut index: usize = 0;
    while index < members.len()
        invariant
            index <= members.len(),
            candidates@ == member_pairs(members@.take(index as int)),
            members_nonempty(members@.take(index as int)),
        decreases members.len() - index,
    {
        let start = members[index].source_range[0];
        let end = members[index].source_range[1];
        if start >= end {
            assert(!members_nonempty(members@)) by {
                assert(members@[index as int].source_range[0] >= members@[index as int].source_range[1]);
            }
            return Err(CohortError::OffsetOverflow);
        }
        candidates.push((start as u64, end as u64));
        index = index + 1;
        assert(candidates@ =~= member_pairs(members@.take(index as int)));
        assert forall|i: int| 0 <= i < index implies (#[trigger] members@.take(index as int)[i]).source_range[0]
            < members@.take(index as int)[i].source_range[1] by {
            if i < index - 1 {
                assert(members@.take(index - 1)[i] == members@.take(index as int)[i]);
            }
        }
    }
    assert(members@.take(members.len() as int) =~= members@);
    let sorted = sort_pairs(&candidates);
    let merged = merge_pairs(&sorted);
    proof {
        let pairs = member_pairs(members@);
        lemma_sorted_pairs_same_elements(pairs);
        assert forall|i: int| 0 <= i < sorted@.len() implies (#[trigger] sorted@[i]).0 < sorted@[i].1
            && sorted@[i].1 <= usize::MAX by {
            assert(sorted@.contains(sorted@[i]));
            assert(pairs.contains(sorted@[i]));
            let k = choose|k: int| 0 <= k < pairs.len() && pairs[k] == sorted@[i];
            assert(members@[k].source_range[0] < members@[k].source_range[1]);
        }
        lemma_merged_within(sorted@, usize::MAX as u64);
    }
    let mut ranges: Vec<Range<usize>> = Vec::new();
    let mut index: usize = 0;
    while index < merged.len()
        invariant
            index <= merged.len(),
            merged@ == coalesced_spec(members@),
            all_nonempty(merged@),
            forall|i: int| 0 <= i < merged.len() ==> (#[trigger] merged@[i]).1 <= usize::MAX,
            live_pairs(ranges@) == merged@.take(index as int),
        decreases merged.len() - index,
    {
        let pair = merged[index];
        assert(pair.0 < pair.1 && pair.1 <= usize::MAX) by {
            assert(merged@[index as int].0 < merged@[index as int].1);
        }
        let range = Range { start: pair.0 as usize, end: pair.1 as usize };
        assert(range.start as u64 == pair.0 && range.end as u64 == pair.1);
        let ghost before = ranges@;
        ranges.push(range);
        index = index + 1;
        assert(live_pairs(ranges@) =~= live_pairs(before).push(pair));
        assert(merged@.take(index as int) =~= merged@.take(index - 1).push(pair));
    }
    assert(merged@.take(merged.len() as int) =~= merged@);
    Ok(ranges)
}

/// The coalesced ranges of members with non-empty ranges are non-empty,
/// strictly separated, and cover exactly the offsets the members' ranges
/// cover.
pub proof fn lemma_coalesced_ranges_exact(members: Seq<ProjectedMember>)
    requires
        members_nonempty(members),
    ensures
        all_nonempty(coalesced_spec(members)),
        separated(coalesced_spec(members)),
        forall|p: int| covers(coalesced_spec(members), p) <==> covers(member_pairs(members), p),
{
    let pairs = member_pairs(members);
    lemma_sorted_pairs_same_elements(pairs);
    let sorted = sorted_pairs(pairs);
    assert forall|i: int| 0 <= i < sorted.len() implies (#[trigger] sorted[i]).0 < sorted[i].1 by {
        assert(sorted.contains(sorted[i]));
        assert(pairs.contains(sorted[i]));
        let k = choose|k: int| 0 <= k < pairs.len() && pairs[k] == sorted[i];
        assert(members[k].source_range[0] < members[k].source_range[1]);
    }
    lemma_merge_sorted_normalizes(sorted);
    lemma_covers_same_elements(sorted, pairs);
}

proof fn lemma_count_last(s: Seq<u8>)
    requires
        s.len() > 0,
    ensures
        count_byte(s, s.last() as int) >= 1,
{
}

/// The dominant byte among the bytes inside every readable range, with
/// saturating counts; nothing when no range could be read.
pub fn concentration(bytes: &[u8], ranges: &[Range<usize>]) -> (result: Option<SourceByteConcentration>)
    ensures
        concentration_matches(bytes@, live_pairs(ranges@), result),
{
    let mut counts: Vec<usize> = Vec::new();
    while counts.len() < 256
        invariant
            counts.len() <= 256,
            forall|b: int| 0 <= b < counts.len() ==> counts@[b] == 0,
        decreases 256 - counts.len(),
    {
        counts.push(0);
    }
    let ghost pairs = live_pairs(ranges@);
    let ghost mut seen: Seq<u8> = Seq::empty();
    let mut observed: usize = 0;
    let mut k: usize = 0;
    while k < ranges.len()
        invariant
            k <= ranges.len(),
            pairs == live_pairs(ranges@),
            counts.len() == 256,
            seen == observed_bytes(bytes@, pairs.take(k as int)),
            observed == saturated(seen.len()),
            forall|b: int| 0 <= b < 256 ==> counts@[b] == saturated(#[trigger] count_byte(seen, b)),
        decreases ranges.len() - k,
    {
        let start = ranges[k].start;
        let end = ranges[k].end;
        proof {
            assert(pairs.take(k + 1).drop_last() =~= pairs.take(k as int));
        }
        if start <= end && end <= bytes.len() {
            let ghost before = seen;
            let mut p = start;
            while p < end
                invariant
                    start <= p <= end <= bytes.len(),
                    counts.len() == 256,
                    seen == before + bytes@.subrange(start as int, p as int),
                    observed == saturated(seen.len()),
                    forall|b: int| 0 <= b < 256 ==> counts@[b] == saturated(#[trigger] count_byte(seen, b)),
                decreases end - p,
            {
                let byte = bytes[p];
                let slot = byte as usize;
                let updated = counts[slot].saturating_add(1);
                counts.set(slot, updated);
                observed = observed.saturating_add(1);
                proof {
                    let next = seen.push(byte);
                    assert(next.drop_last() =~= seen);
                    assert(forall|b: int| 0 <= b < 256 ==> #[trigger] count_byte(next, b) == count_byte(seen, b) + if b == byte as int { 1nat } else { 0nat });
                    seen = next;
                    assert(seen =~= before + bytes@.subrange(start as int, p + 1));
                }
                p = p + 1;
            }
            proof {
                assert(seen == observed_bytes(bytes@, pairs.take(k + 1)));
            }
        } else {
            proof {
                assert(seen == observed_bytes(bytes@, pairs.take(k + 1)));
            }
        }
        k = k + 1;
    }
    assert(pairs.take(ranges.len() as int) =~= pairs);
    if observed == 0 {
        return None;
    }
    let mut byte: u8 = 0;
    let mut occurrences: usize = 0;
    let mut index: usize = 0;
    while index < 256
        invariant
            index <= 256,
            counts.len() == 256,
            forall|b: int| 0 <= b < index ==> counts@[b] <= occurrences,
            forall|b: int| 0 <= b < byte ==> counts@[b] < occurrences,
            occurrences > 0 ==> byte < index && counts@[byte as int] == occurrences,
            occurrences == 0 ==> byte == 0,
        decreases 256 - index,
    {
        if counts[index] > occurrences {
            byte = index as u8;
            occurrences = counts[index];
        }
        index = index + 1;
    }
    proof {
        lemma_count_last(seen);
        let last = seen.last() as int;
        assert(counts@[last] >= 1);
    }
    Some(SourceByteConcentration { byte, occurrences, observed_offsets: observed })
}

/// Selects the members marked as inside the rectangle, keeping input order,
/// collapsing duplicate instances of one datum, and keeping at most
/// [`MAX_COHORT_MEMBERS`]; then explains them by their coalesced source
/// ranges and, when source bytes are given, the dominant byte in those
/// ranges. `selected[i]` says whether member `i` lies inside the rectangle.
pub fn select_cohort(
    projected_members: &[ProjectedMember],
    selected: &[bool],
    source_bytes: Option<&[u8]>,
) -> (result: Result<CohortSelection, CohortError>)
    ensures
        ({
            let state = scan(projected_members@, selected@, projected_members@.len() as int);
            &&& result is Ok <==> members_nonempty(state.0)
            &&& result matches Err(error) ==> error == CohortError::OffsetOverflow
            &&& result matches Ok(selection) ==> {
                &&& selection.members@ == state.0
                &&& selection.truncated == state.2
                &&& live_pairs(selection.source_ranges@) == coalesced_spec(state.0)
                &&& selection.metrics.member_count == state.0.len()
                &&& selection.metrics.source_span == if selection.source_ranges.len() == 0 {
                    None
                } else {
                    Some(
                        Range {
                            start: selection.source_ranges@[0].start,
                            end: selection.source_ranges@.last().end,
                        },
                    )
                }
                &&& selection.metrics.unique_byte_count == saturated(
                    total_len(coalesced_spec(state.0)),
                )
                &&& match source_bytes {
                    Some(bytes) => concentration_matches(
                        bytes@,
                        coalesced_spec(state.0),
                        selection.metrics.source_byte_concentration,
                    ),
                    None => selection.metrics.source_byte_concentration is None,
                }
            }
        }),
{
    let mut members: Vec<ProjectedMember> = Vec::new();
    let mut identities = new_identity_set();
    let mut truncated = false;
    let mut index: usize = 0;
    while index < projected_members.len() && !truncated
        invariant
            index <= projected_members.len(),
            scan(projected_members@, selected@, index as int) == (members@, identities@, truncated),
        decreases projected_members.len() - index,
    {
        let member = projected_members[index];
        proof {
            lemma_scan_bounded(projected_members@, selected@, index as int);
        }
        if index < selected.len() && selected[index] {
            let identity = (
                member.source_offsets[0],
                member.source_offsets[1],
                member.source_offsets[2],
                member.source_range[0],
                member.source_range[1],
            );
            let fresh = insert_identity(&mut identities, identity);
            if fresh {
                if members.len() == MAX_COHORT_MEMBERS {
                    truncated = true;
                } else {
                    members.push(member);
                }
            }
        }
        index = index + 1;
    }
    proof {
        if truncated {
            lemma_scan_stops(
                projected_members@,
                selected@,
                index as int,
                projected_members@.len() as int,
            );
        }
    }
    let source_ranges = match coalesce_ranges(members.as_slice()) {
        Ok(ranges) => ranges,
        Err(error) => return Err(error),
    };
    let source_span = if source_ranges.len() == 0 {
        None
    } else {
        Some(Range { start: source_ranges[0].start, end: source_ranges[source_ranges.len() - 1].end })
    };
    let mut unique_byte_count: usize = 0;
    let mut k: usize = 0;
    while k < source_ranges.len()
        invariant
            k <= source_ranges.len(),
            unique_byte_count == saturated(total_len(live_pairs(source_ranges@).take(k as int))),
        decreases source_ranges.len() - k,
    {
        let start = source_ranges[k].start;
        let end = source_ranges[k].end;
        let length = if start < end {
            end - start
        } else {
            0
        };
        proof {
            assert(live_pairs(source_ranges@).take(k + 1).drop_last() =~= live_pairs(
                source_ranges@,
            ).take(k as int));
        }
        unique_byte_count = unique_byte_count.saturating_add(length);
        k = k + 1;
    }
    assert(live_pairs(source_ranges@).take(source_ranges.len() as int) =~= live_pairs(
        source_ranges@,
    ));
    let source_byte_concentration = match source_bytes {
        Some(bytes) => concentration(bytes, source_ranges.as_slice()),
        None => None,
    };
    let member_count = members.len();
    Ok(
        CohortSelection {
            members,
            source_ranges,
            metrics: CohortMetrics {
                member_count,
                source_span,
                unique_byte_count,
                source_byte_concentration,
            },
            truncated,
        },
    )
}

/// The stored, source-free form of a selection: member offsets, member
/// ranges, and the coalesced exact ranges, each widened to `u64`.
pub fn stored_cohort_from_selection(selection: &CohortSelection) -> (result: Result<StoredCohort, String>)
    ensures
        result matches Ok(stored) && {
            &&& stored.members.len() == selection.members.len()
            &&& forall|i: int|
                0 <= i < selection.members.len() ==> (#[trigger] stored.members@[i])[0]
                    == selection.members@[i].source_offsets[0] && stored.members@[i][1]
                    == selection.members@[i].source_offsets[1] && stored.members@[i][2]
                    == selection.members@[i].source_offsets[2]
            &&& stored.member_ranges.len() == selection.members.len()
            &&& forall|i: int|
                0 <= i < selection.members.len() ==> (#[trigger] stored.member_ranges@[i]).start
                    == selection.members@[i].source_range[0] && stored.member_ranges@[i].end
                    == selection.members@[i].source_range[1]
            &&& stored.exact_ranges.len() == selection.source_ranges.len()
            &&& forall|i: int|
                0 <= i < selection.source_ranges.len() ==> (#[trigger] stored.exact_ranges@[i]).start
                    == selection.source_ranges@[i].start && stored.exact_ranges@[i].end
                    == selection.source_ranges@[i].end
        },
{
    let mut members: Vec<[u64; 3]> = Vec::new();
    let mut member_ranges: Vec<StoredRange> = Vec::new();
    let mut index: usize = 0;
    while index < selection.members.len()
        invariant
            index <= selection.members.len(),
            members.len() == index,
            member_ranges.len() == index,
            forall|i: int|
                0 <= i < index ==> (#[trigger] members@[i])[0]
                    == selection.members@[i].source_offsets[0] && members@[i][1]
                    == selection.members@[i].source_offsets[1] && members@[i][2]
                    == selection.members@[i].source_offsets[2],
            forall|i: int|
                0 <= i < index ==> (#[trigger] member_ranges@[i]).start
                    == selection.members@[i].source_range[0] && member_ranges@[i].end
                    == selection.members@[i].source_range[1],
        decreases selection.members.len() - index,
    {
        let member = selection.members[index];
        members.push(
            [
                member.source_offsets[0] as u64,
                member.source_offsets[1] as u64,
                member.source_offsets[2] as u64,
            ],
        );
        member_ranges.push(
            StoredRange { start: member.source_range[0] as u64, end: member.source_range[1] as u64 },
        );
        index = index + 1;
    }
    let mut exact_ranges: Vec<StoredRange> = Vec::new();
    let mut index: usize = 0;
    while index < selection.source_ranges.len()
        invariant
            index <= selection.source_ranges.len(),
            exact_ranges.len() == index,
            forall|i: int|
                0 <= i < index ==> (#[trigger] exact_ranges@[i]).start
                    == selection.source_ranges@[i].start && exact_ranges@[i].end
                    == selection.source_ranges@[i].end,
        decreases selection.source_ranges.len() - index,
    {
        let range = &selection.source_ranges[index];
        exact_ranges.push(StoredRange { start: range.start as u64, end: range.end as u64 });
        index = index + 1;
    }
    Ok(StoredCohort { members, member_ranges, exact_ranges })
}


/// A sampled source byte: source, generation and exact offset.
#[derive(Clone, Copy, Debug, PartialEq, Eq, Structural)]
pub struct SampledByteId {
    pub source_id: u64,
    pub generation: u64,
    pub offset: u64,
}

/// A named contribution to why a sample or a cohort was selected.
#[derive(Clone, Debug)]
pub struct CohortFactor {
    pub name: String,
    pub contribution: i64,
}

/// One exact source byte of a cohort with its analytical coordinates.
#[derive(Clone, Debug)]
pub struct CohortSample {
    pub id: SampledByteId,
    pub byte: u8,
    pub position: [i32; 3],
    pub factors: Vec<CohortFactor>,
    pub provenance: ExactProvenance,
}

/// The lasso selection that links a cohort's samples, with its explanation.
#[derive(Clone, Debug)]
pub struct CohortLasso {
    pub member_ids: Vec<SampledByteId>,
    pub explanation: String,
    pub factors: Vec<CohortFactor>,
}

/// An analytical cohort over one source generation.
#[derive(Clone, Debug)]
pub struct CohortModel {
    pub source_id: u64,
    pub generation: u64,
    pub samples: Vec<CohortSample>,
    pub lasso: Option<CohortLasso>,
}

/// Whether `offset` contributes to one of the members.
pub open spec fn is_member_offset(members: Seq<ProjectedMember>, offset: int) -> bool {
    exists|i: int, k: int|
        0 <= i < members.len() && 0 <= k < 3 && (#[trigger] members[i].source_offsets[k]) == offset
}

/// Why a contributing offset cannot become a cohort sample, checked in this
/// order: its one-byte range, its place in the source, its coordinate.
pub open spec fn sample_offset_fault(offset: int, source_length: int) -> Option<Seq<char>> {
    if offset + 1 > u64::MAX {
        Some("cohort range overflow"@)
    } else if offset >= source_length {
        Some("cohort offset is outside the immutable source"@)
    } else if offset > i32::MAX {
        Some("cohort position overflow"@)
    } else {
        None
    }
}

/// A factor as (name, contribution).
pub open spec fn factor_view(f: CohortFactor) -> (Seq<char>, i64) {
    (f.name@, f.contribution)
}

/// The sample recorded for `offset`.
pub open spec fn sample_matches(
    sample: CohortSample,
    offset: int,
    bytes: Seq<u8>,
    generation: u64,
    code: i32,
) -> bool {
    let byte = bytes[offset];
    &&& sample.id == (SampledByteId { source_id: 1, generation, offset: offset as u64 })
    &&& sample.byte == byte
    &&& sample.position[0] == byte * 1000
    &&& sample.position[1] == offset
    &&& sample.position[2] == code
    &&& sample.factors@.map_values(|f: CohortFactor| factor_view(f)) == seq![
        ("byte-value-milli"@, (byte * 1000) as i64),
        ("projection-space"@, code as i64),
    ]
    &&& provenance_view(sample.provenance) == (1u64, generation, seq![(offset as u64, (offset + 1) as u64)])
}

/// Why the selection's counts cannot be recorded as lasso factors.
pub open spec fn lasso_count_fault(selection: CohortSelection) -> Option<Seq<char>> {
    let metrics = selection.metrics;
    if metrics.member_count > i64::MAX {
        Some("cohort member count overflow"@)
    } else if metrics.unique_byte_count > i64::MAX {
        Some("cohort byte count overflow"@)
    } else if metrics.source_byte_concentration matches Some(c) && c.occurrences > i64::MAX {
        Some("cohort concentration overflow"@)
    } else {
        None
    }
}

/// The lasso factors of a selection.
pub open spec fn lasso_factors_spec(selection: CohortSelection) -> Seq<(Seq<char>, i64)> {
    let metrics = selection.metrics;
    let counts = seq![
        ("selected-voxels"@, metrics.member_count as i64),
        ("exact-source-bytes"@, metrics.unique_byte_count as i64),
    ];
    match metrics.source_byte_concentration {
        Some(c) => counts.push(("dominant-byte-0x"@ + hex_padded(c.byte as nat, 2), c.occurrences as i64)),
        None => counts,
    }
}

/// Why the lasso links the samples.
pub open spec fn lasso_explanation_spec(selection: CohortSelection, projection: ProjectionKind) -> Seq<char> {
    decimal_digits(selection.metrics.member_count as nat)
        + " voxels remain linked because they occupied one screen-space cohort in "@ + kind_label(
        projection,
    ) + "."@
}

fn factor(name: &str, contribution: i64) -> (f: CohortFactor)
    ensures
        factor_view(f) == (name@, contribution),
{
    CohortFactor { name: name.to_owned(), contribution }
}

fn cohort_sample(offset: usize, byte: u8, generation: u64, code: i32) -> (sample: CohortSample)
    requires
        offset <= i32::MAX,
    ensures
        sample.id == (SampledByteId { source_id: 1, generation, offset: offset as u64 }),
        sample.byte == byte,
        sample.position[0] == byte * 1000,
        sample.position[1] == offset,
        sample.position[2] == code,
        sample.factors@.map_values(|f: CohortFactor| factor_view(f)) == seq![
            ("byte-value-milli"@, (byte * 1000) as i64),
            ("projection-space"@, code as i64),
        ],
        provenance_view(sample.provenance) == (1u64, generation, seq![(offset as u64, (offset + 1) as u64)]),
{
    let id = SampledByteId { source_id: 1, generation, offset: offset as u64 };
    let mut factors: Vec<CohortFactor> = Vec::new();
    factors.push(factor("byte-value-milli", (byte as i64) * 1000));
    factors.push(factor("projection-space", code as i64));
    assert(factors@.map_values(|f: CohortFactor| factor_view(f)) =~= seq![
        ("byte-value-milli"@, (byte * 1000) as i64),
        ("projection-space"@, code as i64),
    ]);
    let mut ranges: Vec<ByteRange> = Vec::new();
    ranges.push(ByteRange { start: offset as u64, end: offset as u64 + 1 });
    let provenance = ExactProvenance { source_id: 1, generation, ranges };
    assert(provenance_view(provenance).2 =~= seq![(offset as u64, (offset + 1) as u64)]);
    CohortSample {
        id,
        byte,
        position: [(byte as i32) * 1000, offset as i32, code],
        factors,
        provenance,
    }
}

/// Builds the analytical cohort of a selection: one sample per distinct
/// contributing offset, in ascending order, with its byte, coordinates,
/// factors and one-byte provenance, all linked by one lasso that records
/// the selection's counts and dominant byte. Refused at the first offset
/// that cannot be a sample, or when a count cannot be recorded.
pub fn materialize_analytical_cohort(
    selection: &CohortSelection,
    source_bytes: &[u8],
    generation: u64,
    projection: ProjectionKind,
) -> (result: Result<CohortModel, String>)
    ensures
        ({
            let offset_fault = exists|o: int|
                #[trigger] is_member_offset(selection.members@, o) && sample_offset_fault(
                    o,
                    source_bytes@.len() as int,
                ) is Some;
            &&& offset_fault ==> (result matches Err(message) && exists|o: int|
                #[trigger] is_member_offset(selection.members@, o) && sample_offset_fault(
                    o,
                    source_bytes@.len() as int,
                ) == Some(message@) && forall|p: int|
                    #[trigger] is_member_offset(selection.members@, p) && p < o
                        ==> sample_offset_fault(p, source_bytes@.len() as int) is None)
            &&& !offset_fault ==> match result {
                Err(message) => lasso_count_fault(*selection) == Some(message@),
                Ok(model) => {
                    let code = projection_code_spec(projection);
                    &&& lasso_count_fault(*selection) is None
                    &&& model.source_id == 1
                    &&& model.generation == generation
                    &&& forall|a: int, b: int|
                        0 <= a < b < model.samples.len() ==> (#[trigger] model.samples@[a]).id.offset
                            < (#[trigger] model.samples@[b]).id.offset
                    &&& forall|i: int|
                        0 <= i < model.samples.len() ==> is_member_offset(
                            selection.members@,
                            (#[trigger] model.samples@[i]).id.offset as int,
                        ) && sample_matches(
                            model.samples@[i],
                            model.samples@[i].id.offset as int,
                            source_bytes@,
                            generation,
                            code,
                        )
                    &&& forall|o: int|
                        #[trigger] is_member_offset(selection.members@, o) ==> exists|i: int|
                            0 <= i < model.samples.len() && (#[trigger] model.samples@[i]).id.offset
                                == o
                    &&& model.lasso matches Some(lasso) && {
                        &&& lasso.member_ids.len() == model.samples.len()
                        &&& forall|i: int|
                            0 <= i < model.samples.len() ==> (#[trigger] lasso.member_ids@[i])
                                == model.samples@[i].id
                        &&& lasso.explanation@ == lasso_explanation_spec(*selection, projection)
                        &&& lasso.factors@.map_values(|f: CohortFactor| factor_view(f))
                            == lasso_factors_spec(*selection)
                    }
                },
            }
        }),
{
    let code = projection_code(projection);
    let mut offsets: BTreeSet<u64> = BTreeSet::new();
    let mut i: usize = 0;
    while i < selection.members.len()
        invariant
            i <= selection.members.len(),
            forall|o: u64| #[trigger] offsets@.contains(o) <==> is_member_offset(
                selection.members@.take(i as int),
                o as int,
            ),
        decreases selection.members.len() - i,
    {
        let member = selection.members[i];
        insert_offset(&mut offsets, member.source_offsets[0] as u64);
        insert_offset(&mut offsets, member.source_offsets[1] as u64);
        insert_offset(&mut offsets, member.source_offsets[2] as u64);
        i = i + 1;
        assert forall|o: u64| #[trigger] offsets@.contains(o) <==> is_member_offset(
            selection.members@.take(i as int),
            o as int,
        ) by {
            let t = selection.members@.take(i as int);
            let p = selection.members@.take(i - 1);
            if is_member_offset(t, o as int) {
                let (a, k) = choose|a: int, k: int|
                    0 <= a < t.len() && 0 <= k < 3 && (#[trigger] t[a].source_offsets[k]) == o;
                if a < i - 1 {
                    assert(p[a] == t[a]);
                    assert(is_member_offset(p, o as int));
                }
            }
            if is_member_offset(p, o as int) {
                let (a, k) = choose|a: int, k: int|
                    0 <= a < p.len() && 0 <= k < 3 && (#[trigger] p[a].source_offsets[k]) == o;
                assert(t[a] == p[a]);
                assert(is_member_offset(t, o as int));
            }
            if o == member.source_offsets[0] as u64 || o == member.source_offsets[1] as u64 || o
                == member.source_offsets[2] as u64 {
                assert(t[i - 1] == member);
                if o == member.source_offsets[0] as u64 {
                    assert(t[i - 1].source_offsets[0] == o);
                } else if o == member.source_offsets[1] as u64 {
                    assert(t[i - 1].source_offsets[1] == o);
                } else {
                    assert(t[i - 1].source_offsets[2] == o);
                }
            }
        }
    }
    assert(selection.members@.take(selection.members.len() as int) =~= selection.members@);
    let ghost members = selection.members@;
    assert forall|o: int| #[trigger] is_member_offset(members, o) implies 0 <= o <= usize::MAX
        && offsets@.contains(o as u64) by {
        let (a, k) = choose|a: int, k: int|
            0 <= a < members.len() && 0 <= k < 3 && (#[trigger] members[a].source_offsets[k]) == o;
    }
    let ascending = ascending_offsets(&offsets);
    let mut samples: Vec<CohortSample> = Vec::new();
    let mut member_ids: Vec<SampledByteId> = Vec::new();
    let mut j: usize = 0;
    while j < ascending.len()
        invariant
            j <= ascending.len(),
            members == selection.members@,
            code == projection_code_spec(projection),
            forall|a: int, b: int| 0 <= a < b < ascending.len() ==> ascending@[a] < ascending@[b],
            ascending@.to_set() == offsets@,
            forall|o: u64| #[trigger] offsets@.contains(o) <==> is_member_offset(members, o as int),
            samples.len() == j,
            member_ids.len() == j,
            forall|a: int|
                0 <= a < j ==> (#[trigger] samples@[a]).id.offset == ascending@[a] && sample_matches(
                    samples@[a],
                    ascending@[a] as int,
                    source_bytes@,
                    generation,
                    code,
                ) && member_ids@[a] == samples@[a].id,
            forall|a: int|
                0 <= a < j ==> sample_offset_fault(#[trigger] ascending@[a] as int, source_bytes@.len() as int) is None,
        decreases ascending.len() - j,
    {
        let offset_u64 = ascending[j];
        assert(offsets@.contains(offset_u64)) by {
            assert(ascending@.contains(offset_u64));
        }
        let ghost witness_fault = sample_offset_fault(offset_u64 as int, source_bytes@.len() as int);
        proof {
            assert forall|p: int| #[trigger] is_member_offset(members, p) && p < offset_u64
                implies sample_offset_fault(p, source_bytes@.len() as int) is None by {
                assert(offsets@.contains(p as u64));
                assert(ascending@.to_set().contains(p as u64));
                let a = choose|a: int| 0 <= a < ascending.len() && ascending@[a] == p as u64;
                if a >= j {
                    if a > j {
                        assert(ascending@[j as int] < ascending@[a]);
                    }
                }
            }
        }
        if offset_u64 == u64::MAX {
            return Err("cohort range overflow".to_owned());
        }
        let offset = offset_u64 as usize;
        if offset >= source_bytes.len() {
            return Err("cohort offset is outside the immutable source".to_owned());
        }
        if offset > i32::MAX as usize {
            return Err("cohort position overflow".to_owned());
        }
        let byte = source_bytes[offset];
        let sample = cohort_sample(offset, byte, generation, code);
        member_ids.push(sample.id);
        samples.push(sample);
        j = j + 1;
    }
    proof {
        assert forall|o: int| #[trigger] is_member_offset(members, o) implies sample_offset_fault(
            o,
            source_bytes@.len() as int,
        ) is None && exists|i: int| 0 <= i < samples.len() && (#[trigger] samples@[i]).id.offset == o by {
            assert(offsets@.contains(o as u64));
            assert(ascending@.to_set().contains(o as u64));
            let a = choose|a: int| 0 <= a < ascending.len() && ascending@[a] == o as u64;
            assert(samples@[a].id.offset == o);
        }
        assert forall|i: int| 0 <= i < samples.len() implies is_member_offset(
            members,
            (#[trigger] samples@[i]).id.offset as int,
        ) by {
            assert(ascending@.contains(ascending@[i]));
            assert(offsets@.contains(ascending@[i]));
        }
    }
    let metrics = &selection.metrics;
    if metrics.member_count as u64 > i64::MAX as u64 {
        return Err("cohort member count overflow".to_owned());
    }
    if metrics.unique_byte_count as u64 > i64::MAX as u64 {
        return Err("cohort byte count overflow".to_owned());
    }
    let mut factors: Vec<CohortFactor> = Vec::new();
    factors.push(factor("selected-voxels", metrics.member_count as i64));
    factors.push(factor("exact-source-bytes", metrics.unique_byte_count as i64));
    let ghost counts = factors@.map_values(|f: CohortFactor| factor_view(f));
    match metrics.source_byte_concentration {
        Some(concentration) => {
            if concentration.occurrences as u64 > i64::MAX as u64 {
                return Err("cohort concentration overflow".to_owned());
            }
            let mut name = "dominant-byte-0x".to_owned();
            push_hex(&mut name, concentration.byte as u64, 2);
            factors.push(CohortFactor { name, contribution: concentration.occurrences as i64 });
            assert(factors@.map_values(|f: CohortFactor| factor_view(f)) =~= lasso_factors_spec(*selection));
        },
        None => {
            assert(factors@.map_values(|f: CohortFactor| factor_view(f)) =~= lasso_factors_spec(*selection));
        },
    }
    let mut explanation = String::new();
    push_decimal(&mut explanation, metrics.member_count as u64);
    push_str(&mut explanation, " voxels remain linked because they occupied one screen-space cohort in ");
    push_str(&mut explanation, projection.label());
    push_str(&mut explanation, ".");
    assert(explanation@ =~= lasso_explanation_spec(*selection, projection));
    let lasso = CohortLasso { member_ids, explanation, factors };
    let model = CohortModel { source_id: 1, generation, samples, lasso: Some(lasso) };
    assert(lasso_count_fault(*selection) is None);
    assert(forall|a: int, b: int|
        0 <= a < b < model.samples.len() ==> (#[trigger] model.samples@[a]).id.offset
            < (#[trigger] model.samples@[b]).id.offset);
    assert(forall|i: int|
        0 <= i < model.samples.len() ==> sample_matches(
            model.samples@[i],
            model.samples@[i].id.offset as int,
            source_bytes@,
            generation,
            projection_code_spec(projection),
        ));
    assert(!(exists|o: int|
        #[trigger] is_member_offset(selection.members@, o) && sample_offset_fault(
            o,
            source_bytes@.len() as int,
        ) is Some));
    Ok(model)
}

} // verus!

//! Source-free, serializable workspace intent: exact stored ranges, cohort
//! membership, XOR branches and view controls, with the validation that a
//! reopened session must pass before any of it is applied.

use std::collections::BTreeSet;

use vstd::prelude::*;
use vstd::relations::sorted_by;

use crate::ranges::{
    all_nonempty, covers, lemma_covers_same_elements, lemma_merge_sorted_identity,
    lemma_merge_sorted_normalizes, lemma_merged_within, lemma_pair_order_total,
    lemma_sorted_pairs_same_elements, merge_pairs, merge_sorted, pair_order, separated,
    sort_pairs, sorted_pairs,
};
use crate::ordered::{ascending_offsets, insert_offset};
use crate::text::push_str;

verus! {

/// Version of the workspace intent this library reads and writes.
pub const POC_WORKSPACE_VERSION: u32 = 1;

/// Most ranges one stored list may hold.
pub const MAX_STORED_RANGES: usize = 4096;

/// Most members one stored cohort may hold.
pub const MAX_STORED_COHORT_MEMBERS: usize = 4096;

/// Most stored XOR branches.
pub const MAX_STORED_BRANCHES: usize = 256;

/// Most stored finding dispositions.
pub const MAX_STORED_DISPOSITIONS: usize = 4096;

/// Persisted workbench view.
#[derive(Clone, Copy, Debug, PartialEq, Eq, Structural)]
pub enum StoredView {
    Discover,
    Projection3d,
    Resonance,
    Structure,
    Grammar,
    Interleave,
    RevisionDiff,
}

/// Persisted workbench mode.
#[derive(Clone, Copy, Debug, PartialEq, Eq, Structural)]
pub enum StoredWorkbenchMode {
    Leads,
    Regions,
    Compare,
}

/// Persisted analyst decision about a finding.
#[derive(Clone, Copy, Debug, PartialEq, Eq, Structural)]
pub enum StoredFindingStatus {
    Promoted,
    Dismissed,
}

/// Persisted state of a hypothesis branch.
#[derive(Clone, Copy, Debug, PartialEq, Eq, Structural)]
pub enum StoredBranchStatus {
    Draft,
    Active,
    Pinned,
    Discarded,
}

/// Persisted projection render style.
#[derive(Clone, Copy, Debug, PartialEq, Eq, Structural)]
pub enum StoredRenderStyle {
    Voxels,
    Density,
    Combined,
}

/// Persisted contour mode.
#[derive(Clone, Copy, Debug, PartialEq, Eq, Structural)]
pub enum StoredContourMode {
    Off,
    Isolines,
}

/// Persisted resonance metric.
#[derive(Clone, Copy, Debug, PartialEq, Eq, Structural)]
pub enum StoredResonanceMetric {
    ExactBytes,
    ByteShape,
    Texture,
}

/// A persisted half-open source range `start..end`.
#[derive(Clone, Copy, Debug, PartialEq, Eq, Structural)]
pub struct StoredRange {
    pub start: u64,
    pub end: u64,
}

/// A persisted decision about one lead.
#[derive(Clone, Copy, Debug, PartialEq, Eq, Structural)]
pub struct StoredFindingDisposition {
    pub lead_id: u64,
    pub status: StoredFindingStatus,
}

/// A persisted XOR hypothesis branch over one exact range.
#[derive(Clone, Debug)]
pub struct StoredXorBranch {
    pub id: [u64; 2],
    pub label: String,
    pub range: StoredRange,
    pub key: u8,
    pub status: StoredBranchStatus,
}

/// A persisted screen-space cohort: sampled identities (three contributing
/// offsets each), optional per-member analysed ranges, and the exact
/// normalized ranges they cover.
#[derive(Clone, Debug)]
pub struct StoredCohort {
    pub members: Vec<[u64; 3]>,
    pub member_ranges: Vec<StoredRange>,
    pub exact_ranges: Vec<StoredRange>,
}

/// The `(start, end)` pair of a stored range.
pub open spec fn pair_of(range: StoredRange) -> (u64, u64) {
    (range.start, range.end)
}

/// The stored range of a `(start, end)` pair.
pub open spec fn range_of(pair: (u64, u64)) -> StoredRange {
    StoredRange { start: pair.0, end: pair.1 }
}

/// The `(start, end)` pairs of stored ranges.
pub open spec fn pairs_of(ranges: Seq<StoredRange>) -> Seq<(u64, u64)> {
    ranges.map_values(|r: StoredRange| pair_of(r))
}

/// The stored ranges of `(start, end)` pairs.
pub open spec fn ranges_of(pairs: Seq<(u64, u64)>) -> Seq<StoredRange> {
    pairs.map_values(|p: (u64, u64)| range_of(p))
}

/// Why a stored range list is rejected.
#[derive(Clone, Copy, Debug, PartialEq, Eq, Structural)]
pub enum RangeFault {
    TooMany,
    EmptyOrOutOfBounds,
    Overlapping,
}

/// The fault of the range at index `i`, given that every earlier range
/// passed: empty, reversed or past the source end; or not strictly after the
/// previous range.
pub open spec fn range_fault_at(s: Seq<StoredRange>, source_length: u64, i: int) -> Option<
    RangeFault,
> {
    if !(s[i].start < s[i].end && s[i].end <= source_length) {
        Some(RangeFault::EmptyOrOutOfBounds)
    } else if i > 0 && s[i].start <= s[i - 1].end {
        Some(RangeFault::Overlapping)
    } else {
        None
    }
}

/// The first fault among the first `n` ranges.
pub open spec fn first_range_fault(s: Seq<StoredRange>, source_length: u64, n: int) -> Option<
    RangeFault,
>
    decreases n,
{
    if n <= 0 {
        None
    } else {
        match first_range_fault(s, source_length, n - 1) {
            Some(f) => Some(f),
            None => range_fault_at(s, source_length, n - 1),
        }
    }
}

/// The verdict of `validate_ranges`: `None` when the list is accepted.
pub open spec fn ranges_verdict(s: Seq<StoredRange>, source_length: u64) -> Option<RangeFault> {
    if s.len() > MAX_STORED_RANGES {
        Some(RangeFault::TooMany)
    } else {
        first_range_fault(s, source_length, s.len() as int)
    }
}

/// The message `validate_ranges` gives for a fault, naming the list.
pub open spec fn range_fault_message(fault: RangeFault, label: Seq<char>) -> Seq<char> {
    match fault {
        RangeFault::TooMany => "too many stored "@ + label + " ranges"@,
        RangeFault::EmptyOrOutOfBounds => "stored "@ + label + " range is empty or out of bounds"@,
        RangeFault::Overlapping => "stored "@ + label + " ranges overlap or are not normalized"@,
    }
}

/// A stored range list is valid exactly when it is bounded in count, every
/// range is non-empty and inside the source, and each range starts strictly
/// after the previous one ends.
pub open spec fn ranges_well_formed(s: Seq<StoredRange>, source_length: u64) -> bool {
    &&& s.len() <= MAX_STORED_RANGES
    &&& forall|i: int| 0 <= i < s.len() ==> (#[trigger] s[i]).start < s[i].end && s[i].end <= source_length
    &&& forall|i: int| 0 < i < s.len() ==> (#[trigger] s[i]).start > s[i - 1].end
}

proof fn lemma_first_range_fault_stable(s: Seq<StoredRange>, source_length: u64, k: int, m: int)
    requires
        0 <= k <= m,
        first_range_fault(s, source_length, k) is Some,
    ensures
        first_range_fault(s, source_length, m) == first_range_fault(s, source_length, k),
    decreases m - k,
{
    if m > k {
        lemma_first_range_fault_stable(s, source_length, k, m - 1);
    }
}

proof fn lemma_first_range_fault_none(s: Seq<StoredRange>, source_length: u64, n: int)
    requires
        0 <= n <= s.len(),
    ensures
        first_range_fault(s, source_length, n) is None <==> (forall|i: int|
            0 <= i < n ==> range_fault_at(s, source_length, i) is None),
    decreases n,
{
    if n > 0 {
        lemma_first_range_fault_none(s, source_length, n - 1);
        if first_range_fault(s, source_length, n) is None {
            assert forall|i: int| 0 <= i < n implies range_fault_at(s, source_length, i) is None by {
                if i < n - 1 {
                }
            }
        }
    }
}

/// `validate_ranges` accepts exactly the well-formed lists.
pub proof fn lemma_ranges_verdict_well_formed(s: Seq<StoredRange>, source_length: u64)
    ensures
        ranges_verdict(s, source_length) is None <==> ranges_well_formed(s, source_length),
{
    if s.len() <= MAX_STORED_RANGES {
        lemma_first_range_fault_none(s, source_length, s.len() as int);
        if ranges_well_formed(s, source_length) {
            assert forall|i: int| 0 <= i < s.len() implies range_fault_at(s, source_length, i) is None by {
                assert(s[i].start < s[i].end && s[i].end <= source_length);
                if i > 0 {
                    assert(s[i].start > s[i - 1].end);
                }
            }
        }
        if ranges_verdict(s, source_length) is None {
            assert forall|i: int| 0 <= i < s.len() implies (#[trigger] s[i]).start < s[i].end
                && s[i].end <= source_length by {
                assert(range_fault_at(s, source_length, i) is None);
            }
            assert forall|i: int| 0 < i < s.len() implies (#[trigger] s[i]).start > s[i - 1].end by {
                assert(range_fault_at(s, source_length, i) is None);
                assert(s[i - 1].start < s[i - 1].end);
            }
        }
    }
}

fn range_fault_text(fault: RangeFault, label: &str) -> (message: String)
    ensures
        message@ == range_fault_message(fault, label@),
{
    match fault {
        RangeFault::TooMany => {
            let mut message = "too many stored ".to_owned();
            push_str(&mut message, label);
            push_str(&mut message, " ranges");
            message
        },
        RangeFault::EmptyOrOutOfBounds => {
            let mut message = "stored ".to_owned();
            push_str(&mut message, label);
            push_str(&mut message, " range is empty or out of bounds");
            message
        },
        RangeFault::Overlapping => {
            let mut message = "stored ".to_owned();
            push_str(&mut message, label);
            push_str(&mut message, " ranges overlap or are not normalized");
            message
        },
    }
}

/// Checks that stored ranges are bounded in number, non-empty, inside the
/// source, ascending and non-overlapping; `label` names the list in the error.
pub fn validate_ranges(ranges: &[StoredRange], source_length: u64, label: &str) -> (result: Result<
    (),
    String,
>)
    ensures
        result is Ok <==> ranges_verdict(ranges@, source_length) is None,
        result matches Err(message) ==> message@ == range_fault_message(
            ranges_verdict(ranges@, source_length)->0,
            label@,
        ),
{
    if ranges.len() > MAX_STORED_RANGES {
        return Err(range_fault_text(RangeFault::TooMany, label));
    }
    let mut index: usize = 0;
    while index < ranges.len()
        invariant
            index <= ranges.len(),
            ranges.len() <= MAX_STORED_RANGES,
            first_range_fault(ranges@, source_length, index as int) is None,
        decreases ranges.len() - index,
    {
        let range = ranges[index];
        if range.start >= range.end || range.end > source_length {
            proof {
                lemma_first_range_fault_stable(ranges@, source_length, index + 1, ranges@.len() as int);
            }
            return Err(range_fault_text(RangeFault::EmptyOrOutOfBounds, label));
        }
        if index > 0 && range.start <= ranges[index - 1].end {
            proof {
                lemma_first_range_fault_stable(ranges@, source_length, index + 1, ranges@.len() as int);
            }
            return Err(range_fault_text(RangeFault::Overlapping, label));
        }
        index = index + 1;
    }
    Ok(())
}

/// Sorts stored ranges by `(start, end)` and coalesces every range that
/// starts at or before the end of the previous one.
pub open spec fn normalize_spec(ranges: Seq<StoredRange>) -> Seq<StoredRange> {
    ranges_of(merge_sorted(sorted_pairs(pairs_of(ranges))))
}

/// Sorts ranges by `(start, end)` and merges overlapping or touching ones.
pub fn normalized_ranges(ranges: &[StoredRange]) -> (normalized: Vec<StoredRange>)
    ensures
        normalized@ == normalize_spec(ranges@),
        (forall|i: int| 0 <= i < ranges@.len() ==> (#[trigger] ranges@[i]).start < ranges@[i].end)
            ==> {
            &&& forall|i: int|
                0 <= i < normalized@.len() ==> (#[trigger] normalized@[i]).start < normalized@[i].end
            &&& forall|i: int, j: int|
                0 <= i < j < normalized@.len() ==> (#[trigger] normalized@[i]).end < (
                #[trigger] normalized@[j]).start
            &&& forall|p: int| covers(pairs_of(normalized@), p) <==> covers(pairs_of(ranges@), p)
            &&& normalize_spec(normalized@) == normalized@
        },
{
    let mut pairs: Vec<(u64, u64)> = Vec::new();
    let mut index: usize = 0;
    while index < ranges.len()
        invariant
            index <= ranges.len(),
            pairs@ == pairs_of(ranges@.take(index as int)),
        decreases ranges.len() - index,
    {
        pairs.push((ranges[index].start, ranges[index].end));
        index = index + 1;
        assert(pairs@ =~= pairs_of(ranges@.take(index as int)));
    }
    assert(ranges@.take(ranges.len() as int) =~= ranges@);
    let sorted = sort_pairs(&pairs);
    let merged = merge_pairs(&sorted);
    let mut normalized: Vec<StoredRange> = Vec::new();
    let mut index: usize = 0;
    while index < merged.len()
        invariant
            index <= merged.len(),
            normalized@ == ranges_of(merged@.take(index as int)),
        decreases merged.len() - index,
    {
        normalized.push(StoredRange { start: merged[index].0, end: merged[index].1 });
        index = index + 1;
        assert(normalized@ =~= ranges_of(merged@.take(index as int)));
    }
    assert(merged@.take(merged.len() as int) =~= merged@);
    proof {
        if forall|i: int| 0 <= i < ranges@.len() ==> (#[trigger] ranges@[i]).start < ranges@[i].end {
            lemma_normalized_ranges_normal_form(ranges@);
        }
    }
    normalized
}

proof fn lemma_ranges_of_well_formed(m: Seq<(u64, u64)>, source_length: u64)
    requires
        all_nonempty(m),
        separated(m),
        m.len() <= MAX_STORED_RANGES,
        forall|i: int| 0 <= i < m.len() ==> (#[trigger] m[i]).1 <= source_length,
    ensures
        ranges_well_formed(ranges_of(m), source_length),
        pairs_of(ranges_of(m)) == m,
{
    let out = ranges_of(m);
    assert forall|i: int| 0 <= i < out.len() implies (#[trigger] out[i]).start < out[i].end
        && out[i].end <= source_length by {
        assert(m[i].0 < m[i].1);
    }
    assert forall|i: int| 0 < i < out.len() implies (#[trigger] out[i]).start > out[i - 1].end by {
        assert(m[i - 1].1 < m[i].0);
    }
    assert(pairs_of(out) =~= m);
}

/// Normalizing non-empty ranges inside a source yields a list that
/// `validate_ranges` accepts (when the input count is within the bound),
/// covering exactly the offsets the input covers.
pub proof fn lemma_normalized_ranges_validate(ranges: Seq<StoredRange>, source_length: u64)
    requires
        ranges.len() <= MAX_STORED_RANGES,
        forall|i: int|
            0 <= i < ranges.len() ==> (#[trigger] ranges[i]).start < ranges[i].end && ranges[i].end
                <= source_length,
    ensures
        ranges_verdict(normalize_spec(ranges), source_length) is None,
        forall|p: int|
            covers(pairs_of(normalize_spec(ranges)), p) <==> covers(pairs_of(ranges), p),
{
    let pairs = pairs_of(ranges);
    lemma_sorted_pairs_same_elements(pairs);
    let sorted = sorted_pairs(pairs);
    assert forall|i: int| 0 <= i < sorted.len() implies (#[trigger] sorted[i]).0 < sorted[i].1
        && sorted[i].1 <= source_length by {
        assert(sorted.contains(sorted[i]));
        assert(pairs.contains(sorted[i]));
        let k = choose|k: int| 0 <= k < pairs.len() && pairs[k] == sorted[i];
        assert(ranges[k].start < ranges[k].end);
    }
    assert(all_nonempty(sorted));
    lemma_merged_within(sorted, source_length);
    lemma_merge_sorted_normalizes(sorted);
    lemma_covers_same_elements(sorted, pairs);
    let merged = merge_sorted(sorted);
    lemma_ranges_of_well_formed(merged, source_length);
    lemma_ranges_verdict_well_formed(ranges_of(merged), source_length);
}

/// For any number of non-empty ranges, normalization gives non-empty
/// ranges, each ending strictly before the next begins (overlapping and
/// touching ranges merged), covering exactly the offsets the input covers;
/// and normalizing that result again changes nothing.
pub proof fn lemma_normalized_ranges_normal_form(ranges: Seq<StoredRange>)
    requires
        forall|i: int| 0 <= i < ranges.len() ==> (#[trigger] ranges[i]).start < ranges[i].end,
    ensures
        ({
            let out = normalize_spec(ranges);
            &&& forall|i: int| 0 <= i < out.len() ==> (#[trigger] out[i]).start < out[i].end
            &&& forall|i: int, j: int| 0 <= i < j < out.len() ==> (#[trigger] out[i]).end < (
            #[trigger] out[j]).start
            &&& forall|p: int| covers(pairs_of(out), p) <==> covers(pairs_of(ranges), p)
            &&& normalize_spec(out) == out
        }),
{
    let pairs = pairs_of(ranges);
    lemma_sorted_pairs_same_elements(pairs);
    let sorted = sorted_pairs(pairs);
    assert forall|i: int| 0 <= i < sorted.len() implies (#[trigger] sorted[i]).0 < sorted[i].1 by {
        assert(sorted.contains(sorted[i]));
        assert(pairs.contains(sorted[i]));
        let k = choose|k: int| 0 <= k < pairs.len() && pairs[k] == sorted[i];
        assert(ranges[k].start < ranges[k].end);
    }
    lemma_merge_sorted_normalizes(sorted);
    lemma_covers_same_elements(sorted, pairs);
    let merged = merge_sorted(sorted);
    let out = ranges_of(merged);
    assert(pairs_of(out) =~= merged);
    assert forall|i: int| 0 <= i < out.len() implies (#[trigger] out[i]).start < out[i].end by {
        assert(merged[i].0 < merged[i].1);
    }
    assert forall|i: int, j: int| 0 <= i < j < out.len() implies (#[trigger] out[i]).end < (
    #[trigger] out[j]).start by {
        assert(merged[i].1 < merged[j].0);
    }
    lemma_pair_order_total();
    assert(sorted_by(merged, pair_order())) by {
        assert forall|i: int, j: int| 0 <= i < j < merged.len() implies #[trigger] pair_order()(
            merged[i],
            merged[j],
        ) by {
            assert(merged[i].1 < merged[j].0);
            assert(merged[i].0 < merged[i].1);
        }
    }
    merged.lemma_sort_by_ensures(pair_order());
    vstd::seq_lib::lemma_sorted_unique(merged, sorted_pairs(merged), pair_order());
    lemma_merge_sorted_identity(merged);
}

/// Normalizing a list that `validate_ranges` already accepts returns it
/// unchanged.
pub proof fn lemma_normalized_ranges_fixed_point(ranges: Seq<StoredRange>, source_length: u64)
    requires
        ranges_verdict(ranges, source_length) is None,
    ensures
        normalize_spec(ranges) == ranges,
{
    lemma_ranges_verdict_well_formed(ranges, source_length);
    let pairs = pairs_of(ranges);
    lemma_pair_order_total();
    assert(sorted_by(pairs, pair_order())) by {
        assert forall|i: int, j: int| 0 <= i < j < pairs.len() implies #[trigger] pair_order()(
            pairs[i],
            pairs[j],
        ) by {
            lemma_well_formed_ascending(ranges, source_length, i, j);
        }
    }
    pairs.lemma_sort_by_ensures(pair_order());
    vstd::seq_lib::lemma_sorted_unique(pairs, sorted_pairs(pairs), pair_order());
    assert(separated(pairs)) by {
        assert forall|i: int, j: int| 0 <= i < j < pairs.len() implies (#[trigger] pairs[i]).1 < (
        #[trigger] pairs[j]).0 by {
            lemma_well_formed_ascending(ranges, source_length, i, j);
        }
    }
    assert(all_nonempty(pairs)) by {
        assert forall|i: int| 0 <= i < pairs.len() implies (#[trigger] pairs[i]).0 < pairs[i].1 by {
            assert(ranges[i].start < ranges[i].end);
        }
    }
    lemma_merge_sorted_identity(pairs);
    assert(ranges_of(pairs) =~= ranges);
}

proof fn lemma_well_formed_ascending(s: Seq<StoredRange>, source_length: u64, i: int, j: int)
    requires
        ranges_well_formed(s, source_length),
        0 <= i < j < s.len(),
    ensures
        s[i].end < s[j].start,
    decreases j - i,
{
    assert(s[j].start > s[j - 1].end);
    if i < j - 1 {
        lemma_well_formed_ascending(s, source_length, i, j - 1);
        assert(s[j - 1].start < s[j - 1].end);
    }
}

/// One-byte pairs `(o, o + 1)` for each offset.
pub open spec fn unit_pairs(s: Seq<u64>) -> Seq<(u64, u64)> {
    s.map_values(|o: u64| (o, (o + 1) as u64))
}

/// Strictly ascending offsets.
pub open spec fn strictly_ascending(s: Seq<u64>) -> bool {
    forall|i: int, j: int| 0 <= i < j < s.len() ==> s[i] < s[j]
}

proof fn lemma_unit_pairs_normalize(a: Seq<u64>)
    requires
        strictly_ascending(a),
        forall|i: int| 0 <= i < a.len() ==> (#[trigger] a[i]) < u64::MAX,
    ensures
        all_nonempty(merge_sorted(unit_pairs(a))),
        separated(merge_sorted(unit_pairs(a))),
        forall|o: u64| covers(merge_sorted(unit_pairs(a)), o as int) <==> a.contains(o),
{
    let u = unit_pairs(a);
    assert(sorted_by(u, pair_order())) by {
        assert forall|i: int, j: int| 0 <= i < j < u.len() implies #[trigger] pair_order()(u[i], u[j]) by {
            assert(a[i] < a[j]);
        }
    }
    assert(all_nonempty(u)) by {
        assert forall|i: int| 0 <= i < u.len() implies (#[trigger] u[i]).0 < u[i].1 by {
            assert(a[i] < u64::MAX);
        }
    }
    lemma_merge_sorted_normalizes(u);
    assert forall|o: u64| covers(u, o as int) <==> a.contains(o) by {
        if covers(u, o as int) {
            let k = choose|k: int| 0 <= k < u.len() && (#[trigger] u[k]).0 <= o as int && (o as int) < u[k].1;
            assert(a[k] < u64::MAX);
            assert(a[k] == o);
        }
        if a.contains(o) {
            let k = choose|k: int| 0 <= k < a.len() && a[k] == o;
            assert(a[k] < u64::MAX);
            assert(u[k].0 <= o as int && (o as int) < u[k].1);
        }
    }
}

/// Groups a set of offsets into maximal runs of consecutive offsets, each
/// returned as the half-open range it covers. Fails when a run would end
/// past `u64::MAX`, that is, when the set holds `u64::MAX`.
pub fn ranges_from_offsets(offsets: &BTreeSet<u64>) -> (result: Result<Vec<StoredRange>, String>)
    ensures
        result is Err <==> offsets@.contains(u64::MAX),
        result matches Err(message) ==> message@ == "stored cohort range overflow"@,
        result matches Ok(ranges) ==> {
            &&& all_nonempty(pairs_of(ranges@))
            &&& separated(pairs_of(ranges@))
            &&& forall|o: u64| covers(pairs_of(ranges@), o as int) <==> offsets@.contains(o)
        },
{
    let ascending = ascending_offsets(offsets);
    let ghost a = ascending@;
    let mut ranges: Vec<StoredRange> = Vec::new();
    let mut start: u64 = 0;
    let mut previous: u64 = 0;
    let mut index: usize = 0;
    while index < ascending.len()
        invariant
            a == ascending@,
            strictly_ascending(a),
            index <= a.len(),
            index > 0 ==> previous == a[index - 1],
            index > 0 ==> start <= previous,
            index == 0 ==> ranges@.len() == 0,
            index > 0 && previous < u64::MAX ==> pairs_of(ranges@).push((start, (previous + 1) as u64))
                == merge_sorted(unit_pairs(a.take(index as int))),
            forall|i: int| 0 <= i < ranges@.len() ==> (#[trigger] ranges@[i]).end <= start,
        decreases a.len() - index,
    {
        let offset = ascending[index];
        proof {
            assert(a.take(index + 1).drop_last() =~= a.take(index as int));
            assert(unit_pairs(a.take(index + 1)) =~= unit_pairs(a.take(index as int)).push(
                (offset, (offset + 1) as u64),
            ));
            assert(unit_pairs(a.take(index + 1)).drop_last() =~= unit_pairs(a.take(index as int)));
        }
        if index == 0 {
            start = offset;
            previous = offset;
            proof {
                assert(merge_sorted(unit_pairs(a.take(0))) =~= Seq::<(u64, u64)>::empty());
                assert(pairs_of(ranges@) =~= Seq::<(u64, u64)>::empty());
            }
        } else if offset == previous + 1 {
            previous = offset;
        } else {
            proof {
                assert(a[index - 1] < a[index as int]);
            }
            let ghost before = pairs_of(ranges@);
            ranges.push(StoredRange { start, end: previous + 1 });
            proof {
                assert(pairs_of(ranges@) =~= before.push((start, (previous + 1) as u64)));
            }
            start = offset;
            previous = offset;
            proof {
                if offset < u64::MAX {
                    assert(pairs_of(ranges@).push((start, (previous + 1) as u64)) =~= merge_sorted(
                        unit_pairs(a.take(index + 1)),
                    ));
                }
            }
        }
        index = index + 1;
    }
    proof {
        assert(a.take(a.len() as int) =~= a);
    }
    if index == 0 {
        proof {
            assert(a.len() == 0);
            assert(!a.to_set().contains(u64::MAX));
            assert(pairs_of(ranges@) =~= Seq::<(u64, u64)>::empty());
            assert forall|o: u64| !covers(pairs_of(ranges@), o as int) by {}
        }
        return Ok(ranges);
    }
    if previous == u64::MAX {
        proof {
            assert(a.contains(a[a.len() - 1]));
        }
        return Err("stored cohort range overflow".to_owned());
    }
    let ghost before = pairs_of(ranges@);
    ranges.push(StoredRange { start, end: previous + 1 });
    proof {
        assert(pairs_of(ranges@) =~= before.push((start, (previous + 1) as u64)));
        assert forall|i: int| 0 <= i < a.len() implies (#[trigger] a[i]) < u64::MAX by {
            if i < a.len() - 1 {
                assert(a[i] < a[a.len() - 1]);
            }
        }
        lemma_unit_pairs_normalize(a);
        assert(!a.contains(u64::MAX));
    }
    Ok(ranges)
}

/// Two separated lists of non-empty pairs that cover the same offsets are
/// the same list: a normalized range list is determined by what it covers.
pub proof fn lemma_normalized_unique(a: Seq<(u64, u64)>, b: Seq<(u64, u64)>)
    requires
        separated(a),
        separated(b),
        all_nonempty(a),
        all_nonempty(b),
        forall|p: int| covers(a, p) <==> covers(b, p),
    ensures
        a == b,
    decreases a.len(),
{
    if a.len() == 0 {
        if b.len() > 0 {
            assert(b[0].0 < b[0].1);
            assert(covers(b, b[0].0 as int));
        }
        assert(a =~= b);
    } else if b.len() == 0 {
        assert(a[0].0 < a[0].1);
        assert(covers(a, a[0].0 as int));
    } else {
        lemma_first_pair_equal(a, b);
        lemma_first_pair_equal(b, a);
        assert(a[0] == b[0]);
        let ta = a.drop_first();
        let tb = b.drop_first();
        assert forall|p: int| covers(ta, p) <==> covers(tb, p) by {
            lemma_tail_covers(a, p);
            lemma_tail_covers(b, p);
        }
        assert(separated(ta)) by {
            assert forall|i: int, j: int| 0 <= i < j < ta.len() implies (#[trigger] ta[i]).1 < (
            #[trigger] ta[j]).0 by {
                assert(a[i + 1].1 < a[j + 1].0);
            }
        }
        assert(separated(tb)) by {
            assert forall|i: int, j: int| 0 <= i < j < tb.len() implies (#[trigger] tb[i]).1 < (
            #[trigger] tb[j]).0 by {
                assert(b[i + 1].1 < b[j + 1].0);
            }
        }
        assert(all_nonempty(ta)) by {
            assert forall|i: int| 0 <= i < ta.len() implies (#[trigger] ta[i]).0 < ta[i].1 by {
                assert(a[i + 1].0 < a[i + 1].1);
            }
        }
        assert(all_nonempty(tb)) by {
            assert forall|i: int| 0 <= i < tb.len() implies (#[trigger] tb[i]).0 < tb[i].1 by {
                assert(b[i + 1].0 < b[i + 1].1);
            }
        }
        lemma_normalized_unique(ta, tb);
        assert(a =~= b) by {
            assert forall|i: int| 0 <= i < a.len() implies a[i] == b[i] by {
                if i > 0 {
                    assert(ta[i - 1] == tb[i - 1]);
                }
            }
        }
    }
}

proof fn lemma_tail_covers(a: Seq<(u64, u64)>, p: int)
    requires
        separated(a),
        all_nonempty(a),
        a.len() > 0,
    ensures
        covers(a.drop_first(), p) <==> (covers(a, p) && p >= a[0].1),
{
    let t = a.drop_first();
    if covers(t, p) {
        let k = choose|k: int| 0 <= k < t.len() && (#[trigger] t[k]).0 <= p < t[k].1;
        assert(a[k + 1] == t[k]);
        assert(a[0].1 < a[k + 1].0);
    }
    if covers(a, p) && p >= a[0].1 {
        let k = choose|k: int| 0 <= k < a.len() && (#[trigger] a[k]).0 <= p < a[k].1;
        assert(k != 0);
        assert(t[k - 1] == a[k]);
    }
}

proof fn lemma_first_pair_equal(a: Seq<(u64, u64)>, b: Seq<(u64, u64)>)
    requires
        separated(a),
        separated(b),
        all_nonempty(a),
        all_nonempty(b),
        forall|p: int| covers(a, p) <==> covers(b, p),
        a.len() > 0,
        b.len() > 0,
    ensures
        b[0].0 <= a[0].0,
        a[0].0 == b[0].0 ==> b[0].1 <= a[0].1,
{
    let x = a[0].0 as int;
    assert(a[0].0 < a[0].1);
    assert(covers(a, x));
    assert(covers(b, x));
    let k = choose|k: int| 0 <= k < b.len() && (#[trigger] b[k]).0 <= x < b[k].1;
    if k > 0 {
        assert(b[0].1 < b[k].0);
        assert(b[0].0 < b[0].1);
    }
    if a[0].0 == b[0].0 && b[0].1 > a[0].1 {
        let y = a[0].1 as int;
        assert(b[0].0 <= y < b[0].1);
        assert(covers(b, y));
        assert(covers(a, y));
        let j = choose|j: int| 0 <= j < a.len() && (#[trigger] a[j]).0 <= y < a[j].1;
        if j > 0 {
            assert(a[0].1 < a[j].0);
        }
    }
}

/// Whether an offset is one of the contributing offsets of a member.
pub open spec fn member_offset(members: Seq<[u64; 3]>, o: u64) -> bool {
    exists|i: int, k: int| #![trigger members[i][k]] 0 <= i < members.len() && 0 <= k < 3 && members[i][k] == o
}

/// Why a stored cohort is rejected.
#[derive(Clone, Copy, Debug, PartialEq, Eq, Structural)]
pub enum CohortFault {
    MembershipSize,
    RepeatedIdentity,
    OffsetPastEnd,
    MemberRangesMisaligned,
    MemberRange(RangeFault),
    ExactRanges(RangeFault),
    RangesMismatch,
}

/// The fault of member `i`, given that every earlier member passed.
pub open spec fn member_fault_at(members: Seq<[u64; 3]>, source_length: u64, i: int) -> Option<
    CohortFault,
> {
    if exists|j: int| 0 <= j < i && members[j] == members[i] {
        Some(CohortFault::RepeatedIdentity)
    } else if members[i][0] >= source_length || members[i][1] >= source_length || members[i][2]
        >= source_length {
        Some(CohortFault::OffsetPastEnd)
    } else {
        None
    }
}

/// The first fault among the first `n` members.
pub open spec fn first_member_fault(members: Seq<[u64; 3]>, source_length: u64, n: int) -> Option<
    CohortFault,
>
    decreases n,
{
    if n <= 0 {
        None
    } else {
        match first_member_fault(members, source_length, n - 1) {
            Some(f) => Some(f),
            None => member_fault_at(members, source_length, n - 1),
        }
    }
}

/// The first per-member range that is empty, reversed or past the source.
pub open spec fn first_member_range_fault(ranges: Seq<StoredRange>, source_length: u64, n: int) -> Option<
    CohortFault,
>
    decreases n,
{
    if n <= 0 {
        None
    } else {
        match first_member_range_fault(ranges, source_length, n - 1) {
            Some(f) => Some(f),
            None => if ranges[n - 1].start < ranges[n - 1].end && ranges[n - 1].end <= source_length {
                None
            } else {
                Some(CohortFault::MemberRange(RangeFault::EmptyOrOutOfBounds))
            },
        }
    }
}

/// Whether the exact ranges are the ones the members derive: the
/// normalized member ranges when they are stored, else the runs of the
/// distinct member offsets.
pub open spec fn cohort_ranges_match(
    members: Seq<[u64; 3]>,
    member_ranges: Seq<StoredRange>,
    exact: Seq<StoredRange>,
) -> bool {
    if member_ranges.len() == 0 {
        forall|o: u64| covers(pairs_of(exact), o as int) <==> member_offset(members, o)
    } else {
        normalize_spec(member_ranges) == exact
    }
}

/// The verdict of `validate_cohort`: `None` when the cohort is accepted.
pub open spec fn cohort_verdict(
    members: Seq<[u64; 3]>,
    member_ranges: Seq<StoredRange>,
    exact: Seq<StoredRange>,
    source_length: u64,
) -> Option<CohortFault> {
    if members.len() == 0 || members.len() > MAX_STORED_COHORT_MEMBERS {
        Some(CohortFault::MembershipSize)
    } else if first_member_fault(members, source_length, members.len() as int) is Some {
        first_member_fault(members, source_length, members.len() as int)
    } else if member_ranges.len() != 0 && member_ranges.len() != members.len() {
        Some(CohortFault::MemberRangesMisaligned)
    } else if first_member_range_fault(member_ranges, source_length, member_ranges.len() as int) is Some {
        first_member_range_fault(member_ranges, source_length, member_ranges.len() as int)
    } else if ranges_verdict(exact, source_length) is Some {
        Some(CohortFault::ExactRanges(ranges_verdict(exact, source_length)->0))
    } else if !cohort_ranges_match(members, member_ranges, exact) {
        Some(CohortFault::RangesMismatch)
    } else {
        None
    }
}

/// The message `validate_cohort` gives for a fault.
pub open spec fn cohort_fault_message(fault: CohortFault) -> Seq<char> {
    match fault {
        CohortFault::MembershipSize => "stored cohort membership is empty or exceeds its bound"@,
        CohortFault::RepeatedIdentity => "stored cohort repeats a sampled identity"@,
        CohortFault::OffsetPastEnd => "stored cohort offset exceeds source length"@,
        CohortFault::MemberRangesMisaligned => "stored cohort member ranges do not align with membership"@,
        CohortFault::MemberRange(f) => range_fault_message(f, "cohort member"@),
        CohortFault::ExactRanges(f) => range_fault_message(f, "cohort"@),
        CohortFault::RangesMismatch => "stored cohort ranges do not match its exact members"@,
    }
}

proof fn lemma_first_member_fault_stable(members: Seq<[u64; 3]>, source_length: u64, k: int, m: int)
    requires
        0 <= k <= m,
        first_member_fault(members, source_length, k) is Some,
    ensures
        first_member_fault(members, source_length, m) == first_member_fault(members, source_length, k),
    decreases m - k,
{
    if m > k {
        lemma_first_member_fault_stable(members, source_length, k, m - 1);
    }
}

proof fn lemma_first_member_range_fault_stable(
    ranges: Seq<StoredRange>,
    source_length: u64,
    k: int,
    m: int,
)
    requires
        0 <= k <= m,
        first_member_range_fault(ranges, source_length, k) is Some,
    ensures
        first_member_range_fault(ranges, source_length, m) == first_member_range_fault(
            ranges,
            source_length,
            k,
        ),
    decreases m - k,
{
    if m > k {
        lemma_first_member_range_fault_stable(ranges, source_length, k, m - 1);
    }
}

fn same_ranges(a: &Vec<StoredRange>, b: &Vec<StoredRange>) -> (same: bool)
    ensures
        same == (a@ == b@),
{
    if a.len() != b.len() {
        return false;
    }
    let mut index: usize = 0;
    while index < a.len()
        invariant
            a.len() == b.len(),
            index <= a.len(),
            forall|i: int| 0 <= i < index ==> a@[i] == b@[i],
        decreases a.len() - index,
    {
        if a[index].start != b[index].start || a[index].end != b[index].end {
            return false;
        }
        index = index + 1;
    }
    assert(a@ =~= b@);
    true
}

fn cohort_fault_text(fault: CohortFault) -> (message: String)
    ensures
        message@ == cohort_fault_message(fault),
{
    match fault {
        CohortFault::MembershipSize => "stored cohort membership is empty or exceeds its bound".to_owned(),
        CohortFault::RepeatedIdentity => "stored cohort repeats a sampled identity".to_owned(),
        CohortFault::OffsetPastEnd => "stored cohort offset exceeds source length".to_owned(),
        CohortFault::MemberRangesMisaligned => "stored cohort member ranges do not align with membership".to_owned(),
        CohortFault::MemberRange(f) => range_fault_text(f, "cohort member"),
        CohortFault::ExactRanges(f) => range_fault_text(f, "cohort"),
        CohortFault::RangesMismatch => "stored cohort ranges do not match its exact members".to_owned(),
    }
}

/// Checks a stored cohort against a source of `source_length` bytes: a
/// bounded, non-empty membership of distinct identities whose offsets lie in
/// the source, per-member ranges (when stored) aligned with the members and
/// inside the source, valid exact ranges, and exact ranges equal to the
/// ranges derived from the members.
pub fn validate_cohort(cohort: &StoredCohort, source_length: u64) -> (result: Result<(), String>)
    ensures
        result is Ok <==> cohort_verdict(
            cohort.members@,
            cohort.member_ranges@,
            cohort.exact_ranges@,
            source_length,
        ) is None,
        result matches Err(message) ==> message@ == cohort_fault_message(
            cohort_verdict(
                cohort.members@,
                cohort.member_ranges@,
                cohort.exact_ranges@,
                source_length,
            )->0,
        ),
{
    let ghost members = cohort.members@;
    let ghost member_ranges = cohort.member_ranges@;
    let ghost exact = cohort.exact_ranges@;
    if cohort.members.len() == 0 || cohort.members.len() > MAX_STORED_COHORT_MEMBERS {
        return Err(cohort_fault_text(CohortFault::MembershipSize));
    }
    let mut offsets: BTreeSet<u64> = BTreeSet::new();
    let mut index: usize = 0;
    while index < cohort.members.len()
        invariant
            members == cohort.members@,
            0 < members.len() <= MAX_STORED_COHORT_MEMBERS,
            index <= members.len(),
            first_member_fault(members, source_length, index as int) is None,
            forall|o: u64| offsets@.contains(o) <==> member_offset(members.take(index as int), o),
            forall|o: u64| offsets@.contains(o) ==> o < source_length,
        decreases members.len() - index,
    {
        let member = cohort.members[index];
        let mut earlier: usize = 0;
        while earlier < index
            invariant
                members == cohort.members@,
                0 < members.len() <= MAX_STORED_COHORT_MEMBERS,
                first_member_fault(members, source_length, index as int) is None,
                earlier <= index < members.len(),
                member == members[index as int],
                forall|j: int| 0 <= j < earlier ==> members[j] != member,
            decreases index - earlier,
        {
            let other = cohort.members[earlier];
            if other[0] == member[0] && other[1] == member[1] && other[2] == member[2] {
                proof {
                    assert(other =~= member);
                    assert(member_fault_at(members, source_length, index as int) == Some(
                        CohortFault::RepeatedIdentity,
                    ));
                    assert(first_member_fault(members, source_length, index + 1) == Some(
                        CohortFault::RepeatedIdentity,
                    ));
                    lemma_first_member_fault_stable(members, source_length, index + 1, members.len() as int);
                }
                return Err(cohort_fault_text(CohortFault::RepeatedIdentity));
            }
            proof {
                assert(other != member) by {
                    if other == member {
                        assert(other[0] == member[0]);
                    }
                }
            }
            earlier = earlier + 1;
        }
        if member[0] >= source_length || member[1] >= source_length || member[2] >= source_length {
            proof {
                assert(!(exists|j: int| 0 <= j < index && members[j] == members[index as int]));
                assert(first_member_fault(members, source_length, index + 1) == Some(
                    CohortFault::OffsetPastEnd,
                ));
                lemma_first_member_fault_stable(members, source_length, index + 1, members.len() as int);
            }
            return Err(cohort_fault_text(CohortFault::OffsetPastEnd));
        }
        insert_offset(&mut offsets, member[0]);
        insert_offset(&mut offsets, member[1]);
        insert_offset(&mut offsets, member[2]);
        proof {
            assert(!(exists|j: int| 0 <= j < index && members[j] == members[index as int]));
            assert(member_fault_at(members, source_length, index as int) is None);
            let next = members.take(index + 1);
            assert(next =~= members.take(index as int).push(member));
            assert forall|o: u64| offsets@.contains(o) <==> member_offset(next, o) by {
                if member_offset(members.take(index as int), o) {
                    let (i, k) = choose|i: int, k: int|
                        #![trigger members.take(index as int)[i][k]]
                        0 <= i < index && 0 <= k < 3 && members.take(index as int)[i][k] == o;
                    assert(next[i][k] == o);
                    assert(next[i] == members.take(index as int)[i]);
                }
                if member_offset(next, o) {
                    let (i, k) = choose|i: int, k: int|
                        #![trigger next[i][k]]
                        0 <= i < next.len() && 0 <= k < 3 && next[i][k] == o;
                    if i < index {
                        assert(members.take(index as int)[i] == next[i]);
                        assert(members.take(index as int)[i][k] == o);
                        assert(member_offset(members.take(index as int), o));
                    } else {
                        assert(next[i] == member);
                    }
                }
                if o == member[0] {
                    assert(next[index as int][0] == o);
                }
                if o == member[1] {
                    assert(next[index as int][1] == o);
                }
                if o == member[2] {
                    assert(next[index as int][2] == o);
                }
            }
        }
        index = index + 1;
    }
    proof {
        assert(members.take(members.len() as int) =~= members);
    }
    let n = cohort.member_ranges.len();
    if n != 0 {
        if n != cohort.members.len() {
            return Err(cohort_fault_text(CohortFault::MemberRangesMisaligned));
        }
        let mut index: usize = 0;
        while index < n
            invariant
                members == cohort.members@,
                n == member_ranges.len(),
                n == members.len(),
                0 < members.len() <= MAX_STORED_COHORT_MEMBERS,
                first_member_fault(members, source_length, members.len() as int) is None,
                member_ranges == cohort.member_ranges@,
                index <= n,
                first_member_range_fault(member_ranges, source_length, index as int) is None,
            decreases n - index,
        {
            let range = cohort.member_ranges[index];
            if range.start >= range.end || range.end > source_length {
                proof {
                    assert(first_member_range_fault(member_ranges, source_length, index + 1) == Some(
                        CohortFault::MemberRange(RangeFault::EmptyOrOutOfBounds),
                    ));
                    lemma_first_member_range_fault_stable(member_ranges, source_length, index + 1, n as int);
                }
                return Err(cohort_fault_text(CohortFault::MemberRange(RangeFault::EmptyOrOutOfBounds)));
            }
            index = index + 1;
        }
    }
    if let Err(message) = validate_ranges(cohort.exact_ranges.as_slice(), source_length, "cohort") {
        return Err(message);
    }
    proof {
        lemma_ranges_verdict_well_formed(exact, source_length);
    }
    if n == 0 {
        let derived = ranges_from_offsets(&offsets);
        match derived {
            Err(_) => {
                proof {
                    assert(offsets@.contains(u64::MAX));
                }
                return Err(cohort_fault_text(CohortFault::RangesMismatch));
            },
            Ok(derived) => {
                let same = same_ranges(&derived, &cohort.exact_ranges);
                proof {
                    let d = pairs_of(derived@);
                    let e = pairs_of(exact);
                    assert(separated(e) && all_nonempty(e)) by {
                        assert forall|i: int, j: int| 0 <= i < j < e.len() implies (#[trigger] e[i]).1 < (
                        #[trigger] e[j]).0 by {
                            lemma_well_formed_ascending(exact, source_length, i, j);
                        }
                        assert forall|i: int| 0 <= i < e.len() implies (#[trigger] e[i]).0 < e[i].1 by {
                            assert(exact[i].start < exact[i].end);
                        }
                    }
                    if cohort_ranges_match(members, member_ranges, exact) {
                        assert forall|p: int| covers(d, p) <==> covers(e, p) by {
                            if covers(d, p) {
                                let k = choose|k: int| 0 <= k < d.len() && (#[trigger] d[k]).0 <= p < d[k].1;
                                let o = p as u64;
                                assert(o as int == p);
                                assert(offsets@.contains(o));
                                assert(member_offset(members, o));
                                assert(covers(e, o as int));
                            }
                            if covers(e, p) {
                                let k = choose|k: int| 0 <= k < e.len() && (#[trigger] e[k]).0 <= p < e[k].1;
                                let o = p as u64;
                                assert(o as int == p);
                                assert(member_offset(members, o));
                                assert(offsets@.contains(o));
                                assert(covers(d, o as int));
                            }
                        }
                        lemma_normalized_unique(d, e);
                        assert(derived@ =~= exact) by {
                            assert forall|i: int| 0 <= i < exact.len() implies derived@[i] == exact[i] by {
                                assert(d[i] == e[i]);
                            }
                        }
                    }
                    if same {
                        assert(pairs_of(derived@) == pairs_of(exact));
                        assert forall|o: u64| covers(pairs_of(exact), o as int) <==> member_offset(
                            members,
                            o,
                        ) by {
                            assert(covers(d, o as int) <==> offsets@.contains(o));
                        }
                        assert(cohort_ranges_match(members, member_ranges, exact));
                    }
                }
                if !same {
                    return Err(cohort_fault_text(CohortFault::RangesMismatch));
                }
            },
        }
    } else {
        let derived = normalized_ranges(cohort.member_ranges.as_slice());
        if !same_ranges(&derived, &cohort.exact_ranges) {
            return Err(cohort_fault_text(CohortFault::RangesMismatch));
        }
    }
    Ok(())
}

} // verus!

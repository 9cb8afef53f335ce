//! Conversions between live selections and their stored, source-free form:
//! ranges, 128-bit identifiers split into two 64-bit halves, and the small
//! text helpers session handling relies on.

use std::ops::Range;

use vstd::prelude::*;
use vstd::string::StringSliceAdditionalSpecFns;
use vstd::utf8::is_char_boundary;

use crate::projection::{
    default_composition_spec, ProjectionChannels, ProjectionColorFeature, ProjectionCompareMode,
    ProjectionComposition, ProjectionKind, ProjectionParameters,
};
use crate::workbench::{geometry_from_stored, geometry_from_stored_spec};
use crate::ranges::{ByteRange, RangeError};
use crate::session::StoredRenderStyle;
use crate::session::StoredRange;
use crate::text::push_str;

verus! {

/// The stored form of a live range.
pub open spec fn stored_range_of(range: Range<usize>) -> StoredRange {
    StoredRange { start: range.start as u64, end: range.end as u64 }
}

/// The live range a stored range restores to, when both ends fit a `usize`
/// on this platform.
pub open spec fn live_range_of(range: StoredRange) -> Option<Range<usize>> {
    if range.start <= usize::MAX && range.end <= usize::MAX {
        Some(Range { start: range.start as usize, end: range.end as usize })
    } else {
        None
    }
}

/// Stores a live `usize` range. Every `usize` fits a `u64`, so the
/// conversion always succeeds.
pub fn stored_range_from_usize(range: &Range<usize>) -> (result: Result<StoredRange, String>)
    ensures
        result == Ok::<StoredRange, String>(stored_range_of(*range)),
{
    Ok(StoredRange { start: range.start as u64, end: range.end as u64 })
}

/// Restores a stored range as a live `usize` range, when both ends fit a
/// `usize` on this platform.
pub fn range_from_stored(range: &StoredRange) -> (live: Option<Range<usize>>)
    ensures
        live == live_range_of(*range),
{
    if range.start > usize::MAX as u64 || range.end > usize::MAX as u64 {
        return None;
    }
    Some(Range { start: range.start as usize, end: range.end as usize })
}

/// Storing a live range and restoring it gives the same range back.
pub proof fn lemma_stored_range_round_trip(range: Range<usize>)
    ensures
        live_range_of(stored_range_of(range)) == Some(range),
{
}

/// Forms the exact byte range a stored range names, rejecting a start after
/// the end.
pub fn byte_range_from_stored(range: StoredRange) -> (result: Result<ByteRange, String>)
    ensures
        result is Ok <==> range.start <= range.end,
        result matches Ok(r) ==> r == (ByteRange { start: range.start, end: range.end }),
        result matches Err(message) ==> message@ == "byte range start exceeds its end"@,
{
    match ByteRange::new(range.start, range.end) {
        Ok(r) => Ok(r),
        Err(error) => Err(error.message()),
    }
}

/// The high and low 64-bit halves of a 128-bit identifier (big-endian).
pub open spec fn split_u128_spec(value: u128) -> [u64; 2] {
    [(value / 0x1_0000_0000_0000_0000) as u64, (value % 0x1_0000_0000_0000_0000) as u64]
}

/// The 128-bit identifier with the given high and low halves.
pub open spec fn join_u128_spec(value: [u64; 2]) -> u128 {
    (value[0] as int * 0x1_0000_0000_0000_0000 + value[1] as int) as u128
}

/// Splits a 128-bit identifier into its high and low 64-bit halves.
pub fn split_u128(value: u128) -> (halves: [u64; 2])
    ensures
        halves == split_u128_spec(value),
{
    [(value / 0x1_0000_0000_0000_0000) as u64, (value % 0x1_0000_0000_0000_0000) as u64]
}

/// Joins high and low 64-bit halves into one 128-bit identifier.
pub fn join_u128(value: [u64; 2]) -> (joined: u128)
    ensures
        joined == join_u128_spec(value),
        joined as int == value[0] as int * 0x1_0000_0000_0000_0000 + value[1] as int,
{
    let high = value[0] as u128;
    let low = value[1] as u128;
    assert(high * 0x1_0000_0000_0000_0000 + low <= u128::MAX) by (nonlinear_arith)
        requires
            high <= u64::MAX,
            low <= u64::MAX,
    ;
    high * 0x1_0000_0000_0000_0000 + low
}

/// Splitting and joining are inverse: no identifier is lost in storage.
pub proof fn lemma_split_join_round_trip(value: u128, halves: [u64; 2])
    ensures
        join_u128_spec(split_u128_spec(value)) == value,
        split_u128_spec(join_u128_spec(halves)) == halves,
{
    let h = halves[0] as int;
    let l = halves[1] as int;
    assert(h * 0x1_0000_0000_0000_0000 + l <= u128::MAX) by (nonlinear_arith)
        requires
            0 <= h <= u64::MAX,
            0 <= l <= u64::MAX,
    ;
    let j = h * 0x1_0000_0000_0000_0000 + l;
    assert(j / 0x1_0000_0000_0000_0000 == h && j % 0x1_0000_0000_0000_0000 == l) by (nonlinear_arith)
        requires
            0 <= l < 0x1_0000_0000_0000_0000,
            j == h * 0x1_0000_0000_0000_0000 + l,
    ;
    let v = value as int;
    assert((v / 0x1_0000_0000_0000_0000) * 0x1_0000_0000_0000_0000 + v % 0x1_0000_0000_0000_0000
        == v) by (nonlinear_arith)
        requires
            v >= 0,
    ;
    assert(v / 0x1_0000_0000_0000_0000 <= u64::MAX) by (nonlinear_arith)
        requires
            0 <= v <= u128::MAX,
    ;
    assert(split_u128_spec(join_u128_spec(halves)) =~= halves);
}

/// Records an initialization error, appending it after `"; "` when an
/// earlier error is already recorded.
pub fn record_initialization_error(slot: &mut Option<String>, error: String)
    ensures
        *final(slot) is Some,
        *old(slot) is None ==> (*final(slot))->0@ == error@,
        *old(slot) matches Some(existing) ==> (*final(slot))->0@ == existing@ + "; "@ + error@,
{
    let previous = slot.take();
    match previous {
        Some(mut existing) => {
            push_str(&mut existing, "; ");
            push_str(&mut existing, error.as_str());
            *slot = Some(existing);
        },
        None => {
            *slot = Some(error);
        },
    }
}

/// The first twelve bytes of a digest for display, or the whole digest when
/// it is shorter or byte twelve is not a character boundary.
pub fn digest_prefix(digest: &str) -> (prefix: &str)
    ensures
        is_char_boundary(digest.spec_bytes(), 12) ==> prefix.spec_bytes() == digest.spec_bytes().subrange(0, 12),
        !is_char_boundary(digest.spec_bytes(), 12) ==> prefix@ == digest@,
{
    if digest.is_char_boundary(12) {
        let (head, _) = digest.split_at(12);
        head
    } else {
        digest
    }
}


/// The composition that a snapshot without one restores: the legacy
/// projection shown alone in the stored render geometry, the stored lag
/// clamped to `1..=1024`, entropy colour where the legacy colour mix was at
/// least one half and address colour otherwise. The legacy projection
/// comes from the legacy morph value, which is read where it is held.
pub fn legacy_projection_composition(
    projection: ProjectionKind,
    render_style: StoredRenderStyle,
    stride: usize,
    entropy_color: bool,
) -> (composition: ProjectionComposition)
    ensures
        composition == (ProjectionComposition {
            projection_a: projection,
            projection_b: projection,
            geometry: geometry_from_stored_spec(render_style),
            compare_mode: ProjectionCompareMode::Single,
            parameters: ProjectionParameters {
                lag: if stride < 1 {
                    1
                } else if stride > 1024 {
                    1024
                } else {
                    stride
                },
                ..default_composition_spec().parameters
            },
            channels: ProjectionChannels {
                color: if entropy_color {
                    ProjectionColorFeature::Entropy
                } else {
                    ProjectionColorFeature::Address
                },
                ..default_composition_spec().channels
            },
            ..default_composition_spec()
        }),
{
    let mut composition = ProjectionComposition::default_composition();
    composition.projection_a = projection;
    composition.projection_b = projection;
    composition.geometry = geometry_from_stored(render_style);
    composition.compare_mode = ProjectionCompareMode::Single;
    composition.parameters.lag = if stride < 1 {
        1
    } else if stride > 1024 {
        1024
    } else {
        stride
    };
    composition.channels.color = if entropy_color {
        ProjectionColorFeature::Entropy
    } else {
        ProjectionColorFeature::Address
    };
    composition
}

/// A stored exact selection made live again.
#[derive(Debug)]
pub struct RestoredSelection {
    /// Every stored range as a live range, in order.
    pub exact: Vec<Range<usize>>,
    /// The single live selection: the one range when exactly one is stored,
    /// otherwise the empty range at zero.
    pub selection: Range<usize>,
    /// The exact provenance ranges to select in the investigation, when any
    /// range is stored.
    pub provenance: Option<Vec<ByteRange>>,
}

/// Why a stored exact selection cannot be restored: a range whose ends do
/// not fit a `usize`, before any range whose start lies after its end.
pub open spec fn restore_fault(ranges: Seq<StoredRange>) -> Option<Seq<char>> {
    if exists|i: int| 0 <= i < ranges.len() && (#[trigger] live_range_of(ranges[i])) is None {
        Some("selection range cannot fit this platform"@)
    } else if exists|i: int| 0 <= i < ranges.len() && (#[trigger] ranges[i]).start > ranges[i].end {
        Some("byte range start exceeds its end"@)
    } else {
        None
    }
}

/// Restores a stored exact selection: the live ranges, the single live
/// selection, and the exact provenance to select.
pub fn restore_exact_selection(ranges: &[StoredRange]) -> (result: Result<RestoredSelection, String>)
    ensures
        result is Ok <==> restore_fault(ranges@) is None,
        result matches Err(message) ==> restore_fault(ranges@) == Some(message@),
        result matches Ok(restored) ==> {
            &&& restored.exact@.len() == ranges@.len()
            &&& forall|i: int| 0 <= i < ranges@.len() ==> live_range_of(ranges@[i]) == Some(
                #[trigger] restored.exact@[i],
            )
            &&& restored.selection == if ranges@.len() == 1 {
                restored.exact@[0]
            } else {
                Range { start: 0usize, end: 0usize }
            }
            &&& ranges@.len() == 0 ==> restored.provenance is None
            &&& ranges@.len() > 0 ==> (restored.provenance matches Some(provenance) && provenance@.len()
                == ranges@.len() && forall|i: int|
                0 <= i < ranges@.len() ==> #[trigger] provenance@[i] == (ByteRange {
                    start: ranges@[i].start,
                    end: ranges@[i].end,
                }))
        },
{
    let mut exact: Vec<Range<usize>> = Vec::new();
    let mut index: usize = 0;
    while index < ranges.len()
        invariant
            index <= ranges.len(),
            exact@.len() == index,
            forall|i: int| 0 <= i < index ==> live_range_of(ranges@[i]) == Some(#[trigger] exact@[i]),
        decreases ranges.len() - index,
    {
        match range_from_stored(&ranges[index]) {
            Some(live) => exact.push(live),
            None => {
                assert(live_range_of(ranges@[index as int]) is None);
                return Err("selection range cannot fit this platform".to_owned());
            },
        }
        index = index + 1;
    }
    assert forall|i: int| 0 <= i < ranges@.len() implies (#[trigger] live_range_of(ranges@[i])) is Some by {
        assert(live_range_of(ranges@[i]) == Some(exact@[i]));
    }
    let selection = if exact.len() == 1 {
        Range { start: exact[0].start, end: exact[0].end }
    } else {
        Range { start: 0, end: 0 }
    };
    if ranges.len() == 0 {
        return Ok(RestoredSelection { exact, selection, provenance: None });
    }
    let mut provenance: Vec<ByteRange> = Vec::new();
    let mut position: usize = 0;
    while position < ranges.len()
        invariant
            position <= ranges.len(),
            provenance@.len() == position,
            forall|i: int| 0 <= i < ranges@.len() ==> (#[trigger] live_range_of(ranges@[i])) is Some,
            forall|i: int|
                0 <= i < position ==> #[trigger] provenance@[i] == (ByteRange {
                    start: ranges@[i].start,
                    end: ranges@[i].end,
                }),
            forall|i: int| 0 <= i < position ==> (#[trigger] ranges@[i]).start <= ranges@[i].end,
        decreases ranges.len() - position,
    {
        match byte_range_from_stored(ranges[position]) {
            Ok(range) => provenance.push(range),
            Err(message) => {
                assert(ranges@[position as int].start > ranges@[position as int].end);
                return Err(message);
            },
        }
        position = position + 1;
    }
    Ok(RestoredSelection { exact, selection, provenance: Some(provenance) })
}

} // verus!

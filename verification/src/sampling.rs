//! Bounded sampling of projection points: which source offsets become
//! points, and the exact provenance of each point (its three contributing
//! bytes and offsets, its analyzed range and its stable identity).

use vstd::prelude::*;

use crate::discovery::{LivingRegion, RegionModel};
use crate::projection::{
    analysis_span_spec, projection_analysis_span, ProjectionDomain, ProjectionSamplingConfig,
};
use crate::ranges::ByteRange;

verus! {

/// The exact, integer part of one projection point.
#[derive(Clone, Copy, Debug, PartialEq, Eq)]
pub struct ProjectionAnchor {
    /// Start of the point within the sampled bytes.
    pub offset: usize,
    /// End of the analyzed window within the sampled bytes.
    pub analysis_end: usize,
    /// The three contributing bytes.
    pub bytes: [u8; 3],
    /// Absolute source offset of the first contributing byte.
    pub relative_offset: usize,
    /// Source length, extended to cover the analyzed range.
    pub source_length: usize,
    /// Absolute half-open analyzed range.
    pub analysis_range: [usize; 2],
    /// Stable identity: the absolute offset of the first byte.
    pub point_id: u64,
    /// Absolute offsets of the three contributing bytes.
    pub source_offsets: [usize; 3],
}

/// Offsets of the second and third contributing bytes, relative to the
/// sampled bytes: `lag` and `2 * lag` after the first for bytes, the middle
/// and the last byte of the window otherwise.
pub open spec fn contributor_offsets(offset: int, span: int, config: ProjectionSamplingConfig) -> (int, int) {
    match config.domain {
        ProjectionDomain::Byte => (offset + config.lag, offset + 2 * config.lag),
        _ => (offset + span / 2, offset + span - 1),
    }
}

/// The point that starts at `offset` of `bytes`, or nothing when a
/// contributor lies outside the bytes or an offset does not fit a `usize`.
pub open spec fn anchor_spec(
    bytes: Seq<u8>,
    base_offset: usize,
    offset: int,
    span: int,
    config: ProjectionSamplingConfig,
    source_length: usize,
) -> Option<ProjectionAnchor> {
    let (second, third) = contributor_offsets(offset, span, config);
    let end = if offset + span < bytes.len() {
        offset + span
    } else {
        bytes.len() as int
    };
    if !(0 <= offset < bytes.len() && second < bytes.len() && third < bytes.len() && offset + span
        <= usize::MAX && base_offset + end <= usize::MAX && base_offset + third <= usize::MAX
        && base_offset + second <= usize::MAX) {
        None
    } else {
        let absolute_end = base_offset + end;
        Some(
            ProjectionAnchor {
                offset: offset as usize,
                analysis_end: end as usize,
                bytes: [bytes[offset], bytes[second], bytes[third]],
                relative_offset: (base_offset + offset) as usize,
                source_length: (if source_length < absolute_end {
                    absolute_end
                } else {
                    source_length as int
                }) as usize,
                analysis_range: [(base_offset + offset) as usize, absolute_end as usize],
                point_id: (base_offset + offset) as u64,
                source_offsets: [
                    (base_offset + offset) as usize,
                    (base_offset + second) as usize,
                    (base_offset + third) as usize,
                ],
            },
        )
    }
}

/// The stride between sampled offsets that keeps the number of points
/// within the budget: the domain's hop times the number of eligible starts
/// per point, rounded up; `usize::MAX` when that product overflows.
pub open spec fn sampling_step(last_start: int, config: ProjectionSamplingConfig, budget: int) -> int {
    let hop: int = match config.domain {
        ProjectionDomain::Byte => 1,
        ProjectionDomain::Word => if config.hop_bytes == 0 { 1 } else { config.hop_bytes as int },
        ProjectionDomain::Window => if config.hop_bytes == 0 { 1 } else { config.hop_bytes as int },
        ProjectionDomain::Region => if config.aggregation_bytes == 0 {
            1
        } else {
            config.aggregation_bytes as int
        },
    };
    let eligible = last_start / hop + 1;
    let factor = if (eligible + budget - 1) / (budget as int) < 1 { 1 } else { (eligible + budget - 1) / (budget as int) };
    if hop * factor > usize::MAX {
        usize::MAX as int
    } else {
        hop * factor
    }
}

/// The points at the first `k` sampled offsets `0, step, 2 * step, ...`,
/// skipping offsets that give no point.
pub open spec fn anchors_upto(
    bytes: Seq<u8>,
    base_offset: usize,
    source_length: usize,
    config: ProjectionSamplingConfig,
    span: int,
    step: int,
    k: int,
) -> Seq<ProjectionAnchor>
    decreases k,
{
    if k <= 0 {
        Seq::empty()
    } else {
        let previous = anchors_upto(bytes, base_offset, source_length, config, span, step, k - 1);
        match anchor_spec(bytes, base_offset, (k - 1) * step, span, config, source_length) {
            Some(anchor) => previous.push(anchor),
            None => previous,
        }
    }
}

/// The points sampled from `bytes` (which start at `base_offset` of a
/// source of `source_length` bytes) within `budget` points.
pub open spec fn sampled_anchors(
    bytes: Seq<u8>,
    base_offset: usize,
    source_length: usize,
    config: ProjectionSamplingConfig,
    budget: usize,
) -> Seq<ProjectionAnchor> {
    match analysis_span_spec(config) {
        None => Seq::empty(),
        Some(span) => if budget == 0 || bytes.len() < span {
            Seq::empty()
        } else {
            let last_start = bytes.len() - span;
            let step = sampling_step(last_start, config, budget as int);
            anchors_upto(bytes, base_offset, source_length, config, span as int, step, last_start / step + 1)
        },
    }
}

/// The point that starts at `offset` of `bytes`.
pub fn projection_anchor(
    bytes: &[u8],
    base_offset: usize,
    offset: usize,
    analysis_span: usize,
    config: ProjectionSamplingConfig,
    source_length: usize,
) -> (anchor: Option<ProjectionAnchor>)
    requires
        analysis_span > 0,
    ensures
        anchor == anchor_spec(bytes@, base_offset, offset as int, analysis_span as int, config, source_length),
{
    let (second_offset, third_offset) = match config.domain {
        ProjectionDomain::Byte => {
            let second = match offset.checked_add(config.lag) {
                Some(value) => value,
                None => return None,
            };
            let third = match second.checked_add(config.lag) {
                Some(value) => value,
                None => return None,
            };
            (second, third)
        },
        _ => {
            let second = match offset.checked_add(analysis_span / 2) {
                Some(value) => value,
                None => return None,
            };
            let third = match offset.checked_add(analysis_span - 1) {
                Some(value) => value,
                None => return None,
            };
            (second, third)
        },
    };
    if offset >= bytes.len() || second_offset >= bytes.len() || third_offset >= bytes.len() {
        return None;
    }
    let first = bytes[offset];
    let second = bytes[second_offset];
    let third = bytes[third_offset];
    let window_end = match offset.checked_add(analysis_span) {
        Some(value) => value,
        None => return None,
    };
    let analysis_end = if window_end < bytes.len() {
        window_end
    } else {
        bytes.len()
    };
    let absolute_first = match base_offset.checked_add(offset) {
        Some(value) => value,
        None => return None,
    };
    let absolute_second = match base_offset.checked_add(second_offset) {
        Some(value) => value,
        None => return None,
    };
    let absolute_third = match base_offset.checked_add(third_offset) {
        Some(value) => value,
        None => return None,
    };
    let absolute_end = match base_offset.checked_add(analysis_end) {
        Some(value) => value,
        None => return None,
    };
    Some(
        ProjectionAnchor {
            offset,
            analysis_end,
            bytes: [first, second, third],
            relative_offset: absolute_first,
            source_length: if source_length < absolute_end {
                absolute_end
            } else {
                source_length
            },
            analysis_range: [absolute_first, absolute_end],
            point_id: absolute_first as u64,
            source_offsets: [absolute_first, absolute_second, absolute_third],
        },
    )
}

fn step_for(last_start: usize, config: ProjectionSamplingConfig, budget: usize) -> (step: usize)
    requires
        budget > 0,
        last_start < usize::MAX,
    ensures
        step == sampling_step(last_start as int, config, budget as int),
        step >= 1,
{
    let hop: usize = match config.domain {
        ProjectionDomain::Byte => 1,
        ProjectionDomain::Word | ProjectionDomain::Window => if config.hop_bytes == 0 {
            1
        } else {
            config.hop_bytes
        },
        ProjectionDomain::Region => if config.aggregation_bytes == 0 {
            1
        } else {
            config.aggregation_bytes
        },
    };
    assert(last_start / hop <= last_start) by (nonlinear_arith)
        requires
            hop >= 1,
    ;
    let eligible = last_start / hop + 1;
    assert(eligible % budget != 0 ==> eligible / budget < usize::MAX) by (nonlinear_arith)
        requires
            budget >= 1,
            eligible <= usize::MAX,
    ;
    let rounded = eligible / budget + if eligible % budget == 0 {
        0
    } else {
        1
    };
    assert(rounded == (eligible + budget - 1) / (budget as int)) by (nonlinear_arith)
        requires
            budget > 0,
            rounded == eligible / budget + if eligible % budget == 0 { 0int } else { 1int },
    ;
    assert(rounded >= 1) by (nonlinear_arith)
        requires
            budget > 0,
            eligible >= 1,
            rounded == (eligible + budget - 1) / (budget as int),
    ;
    let factor = rounded;
    let step = match hop.checked_mul(factor) {
        Some(product) => product,
        None => usize::MAX,
    };
    assert(step >= 1) by (nonlinear_arith)
        requires
            hop >= 1,
            factor >= 1,
            step == hop * factor || step == usize::MAX,
    ;
    step
}

/// Samples points from `bytes`, which start at `base_offset` of a source of
/// `source_length` bytes: offsets `0, step, 2 * step, ...` up to the last
/// offset whose full analyzed window fits, with the step chosen so that no
/// more than `point_budget` points are produced.
pub fn sample_projection_anchors_in_source(
    bytes: &[u8],
    base_offset: usize,
    source_length: usize,
    config: ProjectionSamplingConfig,
    point_budget: usize,
) -> (anchors: Vec<ProjectionAnchor>)
    ensures
        anchors@ == sampled_anchors(bytes@, base_offset, source_length, config, point_budget),
{
    if point_budget == 0 {
        return Vec::new();
    }
    let analysis_span = match projection_analysis_span(config) {
        Some(span) => span,
        None => return Vec::new(),
    };
    if bytes.len() < analysis_span {
        return Vec::new();
    }
    let last_start = bytes.len() - analysis_span;
    let step = step_for(last_start, config, point_budget);
    let ghost count = last_start / step + 1;
    let mut anchors: Vec<ProjectionAnchor> = Vec::new();
    let mut k: usize = 0;
    let mut offset: usize = 0;
    assert(count <= last_start + 1) by (nonlinear_arith)
        requires
            step >= 1,
            count == last_start / step + 1,
    ;
    loop
        invariant_except_break
            offset == k * step,
            k < count ==> offset <= last_start,
        invariant
            analysis_span > 0,
            step >= 1,
            last_start < usize::MAX,
            count == last_start / step + 1,
            count <= last_start + 1,
            k <= count,
            anchors@ == anchors_upto(
                bytes@,
                base_offset,
                source_length,
                config,
                analysis_span as int,
                step as int,
                k as int,
            ),
        ensures
            anchors@ == anchors_upto(
                bytes@,
                base_offset,
                source_length,
                config,
                analysis_span as int,
                step as int,
                count,
            ),
        decreases count - k,
    {
        if offset > last_start {
            assert(k == count) by (nonlinear_arith)
                requires
                    k <= count,
                    k < count ==> offset <= last_start,
                    offset > last_start,
            ;
            break;
        }
        assert(k < count) by (nonlinear_arith)
            requires
                offset == k * step,
                offset <= last_start,
                step >= 1,
                count == last_start / step + 1,
        ;
        match projection_anchor(bytes, base_offset, offset, analysis_span, config, source_length) {
            Some(anchor) => anchors.push(anchor),
            None => {},
        }
        k = k + 1;
        match offset.checked_add(step) {
            Some(next) => {
                offset = next;
                assert(offset == k * step) by (nonlinear_arith)
                    requires
                        offset == (k - 1) * step + step,
                ;
                assert(k < count ==> offset <= last_start) by (nonlinear_arith)
                    requires
                        offset == k * step,
                        step >= 1,
                        count == last_start / step + 1,
                ;
            },
            None => {
                assert(k == count) by (nonlinear_arith)
                    requires
                        offset + step > usize::MAX,
                        offset == (k - 1) * step,
                        k <= count,
                        step >= 1,
                        count == last_start / step + 1,
                        last_start < usize::MAX,
                ;
                break;
            },
        }
    }
    anchors
}

/// Samples points from `bytes` taken as a whole source that starts at
/// `base_offset`.
pub fn sample_projection_anchors_with_config(
    bytes: &[u8],
    base_offset: usize,
    config: ProjectionSamplingConfig,
    point_budget: usize,
) -> (anchors: Vec<ProjectionAnchor>)
    ensures
        anchors@ == sampled_anchors(
            bytes@,
            base_offset,
            (if base_offset + bytes@.len() > usize::MAX {
                usize::MAX as int
            } else {
                base_offset + bytes@.len()
            }) as usize,
            config,
            point_budget,
        ),
{
    let source_length = base_offset.saturating_add(bytes.len());
    sample_projection_anchors_in_source(bytes, base_offset, source_length, config, point_budget)
}

/// The point for evidence at absolute `source_offset`, clamped to the last
/// start whose full window fits; nothing when the offset lies outside the
/// bytes.
pub fn projection_anchor_at_source_offset(
    bytes: &[u8],
    base_offset: usize,
    source_length: usize,
    config: ProjectionSamplingConfig,
    source_offset: usize,
) -> (anchor: Option<ProjectionAnchor>)
    ensures
        anchor == (match analysis_span_spec(config) {
            None => None,
            Some(span) => if bytes@.len() < span || source_offset < base_offset || source_offset
                - base_offset >= bytes@.len() {
                None
            } else {
                let requested = source_offset - base_offset;
                let last_start = bytes@.len() - span;
                anchor_spec(
                    bytes@,
                    base_offset,
                    if requested < last_start { requested } else { last_start },
                    span as int,
                    config,
                    source_length,
                )
            },
        }),
{
    let analysis_span = match projection_analysis_span(config) {
        Some(span) => span,
        None => return None,
    };
    if bytes.len() < analysis_span || source_offset < base_offset {
        return None;
    }
    let requested = source_offset - base_offset;
    if requested >= bytes.len() {
        return None;
    }
    let last_start = bytes.len() - analysis_span;
    let relative_offset = if requested < last_start {
        requested
    } else {
        last_start
    };
    projection_anchor(bytes, base_offset, relative_offset, analysis_span, config, source_length)
}

/// An anchor's analyzed range, when it is a forward range inside `resident`.
pub open spec fn range_inside(anchor: ProjectionAnchor, resident: ByteRange) -> Option<ByteRange> {
    let start = anchor.analysis_range[0];
    let end = anchor.analysis_range[1];
    if start <= end && start >= resident.start && end <= resident.end {
        Some(ByteRange { start: start as u64, end: end as u64 })
    } else {
        None
    }
}

/// The analyzed ranges of the anchors that lie inside `resident`, in order.
pub open spec fn ranges_inside_spec(anchors: Seq<ProjectionAnchor>, resident: ByteRange) -> Seq<ByteRange>
    decreases anchors.len(),
{
    if anchors.len() == 0 {
        Seq::empty()
    } else {
        let previous = ranges_inside_spec(anchors.drop_last(), resident);
        match range_inside(anchors.last(), resident) {
            Some(range) => previous.push(range),
            None => previous,
        }
    }
}

/// The analyzed ranges of the points that lie inside the resident range.
pub fn projection_ranges_inside(anchors: &[ProjectionAnchor], resident: ByteRange) -> (ranges: Vec<ByteRange>)
    ensures
        ranges@ == ranges_inside_spec(anchors@, resident),
{
    let mut ranges: Vec<ByteRange> = Vec::new();
    let mut index: usize = 0;
    while index < anchors.len()
        invariant
            index <= anchors.len(),
            ranges@ == ranges_inside_spec(anchors@.take(index as int), resident),
        decreases anchors.len() - index,
    {
        let start = anchors[index].analysis_range[0] as u64;
        let end = anchors[index].analysis_range[1] as u64;
        proof {
            assert(anchors@.take(index + 1).drop_last() =~= anchors@.take(index as int));
        }
        if start <= end && start >= resident.start && end <= resident.end {
            ranges.push(ByteRange { start, end });
        }
        index = index + 1;
    }
    assert(anchors@.take(anchors.len() as int) =~= anchors@);
    ranges
}

/// Where a point sits among the detected regions: the slot of the first
/// region with a range holding the point's first contributing offset, the
/// number of regions, and that range.
#[derive(Clone, Copy, Debug, PartialEq, Eq, Structural)]
pub struct RegionPlacement {
    pub slot: usize,
    pub count: usize,
    pub range: ByteRange,
}

/// The first of `ranges` that holds `offset`.
pub open spec fn first_holding(ranges: Seq<ByteRange>, offset: int, n: int) -> Option<ByteRange>
    decreases n,
{
    if n <= 0 {
        None
    } else {
        match first_holding(ranges, offset, n - 1) {
            Some(range) => Some(range),
            None => if ranges[n - 1].start <= offset && offset < ranges[n - 1].end {
                Some(ranges[n - 1])
            } else {
                None
            },
        }
    }
}

/// The first of the first `n` regions that holds `offset`, with the range.
pub open spec fn first_region_holding(regions: Seq<LivingRegion>, offset: int, n: int) -> Option<(usize, ByteRange)>
    decreases n,
{
    if n <= 0 {
        None
    } else {
        match first_region_holding(regions, offset, n - 1) {
            Some(found) => Some(found),
            None => {
                let ranges = regions[n - 1].provenance.ranges@;
                match first_holding(ranges, offset, ranges.len() as int) {
                    Some(range) => Some(((n - 1) as usize, range)),
                    None => None,
                }
            },
        }
    }
}

fn first_holding_range(ranges: &Vec<ByteRange>, offset: u64) -> (found: Option<ByteRange>)
    ensures
        found == first_holding(ranges@, offset as int, ranges@.len() as int),
{
    let mut index: usize = 0;
    while index < ranges.len()
        invariant
            index <= ranges.len(),
            first_holding(ranges@, offset as int, index as int) is None,
        decreases ranges.len() - index,
    {
        let range = ranges[index];
        if range.start <= offset && offset < range.end {
            proof {
                lemma_first_holding_stays(ranges@, offset as int, index + 1, ranges@.len() as int);
            }
            return Some(range);
        }
        index = index + 1;
    }
    None
}

proof fn lemma_first_holding_stays(ranges: Seq<ByteRange>, offset: int, n: int, m: int)
    requires
        0 <= n <= m,
        first_holding(ranges, offset, n) is Some,
    ensures
        first_holding(ranges, offset, m) == first_holding(ranges, offset, n),
    decreases m - n,
{
    if m > n {
        lemma_first_holding_stays(ranges, offset, n, m - 1);
    }
}

proof fn lemma_first_region_stays(regions: Seq<LivingRegion>, offset: int, n: int, m: int)
    requires
        0 <= n <= m,
        first_region_holding(regions, offset, n) is Some,
    ensures
        first_region_holding(regions, offset, m) == first_region_holding(regions, offset, n),
    decreases m - n,
{
    if m > n {
        lemma_first_region_stays(regions, offset, n, m - 1);
    }
}

/// Where a point sits among the detected regions, if any region holds its
/// first contributing offset.
pub fn projection_region_placement(anchor: &ProjectionAnchor, regions: &RegionModel) -> (placement: Option<RegionPlacement>)
    ensures
        match first_region_holding(regions.regions@, anchor.source_offsets[0] as int, regions.regions@.len() as int) {
            Some(found) => placement == Some(
                RegionPlacement { slot: found.0, count: regions.regions@.len() as usize, range: found.1 },
            ),
            None => placement is None,
        },
{
    let offset = anchor.source_offsets[0] as u64;
    let count = regions.regions.len();
    let mut slot: usize = 0;
    while slot < count
        invariant
            count == regions.regions.len(),
            slot <= count,
            offset == anchor.source_offsets[0],
            first_region_holding(regions.regions@, offset as int, slot as int) is None,
        decreases count - slot,
    {
        match first_holding_range(&regions.regions[slot].provenance.ranges, offset) {
            Some(range) => {
                proof {
                    lemma_first_region_stays(regions.regions@, offset as int, slot + 1, count as int);
                }
                return Some(RegionPlacement { slot, count, range });
            },
            None => {},
        }
        slot = slot + 1;
    }
    None
}

proof fn lemma_anchors_upto_len(
    bytes: Seq<u8>,
    base_offset: usize,
    source_length: usize,
    config: ProjectionSamplingConfig,
    span: int,
    step: int,
    k: int,
)
    requires
        k >= 0,
    ensures
        anchors_upto(bytes, base_offset, source_length, config, span, step, k).len() <= k,
    decreases k,
{
    if k > 0 {
        lemma_anchors_upto_len(bytes, base_offset, source_length, config, span, step, k - 1);
    }
}

proof fn lemma_region_anchors_upto(
    bytes: Seq<u8>,
    base_offset: usize,
    source_length: usize,
    config: ProjectionSamplingConfig,
    k: int,
)
    requires
        config.domain == ProjectionDomain::Region,
        config.aggregation_bytes > 0,
        bytes.len() >= config.aggregation_bytes,
        base_offset + bytes.len() <= usize::MAX,
        0 <= k <= (bytes.len() - config.aggregation_bytes) / (config.aggregation_bytes as int) + 1,
    ensures
        ({
            let g = config.aggregation_bytes as int;
            let a = anchors_upto(bytes, base_offset, source_length, config, g, g, k);
            &&& a.len() == k
            &&& forall|i: int|
                0 <= i < k ==> (#[trigger] a[i]).offset == i * g && a[i].analysis_range[0]
                    == base_offset + i * g && a[i].analysis_range[1] == base_offset + i * g + g
        }),
    decreases k,
{
    let g = config.aggregation_bytes as int;
    if k > 0 {
        lemma_region_anchors_upto(bytes, base_offset, source_length, config, k - 1);
        let last_start = bytes.len() - g;
        let o = (k - 1) * g;
        assert(0 <= o <= last_start) by (nonlinear_arith)
            requires
                g > 0,
                last_start >= 0,
                0 <= k - 1 <= last_start / g,
                o == (k - 1) * g,
        ;
        assert(g / 2 < g);
        assert(anchor_spec(bytes, base_offset, o, g, config, source_length) is Some);
    }
}

/// Region points tile the bytes: in the region domain, with a budget that
/// allows a point for every aggregate, the points start one aggregate apart
/// from the first byte, one per aggregate that fits, and each analyses
/// exactly its own aggregate, so no two analysed ranges overlap.
pub proof fn lemma_region_points_tile_the_bytes(
    bytes: Seq<u8>,
    base_offset: usize,
    source_length: usize,
    config: ProjectionSamplingConfig,
    budget: usize,
)
    requires
        config.domain == ProjectionDomain::Region,
        config.lag > 0,
        config.aggregation_bytes > 0,
        bytes.len() >= config.aggregation_bytes,
        base_offset + bytes.len() <= usize::MAX,
        budget >= (bytes.len() - config.aggregation_bytes) / (config.aggregation_bytes as int) + 1,
    ensures
        ({
            let g = config.aggregation_bytes as int;
            let a = sampled_anchors(bytes, base_offset, source_length, config, budget);
            &&& a.len() == (bytes.len() - g) / g + 1
            &&& forall|i: int|
                0 <= i < a.len() ==> (#[trigger] a[i]).offset == i * g && a[i].analysis_range[0]
                    == base_offset + i * g && a[i].analysis_range[1] == base_offset + i * g + g
            &&& forall|i: int|
                0 <= i && i + 1 < a.len() ==> (#[trigger] a[i + 1]).offset == a[i].offset + g
                    && a[i].analysis_range[1] <= a[i + 1].analysis_range[0]
        }),
{
    let g = config.aggregation_bytes as int;
    assert(analysis_span_spec(config) == Some(config.aggregation_bytes));
    let last_start = bytes.len() - g;
    let b = budget as int;
    let e = last_start / g + 1;
    assert(e >= 1) by (nonlinear_arith)
        requires
            g > 0,
            last_start >= 0,
            e == last_start / g + 1,
    ;
    assert((e + b - 1) / b == 1) by (nonlinear_arith)
        requires
            1 <= e <= b,
    ;
    assert(g * 1 == g);
    assert(g <= usize::MAX);
    assert(sampling_step(last_start, config, b) == g);
    lemma_region_anchors_upto(bytes, base_offset, source_length, config, e);
    let a = sampled_anchors(bytes, base_offset, source_length, config, budget);
    assert forall|i: int| 0 <= i && i + 1 < a.len() implies (#[trigger] a[i + 1]).offset == a[i].offset
        + g && a[i].analysis_range[1] <= a[i + 1].analysis_range[0] by {
        assert(a[i].offset == i * g);
        assert(a[i + 1].offset == (i + 1) * g);
        assert((i + 1) * g == i * g + g) by (nonlinear_arith);
    }
}

/// Sampling never produces more points than the budget allows.
pub proof fn lemma_sampling_within_budget(
    bytes: Seq<u8>,
    base_offset: usize,
    source_length: usize,
    config: ProjectionSamplingConfig,
    budget: usize,
)
    requires
        bytes.len() <= usize::MAX,
    ensures
        sampled_anchors(bytes, base_offset, source_length, config, budget).len() <= budget,
{
    match analysis_span_spec(config) {
        None => {},
        Some(span) => {
            if budget > 0 && bytes.len() >= span {
                let last_start: int = bytes.len() - span;
                let step = sampling_step(last_start, config, budget as int);
                let hop: int = match config.domain {
                    ProjectionDomain::Byte => 1,
                    ProjectionDomain::Word => if config.hop_bytes == 0 { 1 } else { config.hop_bytes as int },
                    ProjectionDomain::Window => if config.hop_bytes == 0 { 1 } else { config.hop_bytes as int },
                    ProjectionDomain::Region => if config.aggregation_bytes == 0 {
                        1
                    } else {
                        config.aggregation_bytes as int
                    },
                };
                let b = budget as int;
                let eligible = last_start / hop + 1;
                let ceiling = (eligible + b - 1) / b;
                let factor = if ceiling < 1 { 1 } else { ceiling };
                assert(ceiling * b >= eligible) by (nonlinear_arith)
                    requires
                        b >= 1,
                        eligible >= 1,
                        ceiling == (eligible + b - 1) / b,
                ;
                assert(factor * b >= eligible) by (nonlinear_arith)
                    requires
                        b >= 1,
                        factor >= ceiling,
                        ceiling * b >= eligible,
                ;
                let count = last_start / step + 1;
                if hop * factor > usize::MAX {
                    assert(count <= b) by (nonlinear_arith)
                        requires
                            step == usize::MAX,
                            0 <= last_start < usize::MAX,
                            count == last_start / step + 1,
                            b >= 1,
                    ;
                } else {
                    vstd::arithmetic::div_mod::lemma_div_denominator(last_start, hop, factor);
                    assert((eligible - 1) / factor < b) by (nonlinear_arith)
                        requires
                            factor >= 1,
                            factor * b >= eligible,
                            eligible >= 1,
                    ;
                    assert(count <= b);
                }
                assert(count >= 0) by (nonlinear_arith)
                    requires
                        step >= 1,
                        last_start >= 0,
                        count == last_start / step + 1,
                ;
                lemma_anchors_upto_len(bytes, base_offset, source_length, config, span as int, step, count);
            }
        },
    }
}

} // verus!

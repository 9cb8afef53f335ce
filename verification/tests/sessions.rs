use std::collections::BTreeSet;

use strata_poc::projection::{
    ProjectionColorFeature, ProjectionCompareMode, ProjectionComposition, ProjectionGeometry,
    ProjectionKind,
};
use strata_poc::ranges::{ByteRange, RangeError};
use strata_poc::session::{
    normalized_ranges, ranges_from_offsets, validate_cohort, validate_ranges, StoredCohort,
    StoredRange, StoredRenderStyle,
};
use strata_poc::session_support::{
    byte_range_from_stored, digest_prefix, join_u128, legacy_projection_composition,
    range_from_stored, record_initialization_error, restore_exact_selection, split_u128,
    stored_range_from_usize,
};
use strata_poc::workbench::{
    branch_status_from_stored, branch_status_label, contour_mode_from_stored, geometry_from_stored,
    resonance_metric_from_stored, resonance_metric_label, stored_branch_status,
    stored_contour_mode, stored_render_style, stored_resonance_metric, stored_view, structure_preset,
    stored_workbench_mode, view_from_stored, workbench_mode_from_stored, BranchStatus,
    ProjectionContourMode, ResonanceMetric, StructureEntropyPreset, ViewKind, WorkbenchMode,
};

fn r(start: u64, end: u64) -> StoredRange {
    StoredRange { start, end }
}

#[test]
fn stored_ranges_must_be_bounded_sorted_and_apart() {
    assert_eq!(validate_ranges(&[r(0, 4), r(5, 9)], 9, "selection"), Ok(()));
    assert_eq!(
        validate_ranges(&[r(0, 4), r(4, 9)], 9, "selection"),
        Err("stored selection ranges overlap or are not normalized".to_owned())
    );
    assert_eq!(
        validate_ranges(&[r(0, 10)], 9, "branch"),
        Err("stored branch range is empty or out of bounds".to_owned())
    );
    let too_many: Vec<StoredRange> = (0..4_097).map(|i| r(2 * i, 2 * i + 1)).collect();
    assert_eq!(
        validate_ranges(&too_many, 1 << 20, "cohort"),
        Err("too many stored cohort ranges".to_owned())
    );
}

#[test]
fn normalizing_merges_touching_ranges_and_is_idempotent() {
    let normalized = normalized_ranges(&[r(8, 9), r(0, 4), r(4, 6), r(2, 3)]);
    assert_eq!(normalized, vec![r(0, 6), r(8, 9)]);
    assert_eq!(validate_ranges(&normalized, 9, "selection"), Ok(()));
    assert_eq!(normalized_ranges(&normalized), normalized);
}

#[test]
fn offsets_group_into_maximal_runs() {
    let offsets: BTreeSet<u64> = [4, 5, 6, 10, 11, 20].into_iter().collect();
    assert_eq!(ranges_from_offsets(&offsets), Ok(vec![r(4, 7), r(10, 12), r(20, 21)]));
    let overflow: BTreeSet<u64> = [u64::MAX].into_iter().collect();
    assert_eq!(
        ranges_from_offsets(&overflow),
        Err("stored cohort range overflow".to_owned())
    );
}

#[test]
fn stored_cohorts_must_match_their_members() {
    let cohort = StoredCohort {
        members: vec![[4, 5, 6], [10, 10, 11]],
        member_ranges: Vec::new(),
        exact_ranges: vec![r(4, 7), r(10, 12)],
    };
    assert_eq!(validate_cohort(&cohort, 64), Ok(()));
    let mut repeated = cohort.clone();
    repeated.members.push([4, 5, 6]);
    assert_eq!(
        validate_cohort(&repeated, 64),
        Err("stored cohort repeats a sampled identity".to_owned())
    );
    let mut past_end = cohort.clone();
    past_end.members.push([70, 70, 70]);
    assert_eq!(
        validate_cohort(&past_end, 64),
        Err("stored cohort offset exceeds source length".to_owned())
    );
    let mut empty = cohort.clone();
    empty.members.clear();
    assert_eq!(
        validate_cohort(&empty, 64),
        Err("stored cohort membership is empty or exceeds its bound".to_owned())
    );
    let mut mismatch = cohort;
    mismatch.exact_ranges = vec![r(4, 12)];
    assert_eq!(
        validate_cohort(&mismatch, 64),
        Err("stored cohort ranges do not match its exact members".to_owned())
    );
}

#[test]
fn identifiers_split_and_join_exactly() {
    for value in [0_u128, 1, u128::from(u64::MAX), u128::MAX, (7 << 64) | 44] {
        let halves = split_u128(value);
        assert_eq!(join_u128(halves), value);
    }
    assert_eq!(split_u128((7 << 64) | 44), [7, 44]);
    assert_eq!(join_u128([1, 2]), (1 << 64) | 2);
}

#[test]
fn ranges_convert_between_live_and_stored_forms() {
    let stored = stored_range_from_usize(&(3..9));
    assert_eq!(stored, Ok(r(3, 9)));
    assert_eq!(range_from_stored(&r(3, 9)), Some(3..9));
    assert_eq!(byte_range_from_stored(r(3, 9)), Ok(ByteRange { start: 3, end: 9 }));
    assert!(byte_range_from_stored(r(9, 3)).is_err());
    assert_eq!(ByteRange::new(9, 3), Err(RangeError::Reversed));
    assert_eq!(ByteRange { start: 3, end: 9 }.len(), 6);
    assert!(ByteRange { start: 3, end: 9 }.contains(8));
    assert!(!ByteRange { start: 3, end: 9 }.contains(9));
}

#[test]
fn initialization_errors_accumulate() {
    let mut slot = None;
    record_initialization_error(&mut slot, "gpu".to_owned());
    assert_eq!(slot.as_deref(), Some("gpu"));
    record_initialization_error(&mut slot, "fonts".to_owned());
    assert_eq!(slot.as_deref(), Some("gpu; fonts"));
}

#[test]
fn digest_prefixes_keep_twelve_bytes() {
    assert_eq!(digest_prefix("0123456789abcdef"), "0123456789ab");
    assert_eq!(digest_prefix("short"), "short");
    assert_eq!(digest_prefix("0123456789a\u{e9}"), "0123456789a\u{e9}");
}

#[test]
fn live_and_stored_vocabularies_round_trip() {
    for view in [
        ViewKind::Discover,
        ViewKind::Projection3d,
        ViewKind::Resonance,
        ViewKind::Structure,
        ViewKind::Grammar,
        ViewKind::Interleave,
        ViewKind::RevisionDiff,
    ] {
        assert_eq!(view_from_stored(stored_view(view)), view);
    }
    for mode in [WorkbenchMode::Leads, WorkbenchMode::Regions, WorkbenchMode::Compare] {
        assert_eq!(workbench_mode_from_stored(stored_workbench_mode(mode)), mode);
    }
    for contour in [ProjectionContourMode::Off, ProjectionContourMode::Isolines] {
        assert_eq!(contour_mode_from_stored(stored_contour_mode(contour)), contour);
    }
    for metric in [ResonanceMetric::ExactBytes, ResonanceMetric::ByteShape, ResonanceMetric::Texture] {
        assert_eq!(resonance_metric_from_stored(stored_resonance_metric(metric)), metric);
    }
    for status in [BranchStatus::Draft, BranchStatus::Active, BranchStatus::Pinned, BranchStatus::Discarded] {
        assert_eq!(branch_status_from_stored(stored_branch_status(status)), status);
    }
    assert_eq!(stored_render_style(ProjectionGeometry::Points), StoredRenderStyle::Voxels);
    assert_eq!(geometry_from_stored(StoredRenderStyle::Combined), ProjectionGeometry::Surface);
    assert_eq!(ViewKind::Discover.title(), "Investigation map");
    assert_eq!(resonance_metric_label(ResonanceMetric::ByteShape), "byte shape");
    assert_eq!(branch_status_label(BranchStatus::Discarded), "discarded");
}

#[test]
fn legacy_compositions_show_one_projection() {
    let composition = legacy_projection_composition(
        ProjectionKind::PolarAddressPath,
        StoredRenderStyle::Density,
        5_000,
        true,
    );
    let defaults = ProjectionComposition::default();
    assert_eq!(composition.projection_a, ProjectionKind::PolarAddressPath);
    assert_eq!(composition.projection_b, ProjectionKind::PolarAddressPath);
    assert_eq!(composition.geometry, ProjectionGeometry::Surface);
    assert_eq!(composition.compare_mode, ProjectionCompareMode::Single);
    assert_eq!(composition.parameters.lag, 1_024);
    assert_eq!(composition.channels.color, ProjectionColorFeature::Entropy);
    assert_eq!(composition.domain, defaults.domain);
    assert_eq!(composition.overlays, defaults.overlays);
    let plain = legacy_projection_composition(ProjectionKind::Hilbert, StoredRenderStyle::Voxels, 0, false);
    assert_eq!(plain.parameters.lag, 1);
    assert_eq!(plain.channels.color, ProjectionColorFeature::Address);
}

#[test]
fn stored_selection_is_restored_with_its_provenance() {
    let restored = restore_exact_selection(&[r(3, 9)]).expect("restored");
    assert_eq!(restored.exact, vec![3..9]);
    assert_eq!(restored.selection, 3..9);
    assert_eq!(restored.provenance, Some(vec![ByteRange { start: 3, end: 9 }]));

    let restored = restore_exact_selection(&[r(1, 2), r(5, 8)]).expect("restored");
    assert_eq!(restored.exact, vec![1..2, 5..8]);
    assert_eq!(restored.selection, 0..0);
    assert_eq!(restored.provenance.map(|ranges| ranges.len()), Some(2));

    let restored = restore_exact_selection(&[]).expect("restored");
    assert!(restored.exact.is_empty());
    assert_eq!(restored.provenance, None);

    assert_eq!(
        restore_exact_selection(&[r(1, 2), r(9, 3)]).map(|restored| restored.selection),
        Err("byte range start exceeds its end".to_owned())
    );
}

#[test]
fn structure_preset_divides_the_source_into_sixty_four_blocks() {
    assert_eq!(
        structure_preset(1_000, 256),
        Ok(StructureEntropyPreset { atlas_width: 256, entropy_block_size: 16 })
    );
    assert_eq!(
        structure_preset(0, 32),
        Ok(StructureEntropyPreset { atlas_width: 32, entropy_block_size: 1 })
    );
    assert_eq!(
        structure_preset(128, 1 << 40),
        Err("atlas width cannot fit the production preset".to_owned())
    );
    assert_eq!(
        structure_preset(usize::MAX, 32),
        Err("entropy block cannot fit the production preset".to_owned())
    );
}

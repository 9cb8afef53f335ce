use strata_poc::projection::{ProjectionDomain, ProjectionSamplingConfig};
use strata_poc::discovery::{build_detected_region_model, WorkbenchEvidence, WorkbenchLead, WorkbenchLeadId, WorkbenchLeadKind};
use strata_poc::ranges::ByteRange;
use strata_poc::sampling::{
    projection_anchor, projection_anchor_at_source_offset, projection_ranges_inside,
    projection_region_placement, sample_projection_anchors_in_source,
    sample_projection_anchors_with_config, RegionPlacement,
};

#[test]
fn ranged_samples_retain_absolute_source_offsets() {
    let samples = sample_projection_anchors_with_config(
        &[4, 8, 15, 16, 23, 42],
        20_849_808,
        ProjectionSamplingConfig::legacy(1),
        16,
    );
    assert_eq!(samples.len(), 4);
    assert_eq!(
        samples[0].source_offsets,
        [20_849_808, 20_849_809, 20_849_810]
    );
    assert_eq!(
        samples[3].source_offsets,
        [20_849_811, 20_849_812, 20_849_813]
    );
}

#[test]
fn projection_budget_is_deterministic_and_bounded() {
    let bytes: Vec<u8> = (0_u8..=255).cycle().take(10_000).collect();
    let first = sample_projection_anchors_with_config(&bytes, 0, ProjectionSamplingConfig::legacy(4), 257);
    let second = sample_projection_anchors_with_config(&bytes, 0, ProjectionSamplingConfig::legacy(4), 257);
    assert!(first.len() <= 257);
    assert_eq!(first, second);
}

#[test]
fn sparse_evidence_offset_can_be_pinned_outside_uniform_sampling() -> Result<(), String> {
    let bytes = (0_u8..=255).cycle().take(1_024).collect::<Vec<_>>();
    let uniform = sample_projection_anchors_with_config(&bytes, 0, ProjectionSamplingConfig::legacy(1), 8);
    assert!(!uniform.iter().any(|sample| sample.point_id == 511));
    let pinned = projection_anchor_at_source_offset(
        &bytes,
        0,
        bytes.len(),
        ProjectionSamplingConfig::legacy(1),
        511,
    )
    .ok_or("evidence offset should produce a sample")?;
    assert_eq!(pinned.point_id, 511);
    assert_eq!(pinned.source_offsets, [511, 512, 513]);
    assert_eq!(pinned.analysis_range, [511, 514]);
    let end_pinned = projection_anchor_at_source_offset(
        &bytes,
        0,
        bytes.len(),
        ProjectionSamplingConfig::legacy(1),
        1_023,
    )
    .ok_or("end evidence offset should clamp into the last exact sample")?;
    assert_eq!(end_pinned.source_offsets, [1_021, 1_022, 1_023]);
    Ok(())
}

#[test]
fn window_domain_reports_the_full_analyzed_range() {
    let bytes: Vec<u8> = (0_u8..=255).collect();
    let config = ProjectionSamplingConfig {
        domain: ProjectionDomain::Window,
        lag: 1,
        window_bytes: 32,
        hop_bytes: 16,
        aggregation_bytes: 64,
        word_bits: 32,
    };
    let samples = sample_projection_anchors_with_config(&bytes, 1_000, config, 32);
    assert_eq!(
        samples.first().map(|sample| sample.analysis_range),
        Some([1_000, 1_032])
    );
    assert_eq!(
        samples.get(1).map(|sample| sample.analysis_range),
        Some([1_016, 1_048])
    );
}

#[test]
fn uniform_sampling_uses_the_budget_stride() {
    let bytes: Vec<u8> = (0..100).collect();
    let anchors = sample_projection_anchors_in_source(&bytes, 0, 100, ProjectionSamplingConfig::legacy(1), 10);
    let offsets: Vec<usize> = anchors.iter().map(|anchor| anchor.offset).collect();
    assert_eq!(offsets, vec![0, 10, 20, 30, 40, 50, 60, 70, 80, 90]);
    assert_eq!(anchors[9].bytes, [90, 91, 92]);
    assert_eq!(anchors[9].analysis_range, [90, 93]);
    assert!(sample_projection_anchors_in_source(&bytes, 0, 100, ProjectionSamplingConfig::legacy(1), 0).is_empty());
    assert!(sample_projection_anchors_in_source(&bytes[..2], 0, 2, ProjectionSamplingConfig::legacy(1), 5).is_empty());
    for budget in [1, 2, 3, 7, 33, 97, 98, 99, 1_000] {
        let anchors = sample_projection_anchors_in_source(&bytes, 0, 100, ProjectionSamplingConfig::legacy(1), budget);
        assert!(anchors.len() <= budget);
        assert!(!anchors.is_empty());
    }
}

#[test]
fn window_anchors_read_the_middle_and_last_bytes() {
    let bytes: Vec<u8> = (0..64).collect();
    let config = ProjectionSamplingConfig {
        domain: ProjectionDomain::Word,
        lag: 1,
        window_bytes: 32,
        hop_bytes: 4,
        aggregation_bytes: 64,
        word_bits: 32,
    };
    let anchor = projection_anchor(&bytes, 10, 8, 4, config, 50).unwrap_or_else(|| panic!("anchor"));
    assert_eq!(anchor.bytes, [8, 10, 11]);
    assert_eq!(anchor.source_offsets, [18, 20, 21]);
    assert_eq!(anchor.analysis_range, [18, 22]);
    assert_eq!(anchor.source_length, 50);
    assert_eq!(anchor.point_id, 18);
    assert_eq!(projection_anchor(&bytes, 0, 62, 4, config, 64), None);
    let tail = projection_anchor(&bytes, 100, 60, 4, config, 10).unwrap_or_else(|| panic!("tail"));
    assert_eq!(tail.source_length, 164);
}

#[test]
fn resident_ranges_and_region_placement() -> Result<(), String> {
    let bytes: Vec<u8> = (0..100).collect();
    let anchors = sample_projection_anchors_in_source(&bytes, 0, 100, ProjectionSamplingConfig::legacy(1), 10);
    let inside = projection_ranges_inside(&anchors, ByteRange { start: 10, end: 43 });
    assert_eq!(
        inside,
        vec![
            ByteRange { start: 10, end: 13 },
            ByteRange { start: 20, end: 23 },
            ByteRange { start: 30, end: 33 },
            ByteRange { start: 40, end: 43 },
        ]
    );
    let leads = vec![
        WorkbenchLead {
            id: WorkbenchLeadId(1),
            kind: WorkbenchLeadKind::Periodicity,
            source_ranges: vec![ByteRange { start: 0, end: 5 }],
            evidence: WorkbenchEvidence::Periodicity { period_bytes: 4, compared_positions: 2, matching_positions: 2 },
        },
        WorkbenchLead {
            id: WorkbenchLeadId(2),
            kind: WorkbenchLeadKind::ExactRepeat,
            source_ranges: vec![ByteRange { start: 18, end: 25 }, ByteRange { start: 60, end: 70 }],
            evidence: WorkbenchEvidence::ExactRepeat { sampled_window_step: 1, matching_byte_count: 7 },
        },
    ];
    let regions = build_detected_region_model(&leads, 0)?;
    assert_eq!(
        projection_region_placement(&anchors[2], &regions),
        Some(RegionPlacement { slot: 1, count: 3, range: ByteRange { start: 18, end: 25 } })
    );
    assert_eq!(
        projection_region_placement(&anchors[6], &regions),
        Some(RegionPlacement { slot: 2, count: 3, range: ByteRange { start: 60, end: 70 } })
    );
    assert_eq!(projection_region_placement(&anchors[3], &regions), None);
    Ok(())
}

use strata_poc::coordinates::{compact_even_bits, hilbert_2d, value_color};
use strata_poc::projection::{
    composition_uses_gpu_coordinates, composition_uses_p1, is_p1_projection, p1_point_budget,
    projection_analysis_span, projection_code, projection_instance_multiplier,
    projection_instance_planes, projection_plane, projection_point_is_selected,
    projection_region_color, ProjectionCompareMode, ProjectionComposition, ProjectionDomain,
    ProjectionGeometry, ProjectionKind, ProjectionSamplingConfig,
};

#[test]
fn projection_defaults_to_exact_voxels_without_a_field() {
    let geometry = ProjectionGeometry::default();
    assert_eq!(geometry, ProjectionGeometry::Voxels);
    assert_eq!(geometry.label(), "VOXELS");
    assert!(!geometry.uses_field());
    assert_eq!(geometry.field_alpha(), 0);
    assert!(ProjectionGeometry::Surface.field_alpha() > 0);
}

#[test]
fn default_composition_is_valid_and_orthogonal() {
    let composition = ProjectionComposition::default();
    assert_eq!(composition.projection_a, ProjectionKind::Hilbert);
    assert_eq!(composition.geometry, ProjectionGeometry::Voxels);
    assert_eq!(composition.validate(true), Ok(()));
    assert_eq!(
        composition.validate(false),
        Err("projection composition parameters are outside their bounded domains")
    );
    let mut narrow = composition;
    narrow.parameters.row_width = 3;
    assert!(narrow.validate(true).is_err());
}

#[test]
fn p1_usage_follows_the_shown_projections() {
    let mut composition = ProjectionComposition::default();
    assert!(!composition_uses_p1(composition));
    composition.projection_b = ProjectionKind::SpectralWaterfall;
    assert!(composition_uses_p1(composition));
    assert_eq!(p1_point_budget(composition, 10_000), 2_048);
    assert_eq!(p1_point_budget(composition, 100), 100);
    composition.compare_mode = ProjectionCompareMode::Single;
    assert!(!composition_uses_p1(composition));
    assert_eq!(p1_point_budget(composition, 10_000), 10_000);
    composition.projection_a = ProjectionKind::HammingHypercube;
    assert!(composition_uses_gpu_coordinates(composition));
    assert!(is_p1_projection(ProjectionKind::AlignmentLattice));
    assert!(!is_p1_projection(ProjectionKind::Sections));
    assert_eq!(projection_code(ProjectionKind::HierarchicalBlockVolume), 13);
    assert_eq!(projection_code(ProjectionKind::PolarAddressPath), 6);
}

#[test]
fn bit_planes_multiply_instances() {
    let mut composition = ProjectionComposition::default();
    composition.projection_a = ProjectionKind::Bitplanes;
    assert_eq!(projection_instance_multiplier(composition), 9);
    composition.compare_mode = ProjectionCompareMode::Morph;
    assert_eq!(projection_instance_multiplier(composition), 8);
    composition.compare_mode = ProjectionCompareMode::Single;
    assert_eq!(projection_instance_multiplier(composition), 8);
    assert_eq!(projection_instance_planes(ProjectionKind::Bitplanes), (0, 7));
    assert_eq!(projection_instance_planes(ProjectionKind::Hilbert), (0, 0));
    assert_eq!(projection_plane(ProjectionKind::Bitplanes, 3), Some(3));
    assert_eq!(projection_plane(ProjectionKind::Hilbert, 3), None);
}

#[test]
fn analysis_span_depends_on_the_domain() {
    let mut config = ProjectionSamplingConfig::legacy(4);
    assert_eq!(projection_analysis_span(config), Some(9));
    config.lag = 0;
    assert_eq!(projection_analysis_span(config), None);
    config.lag = 1;
    config.domain = ProjectionDomain::Word;
    config.word_bits = 32;
    assert_eq!(projection_analysis_span(config), Some(4));
    config.word_bits = 4;
    assert_eq!(projection_analysis_span(config), Some(1));
    config.domain = ProjectionDomain::Window;
    config.window_bytes = 0;
    assert_eq!(projection_analysis_span(config), None);
    config.domain = ProjectionDomain::Region;
    config.aggregation_bytes = 64;
    assert_eq!(projection_analysis_span(config), Some(64));
    config.domain = ProjectionDomain::Byte;
    config.lag = usize::MAX;
    assert_eq!(projection_analysis_span(config), None);
}

#[test]
fn selection_overlap_and_region_palette() {
    assert!(projection_point_is_selected([4, 8], &(7..9)));
    assert!(!projection_point_is_selected([4, 8], &(8..9)));
    assert!(!projection_point_is_selected([4, 8], &(5..5)));
    assert_eq!(projection_region_color(0), [58, 203, 218]);
    assert_eq!(projection_region_color(7), [238, 184, 72]);
}

fn reference_hilbert(mut index: u32, side: u32) -> [u32; 2] {
    let mut x = 0_u32;
    let mut y = 0_u32;
    let mut scale = 1_u32;
    while scale < side {
        let rotate_x = (index / 2) & 1;
        let rotate_y = (index ^ rotate_x) & 1;
        if rotate_y == 0 {
            if rotate_x == 1 {
                x = scale.saturating_sub(1).saturating_sub(x);
                y = scale.saturating_sub(1).saturating_sub(y);
            }
            std::mem::swap(&mut x, &mut y);
        }
        x = x.saturating_add(scale.saturating_mul(rotate_x));
        y = y.saturating_add(scale.saturating_mul(rotate_y));
        index /= 4;
        scale = scale.saturating_mul(2);
    }
    [x, y]
}

#[test]
fn hilbert_cells_follow_the_curve_and_stay_in_the_square() {
    assert_eq!(hilbert_2d(0, 2), [0, 0]);
    assert_eq!(hilbert_2d(1, 2), [0, 1]);
    assert_eq!(hilbert_2d(2, 2), [1, 1]);
    assert_eq!(hilbert_2d(3, 2), [1, 0]);
    let mut seen = std::collections::BTreeSet::new();
    for index in 0..256 {
        let cell = hilbert_2d(index, 16);
        assert_eq!(cell, reference_hilbert(index, 16));
        assert!(cell[0] < 16 && cell[1] < 16);
        assert!(seen.insert(cell));
    }
    for (index, side) in [(u32::MAX, 1 << 16), (12_345, 1_000), (7, 0)] {
        assert_eq!(hilbert_2d(index, side), reference_hilbert(index, side));
    }
}

#[test]
fn even_bits_are_compacted() {
    assert_eq!(compact_even_bits(0b0101_0101_0101_0101), 0xff);
    assert_eq!(compact_even_bits(0b1010_1010_1010_1010), 0);
    assert_eq!(compact_even_bits(0b0000_0001_0000_0100), 0b0001_0010);
    for value in 0..=u16::MAX {
        let mut expected = 0_u8;
        for bit in 0..8 {
            if value & (1 << (2 * bit)) != 0 {
                expected |= 1 << bit;
            }
        }
        assert_eq!(compact_even_bits(value), expected);
    }
}

#[test]
fn value_colour_matches_the_floating_point_ramp() {
    let channel = |start: f32, end: f32, amount: f32| -> u8 {
        ((end - start).mul_add(amount.clamp(0.0, 1.0), start) * 1.0)
            .clamp(0.0, 255.0)
            .round() as u8
    };
    for value in 0..=u8::MAX {
        let amount = f32::from(value) / 255.0;
        assert_eq!(
            value_color(value),
            [
                channel(34.0, 247.0, amount),
                channel(190.0, 232.0, amount),
                channel(220.0, 74.0, amount),
                210
            ],
            "value {value}"
        );
    }
}

#[test]
fn named_projection_destinations_are_distinct() {
    assert_eq!(ProjectionKind::BASIC.len(), 6);
    assert_eq!(ProjectionKind::BASIC[0].short_label(), "Raster");
    assert_eq!(ProjectionKind::BASIC[5].short_label(), "Sections");
    for (index, first) in ProjectionKind::BASIC.iter().enumerate() {
        assert!(!is_p1_projection(*first));
        for second in &ProjectionKind::BASIC[index + 1..] {
            assert_ne!(first, second);
        }
    }
    for projection in ProjectionKind::P1 {
        assert!(is_p1_projection(projection));
    }
}

#[test]
fn hilbert_curve_visits_every_cell_once_by_neighbouring_steps() {
    for order in 1..=5_u32 {
        let side = 1_u32 << order;
        let mut seen = vec![false; (side * side) as usize];
        let mut previous: Option<[u32; 2]> = None;
        for index in 0..side * side {
            let cell = hilbert_2d(index, side);
            assert!(cell[0] < side && cell[1] < side);
            let slot = (cell[1] * side + cell[0]) as usize;
            assert!(!seen[slot]);
            seen[slot] = true;
            if let Some(last) = previous {
                assert_eq!(last[0].abs_diff(cell[0]) + last[1].abs_diff(cell[1]), 1);
            }
            previous = Some(cell);
        }
        assert_eq!(hilbert_2d(0, side), [0, 0]);
        assert_eq!(hilbert_2d(side * side - 1, side), [side - 1, 0]);
    }
}

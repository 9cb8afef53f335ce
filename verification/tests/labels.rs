use strata_poc::labels::{projection_footer_labels, projection_sample_caption, ProjectionLabelState};
use strata_poc::projection::{
    ProjectionCompareMode, ProjectionComposition, ProjectionGeometry, ProjectionKind,
};

fn state(
    point_count: usize,
    composition: ProjectionComposition,
    mix: f32,
    relief: f32,
    context_light: f32,
    field_radius: f32,
    field_exposure: f32,
    field_contours: bool,
) -> ProjectionLabelState {
    ProjectionLabelState {
        point_count,
        composition,
        relief_percent: format!("{:.0}", relief * 100.0),
        context_light_percent: format!("{:.0}", context_light * 100.0),
        field_radius: format!("{field_radius:.0}"),
        field_exposure: format!("{field_exposure:.1}"),
        morph_percent: format!("{:.0}", mix * 100.0),
        field_contours,
    }
}

#[test]
fn dense_projection_labels_remain_bounded() {
    let state = state(
        1_022,
        ProjectionComposition {
            projection_a: ProjectionKind::Hilbert,
            projection_b: ProjectionKind::Complexity,
            geometry: ProjectionGeometry::Surface,
            compare_mode: ProjectionCompareMode::Morph,
            ..ProjectionComposition::default()
        },
        0.35,
        1.0,
        0.72,
        64.0,
        6.0,
        true,
    );
    let (full_left, full_right) = projection_footer_labels(&state, false);
    assert_eq!(
        full_left,
        "A HILBERT > B COMPLEXITY / MORPH 35% / SURFACE R64 G6.0 +C"
    );
    assert_eq!(
        full_right,
        "WINDOW / C:ADDR H:ENTROPY S:UNIFORM O:SELECTION"
    );
    let (compact_left, compact_right) = projection_footer_labels(&state, true);
    assert_eq!(compact_left, "HILBERT / MORPH");
    assert_eq!(compact_right, "ADDR / H100 / C72");
}

#[test]
fn split_and_single_captions_name_each_projection() {
    let split = state(5, ProjectionComposition::default(), 0.35, 0.5, 0.5, 10.0, 1.0, false);
    let (left, _) = projection_footer_labels(&split, false);
    assert_eq!(left, "A HILBERT / B COMPLEXITY / SPLIT / VOXELS");
    assert_eq!(projection_sample_caption(&split), "5 samples / VOXELS");
    let mut composition = ProjectionComposition::default();
    composition.compare_mode = ProjectionCompareMode::Single;
    composition.geometry = ProjectionGeometry::Surface;
    let single = state(0, composition, 0.0, 0.0, 0.0, 20.0, 1.4, false);
    let (left, _) = projection_footer_labels(&single, false);
    assert_eq!(left, "A HILBERT / SURFACE R20 G1.4");
}

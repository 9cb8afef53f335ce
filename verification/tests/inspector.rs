use strata_poc::inspection::{
    clamped_selection, exact_selection_preview, selected_or_full, ResidentTileBytes,
    INSPECTOR_SELECTION_PREVIEW_BYTES,
};
use strata_poc::ranges::ByteRange;

#[test]
fn selection_is_clamped_to_the_bytes_at_hand() {
    assert_eq!(clamped_selection(&(4..20), 10), 4..10);
    assert_eq!(clamped_selection(&(12..20), 10), 10..10);
    assert_eq!(clamped_selection(&(6..3), 10), 6..6);
}

#[test]
fn analysis_uses_the_selection_only_when_it_spans_two_bytes() {
    let bytes = [1_u8, 2, 3, 4, 5];
    assert_eq!(selected_or_full(&(1..3), &bytes), &[2, 3]);
    assert_eq!(selected_or_full(&(1..2), &bytes), &bytes);
    assert_eq!(selected_or_full(&(3..9), &bytes), &[4, 5]);
}

#[test]
fn preview_reads_the_head_of_the_selection() {
    let bytes: Vec<u8> = (0..=255).collect();
    assert_eq!(exact_selection_preview(&(10..14), None, &bytes), Some(vec![10, 11, 12, 13]));
    assert_eq!(exact_selection_preview(&(14..10), None, &bytes), Some(Vec::new()));
    assert_eq!(exact_selection_preview(&(250..260), None, &bytes), None);
    let long = vec![7_u8; INSPECTOR_SELECTION_PREVIEW_BYTES + 10];
    let preview = exact_selection_preview(&(0..long.len()), None, &long).expect("preview");
    assert_eq!(preview.len(), INSPECTOR_SELECTION_PREVIEW_BYTES);
}

#[test]
fn preview_reads_from_the_first_tile_that_holds_the_selection() {
    let tiles = vec![
        ResidentTileBytes { read_range: ByteRange { start: 0, end: 4 }, bytes: vec![0, 1, 2, 3] },
        ResidentTileBytes {
            read_range: ByteRange { start: 100, end: 104 },
            bytes: vec![50, 51, 52, 53],
        },
    ];
    assert_eq!(exact_selection_preview(&(101..103), Some(&tiles), &[]), Some(vec![51, 52]));
    assert_eq!(exact_selection_preview(&(3..6), Some(&tiles), &[]), None);
}

use strata_poc::preview::{
    ascii_preview, discovery_range_summary, format_byte_range, hex_preview, preview_range,
};
use strata_poc::ranges::ByteRange;

#[test]
fn previews_are_bounded_and_readable() {
    assert_eq!(hex_preview(&[0, 16, 255]), "00 10 ff");
    assert_eq!(ascii_preview(b"A\nB"), "A.B");
}

#[test]
fn ascii_preview_keeps_space_and_printable_bytes_only() {
    assert_eq!(ascii_preview(b" ~\x7f\x1f\x80z"), " ~...z");
    assert_eq!(hex_preview(&[]), "");
    assert_eq!(ascii_preview(&[]), "");
}

#[test]
fn range_preview_shows_at_most_twenty_four_bytes() {
    let bytes: Vec<u8> = (0x40..0x80).collect();
    let text = preview_range(&bytes, ByteRange { start: 1, end: 3 });
    assert_eq!(text, "41 42\nAB");
    let text = preview_range(&bytes, ByteRange { start: 0, end: 64 });
    let (hex, ascii) = text.split_once('\n').unwrap_or_default();
    assert_eq!(hex.split(' ').count(), 24);
    assert_eq!(ascii, "@ABCDEFGHIJKLMNOPQRSTUVW");
    assert_eq!(
        preview_range(&bytes, ByteRange { start: 10, end: 65 }),
        "range unavailable"
    );
    assert_eq!(
        preview_range(&bytes, ByteRange { start: 5, end: 4 }),
        "range unavailable"
    );
    assert_eq!(preview_range(&bytes, ByteRange { start: 7, end: 7 }), "\n");
}

#[test]
fn ranges_are_written_in_lower_case_hexadecimal() {
    assert_eq!(
        format_byte_range(&ByteRange {
            start: 0x10,
            end: 0xab_cdef
        }),
        "0x10..0xabcdef"
    );
    assert_eq!(discovery_range_summary(&[]), "");
    assert_eq!(
        discovery_range_summary(&[ByteRange { start: 0, end: 1 }, ByteRange { start: 255, end: 4096 }]),
        "0x0..0x1  <->  0xff..0x1000"
    );
}

//! Short readable previews of exact source bytes and ranges.

use vstd::prelude::*;

use crate::ranges::ByteRange;
use crate::text::{hex_digits, hex_padded, push_char, push_hex, push_str};

verus! {

/// Most bytes that a range preview shows.
pub const PREVIEW_BYTE_LIMIT: usize = 24;

/// One byte as two lower-case hexadecimal digits (`{:02x}`).
pub open spec fn hex_byte(byte: u8) -> Seq<char> {
    hex_padded(byte as nat, 2)
}

/// The bytes as two-digit hexadecimal pairs separated by single spaces.
pub open spec fn hex_preview_spec(bytes: Seq<u8>) -> Seq<char>
    decreases bytes.len(),
{
    if bytes.len() == 0 {
        Seq::empty()
    } else if bytes.len() == 1 {
        hex_byte(bytes[0])
    } else {
        hex_preview_spec(bytes.drop_last()) + seq![' '] + hex_byte(bytes.last())
    }
}

/// How one byte is shown in an ASCII preview: printable ASCII and the space
/// as themselves, everything else as a dot.
pub open spec fn ascii_shown(byte: u8) -> char {
    if 0x20 <= byte && byte <= 0x7e {
        byte as char
    } else {
        '.'
    }
}

/// The ASCII preview of the bytes, one character per byte.
pub open spec fn ascii_preview_spec(bytes: Seq<u8>) -> Seq<char> {
    Seq::new(bytes.len(), |i: int| ascii_shown(bytes[i]))
}

/// The bytes shown by `preview_range` once the range has been found.
pub open spec fn preview_window(bytes: Seq<u8>, start: int, end: int) -> Seq<u8> {
    let selected = bytes.subrange(start, end);
    if selected.len() <= PREVIEW_BYTE_LIMIT {
        selected
    } else {
        selected.take(PREVIEW_BYTE_LIMIT as int)
    }
}

/// What `preview_range` shows for `range` of `bytes`.
pub open spec fn preview_range_spec(bytes: Seq<u8>, range: ByteRange) -> Seq<char> {
    if range.start > usize::MAX || range.end > usize::MAX {
        "range overflow"@
    } else if !(range.start <= range.end && range.end <= bytes.len()) {
        "range unavailable"@
    } else {
        let window = preview_window(bytes, range.start as int, range.end as int);
        hex_preview_spec(window) + seq!['\n'] + ascii_preview_spec(window)
    }
}

/// `0x{start:x}..0x{end:x}`.
pub open spec fn range_text(range: ByteRange) -> Seq<char> {
    "0x"@ + hex_digits(range.start as nat) + "..0x"@ + hex_digits(range.end as nat)
}

/// The ranges' texts joined by `  <->  `.
pub open spec fn range_summary_spec(ranges: Seq<ByteRange>) -> Seq<char>
    decreases ranges.len(),
{
    if ranges.len() == 0 {
        Seq::empty()
    } else if ranges.len() == 1 {
        range_text(ranges[0])
    } else {
        range_summary_spec(ranges.drop_last()) + "  <->  "@ + range_text(ranges.last())
    }
}

/// The bytes as space-separated two-digit lower-case hexadecimal pairs.
pub fn hex_preview(bytes: &[u8]) -> (text: String)
    ensures
        text@ == hex_preview_spec(bytes@),
{
    let mut text = String::new();
    let mut index: usize = 0;
    while index < bytes.len()
        invariant
            index <= bytes.len(),
            text@ == hex_preview_spec(bytes@.take(index as int)),
        decreases bytes.len() - index,
    {
        if index > 0 {
            push_char(&mut text, ' ');
        }
        push_hex(&mut text, bytes[index] as u64, 2);
        index = index + 1;
        assert(bytes@.take(index as int).drop_last() =~= bytes@.take(index - 1));
    }
    assert(bytes@.take(bytes.len() as int) =~= bytes@);
    text
}

/// The bytes as ASCII, with every byte outside the printable range and the
/// space shown as a dot.
pub fn ascii_preview(bytes: &[u8]) -> (text: String)
    ensures
        text@ == ascii_preview_spec(bytes@),
{
    let mut text = String::new();
    let mut index: usize = 0;
    while index < bytes.len()
        invariant
            index <= bytes.len(),
            text@ == ascii_preview_spec(bytes@.take(index as int)),
        decreases bytes.len() - index,
    {
        let byte = bytes[index];
        let shown = if 0x20 <= byte && byte <= 0x7e {
            byte as char
        } else {
            '.'
        };
        push_char(&mut text, shown);
        index = index + 1;
        assert(text@ =~= ascii_preview_spec(bytes@.take(index as int)));
    }
    assert(bytes@.take(bytes.len() as int) =~= bytes@);
    text
}

/// A two-line preview of the first bytes of `range`: hexadecimal, then
/// ASCII; or a short note when the range cannot be read from `bytes`.
pub fn preview_range(bytes: &[u8], range: ByteRange) -> (text: String)
    ensures
        text@ == preview_range_spec(bytes@, range),
{
    if range.start > usize::MAX as u64 || range.end > usize::MAX as u64 {
        return "range overflow".to_owned();
    }
    let start = range.start as usize;
    let end = range.end as usize;
    if !(start <= end && end <= bytes.len()) {
        return "range unavailable".to_owned();
    }
    let shown_end = if end - start <= PREVIEW_BYTE_LIMIT {
        end
    } else {
        start + PREVIEW_BYTE_LIMIT
    };
    let mut window: Vec<u8> = Vec::new();
    let mut index = start;
    while index < shown_end
        invariant
            start <= index <= shown_end <= end <= bytes.len(),
            window@ == bytes@.subrange(start as int, index as int),
        decreases shown_end - index,
    {
        window.push(bytes[index]);
        index = index + 1;
        assert(window@ =~= bytes@.subrange(start as int, index as int));
    }
    assert(window@ =~= preview_window(bytes@, start as int, end as int));
    let mut text = hex_preview(window.as_slice());
    push_char(&mut text, '\n');
    let ascii = ascii_preview(window.as_slice());
    push_str(&mut text, ascii.as_str());
    text
}

fn push_range_text(text: &mut String, range: &ByteRange)
    ensures
        final(text)@ == old(text)@ + range_text(*range),
{
    push_str(text, "0x");
    push_hex(text, range.start, 0);
    push_str(text, "..0x");
    push_hex(text, range.end, 0);
    assert(final(text)@ =~= old(text)@ + range_text(*range));
}

/// `0x{start:x}..0x{end:x}` for the range.
pub fn format_byte_range(range: &ByteRange) -> (text: String)
    ensures
        text@ == range_text(*range),
{
    let mut text = String::new();
    push_range_text(&mut text, range);
    text
}

/// Every range as `0x{start:x}..0x{end:x}`, joined by `  <->  `.
pub fn discovery_range_summary(ranges: &[ByteRange]) -> (text: String)
    ensures
        text@ == range_summary_spec(ranges@),
{
    let mut text = String::new();
    let mut index: usize = 0;
    while index < ranges.len()
        invariant
            index <= ranges.len(),
            text@ == range_summary_spec(ranges@.take(index as int)),
        decreases ranges.len() - index,
    {
        if index > 0 {
            push_str(&mut text, "  <->  ");
        }
        push_range_text(&mut text, &ranges[index]);
        index = index + 1;
        assert(ranges@.take(index as int).drop_last() =~= ranges@.take(index - 1));
    }
    assert(ranges@.take(ranges.len() as int) =~= ranges@);
    text
}

} // verus!

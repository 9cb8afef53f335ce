//! The byte selection shown by the inspector: clamping it to the bytes at
//! hand and cutting the bounded preview of its exact bytes, from the whole
//! buffer or from the resident tile that holds it.

use vstd::prelude::*;
use vstd::slice::{slice_subrange, slice_to_vec};

use crate::ranges::ByteRange;

use std::ops::Range;

verus! {

/// Most bytes of a selection that the inspector previews.
pub const INSPECTOR_SELECTION_PREVIEW_BYTES: usize = 65536;

/// A resident tile of a large source: the source bytes `read_range` and
/// their contents.
#[derive(Clone, Debug)]
pub struct ResidentTileBytes {
    pub read_range: ByteRange,
    pub bytes: Vec<u8>,
}

/// The smaller of two integers.
pub open spec fn min_int(a: int, b: int) -> int {
    if a <= b { a } else { b }
}

/// A selection clamped to `length` bytes: both ends at most `length`, the
/// end never before the start.
pub fn clamped_selection(selection: &Range<usize>, length: usize) -> (clamped: Range<usize>)
    ensures
        clamped.start == min_int(selection.start as int, length as int),
        clamped.end == if min_int(selection.end as int, length as int) < clamped.start {
            clamped.start as int
        } else {
            min_int(selection.end as int, length as int)
        },
{
    let start: usize = if selection.start < length { selection.start } else { length };
    let bounded_end: usize = if selection.end < length { selection.end } else { length };
    let end: usize = if bounded_end < start { start } else { bounded_end };
    start..end
}

/// The bytes an analysis works on: the clamped selection when it holds at
/// least two bytes, otherwise all of `bytes`.
pub fn selected_or_full<'a>(selection: &Range<usize>, bytes: &'a [u8]) -> (chosen: &'a [u8])
    ensures
        ({
            let start = min_int(selection.start as int, bytes@.len() as int);
            let end = min_int(selection.end as int, bytes@.len() as int);
            chosen@ == if end - start >= 2 { bytes@.subrange(start, end) } else { bytes@ }
        }),
{
    let clamped = clamped_selection(selection, bytes.len());
    if clamped.end - clamped.start >= 2 {
        slice_subrange(bytes, clamped.start, clamped.end)
    } else {
        bytes
    }
}

/// Where the preview of `start..end` stops: at most
/// [`INSPECTOR_SELECTION_PREVIEW_BYTES`] after the start, never after the
/// end.
pub open spec fn preview_end_spec(start: int, end: int) -> int {
    if end <= start {
        end
    } else {
        start + min_int(end - start, INSPECTOR_SELECTION_PREVIEW_BYTES as int)
    }
}

/// Whether tile `tile` holds the source bytes `start..end` whole.
pub open spec fn tile_covers(tile: ResidentTileBytes, start: int, end: int) -> bool {
    tile.read_range.start <= start && tile.read_range.end >= end
}

/// The first tile from index `i` on that holds `start..end`, or the number
/// of tiles when none does.
pub open spec fn covering_tile(tiles: Seq<ResidentTileBytes>, start: int, end: int, i: int) -> int
    decreases tiles.len() - i,
{
    if i >= tiles.len() {
        tiles.len() as int
    } else if tile_covers(tiles[i], start, end) {
        i
    } else {
        covering_tile(tiles, start, end, i + 1)
    }
}

/// The bytes `start..end` read from the first tile that holds them, if that
/// tile has them in its buffer.
pub open spec fn tile_preview_spec(tiles: Seq<ResidentTileBytes>, start: int, end: int) -> Option<Seq<u8>> {
    let k = covering_tile(tiles, start, end, 0);
    if k >= tiles.len() {
        None
    } else {
        let tile = tiles[k];
        let local_start = start - tile.read_range.start;
        let local_end = end - tile.read_range.start;
        if local_end <= tile.bytes@.len() {
            Some(tile.bytes@.subrange(local_start, local_end))
        } else {
            None
        }
    }
}

/// The preview of a selection: empty when it stops at or before its start;
/// otherwise its bounded head, read from the resident tiles when there are
/// any, else from `bytes`, and `None` when those do not hold it.
pub open spec fn selection_preview_spec(
    start: int,
    end: int,
    tiles: Option<Seq<ResidentTileBytes>>,
    bytes: Seq<u8>,
) -> Option<Seq<u8>> {
    let stop = preview_end_spec(start, end);
    if stop <= start {
        Some(Seq::empty())
    } else {
        match tiles {
            Some(tiles) => tile_preview_spec(tiles, start, stop),
            None => if stop <= bytes.len() {
                Some(bytes.subrange(start, stop))
            } else {
                None
            },
        }
    }
}

proof fn lemma_covering_tile_covers(tiles: Seq<ResidentTileBytes>, start: int, end: int, i: int)
    requires
        0 <= i,
    ensures
        covering_tile(tiles, start, end, i) < tiles.len() ==> tile_covers(
            tiles[covering_tile(tiles, start, end, i)],
            start,
            end,
        ) && i <= covering_tile(tiles, start, end, i),
    decreases tiles.len() - i,
{
    if i < tiles.len() && !tile_covers(tiles[i], start, end) {
        lemma_covering_tile_covers(tiles, start, end, i + 1);
    }
}

/// A selection preview never holds more than
/// [`INSPECTOR_SELECTION_PREVIEW_BYTES`] bytes, nor more than the selection.
pub proof fn lemma_preview_is_bounded(
    start: int,
    end: int,
    tiles: Option<Seq<ResidentTileBytes>>,
    bytes: Seq<u8>,
)
    requires
        0 <= start,
    ensures
        selection_preview_spec(start, end, tiles, bytes) matches Some(preview) ==> preview.len()
            <= INSPECTOR_SELECTION_PREVIEW_BYTES && (end > start ==> preview.len() <= end - start),
{
    if let Some(t) = tiles {
        let stop = preview_end_spec(start, end);
        lemma_covering_tile_covers(t, start, stop, 0);
    }
}

fn tile_preview(tiles: &[ResidentTileBytes], start: usize, end: usize) -> (preview: Option<Vec<u8>>)
    requires
        start < end,
    ensures
        match preview {
            Some(bytes) => tile_preview_spec(tiles@, start as int, end as int) == Some(bytes@),
            None => tile_preview_spec(tiles@, start as int, end as int) is None,
        },
{
    let mut i: usize = 0;
    while i < tiles.len()
        invariant
            start < end,
            i <= tiles.len(),
            covering_tile(tiles@, start as int, end as int, 0) == covering_tile(
                tiles@,
                start as int,
                end as int,
                i as int,
            ),
        decreases tiles.len() - i,
    {
        let tile = &tiles[i];
        if tile.read_range.start <= start as u64 && tile.read_range.end >= end as u64 {
            let local_start: usize = start - tile.read_range.start as usize;
            let local_end: usize = end - tile.read_range.start as usize;
            if local_end <= tile.bytes.len() {
                let part = slice_subrange(tile.bytes.as_slice(), local_start, local_end);
                return Some(slice_to_vec(part));
            }
            return None;
        }
        i = i + 1;
    }
    None
}

/// The bounded preview of the exact bytes of `selection`: read from
/// `tiles` when the source is held as resident tiles, else from `bytes`.
pub fn exact_selection_preview(
    selection: &Range<usize>,
    tiles: Option<&[ResidentTileBytes]>,
    bytes: &[u8],
) -> (preview: Option<Vec<u8>>)
    ensures
        ({
            let expected = selection_preview_spec(
                selection.start as int,
                selection.end as int,
                match tiles {
                    Some(t) => Some(t@),
                    None => None,
                },
                bytes@,
            );
            match preview {
                Some(found) => expected == Some(found@),
                None => expected is None,
            }
        }),
{
    let span: usize = if selection.end > selection.start { selection.end - selection.start } else { 0 };
    let capped: usize = if span < INSPECTOR_SELECTION_PREVIEW_BYTES { span } else { INSPECTOR_SELECTION_PREVIEW_BYTES };
    let stop: usize = if selection.end <= selection.start { selection.end } else { selection.start + capped };
    if stop <= selection.start {
        return Some(Vec::new());
    }
    match tiles {
        Some(tiles) => tile_preview(tiles, selection.start, stop),
        None => {
            if stop <= bytes.len() {
                Some(slice_to_vec(slice_subrange(bytes, selection.start, stop)))
            } else {
                None
            }
        },
    }
}

} // verus!

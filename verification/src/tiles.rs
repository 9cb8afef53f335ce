//! Partitioning tall raster images into GPU-sized texture tiles.

use vstd::prelude::*;

use crate::text::{decimal_digits, push_decimal, push_str};

verus! {

/// Most texture tiles one raster may use.
pub const MAX_RASTER_TEXTURE_TILES: usize = 1024;

/// The rows `row_start..row_start + row_count` of a raster, drawn as one
/// texture.
#[derive(Clone, Copy, Debug, PartialEq, Eq, Structural)]
pub struct RasterTextureTilePlan {
    pub row_start: usize,
    pub row_count: usize,
}

/// Why a raster cannot be tiled.
#[derive(Clone, Copy, Debug, PartialEq, Eq, Structural)]
pub enum TilePlanFault {
    EmptyRaster,
    ZeroTextureLimit,
    WidthExceedsLimit,
    TooManyTiles,
}

/// Number of tiles for `height` rows at `max_side` rows per tile.
pub open spec fn tile_count_spec(height: nat, max_side: nat) -> nat {
    if max_side == 0 { 0 } else { ((height + max_side - 1) as int / max_side as int) as nat }
}

/// The verdict of `plan_raster_texture_tiles`: `None` when the raster can be
/// tiled.
pub open spec fn tile_plan_verdict(width: usize, height: usize, max_side: usize) -> Option<TilePlanFault> {
    if width == 0 || height == 0 {
        Some(TilePlanFault::EmptyRaster)
    } else if max_side == 0 {
        Some(TilePlanFault::ZeroTextureLimit)
    } else if width > max_side {
        Some(TilePlanFault::WidthExceedsLimit)
    } else if tile_count_spec(height as nat, max_side as nat) > MAX_RASTER_TEXTURE_TILES {
        Some(TilePlanFault::TooManyTiles)
    } else {
        None
    }
}

/// The message for a tiling fault.
pub open spec fn tile_plan_message(fault: TilePlanFault, width: usize, height: usize, max_side: usize) -> Seq<char> {
    match fault {
        TilePlanFault::EmptyRaster => "Raster texture dimensions must be non-zero"@,
        TilePlanFault::ZeroTextureLimit => "GPU reported a zero-sized texture limit"@,
        TilePlanFault::WidthExceedsLimit => "Raster width "@ + decimal_digits(width as nat)
            + " exceeds the GPU texture-side limit "@ + decimal_digits(max_side as nat),
        TilePlanFault::TooManyTiles => "Raster requires "@ + decimal_digits(
            tile_count_spec(height as nat, max_side as nat),
        ) + " GPU tiles; bounded maximum is 1024. Increase bytes per row or focus a smaller range"@,
    }
}

/// Tile `i` of the plan: rows from `i * max_side`, at most `max_side` of them.
pub open spec fn tile_spec(i: int, height: usize, max_side: usize) -> RasterTextureTilePlan {
    let start = i * max_side;
    RasterTextureTilePlan {
        row_start: start as usize,
        row_count: (if height - start < max_side { height - start } else { max_side as int }) as usize,
    }
}

/// Splits a raster of `dimensions = [width, height]` into consecutive row
/// bands of at most `max_texture_side` rows, keeping the full width in each.
pub fn plan_raster_texture_tiles(dimensions: [usize; 2], max_texture_side: usize) -> (result: Result<
    Vec<RasterTextureTilePlan>,
    String,
>)
    ensures
        result is Ok <==> tile_plan_verdict(dimensions[0], dimensions[1], max_texture_side) is None,
        result matches Err(message) ==> message@ == tile_plan_message(
            tile_plan_verdict(dimensions[0], dimensions[1], max_texture_side)->0,
            dimensions[0],
            dimensions[1],
            max_texture_side,
        ),
        result matches Ok(plans) ==> {
            &&& plans.len() == tile_count_spec(dimensions[1] as nat, max_texture_side as nat)
            &&& forall|i: int| 0 <= i < plans.len() ==> #[trigger] plans@[i] == tile_spec(
                i,
                dimensions[1],
                max_texture_side,
            )
        },
{
    let width = dimensions[0];
    let height = dimensions[1];
    if width == 0 || height == 0 {
        return Err("Raster texture dimensions must be non-zero".to_owned());
    }
    if max_texture_side == 0 {
        return Err("GPU reported a zero-sized texture limit".to_owned());
    }
    if width > max_texture_side {
        let mut message = "Raster width ".to_owned();
        push_decimal(&mut message, width as u64);
        push_str(&mut message, " exceeds the GPU texture-side limit ");
        push_decimal(&mut message, max_texture_side as u64);
        return Err(message);
    }
    let whole = height / max_texture_side;
    let partial = height % max_texture_side;
    assert(partial != 0 ==> whole < usize::MAX) by (nonlinear_arith)
        requires
            max_texture_side > 0,
            whole == height / max_texture_side,
            partial == height % max_texture_side,
            height <= usize::MAX,
    ;
    let tile_count = if partial == 0 {
        whole
    } else {
        whole + 1
    };
    assert(tile_count == tile_count_spec(height as nat, max_texture_side as nat)) by (nonlinear_arith)
        requires
            max_texture_side > 0,
            whole == height / max_texture_side,
            partial == height % max_texture_side,
            tile_count == if partial == 0 { whole as int } else { whole + 1 },
    ;
    if tile_count > MAX_RASTER_TEXTURE_TILES {
        let mut message = "Raster requires ".to_owned();
        push_decimal(&mut message, tile_count as u64);
        push_str(
            &mut message,
            " GPU tiles; bounded maximum is 1024. Increase bytes per row or focus a smaller range",
        );
        return Err(message);
    }
    let mut plans: Vec<RasterTextureTilePlan> = Vec::new();
    let mut tile_index: usize = 0;
    while tile_index < tile_count
        invariant
            max_texture_side > 0,
            height > 0,
            tile_count == tile_count_spec(height as nat, max_texture_side as nat),
            tile_index <= tile_count,
            plans.len() == tile_index,
            forall|i: int| 0 <= i < tile_index ==> #[trigger] plans@[i] == tile_spec(i, height, max_texture_side),
        decreases tile_count - tile_index,
    {
        assert(tile_index * max_texture_side < height) by (nonlinear_arith)
            requires
                tile_index < tile_count,
                max_texture_side > 0,
                tile_count == (height + max_texture_side - 1) as int / max_texture_side as int,
        ;
        let row_start = tile_index * max_texture_side;
        let rest = height - row_start;
        let row_count = if rest < max_texture_side {
            rest
        } else {
            max_texture_side
        };
        plans.push(RasterTextureTilePlan { row_start, row_count });
        tile_index = tile_index + 1;
    }
    Ok(plans)
}

/// A tile's rows with the bytes of the RGBA pixel buffer they occupy.
#[derive(Clone, Copy, Debug, PartialEq, Eq, Structural)]
pub struct RasterTileBytes {
    pub plan: RasterTextureTilePlan,
    pub byte_start: usize,
    pub byte_end: usize,
}

/// Why tile `plan` cannot be cut from a buffer of `pixel_len` bytes with
/// `bytes_per_row` bytes per row.
pub open spec fn tile_bytes_fault(plan: RasterTextureTilePlan, bytes_per_row: int, pixel_len: int) -> Option<Seq<char>> {
    let start = plan.row_start * bytes_per_row;
    let len = plan.row_count * bytes_per_row;
    if start > usize::MAX {
        Some("Raster tile byte offset overflowed"@)
    } else if len > usize::MAX {
        Some("Raster tile byte length overflowed"@)
    } else if start + len > usize::MAX {
        Some("Raster tile byte range overflowed"@)
    } else if start + len > pixel_len {
        Some("Raster tile byte range exceeded the rendered image"@)
    } else {
        None
    }
}

/// The first tile fault among the first `n` tiles of a plan.
pub open spec fn first_tile_bytes_fault(
    height: usize,
    max_side: usize,
    bytes_per_row: int,
    pixel_len: int,
    n: int,
) -> Option<Seq<char>>
    decreases n,
{
    if n <= 0 {
        None
    } else {
        match first_tile_bytes_fault(height, max_side, bytes_per_row, pixel_len, n - 1) {
            Some(message) => Some(message),
            None => tile_bytes_fault(tile_spec(n - 1, height, max_side), bytes_per_row, pixel_len),
        }
    }
}

proof fn lemma_first_tile_fault_stays(
    height: usize,
    max_side: usize,
    bytes_per_row: int,
    pixel_len: int,
    n: int,
    m: int,
)
    requires
        0 <= n <= m,
        first_tile_bytes_fault(height, max_side, bytes_per_row, pixel_len, n) is Some,
    ensures
        first_tile_bytes_fault(height, max_side, bytes_per_row, pixel_len, m)
            == first_tile_bytes_fault(height, max_side, bytes_per_row, pixel_len, n),
    decreases m - n,
{
    if m > n {
        lemma_first_tile_fault_stays(height, max_side, bytes_per_row, pixel_len, n, m - 1);
    }
}

/// Plans the tiles of an RGBA raster of `dimensions = [width, height]` and
/// locates each tile's bytes in a pixel buffer of `pixel_len` bytes, four
/// bytes per pixel, row after row.
pub fn plan_raster_tile_bytes(dimensions: [usize; 2], pixel_len: usize, max_texture_side: usize) -> (result: Result<
    Vec<RasterTileBytes>,
    String,
>)
    ensures
        ({
            let verdict = tile_plan_verdict(dimensions[0], dimensions[1], max_texture_side);
            let count = tile_count_spec(dimensions[1] as nat, max_texture_side as nat) as int;
            let bytes_per_row = dimensions[0] * 4;
            &&& verdict is Some ==> (result matches Err(message) && message@ == tile_plan_message(
                verdict->0,
                dimensions[0],
                dimensions[1],
                max_texture_side,
            ))
            &&& verdict is None && bytes_per_row > usize::MAX ==> (result matches Err(message)
                && message@ == "Raster byte width overflowed"@)
            &&& verdict is None && bytes_per_row <= usize::MAX ==> match result {
                Err(message) => first_tile_bytes_fault(
                    dimensions[1],
                    max_texture_side,
                    bytes_per_row,
                    pixel_len as int,
                    count,
                ) == Some(message@),
                Ok(tiles) => {
                    &&& first_tile_bytes_fault(
                        dimensions[1],
                        max_texture_side,
                        bytes_per_row,
                        pixel_len as int,
                        count,
                    ) is None
                    &&& tiles.len() == count
                    &&& forall|i: int|
                        0 <= i < count ==> (#[trigger] tiles@[i]).plan == tile_spec(
                            i,
                            dimensions[1],
                            max_texture_side,
                        ) && tiles@[i].byte_start == tiles@[i].plan.row_start * bytes_per_row
                            && tiles@[i].byte_end == tiles@[i].byte_start + tiles@[i].plan.row_count
                            * bytes_per_row
                },
            }
        }),
{
    let plans = match plan_raster_texture_tiles(dimensions, max_texture_side) {
        Ok(plans) => plans,
        Err(message) => return Err(message),
    };
    let bytes_per_row = match dimensions[0].checked_mul(4) {
        Some(value) => value,
        None => return Err("Raster byte width overflowed".to_owned()),
    };
    let ghost count = tile_count_spec(dimensions[1] as nat, max_texture_side as nat) as int;
    let mut tiles: Vec<RasterTileBytes> = Vec::new();
    let mut index: usize = 0;
    while index < plans.len()
        invariant
            count == tile_count_spec(dimensions[1] as nat, max_texture_side as nat),
            plans.len() == count,
            forall|i: int| 0 <= i < plans.len() ==> #[trigger] plans@[i] == tile_spec(
                i,
                dimensions[1],
                max_texture_side,
            ),
            tile_plan_verdict(dimensions[0], dimensions[1], max_texture_side) is None,
            bytes_per_row == dimensions[0] * 4,
            index <= plans.len(),
            tiles.len() == index,
            first_tile_bytes_fault(dimensions[1], max_texture_side, bytes_per_row as int, pixel_len as int, index as int) is None,
            forall|i: int|
                0 <= i < index ==> (#[trigger] tiles@[i]).plan == tile_spec(
                    i,
                    dimensions[1],
                    max_texture_side,
                ) && tiles@[i].byte_start == tiles@[i].plan.row_start * bytes_per_row
                    && tiles@[i].byte_end == tiles@[i].byte_start + tiles@[i].plan.row_count
                    * bytes_per_row,
        decreases plans.len() - index,
    {
        let plan = plans[index];
        proof {
            assert(plan == tile_spec(index as int, dimensions[1], max_texture_side));
            assert(first_tile_bytes_fault(dimensions[1], max_texture_side, bytes_per_row as int, pixel_len as int, index + 1)
                == tile_bytes_fault(plan, bytes_per_row as int, pixel_len as int));
        }
        let byte_start = match plan.row_start.checked_mul(bytes_per_row) {
            Some(value) => value,
            None => {
                proof {
                    lemma_first_tile_fault_stays(dimensions[1], max_texture_side, bytes_per_row as int, pixel_len as int, index + 1, count);
                }
                return Err("Raster tile byte offset overflowed".to_owned());
            },
        };
        let byte_len = match plan.row_count.checked_mul(bytes_per_row) {
            Some(value) => value,
            None => {
                proof {
                    assert(plan.row_start * bytes_per_row <= usize::MAX);
                    lemma_first_tile_fault_stays(dimensions[1], max_texture_side, bytes_per_row as int, pixel_len as int, index + 1, count);
                }
                return Err("Raster tile byte length overflowed".to_owned());
            },
        };
        let byte_end = match byte_start.checked_add(byte_len) {
            Some(value) => value,
            None => {
                proof {
                    lemma_first_tile_fault_stays(dimensions[1], max_texture_side, bytes_per_row as int, pixel_len as int, index + 1, count);
                }
                return Err("Raster tile byte range overflowed".to_owned());
            },
        };
        if byte_end > pixel_len {
            proof {
                lemma_first_tile_fault_stays(dimensions[1], max_texture_side, bytes_per_row as int, pixel_len as int, index + 1, count);
            }
            return Err("Raster tile byte range exceeded the rendered image".to_owned());
        }
        tiles.push(RasterTileBytes { plan, byte_start, byte_end });
        index = index + 1;
    }
    Ok(tiles)
}

/// The tiles of an accepted plan cover the raster's rows exactly: they start
/// at row 0, each begins where the previous one ends, each holds between 1
/// and `max_side` rows, and the last one ends at the last row.
pub proof fn lemma_tile_plan_partitions_rows(height: usize, max_side: usize)
    requires
        height > 0,
        max_side > 0,
    ensures
        tile_count_spec(height as nat, max_side as nat) >= 1,
        tile_spec(0, height, max_side).row_start == 0,
        forall|i: int|
            0 <= i < tile_count_spec(height as nat, max_side as nat) ==> 1 <= (#[trigger] tile_spec(
                i,
                height,
                max_side,
            )).row_count <= max_side && tile_spec(i, height, max_side).row_start + tile_spec(
                i,
                height,
                max_side,
            ).row_count <= height,
        forall|i: int|
            0 <= i < tile_count_spec(height as nat, max_side as nat) - 1 ==> (#[trigger] tile_spec(
                i,
                height,
                max_side,
            )).row_start + tile_spec(i, height, max_side).row_count == tile_spec(
                i + 1,
                height,
                max_side,
            ).row_start,
        ({
            let last = tile_spec(tile_count_spec(height as nat, max_side as nat) - 1, height, max_side);
            last.row_start + last.row_count == height
        }),
{
    let n = tile_count_spec(height as nat, max_side as nat);
    assert(n >= 1 && (n - 1) * max_side < height && height <= n * max_side) by (nonlinear_arith)
        requires
            height > 0,
            max_side > 0,
            n == (height + max_side - 1) as int / max_side as int,
    ;
    assert forall|i: int| 0 <= i < n implies 1 <= (#[trigger] tile_spec(i, height, max_side)).row_count
        <= max_side && tile_spec(i, height, max_side).row_start + tile_spec(i, height, max_side).row_count
        <= height by {
        assert(i * max_side < height) by (nonlinear_arith)
            requires
                0 <= i < n,
                (n - 1) * max_side < height,
                max_side > 0,
        ;
        assert(i * max_side >= 0) by (nonlinear_arith)
            requires
                0 <= i,
                max_side > 0,
        ;
    }
    assert forall|i: int| 0 <= i < n - 1 implies (#[trigger] tile_spec(i, height, max_side)).row_start
        + tile_spec(i, height, max_side).row_count == tile_spec(i + 1, height, max_side).row_start by {
        assert((i + 1) * max_side <= (n - 1) * max_side) by (nonlinear_arith)
            requires
                0 <= i < n - 1,
                max_side > 0,
        ;
        assert((i + 1) * max_side == i * max_side + max_side) by (nonlinear_arith);
        assert(i * max_side >= 0) by (nonlinear_arith)
            requires
                0 <= i,
                max_side > 0,
        ;
    }
    assert((n - 1) * max_side >= 0) by (nonlinear_arith)
        requires
            n >= 1,
            max_side > 0,
    ;
    assert(height - (n - 1) * max_side <= max_side) by (nonlinear_arith)
        requires
            height <= n * max_side,
            n >= 1,
    ;
}

/// The tiles' pixel bytes follow one another without gap or overlap: each
/// tile's bytes end where the next tile's begin, the first begin at byte 0
/// and the last end at the end of the image, `height * bytes_per_row`.
pub proof fn lemma_tile_bytes_are_contiguous(height: usize, max_side: usize, bytes_per_row: int)
    requires
        height > 0,
        max_side > 0,
        bytes_per_row >= 0,
    ensures
        tile_spec(0, height, max_side).row_start * bytes_per_row == 0,
        forall|i: int|
            0 <= i < tile_count_spec(height as nat, max_side as nat) - 1 ==> (#[trigger] tile_spec(
                i,
                height,
                max_side,
            )).row_start * bytes_per_row + tile_spec(i, height, max_side).row_count * bytes_per_row
                == tile_spec(i + 1, height, max_side).row_start * bytes_per_row,
        ({
            let last = tile_spec(tile_count_spec(height as nat, max_side as nat) - 1, height, max_side);
            last.row_start * bytes_per_row + last.row_count * bytes_per_row == height * bytes_per_row
        }),
{
    lemma_tile_plan_partitions_rows(height, max_side);
    let n = tile_count_spec(height as nat, max_side as nat);
    assert forall|i: int| 0 <= i < n - 1 implies (#[trigger] tile_spec(i, height, max_side)).row_start
        * bytes_per_row + tile_spec(i, height, max_side).row_count * bytes_per_row == tile_spec(
        i + 1,
        height,
        max_side,
    ).row_start * bytes_per_row by {
        let a = tile_spec(i, height, max_side).row_start as int;
        let b = tile_spec(i, height, max_side).row_count as int;
        assert(a * bytes_per_row + b * bytes_per_row == (a + b) * bytes_per_row) by (nonlinear_arith);
    }
    let last = tile_spec(n - 1, height, max_side);
    let a = last.row_start as int;
    let b = last.row_count as int;
    assert(a * bytes_per_row + b * bytes_per_row == (a + b) * bytes_per_row) by (nonlinear_arith);
}

} // verus!

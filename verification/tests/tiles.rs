use strata_poc::tiles::{plan_raster_texture_tiles, plan_raster_tile_bytes, RasterTextureTilePlan, RasterTileBytes};

#[test]
fn oversized_height_is_partitioned_without_changing_width() -> Result<(), String> {
    let plans = plan_raster_texture_tiles([32, 13_298], 8_192)?;
    assert_eq!(
        plans,
        vec![
            RasterTextureTilePlan {
                row_start: 0,
                row_count: 8_192,
            },
            RasterTextureTilePlan {
                row_start: 8_192,
                row_count: 5_106,
            },
        ]
    );
    Ok(())
}

#[test]
fn width_over_device_limit_fails_closed() {
    let result = plan_raster_texture_tiles([8_193, 2], 8_192);
    assert!(matches!(result, Err(error) if error.contains("exceeds")));
}

#[test]
fn tiling_refuses_empty_rasters_and_zero_limits() {
    assert_eq!(
        plan_raster_texture_tiles([0, 4], 16),
        Err("Raster texture dimensions must be non-zero".to_owned())
    );
    assert_eq!(
        plan_raster_texture_tiles([4, 0], 16),
        Err("Raster texture dimensions must be non-zero".to_owned())
    );
    assert_eq!(
        plan_raster_texture_tiles([4, 4], 0),
        Err("GPU reported a zero-sized texture limit".to_owned())
    );
    assert_eq!(
        plan_raster_texture_tiles([8_193, 2], 8_192),
        Err("Raster width 8193 exceeds the GPU texture-side limit 8192".to_owned())
    );
}

#[test]
fn tile_count_is_bounded() {
    assert_eq!(
        plan_raster_texture_tiles([1, 1_025], 1),
        Err("Raster requires 1025 GPU tiles; bounded maximum is 1024. Increase bytes per row or focus a smaller range".to_owned())
    );
    let plans = plan_raster_texture_tiles([1, 1_024], 1).unwrap_or_default();
    assert_eq!(plans.len(), 1_024);
    assert_eq!(plans[1_023], RasterTextureTilePlan { row_start: 1_023, row_count: 1 });
}

#[test]
fn tiles_partition_the_rows_exactly() {
    for (height, side) in [(1_usize, 7_usize), (7, 7), (8, 7), (100, 9), (4_096, 4_096)] {
        let plans = plan_raster_texture_tiles([1, height], side).unwrap_or_default();
        assert_eq!(plans.len(), height.div_ceil(side));
        let mut next = 0;
        for plan in &plans {
            assert_eq!(plan.row_start, next);
            assert!(plan.row_count >= 1 && plan.row_count <= side);
            next += plan.row_count;
        }
        assert_eq!(next, height);
    }
}

#[test]
fn tile_bytes_follow_rows_of_four_byte_pixels() {
    let tiles = plan_raster_tile_bytes([2, 3], 24, 2).expect("tiles");
    assert_eq!(
        tiles,
        vec![
            RasterTileBytes {
                plan: RasterTextureTilePlan { row_start: 0, row_count: 2 },
                byte_start: 0,
                byte_end: 16,
            },
            RasterTileBytes {
                plan: RasterTextureTilePlan { row_start: 2, row_count: 1 },
                byte_start: 16,
                byte_end: 24,
            },
        ]
    );
}

#[test]
fn tile_bytes_refuse_a_short_pixel_buffer() {
    assert_eq!(
        plan_raster_tile_bytes([2, 3], 23, 2),
        Err("Raster tile byte range exceeded the rendered image".to_owned())
    );
    assert_eq!(
        plan_raster_tile_bytes([0, 3], 0, 2),
        Err("Raster texture dimensions must be non-zero".to_owned())
    );
}

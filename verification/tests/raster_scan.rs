use ragen::raster_scan::{pixel_offset, scan_rows, tile_count, tile_plan, RowStrip, TILE_ROWS};

#[test]
fn scan_rows_clamps_top_row_at_zero() {
    assert_eq!(scan_rows(-7, 99, 1000), (0, 100));
}

#[test]
fn scan_rows_clamps_bottom_row_to_raster() {
    assert_eq!(scan_rows(20, 5000, 1000), (20, 1000));
}

#[test]
fn scan_rows_regions_above_raster_give_empty_range() {
    let (start, end) = scan_rows(-40, -3, 1000);
    assert_eq!((start, end), (0, 0));
    assert_eq!(tile_count(start, end), 0);
}

#[test]
fn scan_rows_regions_below_raster_give_empty_range() {
    let (start, end) = scan_rows(1200, 1300, 1000);
    assert_eq!((start, end), (1200, 1000));
    assert_eq!(tile_count(start, end), 0);
    assert!(tile_plan(start, end).is_empty());
}

#[test]
fn scan_rows_takes_edges_in_either_order() {
    // Rows that run northwards put the top edge on the higher row.
    assert_eq!(scan_rows(1, 0, 2), (0, 2));
    assert_eq!(scan_rows(0, 1, 2), (0, 2));
    assert_eq!(scan_rows(99, -7, 1000), (0, 100));
    assert_eq!(scan_rows(5000, 20, 1000), (20, 1000));
}

#[test]
fn scan_rows_saturated_edge_row_ends_at_raster() {
    assert_eq!(scan_rows(3, isize::MAX, 1000), (3, 1000));
    assert_eq!(scan_rows(isize::MAX, isize::MIN, 10), (0, 10));
}

#[test]
fn tile_count_rounds_up() {
    assert_eq!(TILE_ROWS, 512);
    assert_eq!(tile_count(0, 1), 1);
    assert_eq!(tile_count(0, 512), 1);
    assert_eq!(tile_count(0, 513), 2);
    assert_eq!(tile_count(100, 100), 0);
    assert_eq!(tile_count(3, 1027), 2);
}

#[test]
fn tile_plan_strips_cover_rows_in_order() {
    let strips = tile_plan(10, 1100);
    assert_eq!(
        strips,
        vec![
            RowStrip { first_row: 10, rows: 512 },
            RowStrip { first_row: 522, rows: 512 },
            RowStrip { first_row: 1034, rows: 66 },
        ]
    );
    assert_eq!(strips.len(), tile_count(10, 1100));
    let total: usize = strips.iter().map(|s| s.rows).sum();
    assert_eq!(total, 1090);
}

#[test]
fn tile_plan_exact_multiple_has_no_short_strip() {
    let strips = tile_plan(0, 1024);
    assert_eq!(
        strips,
        vec![RowStrip { first_row: 0, rows: 512 }, RowStrip { first_row: 512, rows: 512 }]
    );
}

#[test]
fn tile_plan_single_row() {
    assert_eq!(tile_plan(41, 42), vec![RowStrip { first_row: 41, rows: 1 }]);
}

#[test]
fn pixel_offset_is_row_major() {
    assert_eq!(pixel_offset(0, 0, 7, 3), 0);
    assert_eq!(pixel_offset(2, 5, 7, 3), 19);
    assert_eq!(pixel_offset(1, 0, 7, 3), 7);
}

#[test]
fn pixel_offsets_of_a_strip_are_distinct_and_in_buffer() {
    let (width, rows) = (5usize, 4usize);
    let mut seen = vec![false; width * rows];
    for r in 0..rows {
        for c in 0..width {
            let o = pixel_offset(r, c, width, rows);
            assert!(o < width * rows);
            assert!(!seen[o]);
            seen[o] = true;
        }
    }
    assert!(seen.iter().all(|b| *b));
}

//! Planning of the raster scan: which rows are read, and in which strips.
//!
//! The raster is read in horizontal strips of at most `TILE_ROWS` rows, so the
//! memory used per strip is bounded whatever the raster size, and only the rows
//! that overlap the regions' extent are visited.

use vstd::prelude::*;

verus! {

/// Number of raster rows read at once.
pub const TILE_ROWS: usize = 512;

/// First row of the scan: the lower of the rows on which the regions' two
/// edges fall, clamped at zero.
pub open spec fn spec_scan_start(row_a: int, row_b: int) -> int {
    let low = if row_a < row_b { row_a } else { row_b };
    if low < 0 { 0 } else { low }
}

/// One past the last row of the scan: the row after the higher of the rows
/// on which the regions' two edges fall, clamped to the raster, and never
/// negative.
pub open spec fn spec_scan_end(row_a: int, row_b: int, raster_height: int) -> int {
    let high = if row_a < row_b { row_b } else { row_a };
    let e = if high + 1 < raster_height { high + 1 } else { raster_height };
    if e < 0 { 0 } else { e }
}

/// Number of strips needed to cover the rows `start..end`.
pub open spec fn spec_tile_count(start: int, end: int) -> int {
    if start < end { (end - start + TILE_ROWS - 1) / (TILE_ROWS as int) } else { 0 }
}

/// Rows `start..end` to scan, given the (possibly negative or out-of-raster)
/// rows on which the regions' top and bottom edges fall, in either order: a
/// raster whose rows run southwards puts the top edge on the lower row, one
/// whose rows run northwards on the higher row.
pub fn scan_rows(edge_row_a: isize, edge_row_b: isize, raster_height: usize) -> (rows: (usize, usize))
    requires
        raster_height <= isize::MAX,
    ensures
        rows.0 == spec_scan_start(edge_row_a as int, edge_row_b as int),
        rows.1 == spec_scan_end(edge_row_a as int, edge_row_b as int, raster_height as int),
        rows.1 <= raster_height,
        forall|r: int|
            0 <= r < raster_height && #[trigger] lies_between(r, edge_row_a as int, edge_row_b as int)
                ==> rows.0 <= r < rows.1,
        forall|r: int|
            rows.0 <= r < rows.1 ==> 0 <= r < raster_height && #[trigger] lies_between(
                r,
                edge_row_a as int,
                edge_row_b as int,
            ),
{
    proof {
        lemma_scan_is_rows_between_edges(edge_row_a as int, edge_row_b as int, raster_height as int);
    }
    let low: isize = if edge_row_a < edge_row_b { edge_row_a } else { edge_row_b };
    let high: isize = if edge_row_a < edge_row_b { edge_row_b } else { edge_row_a };
    let start: usize = if low < 0 { 0 } else { low as usize };
    let height: isize = raster_height as isize;
    let clamped: isize = if high < height { high + 1 } else { height };
    let end: usize = if clamped < 0 { 0 } else { clamped as usize };
    (start, end)
}

/// Row `r` lies between rows `a` and `b`, both included, in either order.
pub open spec fn lies_between(r: int, a: int, b: int) -> bool {
    a <= r <= b || b <= r <= a
}

/// The scan reads exactly the raster rows that lie between the rows of the
/// regions' two edges, both included, whichever edge falls on the lower row.
pub proof fn lemma_scan_is_rows_between_edges(row_a: int, row_b: int, raster_height: int)
    requires
        0 <= raster_height,
    ensures
        forall|r: int|
            0 <= r < raster_height && #[trigger] lies_between(r, row_a, row_b) ==> spec_scan_start(
                row_a,
                row_b,
            ) <= r < spec_scan_end(row_a, row_b, raster_height),
        forall|r: int|
            spec_scan_start(row_a, row_b) <= r < spec_scan_end(row_a, row_b, raster_height) ==> 0 <= r
                < raster_height && #[trigger] lies_between(r, row_a, row_b),
        spec_scan_end(row_a, row_b, raster_height) <= raster_height,
{
}

/// First row of the `i`-th strip of a scan that starts at `start`.
pub open spec fn spec_strip_first(start: int, i: int) -> int {
    start + i * TILE_ROWS
}

/// Number of rows of the `i`-th strip of the scan of `start..end`: a full
/// strip, or what is left before `end`.
pub open spec fn spec_strip_rows(start: int, end: int, i: int) -> int {
    let left = end - spec_strip_first(start, i);
    if left < TILE_ROWS { left } else { TILE_ROWS as int }
}

/// A horizontal strip of the raster: `rows` consecutive rows from `first_row`.
#[derive(Clone, Copy, Debug, PartialEq, Eq, Structural)]
pub struct RowStrip {
    pub first_row: usize,
    pub rows: usize,
}

/// Number of strips that cover the rows `start..end` (none when the range is empty).
pub fn tile_count(start: usize, end: usize) -> (n: usize)
    ensures
        n == spec_tile_count(start as int, end as int),
{
    if start < end {
        let span: usize = end - start;
        let full: usize = span / TILE_ROWS;
        if span % TILE_ROWS == 0 {
            full
        } else {
            full + 1
        }
    } else {
        0
    }
}

/// The strips that the scan reads, in reading order: the `i`-th strip starts
/// `i * TILE_ROWS` rows after `start` and holds `TILE_ROWS` rows, or fewer
/// for the last one, which ends at `end`.
pub fn tile_plan(start: usize, end: usize) -> (strips: Vec<RowStrip>)
    requires
        end <= usize::MAX - TILE_ROWS,
    ensures
        strips.len() == spec_tile_count(start as int, end as int),
        forall|i: int|
            0 <= i < strips.len() ==> {
                &&& (#[trigger] strips[i]).first_row == spec_strip_first(start as int, i)
                &&& strips[i].rows == spec_strip_rows(start as int, end as int, i)
            },
{
    let mut strips: Vec<RowStrip> = Vec::new();
    let mut row: usize = start;
    while row < end
        invariant
            end <= usize::MAX - TILE_ROWS,
            row == start + strips.len() * TILE_ROWS,
            strips.len() > 0 ==> row < end + TILE_ROWS,
            forall|i: int|
                0 <= i < strips.len() ==> {
                    &&& (#[trigger] strips[i]).first_row == spec_strip_first(start as int, i)
                    &&& strips[i].rows == spec_strip_rows(start as int, end as int, i)
                },
        decreases end + TILE_ROWS - row,
    {
        let next: usize = if row + TILE_ROWS < end { row + TILE_ROWS } else { end };
        strips.push(RowStrip { first_row: row, rows: next - row });
        row = row + TILE_ROWS;
    }
    proof {
        if start < end {
            let n = strips.len() as int;
            assert(n > 0);
            assert((n - 1) * (TILE_ROWS as int) < end - start <= n * (TILE_ROWS as int));
            assert((end - start + TILE_ROWS - 1) / (TILE_ROWS as int) == n);
        }
    }
    strips
}

/// Position, in a strip's row-major buffer of `rows * width` values, of the
/// pixel in row `local_row` (counted from the strip's first row) and column
/// `col`; it always lies inside the buffer.
pub fn pixel_offset(local_row: usize, col: usize, width: usize, rows: usize) -> (offset: usize)
    requires
        local_row < rows,
        col < width,
        rows * width <= usize::MAX,
    ensures
        offset == local_row * width + col,
        offset < rows * width,
{
    proof {
        lemma_offset_in_buffer(local_row as int, col as int, width as int, rows as int);
    }
    local_row * width + col
}

proof fn lemma_offset_in_buffer(r: int, c: int, w: int, n: int)
    requires
        0 <= r < n,
        0 <= c < w,
    ensures
        0 <= r * w + c < n * w,
        r * w <= n * w,
{
    assert(r * w + c < n * w) by (nonlinear_arith)
        requires
            0 <= r < n,
            0 <= c < w,
    ;
    assert(r * w <= n * w) by (nonlinear_arith)
        requires
            0 <= r < n,
            0 <= c < w,
    ;
    assert(0 <= r * w) by (nonlinear_arith)
        requires
            0 <= r,
            0 <= w,
    ;
}

/// Distinct pixels of a strip have distinct places in its buffer, so every
/// value of the buffer is read for one pixel only.
pub proof fn lemma_pixel_offsets_distinct(r1: int, c1: int, r2: int, c2: int, width: int)
    requires
        0 <= r1,
        0 <= r2,
        0 <= c1 < width,
        0 <= c2 < width,
        r1 * width + c1 == r2 * width + c2,
    ensures
        r1 == r2,
        c1 == c2,
{
    if r1 < r2 {
        assert(r1 * width + c1 < r2 * width) by (nonlinear_arith)
            requires
                r1 < r2,
                0 <= c1 < width,
        ;
    } else if r2 < r1 {
        assert(r2 * width + c2 < r1 * width) by (nonlinear_arith)
            requires
                r2 < r1,
                0 <= c2 < width,
        ;
    }
}

/// Every strip of the scan of `start..end` holds between one and `TILE_ROWS`
/// rows, and all but the last hold exactly `TILE_ROWS`; the last one ends at
/// `end`.
pub proof fn lemma_strip_sizes(start: int, end: int, i: int)
    requires
        start < end,
        0 <= i < spec_tile_count(start, end),
    ensures
        1 <= spec_strip_rows(start, end, i) <= TILE_ROWS,
        i + 1 < spec_tile_count(start, end) ==> spec_strip_rows(start, end, i) == TILE_ROWS,
        i + 1 == spec_tile_count(start, end) ==> spec_strip_first(start, i) + spec_strip_rows(
            start,
            end,
            i,
        ) == end,
{
    let n = spec_tile_count(start, end);
    assert((n - 1) * (TILE_ROWS as int) < end - start <= n * (TILE_ROWS as int));
    assert(i * (TILE_ROWS as int) <= (n - 1) * (TILE_ROWS as int));
    if i + 1 < n {
        assert((i + 1) * (TILE_ROWS as int) <= (n - 1) * (TILE_ROWS as int));
    }
}

/// The strips partition the scanned rows: each row of `start..end` lies in
/// exactly one strip, the one of index `(row - start) / TILE_ROWS`.
pub proof fn lemma_strips_partition_rows(start: int, end: int, row: int, j: int)
    requires
        start <= row < end,
        0 <= j < spec_tile_count(start, end),
    ensures
        0 <= (row - start) / (TILE_ROWS as int) < spec_tile_count(start, end),
        spec_strip_first(start, (row - start) / (TILE_ROWS as int)) <= row < spec_strip_first(
            start,
            (row - start) / (TILE_ROWS as int),
        ) + spec_strip_rows(start, end, (row - start) / (TILE_ROWS as int)),
        (spec_strip_first(start, j) <= row < spec_strip_first(start, j) + spec_strip_rows(
            start,
            end,
            j,
        )) ==> j == (row - start) / (TILE_ROWS as int),
{
    let n = spec_tile_count(start, end);
    let k = (row - start) / (TILE_ROWS as int);
    assert((n - 1) * (TILE_ROWS as int) < end - start <= n * (TILE_ROWS as int));
    assert(k * (TILE_ROWS as int) <= row - start < k * (TILE_ROWS as int) + TILE_ROWS);
    assert(k < n) by {
        if k >= n {
            assert(k * (TILE_ROWS as int) >= n * (TILE_ROWS as int));
        }
    }
    if j < k {
        assert(j * (TILE_ROWS as int) + TILE_ROWS <= k * (TILE_ROWS as int));
    } else if j > k {
        assert(j * (TILE_ROWS as int) >= k * (TILE_ROWS as int) + TILE_ROWS);
    }
}

/// The rows of the strips add up to the number of scanned rows.
pub open spec fn spec_rows_in_strips(start: int, end: int, n: nat) -> int
    decreases n,
{
    if n == 0 { 0 } else { spec_rows_in_strips(start, end, (n - 1) as nat) + spec_strip_rows(start, end, n - 1) }
}

/// Reading all strips reads `end - start` rows in all.
pub proof fn lemma_strips_total_rows(start: int, end: int)
    requires
        start <= end,
    ensures
        spec_rows_in_strips(start, end, spec_tile_count(start, end) as nat) == end - start,
{
    let n = spec_tile_count(start, end);
    if start < end {
        lemma_rows_in_strips_prefix(start, end, (n - 1) as nat);
        lemma_strip_sizes(start, end, n - 1);
    }
}

proof fn lemma_rows_in_strips_prefix(start: int, end: int, k: nat)
    requires
        start < end,
        k < spec_tile_count(start, end),
    ensures
        spec_rows_in_strips(start, end, k) == k * TILE_ROWS,
    decreases k,
{
    if k > 0 {
        lemma_rows_in_strips_prefix(start, end, (k - 1) as nat);
        lemma_strip_sizes(start, end, k - 1);
    }
}

} // verus!

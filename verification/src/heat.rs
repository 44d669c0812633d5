//! The heat grid: how many points fall into each square cell of the canvas.

use vstd::prelude::*;
use vstd::arithmetic::div_mod::lemma_div_is_ordered;
use crate::error::Error;

verus! {

/// A point in pixel coordinates; it may lie outside any canvas.
pub type PixelPoint = (i64, i64);

/// Whether `p` lies inside a `width` x `height` canvas.
pub open spec fn on_canvas(p: PixelPoint, width: int, height: int) -> bool {
    0 <= p.0 < width && 0 <= p.1 < height
}

/// Whether `p` lies on the canvas and inside grid cell `(gx, gy)`.
pub open spec fn in_cell(
    p: PixelPoint,
    width: int,
    height: int,
    cell: int,
    gx: int,
    gy: int,
) -> bool {
    on_canvas(p, width, height) && (p.0 as int) / cell == gx && (p.1 as int) / cell == gy
}

/// How many of `points` lie on the canvas.
pub open spec fn count_on_canvas(points: Seq<PixelPoint>, width: int, height: int) -> nat
    decreases points.len(),
{
    if points.len() == 0 {
        0
    } else {
        count_on_canvas(points.drop_last(), width, height) + if on_canvas(
            points.last(),
            width,
            height,
        ) {
            1nat
        } else {
            0nat
        }
    }
}

/// How many of `points` lie in grid cell `(gx, gy)`.
pub open spec fn count_in_cell(
    points: Seq<PixelPoint>,
    width: int,
    height: int,
    cell: int,
    gx: int,
    gy: int,
) -> nat
    decreases points.len(),
{
    if points.len() == 0 {
        0
    } else {
        count_in_cell(points.drop_last(), width, height, cell, gx, gy) + if in_cell(
            points.last(),
            width,
            height,
            cell,
            gx,
            gy,
        ) {
            1nat
        } else {
            0nat
        }
    }
}

/// Number of cells of size `cell` needed to cover `len` pixels: the quotient
/// rounded up.
pub open spec fn cells_across(len: int, cell: int) -> int {
    (len + cell - 1) / cell
}

/// The grid of counts for `points`: one column per cell along x, and in each
/// column one count per cell along y.
pub open spec fn heat_grid_of(points: Seq<PixelPoint>, width: int, height: int, cell: int) -> Seq<
    Seq<nat>,
> {
    Seq::new(
        cells_across(width, cell) as nat,
        |gx: int|
            Seq::new(
                cells_across(height, cell) as nat,
                |gy: int| count_in_cell(points, width, height, cell, gx, gy),
            ),
    )
}

/// Sum of one column of counts.
pub open spec fn column_total(column: Seq<nat>) -> nat
    decreases column.len(),
{
    if column.len() == 0 {
        0
    } else {
        column_total(column.drop_last()) + column.last()
    }
}

/// Sum of all counts of a grid.
pub open spec fn grid_total(cells: Seq<Seq<nat>>) -> nat
    decreases cells.len(),
{
    if cells.len() == 0 {
        0
    } else {
        grid_total(cells.drop_last()) + column_total(cells.last())
    }
}

/// Whether `m` is the peak of a grid: the largest count, or 1 where no count
/// exceeds 1 (so that an empty grid has peak 1).
pub open spec fn is_peak(cells: Seq<Seq<nat>>, m: nat) -> bool {
    &&& m >= 1
    &&& forall|i: int, j: int|
        0 <= i < cells.len() && 0 <= j < cells[i].len() ==> #[trigger] cells[i][j] <= m
    &&& (m == 1 || exists|i: int, j: int|
        0 <= i < cells.len() && 0 <= j < cells[i].len() && #[trigger] cells[i][j] == m)
}

/// The peak of a grid.
pub open spec fn peak_of(cells: Seq<Seq<nat>>) -> nat {
    choose|m: nat| is_peak(cells, m)
}

/// Heat intensity of a cell: `255 * count / peak`, rounded to the nearest
/// integer, halves upwards.
pub open spec fn intensity_of(count: nat, peak: nat) -> int {
    (510 * count + peak) as int / (2 * peak) as int
}

/// A grid has at most one peak.
pub proof fn lemma_peak_unique(cells: Seq<Seq<nat>>, a: nat, b: nat)
    requires
        is_peak(cells, a),
        is_peak(cells, b),
    ensures
        a == b,
{
    if a < b {
        let (i, j) = choose|i: int, j: int|
            0 <= i < cells.len() && 0 <= j < cells[i].len() && #[trigger] cells[i][j] == b;
        assert(cells[i][j] <= a);
    } else if b < a {
        let (i, j) = choose|i: int, j: int|
            0 <= i < cells.len() && 0 <= j < cells[i].len() && #[trigger] cells[i][j] == a;
        assert(cells[i][j] <= b);
    }
}

/// Whoever is a peak of a grid is its `peak_of`.
pub proof fn lemma_peak_is_peak_of(cells: Seq<Seq<nat>>, m: nat)
    requires
        is_peak(cells, m),
    ensures
        peak_of(cells) == m,
{
    lemma_peak_unique(cells, peak_of(cells), m);
}

/// A cell that holds the peak count has intensity 255.
pub proof fn lemma_peak_intensity(peak: nat)
    requires
        peak >= 1,
    ensures
        intensity_of(peak, peak) == 255,
{
    assert((510 * peak + peak) / (2 * peak) == 255) by (nonlinear_arith)
        requires
            peak >= 1,
    ;
}

/// Intensities stay within a colour channel.
pub proof fn lemma_intensity_range(count: nat, peak: nat)
    requires
        peak >= 1,
        count <= peak,
    ensures
        0 <= intensity_of(count, peak) <= 255,
{
    assert(0 <= (510 * count + peak) / (2 * peak) <= 255) by (nonlinear_arith)
        requires
            peak >= 1,
            count <= peak,
    ;
}

/// A pixel coordinate on the canvas falls into a cell of the grid.
pub proof fn lemma_cell_in_range(v: int, len: int, cell: int)
    requires
        0 <= v < len,
        cell > 0,
    ensures
        0 <= v / cell < cells_across(len, cell),
{
    lemma_div_is_ordered(v, len - 1, cell);
    lemma_div_is_ordered(0, v, cell);
    assert((len - 1 + cell) / cell == (len - 1) / cell + 1) by (nonlinear_arith)
        requires
            cell > 0,
    ;
}

/// Replacing one count of a column changes the column's sum by the difference.
pub proof fn lemma_column_total_update(column: Seq<nat>, j: int, v: nat)
    requires
        0 <= j < column.len(),
    ensures
        column_total(column.update(j, v)) + column[j] == column_total(column) + v,
    decreases column.len(),
{
    let after = column.update(j, v);
    if j == column.len() - 1 {
        assert(after.drop_last() =~= column.drop_last());
    } else {
        assert(after.drop_last() =~= column.drop_last().update(j, v));
        lemma_column_total_update(column.drop_last(), j, v);
    }
}

/// Replacing one column of a grid changes the grid's sum by the difference of
/// the column sums.
pub proof fn lemma_grid_total_update(cells: Seq<Seq<nat>>, i: int, column: Seq<nat>)
    requires
        0 <= i < cells.len(),
    ensures
        grid_total(cells.update(i, column)) + column_total(cells[i]) == grid_total(cells)
            + column_total(column),
    decreases cells.len(),
{
    let after = cells.update(i, column);
    if i == cells.len() - 1 {
        assert(after.drop_last() =~= cells.drop_last());
    } else {
        assert(after.drop_last() =~= cells.drop_last().update(i, column));
        lemma_grid_total_update(cells.drop_last(), i, column);
    }
}

/// A column of zeros sums to zero.
pub proof fn lemma_zero_column_total(column: Seq<nat>)
    requires
        forall|j: int| 0 <= j < column.len() ==> column[j] == 0,
    ensures
        column_total(column) == 0,
    decreases column.len(),
{
    if column.len() > 0 {
        lemma_zero_column_total(column.drop_last());
    }
}

/// A grid of zeros sums to zero.
pub proof fn lemma_zero_grid_total(cells: Seq<Seq<nat>>)
    requires
        forall|i: int, j: int| 0 <= i < cells.len() && 0 <= j < cells[i].len() ==> cells[i][j] == 0,
    ensures
        grid_total(cells) == 0,
    decreases cells.len(),
{
    if cells.len() > 0 {
        lemma_zero_grid_total(cells.drop_last());
        lemma_zero_column_total(cells.last());
    }
}

/// The counts of a grid add up to the number of points that lie on the
/// canvas: every such point is counted in exactly one cell, and points off
/// the canvas are counted nowhere.
pub proof fn lemma_total_counts_points_on_canvas(
    points: Seq<PixelPoint>,
    width: int,
    height: int,
    cell: int,
)
    requires
        width > 0,
        height > 0,
        cell > 0,
    ensures
        grid_total(heat_grid_of(points, width, height, cell)) == count_on_canvas(
            points,
            width,
            height,
        ),
    decreases points.len(),
{
    let cur = heat_grid_of(points, width, height, cell);
    if points.len() == 0 {
        lemma_zero_grid_total(cur);
    } else {
        let before = points.drop_last();
        let prev = heat_grid_of(before, width, height, cell);
        let p = points.last();
        lemma_total_counts_points_on_canvas(before, width, height, cell);
        if on_canvas(p, width, height) {
            let gx = (p.0 as int) / cell;
            let gy = (p.1 as int) / cell;
            lemma_cell_in_range(p.0 as int, width, cell);
            lemma_cell_in_range(p.1 as int, height, cell);
            let column = prev[gx].update(gy, prev[gx][gy] + 1);
            assert(cur =~~= prev.update(gx, column));
            lemma_column_total_update(prev[gx], gy, prev[gx][gy] + 1);
            lemma_grid_total_update(prev, gx, column);
        } else {
            assert(cur =~~= prev);
        }
    }
}

/// A cell that no point lies in has count zero.
pub proof fn lemma_empty_cell(
    points: Seq<PixelPoint>,
    width: int,
    height: int,
    cell: int,
    gx: int,
    gy: int,
)
    requires
        forall|i: int|
            0 <= i < points.len() ==> !in_cell(#[trigger] points[i], width, height, cell, gx, gy),
    ensures
        count_in_cell(points, width, height, cell, gx, gy) == 0,
    decreases points.len(),
{
    if points.len() > 0 {
        let before = points.drop_last();
        assert(forall|i: int| 0 <= i < before.len() ==> before[i] == points[i]);
        lemma_empty_cell(before, width, height, cell, gx, gy);
    }
}

/// A cell with a positive count has a point in it.
pub proof fn lemma_counted_point(
    points: Seq<PixelPoint>,
    width: int,
    height: int,
    cell: int,
    gx: int,
    gy: int,
) -> (i: int)
    requires
        count_in_cell(points, width, height, cell, gx, gy) > 0,
    ensures
        0 <= i < points.len(),
        in_cell(points[i], width, height, cell, gx, gy),
    decreases points.len(),
{
    if in_cell(points.last(), width, height, cell, gx, gy) {
        points.len() - 1
    } else {
        lemma_counted_point(points.drop_last(), width, height, cell, gx, gy)
    }
}

/// If every point on the canvas lies in one and the same cell, and at least
/// one point does, that cell holds the peak count and its intensity is 255.
pub proof fn lemma_single_cell_is_hottest(
    points: Seq<PixelPoint>,
    width: int,
    height: int,
    cell: int,
    gx: int,
    gy: int,
)
    requires
        width > 0,
        height > 0,
        cell > 0,
        forall|i: int|
            0 <= i < points.len() && on_canvas(#[trigger] points[i], width, height) ==> in_cell(
                points[i],
                width,
                height,
                cell,
                gx,
                gy,
            ),
        count_in_cell(points, width, height, cell, gx, gy) > 0,
    ensures
        peak_of(heat_grid_of(points, width, height, cell)) == count_in_cell(
            points,
            width,
            height,
            cell,
            gx,
            gy,
        ),
        intensity_of(
            count_in_cell(points, width, height, cell, gx, gy),
            peak_of(heat_grid_of(points, width, height, cell)),
        ) == 255,
{
    let cells = heat_grid_of(points, width, height, cell);
    let n = count_in_cell(points, width, height, cell, gx, gy);
    let k = lemma_counted_point(points, width, height, cell, gx, gy);
    lemma_cell_in_range(points[k].0 as int, width, cell);
    lemma_cell_in_range(points[k].1 as int, height, cell);
    assert forall|a: int, b: int|
        0 <= a < cells.len() && 0 <= b < cells[a].len() implies #[trigger] cells[a][b] <= n by {
        if a != gx || b != gy {
            lemma_empty_cell(points, width, height, cell, a, b);
        }
    }
    assert(cells[gx][gy] == n);
    assert(is_peak(cells, n));
    lemma_peak_is_peak_of(cells, n);
    lemma_peak_intensity(n);
}

/// Counts of points per grid cell for one canvas.
///
/// `counts[gx][gy]` is the count of the cell that covers the pixels
/// `gx * cell_size ..` along x and `gy * cell_size ..` along y.
#[derive(Debug)]
pub struct HeatGrid {
    /// Width of the canvas in pixels.
    pub width: u32,
    /// Height of the canvas in pixels.
    pub height: u32,
    /// Edge length of a cell in pixels.
    pub cell_size: u32,
    /// One column of counts per cell along x.
    pub counts: Vec<Vec<u64>>,
}

impl HeatGrid {
    /// Number of cells along x.
    pub open spec fn cols(self) -> int {
        cells_across(self.width as int, self.cell_size as int)
    }

    /// Number of cells along y.
    pub open spec fn rows(self) -> int {
        cells_across(self.height as int, self.cell_size as int)
    }

    /// The grid covers a non-empty canvas with cells of positive size, and
    /// holds one count per cell.
    pub open spec fn wf(self) -> bool {
        &&& self.width > 0
        &&& self.height > 0
        &&& self.cell_size > 0
        &&& self.counts@.len() == self.cols()
        &&& forall|i: int|
            0 <= i < self.counts@.len() ==> (#[trigger] self.counts@[i])@.len() == self.rows()
    }

    /// The counts as a mathematical grid.
    pub open spec fn cells(self) -> Seq<Seq<nat>> {
        Seq::new(
            self.counts@.len(),
            |i: int| Seq::new(self.counts@[i]@.len(), |j: int| self.counts@[i]@[j] as nat),
        )
    }

    /// The largest count of the grid, or 1 where no count exceeds 1.
    pub fn max_count(&self) -> (peak: u64)
        ensures
            is_peak(self.cells(), peak as nat),
            peak == peak_of(self.cells()),
    {
        let mut best: u64 = 1;
        let ghost mut at: (int, int) = (0, 0);
        let mut i: usize = 0;
        while i < self.counts.len()
            invariant
                i <= self.counts@.len(),
                best >= 1,
                forall|a: int, b: int|
                    0 <= a < i && 0 <= b < self.counts@[a]@.len() ==> #[trigger] self.counts@[a]@[b]
                        <= best,
                best == 1 || (0 <= at.0 < i && 0 <= at.1 < self.counts@[at.0]@.len()
                    && self.counts@[at.0]@[at.1] == best),
            decreases self.counts@.len() - i,
        {
            let mut j: usize = 0;
            while j < self.counts[i].len()
                invariant
                    i < self.counts@.len(),
                    j <= self.counts@[i as int]@.len(),
                    best >= 1,
                    forall|a: int, b: int|
                        0 <= a < i && 0 <= b < self.counts@[a]@.len()
                            ==> #[trigger] self.counts@[a]@[b] <= best,
                    forall|b: int| 0 <= b < j ==> #[trigger] self.counts@[i as int]@[b] <= best,
                    best == 1 || (0 <= at.0 <= i && 0 <= at.1 < self.counts@[at.0]@.len()
                        && self.counts@[at.0]@[at.1] == best),
                decreases self.counts@[i as int]@.len() - j,
            {
                if self.counts[i][j] > best {
                    best = self.counts[i][j];
                    proof {
                        at = (i as int, j as int);
                    }
                }
                j = j + 1;
            }
            i = i + 1;
        }
        proof {
            let cells = self.cells();
            assert forall|a: int, b: int|
                0 <= a < cells.len() && 0 <= b < cells[a].len() implies #[trigger] cells[a][b]
                <= best as nat by {
                assert(self.counts@[a]@[b] <= best);
            }
            if best != 1 {
                assert(cells[at.0][at.1] == best as nat);
            }
            assert(is_peak(cells, best as nat));
            lemma_peak_is_peak_of(cells, best as nat);
        }
        best
    }
}

/// Heat intensity of a cell with `count` points in a grid whose peak is
/// `peak`: 255 for the peak itself, proportionally less below it.
pub fn intensity(count: u64, peak: u64) -> (level: u8)
    requires
        0 < peak,
        count <= peak,
    ensures
        level == intensity_of(count as nat, peak as nat),
{
    proof {
        lemma_intensity_range(count as nat, peak as nat);
    }
    let scaled: u128 = 510 * (count as u128) + (peak as u128);
    let level: u128 = scaled / (2 * (peak as u128));
    level as u8
}

/// A column of `rows` zero counts.
fn zero_column(rows: u32) -> (column: Vec<u64>)
    ensures
        column@.len() == rows,
        forall|j: int| 0 <= j < rows ==> column@[j] == 0,
{
    let mut column: Vec<u64> = Vec::new();
    let mut j: u32 = 0;
    while j < rows
        invariant
            j <= rows,
            column@.len() == j,
            forall|b: int| 0 <= b < j ==> column@[b] == 0,
        decreases rows - j,
    {
        column.push(0);
        j = j + 1;
    }
    column
}

/// Adds one to the count of cell `(gx, gy)`.
fn bump(counts: &mut Vec<Vec<u64>>, gx: usize, gy: usize)
    requires
        gx < old(counts)@.len(),
        gy < old(counts)@[gx as int]@.len(),
        old(counts)@[gx as int]@[gy as int] < u64::MAX,
    ensures
        final(counts)@.len() == old(counts)@.len(),
        final(counts)@[gx as int]@ == old(counts)@[gx as int]@.update(
            gy as int,
            (old(counts)@[gx as int]@[gy as int] + 1) as u64,
        ),
        forall|i: int|
            0 <= i < old(counts)@.len() && i != gx ==> final(counts)@[i] == old(counts)@[i],
{
    let c: u64 = counts[gx][gy];
    counts[gx][gy] = c + 1;
}

/// Buckets `points` into cells of `cell_size` pixels over a `width` x
/// `height` canvas. Points off the canvas are left out. A zero-sized canvas or
/// a zero cell size is a configuration error.
pub fn build_heatmap(points: &Vec<PixelPoint>, width: u32, height: u32, cell_size: u32) -> (res:
    Result<HeatGrid, Error>)
    ensures
        res.is_err() <==> (width == 0 || height == 0 || cell_size == 0),
        res.is_err() ==> res.unwrap_err() is ConfigurationError,
        res.is_ok() ==> {
            let grid = res.unwrap();
            &&& grid.wf()
            &&& grid.width == width
            &&& grid.height == height
            &&& grid.cell_size == cell_size
            &&& grid.cells() == heat_grid_of(
                points@,
                width as int,
                height as int,
                cell_size as int,
            )
            &&& grid_total(grid.cells()) == count_on_canvas(points@, width as int, height as int)
        },
{
    if width == 0 || height == 0 || cell_size == 0 {
        return Err(Error::ConfigurationError);
    }
    let cols: u32 = (width - 1) / cell_size + 1;
    let rows: u32 = (height - 1) / cell_size + 1;
    proof {
        assert((width - 1 + cell_size) / (cell_size as int) == (width - 1) / (cell_size as int) + 1)
            by (nonlinear_arith)
            requires
                cell_size > 0,
        ;
        assert((height - 1 + cell_size) / (cell_size as int) == (height - 1) / (cell_size as int)
            + 1) by (nonlinear_arith)
            requires
                cell_size > 0,
        ;
    }
    let mut counts: Vec<Vec<u64>> = Vec::new();
    let mut i: u32 = 0;
    while i < cols
        invariant
            i <= cols,
            counts@.len() == i,
            forall|a: int| 0 <= a < i ==> (#[trigger] counts@[a])@.len() == rows,
            forall|a: int, b: int| 0 <= a < i && 0 <= b < rows ==> #[trigger] counts@[a]@[b] == 0,
        decreases cols - i,
    {
        counts.push(zero_column(rows));
        i = i + 1;
    }
    let ghost w = width as int;
    let ghost h = height as int;
    let ghost c = cell_size as int;
    let mut k: usize = 0;
    while k < points.len()
        invariant
            k <= points@.len(),
            w == width,
            h == height,
            c == cell_size,
            width > 0,
            height > 0,
            cell_size > 0,
            cols == cells_across(w, c),
            rows == cells_across(h, c),
            counts@.len() == cols,
            forall|a: int| 0 <= a < cols ==> (#[trigger] counts@[a])@.len() == rows,
            forall|a: int, b: int|
                0 <= a < cols && 0 <= b < rows ==> #[trigger] counts@[a]@[b] <= k,
            forall|a: int, b: int|
                0 <= a < cols && 0 <= b < rows ==> #[trigger] counts@[a]@[b] as nat
                    == count_in_cell(points@.take(k as int), w, h, c, a, b),
        decreases points@.len() - k,
    {
        let p: PixelPoint = points[k];
        proof {
            assert(points@.take(k + 1).drop_last() =~= points@.take(k as int));
            assert(points@.take(k + 1).last() == p);
        }
        if 0 <= p.0 && p.0 < width as i64 && 0 <= p.1 && p.1 < height as i64 {
            let gx: u32 = (p.0 as u32) / cell_size;
            let gy: u32 = (p.1 as u32) / cell_size;
            proof {
                lemma_cell_in_range(p.0 as int, w, c);
                lemma_cell_in_range(p.1 as int, h, c);
            }
            let ghost before = counts@;
            bump(&mut counts, gx as usize, gy as usize);
            assert forall|a: int, b: int| 0 <= a < cols && 0 <= b < rows implies {
                &&& #[trigger] counts@[a]@[b] as nat == count_in_cell(
                    points@.take(k + 1),
                    w,
                    h,
                    c,
                    a,
                    b,
                )
                &&& counts@[a]@[b] <= k + 1
            } by {
                assert(before[a]@[b] <= k);
            }
        }
        k = k + 1;
    }
    let grid = HeatGrid { width, height, cell_size, counts };
    proof {
        assert(points@.take(points@.len() as int) =~= points@);
        assert(grid.cells() =~~= heat_grid_of(points@, w, h, c));
        lemma_total_counts_points_on_canvas(points@, w, h, c);
    }
    Ok(grid)
}

} // verus!

use vstd::prelude::*;
use crate::density::{accepted, apply_smoothing, is_smoothed};
use crate::grid::Grid;
use crate::kernel::{
    Bounds, Pt, MAX_POINTS, base_cell, cell_len, contribution, dims_valid, grid_dims,
    splat_point, weights_ok, ceil_div,
};
use crate::legend::{
    DENSITY_ONE, Legend, legend_colors_ok, legend_labels_ok, make_legend, max_truncated,
    histogram_max, NUM_COLORS, decimal,
};
use crate::options::{HeatmapError, HeatmapOptions};

verus! {

/// The result of a heatmap computation.
pub struct Heatmap {
    /// Densities straight from the kernel.
    pub raw: Grid<u64>,
    /// The grid that is drawn: `raw`, smoothed when the options ask for it.
    pub grid: Grid<u64>,
    /// Largest truncated density of `grid`, the normalisation denominator.
    pub max: u64,
    pub legend: Legend,
}

/// The sum of the contributions of the first `k` points to cell `(x, y)`.
pub open spec fn density(
    pts: Seq<Pt>,
    k: int,
    bounds: Bounds,
    opts: HeatmapOptions,
    weights: Seq<u64>,
    width: int,
    height: int,
    x: int,
    y: int,
) -> int
    decreases k,
{
    if k <= 0 {
        0
    } else {
        let p = pts[k - 1];
        let c = cell_len(opts.resolution as int);
        density(pts, k - 1, bounds, opts, weights, width, height, x, y) + contribution(
            weights,
            width,
            height,
            opts.radius as int,
            base_cell(p.x as int, bounds.min_x as int, c),
            base_cell(p.y as int, bounds.min_y as int, c),
            x,
            y,
        )
    }
}

/// `raw` holds the summed kernels of all points.
pub open spec fn is_raw_density(
    raw: Grid<u64>,
    pts: Seq<Pt>,
    bounds: Bounds,
    opts: HeatmapOptions,
    weights: Seq<u64>,
) -> bool {
    &&& raw.wf()
    &&& raw.width == ceil_div(bounds.width as int, cell_len(opts.resolution as int))
    &&& raw.height == ceil_div(bounds.height as int, cell_len(opts.resolution as int))
    &&& forall|x: int, y: int|
        0 <= x < raw.width && 0 <= y < raw.height ==> #[trigger] raw.cell(x, y) as int == density(
            pts,
            pts.len() as int,
            bounds,
            opts,
            weights,
            raw.width as int,
            raw.height as int,
            x,
            y,
        )
}

fn raw_density(bounds: &Bounds, pts: &Vec<Pt>, opts: &HeatmapOptions, weights: &Vec<u64>, width: usize, height: usize) -> (r: Grid<u64>)
    requires
        opts.resolution > 0,
        width * height <= usize::MAX,
        width == ceil_div(bounds.width as int, cell_len(opts.resolution as int)),
        height == ceil_div(bounds.height as int, cell_len(opts.resolution as int)),
        pts@.len() <= MAX_POINTS,
        weights_ok(weights@, opts.radius as int),
    ensures
        is_raw_density(r, pts@, *bounds, *opts, weights@),
{
    let mut grid: Grid<u64> = Grid::new(width, height, 0);
    let cell: u128 = opts.resolution as u128 * 1000;
    proof {
        assert forall|x: int, y: int| 0 <= x < width && 0 <= y < height implies #[trigger] grid.cell(x, y) as int
            == density(pts@, 0, *bounds, *opts, weights@, width as int, height as int, x, y) by {
            crate::grid::lemma_index_in_range(width as int, height as int, x, y);
        }
    }
    let mut k: usize = 0;
    while k < pts.len()
        invariant
            grid.wf(),
            grid.width == width,
            grid.height == height,
            cell as int == cell_len(opts.resolution as int),
            opts.resolution > 0,
            k <= pts@.len(),
            pts@.len() <= MAX_POINTS,
            weights_ok(weights@, opts.radius as int),
            forall|i: int| 0 <= i < grid.data@.len() ==> #[trigger] grid.data@[i] <= k * DENSITY_ONE,
            forall|x: int, y: int|
                0 <= x < width && 0 <= y < height ==> #[trigger] grid.cell(x, y) as int == density(
                    pts@,
                    k as int,
                    *bounds,
                    *opts,
                    weights@,
                    width as int,
                    height as int,
                    x,
                    y,
                ),
        decreases pts@.len() - k,
    {
        let p = pts[k];
        let bx = crate::kernel::floor_cell(p.x, bounds.min_x, cell);
        let by = crate::kernel::floor_cell(p.y, bounds.min_y, cell);
        proof {
            let dx = p.x - bounds.min_x;
            let dy = p.y - bounds.min_y;
            assert(-0x1_0000_0000_0000_0000int <= bx <= 0x1_0000_0000_0000_0000int) by (nonlinear_arith)
                requires
                    bx == dx / (cell as int),
                    cell >= 1,
                    -0x1_0000_0000_0000_0000int <= dx <= 0x1_0000_0000_0000_0000int,
            ;
            assert(-0x1_0000_0000_0000_0000int <= by <= 0x1_0000_0000_0000_0000int) by (nonlinear_arith)
                requires
                    by == dy / (cell as int),
                    cell >= 1,
                    -0x1_0000_0000_0000_0000int <= dy <= 0x1_0000_0000_0000_0000int,
            ;
            assert(k * DENSITY_ONE <= u64::MAX - DENSITY_ONE) by (nonlinear_arith)
                requires k < MAX_POINTS;
        }
        let ghost before = grid;
        splat_point(&mut grid, bx, by, opts.radius, weights);
        proof {
            assert forall|i: int| 0 <= i < grid.data@.len() implies #[trigger] grid.data@[i] <= (k + 1) * DENSITY_ONE by {
                crate::grid::lemma_cell_of_offset(width as int, height as int, i);
                let x = i % (width as int);
                let y = i / (width as int);
                assert(grid.cell(x, y) == grid.data@[i]);
                let d2 = (x - bx) * (x - bx) + (y - by) * (y - by);
                if crate::density::accepted(width as int, height as int, x, y) && d2 <= opts.radius * opts.radius {
                    assert(0 <= d2) by (nonlinear_arith)
                        requires d2 == (x - bx) * (x - bx) + (y - by) * (y - by);
                    assert(weights@.len() == (opts.radius as int) * (opts.radius as int) + 1);
                    assert(d2 < weights@.len());
                    assert(weights@[d2] <= DENSITY_ONE);
                }
                assert((k + 1) * DENSITY_ONE == k * DENSITY_ONE + DENSITY_ONE) by (nonlinear_arith);
            }
        }
        k = k + 1;
    }
    grid
}

/// The drawn cells among the first `k` offsets of `data`: each positive cell
/// as `(x, y, value)`, in row-major order.
pub open spec fn drawn_prefix(data: Seq<u64>, width: int, k: int) -> Seq<(usize, usize, u64)>
    decreases k,
{
    if k <= 0 {
        seq![]
    } else {
        let rest = drawn_prefix(data, width, k - 1);
        let i = k - 1;
        if data[i] > 0 {
            rest.push(((i % width) as usize, (i / width) as usize, data[i]))
        } else {
            rest
        }
    }
}

/// Every cell of a grid whose value is positive, as `(x, y, value)`, in
/// row-major order; cells of value zero are not drawn.
pub fn drawn_cells(grid: &Grid<u64>) -> (r: Vec<(usize, usize, u64)>)
    requires
        grid.wf(),
    ensures
        r@ == drawn_prefix(grid.data@, grid.width as int, grid.data@.len() as int),
{
    let mut out: Vec<(usize, usize, u64)> = Vec::new();
    let n = grid.data.len();
    let w = grid.width;
    let mut k: usize = 0;
    while k < n
        invariant
            grid.wf(),
            n == grid.data@.len(),
            w == grid.width,
            k <= n,
            out@ == drawn_prefix(grid.data@, w as int, k as int),
        decreases n - k,
    {
        proof {
            crate::grid::lemma_cell_of_offset(w as int, grid.height as int, k as int);
        }
        let v = grid.data[k];
        if v > 0 {
            out.push((k % w, k / w, v));
        }
        k = k + 1;
    }
    out
}

/// Each drawn cell lies inside the grid, carries that cell's value, and the
/// value is positive.
pub proof fn lemma_drawn_cells_in_grid(grid: Grid<u64>, k: int, j: int)
    requires
        grid.wf(),
        0 <= k <= grid.data@.len(),
        0 <= j < drawn_prefix(grid.data@, grid.width as int, k).len(),
    ensures
        ({
            let (x, y, v) = drawn_prefix(grid.data@, grid.width as int, k)[j];
            &&& x < grid.width
            &&& y < grid.height
            &&& v == grid.cell(x as int, y as int)
            &&& v > 0
        }),
    decreases k,
{
    let rest = drawn_prefix(grid.data@, grid.width as int, k - 1);
    if j < rest.len() {
        lemma_drawn_cells_in_grid(grid, k - 1, j);
    } else {
        crate::grid::lemma_cell_of_offset(grid.width as int, grid.height as int, k - 1);
    }
}

/// What a computed heatmap holds, for points `pts` over `bounds`.
pub open spec fn heatmap_ok(
    h: Heatmap,
    pts: Seq<Pt>,
    bounds: Bounds,
    opts: HeatmapOptions,
    weights: Seq<u64>,
) -> bool {
    &&& legend_colors_ok(opts.color_scheme, h.legend.colors@)
    &&& h.raw.wf()
    &&& h.grid.wf()
    &&& pts.len() == 0 ==> {
        &&& h.raw.data@.len() == 0
        &&& h.grid.data@.len() == 0
        &&& h.max == 0
        &&& legend_labels_ok(0, h.legend.labels@)
    }
    &&& pts.len() > 0 ==> {
        &&& is_raw_density(h.raw, pts, bounds, opts, weights)
        &&& opts.smoothing ==> is_smoothed(h.raw, h.grid)
        &&& !opts.smoothing ==> h.grid.data@ == h.raw.data@ && h.grid.width == h.raw.width
            && h.grid.height == h.raw.height
        &&& h.max as nat == max_truncated(h.grid.data@)
        &&& legend_labels_ok(h.max as nat, h.legend.labels@)
    }
}

/// Computes a heatmap of `pts` over `bounds`. `weights[d]` is the kernel
/// weight, in units of `DENSITY_ONE`, of a cell whose squared offset from a
/// point's cell is `d`. With no points the legend is all zeros and no grid is
/// built.
pub fn make_heatmap(bounds: &Bounds, pts: &Vec<Pt>, opts: &HeatmapOptions, weights: &Vec<u64>) -> (r: Result<Heatmap, HeatmapError>)
    requires
        pts@.len() <= MAX_POINTS,
        weights_ok(weights@, opts.radius as int),
    ensures
        pts@.len() > 0 && !dims_valid(*bounds, opts.resolution as int) <==> r is Err,
        r is Err ==> r == Err::<Heatmap, HeatmapError>(HeatmapError::InvalidDimensions),
        r matches Ok(h) ==> heatmap_ok(h, pts@, *bounds, *opts, weights@),
{
    if pts.len() == 0 {
        let legend = make_legend(opts.color_scheme, 0);
        let empty: Grid<u64> = Grid::new(0, 0, 0);
        let empty2: Grid<u64> = Grid::new(0, 0, 0);
        return Ok(Heatmap { raw: empty, grid: empty2, max: 0, legend });
    }
    let (width, height) = match grid_dims(bounds, opts.resolution) {
        Ok(d) => d,
        Err(e) => return Err(e),
    };
    let raw = raw_density(bounds, pts, opts, weights, width, height);
    let grid = apply_smoothing(raw.clone_grid(), opts.smoothing);
    let max = histogram_max(&grid);
    let legend = make_legend(opts.color_scheme, max);
    Ok(Heatmap { raw, grid, max, legend })
}

/// With no points nothing is drawn, and the legend has seven colours and
/// eight labels, each reading "0".
pub proof fn lemma_heatmap_empty(h: Heatmap, pts: Seq<Pt>, bounds: Bounds, opts: HeatmapOptions, weights: Seq<u64>)
    requires
        heatmap_ok(h, pts, bounds, opts, weights),
        pts.len() == 0,
    ensures
        drawn_prefix(h.grid.data@, h.grid.width as int, h.grid.data@.len() as int).len() == 0,
        h.legend.colors@.len() == 7,
        h.legend.labels@.len() == 8,
        forall|i: int| 0 <= i < 8 ==> h.legend.labels@[i] == 0 && decimal(h.legend.labels@[i] as nat) == seq!['0'],
{
    crate::legend::lemma_empty_legend(h.legend.colors@, h.legend.labels@, opts.color_scheme);
}

/// The grid has `ceil(width / cell)` columns and `ceil(height / cell)` rows,
/// whatever the points.
pub proof fn lemma_heatmap_grid_size(h: Heatmap, pts: Seq<Pt>, bounds: Bounds, opts: HeatmapOptions, weights: Seq<u64>)
    requires
        heatmap_ok(h, pts, bounds, opts, weights),
        pts.len() > 0,
    ensures
        h.grid.width == ceil_div(bounds.width as int, cell_len(opts.resolution as int)),
        h.grid.height == ceil_div(bounds.height as int, cell_len(opts.resolution as int)),
        h.grid.data@.len() == h.grid.width * h.grid.height,
{
}

/// With smoothing on, a cell whose eight neighbours all pass the boundary
/// rule holds the plain mean of the nine raw values.
pub proof fn lemma_heatmap_interior_mean(
    h: Heatmap,
    pts: Seq<Pt>,
    bounds: Bounds,
    opts: HeatmapOptions,
    weights: Seq<u64>,
    x: int,
    y: int,
)
    requires
        heatmap_ok(h, pts, bounds, opts, weights),
        pts.len() > 0,
        opts.smoothing,
        accepted(h.raw.width as int, h.raw.height as int, x - 1, y - 1),
        accepted(h.raw.width as int, h.raw.height as int, x + 1, y + 1),
    ensures
        h.grid.cell(x, y) as int == (h.raw.cell(x, y) + h.raw.cell(x - 1, y + 1) + h.raw.cell(x - 1, y)
            + h.raw.cell(x - 1, y - 1) + h.raw.cell(x, y - 1) + h.raw.cell(x + 1, y - 1) + h.raw.cell(x + 1, y)
            + h.raw.cell(x + 1, y + 1) + h.raw.cell(x, y + 1)) / 9,
{
    crate::density::lemma_interior_mean(h.raw, h.grid, x, y);
}

/// With smoothing off, the drawn grid is the raw grid, cell for cell.
pub proof fn lemma_heatmap_unsmoothed(h: Heatmap, pts: Seq<Pt>, bounds: Bounds, opts: HeatmapOptions, weights: Seq<u64>)
    requires
        heatmap_ok(h, pts, bounds, opts, weights),
        pts.len() > 0,
        !opts.smoothing,
    ensures
        h.grid.width == h.raw.width,
        h.grid.height == h.raw.height,
        forall|x: int, y: int| 0 <= x < h.raw.width && 0 <= y < h.raw.height ==> #[trigger] h.grid.cell(x, y)
            == h.raw.cell(x, y),
{
}

/// The legend's labels never decrease, start at zero, and end at the
/// largest truncated density of the drawn grid.
pub proof fn lemma_heatmap_labels(
    h: Heatmap,
    pts: Seq<Pt>,
    bounds: Bounds,
    opts: HeatmapOptions,
    weights: Seq<u64>,
    i: int,
    j: int,
)
    requires
        heatmap_ok(h, pts, bounds, opts, weights),
        pts.len() > 0,
        0 <= i <= j <= NUM_COLORS,
    ensures
        h.legend.labels@[i] <= h.legend.labels@[j],
        h.legend.labels@[0] == 0,
        h.legend.labels@[NUM_COLORS as int] == max_truncated(h.grid.data@),
{
    crate::legend::lemma_labels_monotone(h.max as nat, h.legend.labels@, i, j);
    crate::legend::lemma_labels_monotone(h.max as nat, h.legend.labels@, 0, 0);
    assert(h.legend.labels@[0] as int == crate::legend::label_value(0, h.max as nat));
    assert(2 * 0 * (h.max as nat) == 0) by (nonlinear_arith);
}

} // verus!

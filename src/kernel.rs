use vstd::prelude::*;
use crate::density::accepted;
use crate::grid::{Grid, cell_index};
use crate::legend::DENSITY_ONE;
use crate::options::HeatmapError;

verus! {

/// Coordinates are held in millimetres; resolution is given in meters.
pub const UNITS_PER_METER: u64 = 1000;

/// The most points one heatmap accumulates, so that every density fits.
pub const MAX_POINTS: u64 = 1_000_000_000_000;

/// An axis-aligned region: its lower corner and its extents, in millimetres.
#[derive(Clone, Copy, Debug, PartialEq, Eq, Structural)]
pub struct Bounds {
    pub min_x: i64,
    pub min_y: i64,
    pub width: u64,
    pub height: u64,
}

/// A sample point, in millimetres, in the same space as `Bounds`.
#[derive(Clone, Copy, Debug, PartialEq, Eq, Structural)]
pub struct Pt {
    pub x: i64,
    pub y: i64,
}

/// `ceil(a / b)`.
pub open spec fn ceil_div(a: int, b: int) -> int {
    (a + b - 1) / b
}

/// Edge length of a cell in millimetres.
pub open spec fn cell_len(resolution: int) -> int {
    resolution * UNITS_PER_METER
}

/// Whether a grid over `bounds` at `resolution` has cells and fits in memory.
pub open spec fn dims_valid(bounds: Bounds, resolution: int) -> bool {
    &&& resolution > 0
    &&& bounds.width > 0
    &&& bounds.height > 0
    &&& ceil_div(bounds.width as int, cell_len(resolution)) * ceil_div(bounds.height as int, cell_len(resolution)) <= usize::MAX
}

/// Grid dimensions for `bounds` at `resolution`: the extents divided by the
/// cell size, rounded up.
pub fn grid_dims(bounds: &Bounds, resolution: usize) -> (r: Result<(usize, usize), HeatmapError>)
    ensures
        dims_valid(*bounds, resolution as int) <==> r is Ok,
        r matches Ok((w, h)) ==> w == ceil_div(bounds.width as int, cell_len(resolution as int))
            && h == ceil_div(bounds.height as int, cell_len(resolution as int)),
        !dims_valid(*bounds, resolution as int) ==> r == Err::<(usize, usize), HeatmapError>(HeatmapError::InvalidDimensions),
{
    if resolution == 0 || bounds.width == 0 || bounds.height == 0 {
        return Err(HeatmapError::InvalidDimensions);
    }
    let res: u128 = resolution as u128;
    proof {
        assert(res * 1000 <= 0xffff_ffff_ffff_ffffint * 1000) by (nonlinear_arith)
            requires res <= 0xffff_ffff_ffff_ffffint;
    }
    let cell: u128 = res * 1000;
    assert(cell as int == cell_len(resolution as int));
    let w: u128 = (bounds.width as u128 + cell - 1) / cell;
    let h: u128 = (bounds.height as u128 + cell - 1) / cell;
    proof {
        assert(w <= bounds.width) by (nonlinear_arith)
            requires cell >= 1000, w == (bounds.width + cell - 1) as int / (cell as int);
        assert(h <= bounds.height) by (nonlinear_arith)
            requires cell >= 1000, h == (bounds.height + cell - 1) as int / (cell as int);
        assert(w * h <= 0xffff_ffff_ffff_ffffint * 0xffff_ffff_ffff_ffffint) by (nonlinear_arith)
            requires w <= 0xffff_ffff_ffff_ffffint, h <= 0xffff_ffff_ffff_ffffint;
    }
    assert(w * h <= u128::MAX) by (nonlinear_arith)
        requires w <= 0xffff_ffff_ffff_ffffint, h <= 0xffff_ffff_ffff_ffffint;
    assert(w == ceil_div(bounds.width as int, cell_len(resolution as int)));
    assert(h == ceil_div(bounds.height as int, cell_len(resolution as int)));
    if w * h > usize::MAX as u128 {
        return Err(HeatmapError::InvalidDimensions);
    }
    proof {
        assert(w >= 1) by (nonlinear_arith)
            requires cell >= 1, bounds.width >= 1, w == (bounds.width + cell - 1) as int / (cell as int);
        assert(h >= 1) by (nonlinear_arith)
            requires cell >= 1, bounds.height >= 1, h == (bounds.height + cell - 1) as int / (cell as int);
        assert(w <= w * h && h <= w * h) by (nonlinear_arith)
            requires w >= 1, h >= 1;
    }
    Ok((w as usize, h as usize))
}

/// The cell coordinate of `p` along one axis: `floor((p - min) / cell)`,
/// negative below the region.
pub open spec fn base_cell(p: int, min: int, cell: int) -> int {
    (p - min) / cell
}

pub(crate) fn floor_cell(p: i64, min: i64, cell: u128) -> (r: i128)
    requires
        0 < cell <= 0x1_0000_0000_0000_0000_0000int,
    ensures
        r == base_cell(p as int, min as int, cell as int),
{
    let d: i128 = p as i128 - min as i128;
    if d >= 0 {
        (d as u128 / cell) as i128
    } else {
        let m: u128 = (-d) as u128;
        proof {
            assert(m <= 0x1_0000_0000_0000_0000int);
        }
        let q: u128 = (m + cell - 1) / cell;
        proof {
            let c = cell as int;
            vstd::arithmetic::div_mod::lemma_fundamental_div_mod(m + c - 1, c);
            vstd::arithmetic::div_mod::lemma_mod_bound(m + c - 1, c);
            let rem = (m + c - 1) % c;
            assert(0 <= d + q * c < c) by (nonlinear_arith)
                requires
                    m + c - 1 == c * q + rem,
                    0 <= rem < c,
                    d == -m,
            ;
            assert(q <= m) by (nonlinear_arith)
                requires m + c - 1 == c * q + rem, 0 <= rem, c >= 1, m >= 1;
            assert(d == (-q) * c + (d + q * c)) by (nonlinear_arith);
            vstd::arithmetic::div_mod::lemma_fundamental_div_mod_converse(d as int, c, -q, d + q * c);
        }
        -(q as i128)
    }
}

/// The weight that a point with base cell `(bx, by)` adds to cell `(x, y)`:
/// the kernel weight of its squared offset, inside the circle of radius `r`
/// and where the boundary rule accepts the cell.
pub open spec fn contribution(
    weights: Seq<u64>,
    width: int,
    height: int,
    r: int,
    bx: int,
    by: int,
    x: int,
    y: int,
) -> int {
    let d2 = (x - bx) * (x - bx) + (y - by) * (y - by);
    if accepted(width, height, x, y) && d2 <= r * r {
        weights[d2] as int
    } else {
        0
    }
}

proof fn lemma_far_is_zero(weights: Seq<u64>, width: int, height: int, r: int, bx: int, by: int, x: int, y: int)
    requires
        r >= 0,
        x - bx > r || bx - x > r || y - by > r || by - y > r,
    ensures
        contribution(weights, width, height, r, bx, by, x, y) == 0,
{
    assert((x - bx) * (x - bx) > r * r || (y - by) * (y - by) > r * r) by (nonlinear_arith)
        requires r >= 0, x - bx > r || bx - x > r || y - by > r || by - y > r;
    assert((x - bx) * (x - bx) >= 0 && (y - by) * (y - by) >= 0) by (nonlinear_arith);
}

/// The weight table is indexed by squared offsets up to `r * r`, each weight
/// at most one whole unit.
pub open spec fn weights_ok(weights: Seq<u64>, r: int) -> bool {
    &&& weights.len() == r * r + 1
    &&& forall|i: int| 0 <= i < weights.len() ==> #[trigger] weights[i] <= DENSITY_ONE
}

/// Adds one point's kernel to the grid.
pub fn splat_point(grid: &mut Grid<u64>, bx: i128, by: i128, r: usize, weights: &Vec<u64>)
    requires
        old(grid).wf(),
        weights_ok(weights@, r as int),
        forall|i: int| 0 <= i < old(grid).data@.len() ==> #[trigger] old(grid).data@[i] <= u64::MAX - DENSITY_ONE,
        -0x1_0000_0000_0000_0000int <= bx <= 0x1_0000_0000_0000_0000int,
        -0x1_0000_0000_0000_0000int <= by <= 0x1_0000_0000_0000_0000int,
    ensures
        final(grid).wf(),
        final(grid).width == old(grid).width,
        final(grid).height == old(grid).height,
        forall|x: int, y: int|
            0 <= x < old(grid).width && 0 <= y < old(grid).height ==> #[trigger] final(grid).cell(x, y) as int
                == old(grid).cell(x, y) + contribution(
                weights@,
                old(grid).width as int,
                old(grid).height as int,
                r as int,
                bx as int,
                by as int,
                x,
                y,
            ),
{
    let ghost g0 = *grid;
    let w: i128 = grid.width as i128;
    let h: i128 = grid.height as i128;
    let n_weights = weights.len();
    let ri: i128 = r as i128;
    let rr: i128 = ri * ri;
    let mut x: i128 = bx - ri;
    proof {
        assert(rr < 0x1_0000_0000_0000_0000int);
        assert forall|cx: int, cy: int| cx < x implies #[trigger] contribution(
            weights@, w as int, h as int, r as int, bx as int, by as int, cx, cy) == 0 by {
            lemma_far_is_zero(weights@, w as int, h as int, r as int, bx as int, by as int, cx, cy);
        }
    }
    while x <= bx + ri
        invariant
            grid.wf(),
            grid.width == g0.width,
            grid.height == g0.height,
            w == g0.width,
            h == g0.height,
            ri == r,
            rr == r * r,
            rr < 0x1_0000_0000_0000_0000int,
            g0.wf(),
            weights@.len() == n_weights,
            weights_ok(weights@, r as int),
            bx - ri <= x <= bx + ri + 1,
            -0x1_0000_0000_0000_0000int <= bx <= 0x1_0000_0000_0000_0000int,
            -0x1_0000_0000_0000_0000int <= by <= 0x1_0000_0000_0000_0000int,
            forall|cx: int, cy: int|
                0 <= cx < w && 0 <= cy < h ==> #[trigger] grid.cell(cx, cy) as int == g0.cell(cx, cy) + if cx
                    < x {
                    contribution(weights@, w as int, h as int, r as int, bx as int, by as int, cx, cy)
                } else {
                    0
                },
            forall|i: int| 0 <= i < g0.data@.len() ==> #[trigger] g0.data@[i] <= u64::MAX - DENSITY_ONE,
        decreases bx + ri + 1 - x,
    {
        let mut y: i128 = by - ri;
        proof {
            assert forall|cx: int, cy: int| cx == x && cy < y implies #[trigger] contribution(
                weights@, w as int, h as int, r as int, bx as int, by as int, cx, cy) == 0 by {
                lemma_far_is_zero(weights@, w as int, h as int, r as int, bx as int, by as int, cx, cy);
            }
        }
        while y <= by + ri
            invariant
                grid.wf(),
                grid.width == g0.width,
                grid.height == g0.height,
                w == g0.width,
                h == g0.height,
                ri == r,
                rr == r * r,
                rr < 0x1_0000_0000_0000_0000int,
                g0.wf(),
                weights@.len() == n_weights,
                weights_ok(weights@, r as int),
                bx - ri <= x <= bx + ri,
                by - ri <= y <= by + ri + 1,
                -0x1_0000_0000_0000_0000int <= bx <= 0x1_0000_0000_0000_0000int,
                -0x1_0000_0000_0000_0000int <= by <= 0x1_0000_0000_0000_0000int,
                forall|cx: int, cy: int|
                    0 <= cx < w && 0 <= cy < h ==> #[trigger] grid.cell(cx, cy) as int == g0.cell(cx, cy) + if cx
                        < x || (cx == x && cy < y) {
                        contribution(weights@, w as int, h as int, r as int, bx as int, by as int, cx, cy)
                    } else {
                        0
                    },
                forall|i: int| 0 <= i < g0.data@.len() ==> #[trigger] g0.data@[i] <= u64::MAX - DENSITY_ONE,
            decreases by + ri + 1 - y,
        {
            let dx: i128 = x - bx;
            let dy: i128 = y - by;
            proof {
                assert(dx * dx <= rr) by (nonlinear_arith)
                    requires -ri <= dx <= ri, rr == ri * ri;
                assert(dy * dy <= rr) by (nonlinear_arith)
                    requires -ri <= dy <= ri, rr == ri * ri;
                assert(0 <= dx * dx) by (nonlinear_arith);
                assert(0 <= dy * dy) by (nonlinear_arith);
            }
            let d2: i128 = dx * dx + dy * dy;
            if 0 < x && x < w && 0 < y && y < h && d2 <= rr {
                let j = grid.idx(x as usize, y as usize);
                let ghost before = *grid;
                let wt = weights[d2 as usize];
                proof {
                    assert(before.cell(x as int, y as int) == g0.cell(x as int, y as int));
                    crate::grid::lemma_index_in_range(w as int, h as int, x as int, y as int);
                    assert(grid.data@.len() == g0.data@.len());
                    assert(g0.data@[j as int] <= u64::MAX - DENSITY_ONE);
                    assert(wt <= DENSITY_ONE);
                }
                let v = grid.data[j] + wt;
                grid.data.set(j, v);
                proof {
                    assert(grid.cell(x as int, y as int) == v);
                    assert(wt as int == contribution(weights@, w as int, h as int, r as int, bx as int, by as int, x as int, y as int));
                    assert forall|cx: int, cy: int|
                        0 <= cx < w && 0 <= cy < h && !(cx == x && cy == y) implies #[trigger] grid.cell(cx, cy)
                            == before.cell(cx, cy) by {
                        crate::grid::lemma_index_in_range(w as int, h as int, cx, cy);
                        if cell_index(w as int, cx, cy) == j as int {
                            crate::grid::lemma_index_injective(w as int, h as int, cx, cy, x as int, y as int);
                        }
                    }
                }
            }
            y = y + 1;
        }
        proof {
            assert forall|cx: int, cy: int| cx == x && cy >= y implies #[trigger] contribution(
                weights@, w as int, h as int, r as int, bx as int, by as int, cx, cy) == 0 by {
                lemma_far_is_zero(weights@, w as int, h as int, r as int, bx as int, by as int, cx, cy);
            }
        }
        x = x + 1;
    }
    proof {
        assert forall|cx: int, cy: int| cx >= x implies #[trigger] contribution(
            weights@, w as int, h as int, r as int, bx as int, by as int, cx, cy) == 0 by {
            lemma_far_is_zero(weights@, w as int, h as int, r as int, bx as int, by as int, cx, cy);
        }
    }
}

} // verus!

use vstd::prelude::*;
use crate::grid::{Grid, cell_index};

verus! {

/// The fixed offsets of a cell's eight neighbours, as `(dx, dy)` for `k` in `0..8`.
pub open spec fn offset_x(k: int) -> int {
    if k <= 2 { -1 } else if k == 3 || k == 7 { 0 } else { 1 }
}

pub open spec fn offset_y(k: int) -> int {
    if k == 0 || k == 6 || k == 7 { 1 } else if k == 1 || k == 5 { 0 } else { -1 }
}

/// The boundary rule shared by splatting and smoothing: row and column zero
/// are excluded, as is everything past the far edges.
pub open spec fn accepted(width: int, height: int, x: int, y: int) -> bool {
    0 < x < width && 0 < y < height
}

/// Sum of the raw values of the first `k` neighbours of `(x, y)` that the
/// boundary rule accepts.
pub open spec fn neighbor_sum(raw: Seq<u64>, width: int, height: int, x: int, y: int, k: int) -> int
    decreases k,
{
    if k <= 0 {
        0
    } else {
        let nx = x + offset_x(k - 1);
        let ny = y + offset_y(k - 1);
        neighbor_sum(raw, width, height, x, y, k - 1) + if accepted(width, height, nx, ny) {
            raw[cell_index(width, nx, ny)] as int
        } else {
            0
        }
    }
}

/// How many of the first `k` neighbours of `(x, y)` the boundary rule accepts.
pub open spec fn neighbor_count(width: int, height: int, x: int, y: int, k: int) -> int
    decreases k,
{
    if k <= 0 {
        0
    } else {
        neighbor_count(width, height, x, y, k - 1) + if accepted(
            width,
            height,
            x + offset_x(k - 1),
            y + offset_y(k - 1),
        ) {
            1int
        } else {
            0
        }
    }
}

/// The smoothed value of `(x, y)`: the cell and its accepted neighbours,
/// averaged (rounded down).
pub open spec fn smoothed_value(raw: Seq<u64>, width: int, height: int, x: int, y: int) -> int {
    (raw[cell_index(width, x, y)] + neighbor_sum(raw, width, height, x, y, 8)) / (1
        + neighbor_count(width, height, x, y, 8))
}

/// `out` is `raw` smoothed cell by cell.
pub open spec fn is_smoothed(raw: Grid<u64>, out: Grid<u64>) -> bool {
    &&& out.wf()
    &&& out.width == raw.width
    &&& out.height == raw.height
    &&& forall|x: int, y: int|
        0 <= x < raw.width && 0 <= y < raw.height ==> #[trigger] out.cell(x, y) as int
            == smoothed_value(raw.data@, raw.width as int, raw.height as int, x, y)
}

fn neighbor_offset(k: usize) -> (r: (i128, i128))
    requires
        k < 8,
    ensures
        r.0 == offset_x(k as int),
        r.1 == offset_y(k as int),
{
    if k <= 2 {
        (-1, if k == 0 { 1 } else if k == 1 { 0 } else { -1 })
    } else if k == 3 {
        (0, -1)
    } else if k == 7 {
        (0, 1)
    } else {
        (1, if k == 6 { 1 } else if k == 5 { 0 } else { -1 })
    }
}

proof fn lemma_neighbor_bounds(raw: Seq<u64>, width: int, height: int, x: int, y: int, k: int)
    requires
        0 <= k,
    ensures
        0 <= neighbor_count(width, height, x, y, k) <= k,
        0 <= neighbor_sum(raw, width, height, x, y, k) <= neighbor_count(width, height, x, y, k)
            * 0xffff_ffff_ffff_ffffint,
    decreases k,
{
    if k > 0 {
        lemma_neighbor_bounds(raw, width, height, x, y, k - 1);
        let c = neighbor_count(width, height, x, y, k - 1);
        assert((c + 1) * 0xffff_ffff_ffff_ffffint == c * 0xffff_ffff_ffff_ffffint
            + 0xffff_ffff_ffff_ffffint) by (nonlinear_arith);
    }
}

/// The value of one cell after smoothing.
fn smooth_cell(raw: &Grid<u64>, x: usize, y: usize) -> (r: u64)
    requires
        raw.wf(),
        x < raw.width,
        y < raw.height,
    ensures
        r as int == smoothed_value(raw.data@, raw.width as int, raw.height as int, x as int, y as int),
{
    let w = raw.width as i128;
    let h = raw.height as i128;
    let i = raw.idx(x, y);
    let mut sum: u128 = raw.data[i] as u128;
    let mut div: u128 = 1;
    let mut k: usize = 0;
    while k < 8
        invariant
            raw.wf(),
            x < raw.width,
            y < raw.height,
            w == raw.width,
            h == raw.height,
            k <= 8,
            i as int == cell_index(raw.width as int, x as int, y as int),
            sum == raw.data@[i as int] + neighbor_sum(raw.data@, w as int, h as int, x as int, y as int, k as int),
            div == 1 + neighbor_count(w as int, h as int, x as int, y as int, k as int),
        decreases 8 - k,
    {
        proof {
            lemma_neighbor_bounds(raw.data@, w as int, h as int, x as int, y as int, k as int);
        }
        let (dx, dy) = neighbor_offset(k);
        let nx: i128 = x as i128 + dx;
        let ny: i128 = y as i128 + dy;
        if 0 < nx && nx < w && 0 < ny && ny < h {
            let j = raw.idx(nx as usize, ny as usize);
            sum = sum + raw.data[j] as u128;
            div = div + 1;
        }
        k = k + 1;
    }
    proof {
        let c = neighbor_count(w as int, h as int, x as int, y as int, 8);
        lemma_neighbor_bounds(raw.data@, w as int, h as int, x as int, y as int, 8);
        assert(sum <= (1 + c) * 0xffff_ffff_ffff_ffffint) by (nonlinear_arith)
            requires
                sum <= 0xffff_ffff_ffff_ffffint + c * 0xffff_ffff_ffff_ffffint,
        ;
        assert(sum / div <= 0xffff_ffff_ffff_ffffint) by (nonlinear_arith)
            requires
                div == 1 + c,
                c >= 0,
                sum <= div * 0xffff_ffff_ffff_ffffint,
        ;
    }
    (sum / div) as u64
}

/// Averages each cell with its accepted neighbours into a new grid.
pub fn smooth(raw: &Grid<u64>) -> (r: Grid<u64>)
    requires
        raw.wf(),
    ensures
        is_smoothed(*raw, r),
{
    let n = raw.data.len();
    let w = raw.width;
    let mut data: Vec<u64> = Vec::new();
    let mut k: usize = 0;
    while k < n
        invariant
            raw.wf(),
            n == raw.data@.len(),
            w == raw.width,
            k <= n,
            data@.len() == k,
            forall|j: int|
                0 <= j < k ==> #[trigger] data@[j] as int == smoothed_value(
                    raw.data@,
                    raw.width as int,
                    raw.height as int,
                    j % (w as int),
                    j / (w as int),
                ),
        decreases n - k,
    {
        proof {
            assert(w > 0) by (nonlinear_arith)
                requires k < n, n == w * raw.height;
            assert((k as int) / (w as int) < raw.height) by (nonlinear_arith)
                requires k < n, n == w * raw.height, w > 0;
        }
        let v = smooth_cell(raw, k % w, k / w);
        data.push(v);
        k = k + 1;
    }
    let out = Grid { data, width: raw.width, height: raw.height };
    proof {
        assert forall|x: int, y: int|
            0 <= x < raw.width && 0 <= y < raw.height implies #[trigger] out.cell(x, y) as int
                == smoothed_value(raw.data@, raw.width as int, raw.height as int, x, y) by {
            let j = cell_index(w as int, x, y);
            crate::grid::lemma_index_in_range(w as int, raw.height as int, x, y);
            vstd::arithmetic::div_mod::lemma_fundamental_div_mod_converse(j, w as int, y, x);
        }
    }
    out
}

/// The grid that colouring reads: `raw` smoothed when `enabled`, else `raw`
/// itself.
pub fn apply_smoothing(raw: Grid<u64>, enabled: bool) -> (r: Grid<u64>)
    requires
        raw.wf(),
    ensures
        enabled ==> is_smoothed(raw, r),
        !enabled ==> r == raw,
{
    if enabled {
        smooth(&raw)
    } else {
        raw
    }
}

/// At a cell whose eight neighbours all pass the boundary rule, the smoothed
/// value is the plain mean of the nine raw values: the divisor is nine.
pub proof fn lemma_interior_mean(raw: Grid<u64>, out: Grid<u64>, x: int, y: int)
    requires
        raw.wf(),
        is_smoothed(raw, out),
        accepted(raw.width as int, raw.height as int, x - 1, y - 1),
        accepted(raw.width as int, raw.height as int, x + 1, y + 1),
    ensures
        out.cell(x, y) as int == (raw.cell(x, y) + raw.cell(x - 1, y + 1) + raw.cell(x - 1, y)
            + raw.cell(x - 1, y - 1) + raw.cell(x, y - 1) + raw.cell(x + 1, y - 1) + raw.cell(x + 1, y)
            + raw.cell(x + 1, y + 1) + raw.cell(x, y + 1)) / 9,
{
    let w = raw.width as int;
    let h = raw.height as int;
    reveal_with_fuel(neighbor_count, 9);
    reveal_with_fuel(neighbor_sum, 9);
    assert(neighbor_count(w, h, x, y, 8) == 8);
    assert(out.cell(x, y) as int == smoothed_value(raw.data@, w, h, x, y));
}

} // verus!

use vstd::prelude::*;

verus! {

/// A dense row-major two-dimensional array.
pub struct Grid<T> {
    pub data: Vec<T>,
    pub width: usize,
    pub height: usize,
}

/// Row-major offset of cell `(x, y)` in a grid of the given width.
pub open spec fn cell_index(width: int, x: int, y: int) -> int {
    y * width + x
}

impl<T: Copy> Grid<T> {
    /// The grid holds exactly one value per cell.
    pub open spec fn wf(&self) -> bool {
        self.data@.len() == self.width * self.height
    }

    /// The value of cell `(x, y)`.
    pub open spec fn cell(&self, x: int, y: int) -> T {
        self.data@[cell_index(self.width as int, x, y)]
    }

    /// A `width` by `height` grid with every cell set to `default`.
    pub fn new(width: usize, height: usize, default: T) -> (r: Grid<T>)
        requires
            width * height <= usize::MAX,
        ensures
            r.wf(),
            r.width == width,
            r.height == height,
            forall|i: int| 0 <= i < r.data@.len() ==> r.data@[i] == default,
    {
        let n: usize = width * height;
        let mut data: Vec<T> = Vec::new();
        let mut i: usize = 0;
        while i < n
            invariant
                i <= n,
                data@.len() == i,
                forall|j: int| 0 <= j < i ==> data@[j] == default,
            decreases n - i,
        {
            data.push(default);
            i = i + 1;
        }
        Grid { data, width, height }
    }

    /// A copy of the grid.
    pub fn clone_grid(&self) -> (r: Grid<T>)
        ensures
            r.width == self.width,
            r.height == self.height,
            r.data@ == self.data@,
    {
        let mut data: Vec<T> = Vec::new();
        let mut i: usize = 0;
        while i < self.data.len()
            invariant
                i <= self.data@.len(),
                data@ == self.data@.take(i as int),
            decreases self.data@.len() - i,
        {
            data.push(self.data[i]);
            proof {
                assert(data@ =~= self.data@.take(i as int + 1));
            }
            i = i + 1;
        }
        proof {
            assert(self.data@.take(i as int) =~= self.data@);
        }
        Grid { data, width: self.width, height: self.height }
    }

    /// Row-major offset of cell `(x, y)`.
    pub fn idx(&self, x: usize, y: usize) -> (r: usize)
        requires
            self.wf(),
            x < self.width,
            y < self.height,
        ensures
            r as int == cell_index(self.width as int, x as int, y as int),
            r < self.data@.len(),
    {
        let len: usize = self.data.len();
        proof {
            assert(len <= usize::MAX);
            lemma_index_in_range(self.width as int, self.height as int, x as int, y as int);
            assert(y * self.width <= y * self.width + x);
        }
        y * self.width + x
    }
}

/// Every in-range cell has an offset inside the grid's storage.
pub proof fn lemma_index_in_range(width: int, height: int, x: int, y: int)
    requires
        0 <= x < width,
        0 <= y < height,
    ensures
        0 <= cell_index(width, x, y) < width * height,
{
    assert(0 <= y * width) by (nonlinear_arith)
        requires 0 <= y, 0 <= width;
    assert(y * width + x < width * height) by (nonlinear_arith)
        requires 0 <= x < width, 0 <= y < height;
}

/// Every offset inside the storage is the offset of exactly the cell
/// `(i % width, i / width)`.
pub proof fn lemma_cell_of_offset(width: int, height: int, i: int)
    requires
        0 <= width,
        0 <= i < width * height,
    ensures
        width > 0,
        0 <= i % width < width,
        0 <= i / width < height,
        i == cell_index(width, i % width, i / width),
{
    assert(width > 0) by (nonlinear_arith)
        requires 0 <= i < width * height, 0 <= width;
    vstd::arithmetic::div_mod::lemma_fundamental_div_mod(i, width);
    vstd::arithmetic::div_mod::lemma_mod_bound(i, width);
    let x = i % width;
    let y = i / width;
    assert(y * width == width * y) by (nonlinear_arith);
    assert(0 <= y < height) by (nonlinear_arith)
        requires 0 <= i < width * height, width > 0, i == width * y + x, 0 <= x < width;
}

/// Distinct in-range cells have distinct offsets, and every offset lies in
/// `[0, width * height)`.
pub proof fn lemma_index_injective(width: int, height: int, x1: int, y1: int, x2: int, y2: int)
    requires
        0 <= x1 < width,
        0 <= y1 < height,
        0 <= x2 < width,
        0 <= y2 < height,
        cell_index(width, x1, y1) == cell_index(width, x2, y2),
    ensures
        x1 == x2,
        y1 == y2,
        0 <= cell_index(width, x1, y1) < width * height,
{
    lemma_index_in_range(width, height, x1, y1);
    assert(y1 == y2) by (nonlinear_arith)
        requires
            0 <= x1 < width,
            0 <= x2 < width,
            y1 * width + x1 == y2 * width + x2,
    {
        if y1 < y2 {
            assert((y2 - y1) * width >= width);
        } else if y1 > y2 {
            assert((y1 - y2) * width >= width);
        }
    }
}

} // verus!

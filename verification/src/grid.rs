use vstd::prelude::*;

verus! {

/// A rectangular grid of cells, stored row-major: the cell in column `x`
/// (growing right) and row `y` (growing down) sits at `data[y * width + x]`.
///
/// Score maps and fused maps of the pipeline are grids; their shape is
/// written `(height, width)`.
#[derive(Clone, Debug)]
pub struct Grid<T> {
    pub height: usize,
    pub width: usize,
    pub data: Vec<T>,
}

pub proof fn lemma_grid_index(x: int, y: int, w: int, h: int) by (nonlinear_arith)
    requires
        0 <= x < w,
        0 <= y < h,
    ensures
        0 <= y * w + x < h * w,
        y * w + x <= h * w - w + x,
{
}

impl<T> Grid<T> {
    /// The stored cells fill the rectangle exactly.
    pub open spec fn wf(self) -> bool {
        self.data.len() == self.height * self.width
    }

    pub open spec fn spec_cell(self, x: int, y: int) -> T {
        self.data[y * self.width + x]
    }

    /// Shape `(height, width)`, rows first.
    pub open spec fn spec_shape(self) -> (int, int) {
        (self.height as int, self.width as int)
    }

    pub fn from_shape_vec(height: usize, width: usize, data: Vec<T>) -> (r: Grid<T>)
        requires
            data.len() == height * width,
        ensures
            r.wf(),
            r.height == height,
            r.width == width,
            r.data == data,
    {
        Grid { height, width, data }
    }

    pub fn shape(&self) -> (r: (usize, usize))
        ensures
            r.0 == self.height,
            r.1 == self.width,
    {
        (self.height, self.width)
    }
}

impl<T: Copy> Grid<T> {
    /// A fresh grid with the same shape and cells.
    pub fn duplicate(&self) -> (r: Grid<T>)
        ensures
            r.height == self.height,
            r.width == self.width,
            r.data@ == self.data@,
    {
        let mut data: Vec<T> = Vec::new();
        let mut i: usize = 0;
        while i < self.data.len()
            invariant
                i <= self.data.len(),
                data@ == self.data@.subrange(0, i as int),
            decreases self.data.len() - i,
        {
            data.push(self.data[i]);
            i = i + 1;
        }
        proof {
            assert(data@ == self.data@.subrange(0, self.data@.len() as int));
            assert(self.data@.subrange(0, self.data@.len() as int) == self.data@);
        }
        Grid { height: self.height, width: self.width, data }
    }

    pub fn cell(&self, x: usize, y: usize) -> (r: T)
        requires
            self.wf(),
            x < self.width,
            y < self.height,
        ensures
            r == self.spec_cell(x as int, y as int),
    {
        proof {
            lemma_grid_index(x as int, y as int, self.width as int, self.height as int);
        }
        self.data[y * self.width + x]
    }

}

pub proof fn lemma_area_nonneg(h: int, w: int) by (nonlinear_arith)
    requires
        0 <= h,
        0 <= w,
    ensures
        0 <= h * w,
{
}

/// When `w` exceeds `cap / h`, the area `h * w` exceeds `cap`.
pub proof fn lemma_area_cap_exceeded(h: int, w: int, cap: int) by (nonlinear_arith)
    requires
        1 <= h,
        0 <= cap,
        w > cap / h,
    ensures
        h * w > cap,
{
}

/// When `w` is at most `cap / h`, the area `h * w` is at most `cap`.
pub proof fn lemma_area_bound(h: int, w: int, cap: int) by (nonlinear_arith)
    requires
        0 <= h,
        0 <= w,
        0 <= cap,
        h == 0 || w <= cap / h,
    ensures
        0 <= h * w <= cap,
{
}

} // verus!

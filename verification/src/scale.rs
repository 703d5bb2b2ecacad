use vstd::prelude::*;
use crate::image::spec_scaled_dim;

verus! {

/// Maps lengths and positions authored for one screen size onto another,
/// by the rounded rational factor of each axis.
#[derive(Clone, Copy, Debug)]
pub struct AutoScale {
    pub original_size: (usize, usize),
    pub target_size: (usize, usize),
}

impl AutoScale {
    /// Both sizes are positive and small enough to scale exactly.
    pub open spec fn wf(self) -> bool {
        &&& 1 <= self.original_size.0 <= 0xFFFF
        &&& 1 <= self.original_size.1 <= 0xFFFF
        &&& self.target_size.0 <= 0xFFFF
        &&& self.target_size.1 <= 0xFFFF
    }

    pub fn new(original_size: (usize, usize), target_size: (usize, usize)) -> (r: AutoScale)
        requires
            1 <= original_size.0 <= 0xFFFF,
            1 <= original_size.1 <= 0xFFFF,
            target_size.0 <= 0xFFFF,
            target_size.1 <= 0xFFFF,
        ensures
            r.wf(),
            r.original_size == original_size,
            r.target_size == target_size,
    {
        AutoScale { original_size, target_size }
    }

    /// A copy that keeps the target size; a fresh starting point for
    /// registering another mapping with the same axes.
    pub fn clone_with_target_size(&self) -> (r: AutoScale)
        ensures
            r == *self,
    {
        AutoScale { original_size: self.original_size, target_size: self.target_size }
    }

    /// Scales a position from the original axes onto the target axes,
    /// rounding each coordinate to the nearest integer.
    pub fn scale(&self, x: usize, y: usize) -> (r: (u64, u64))
        requires
            self.wf(),
            x <= 0xFFFF,
            y <= 0xFFFF,
        ensures
            r.0 == spec_scaled_dim(x as int, self.target_size.0 as int, self.original_size.0 as int),
            r.1 == spec_scaled_dim(y as int, self.target_size.1 as int, self.original_size.1 as int),
    {
        let sx = scaled_coord(x, self.target_size.0, self.original_size.0);
        let sy = scaled_coord(y, self.target_size.1, self.original_size.1);
        (sx, sy)
    }
}

fn scaled_coord(v: usize, num: usize, den: usize) -> (r: u64)
    requires
        v <= 0xFFFF,
        num <= 0xFFFF,
        1 <= den <= 0xFFFF,
    ensures
        r == spec_scaled_dim(v as int, num as int, den as int),
{
    proof {
        assert(0 <= 2 * (v as int) * (num as int) + (den as int) <= 0x2_0000_0000) by (nonlinear_arith)
            requires v <= 0xFFFF, num <= 0xFFFF, 1 <= den <= 0xFFFF;
    }
    let wide: u64 = 2 * (v as u64) * (num as u64) + (den as u64);
    wide / (2 * (den as u64))
}

} // verus!

//! The viewport: pixel dimensions and the fixed affine transform from
//! normalized device coordinates to pixel coordinates.

use crate::mat::{lift_mat, mat_in_range, Mat4Fx, Mat4v, Vec4Fx, Vec4v};
use crate::num::{HALF_SCALE, MAT_ENTRY_LIMIT, SCALE};
use vstd::prelude::*;

verus! {

/// The viewport matrix for a `width` by `height` pixel target, in raw
/// fixed-point form.  Applied to `(x, y, z, w)` it yields
/// `(x*width/2 + w*width/2, -y*height/2 + w*height/2, z/2 + w/2, w)`:
/// the vertical axis flips, and depth maps from `[-1, 1]` to `[0, 1]`.
pub open spec fn viewport_mat_v(width: int, height: int) -> Mat4v {
    Mat4v {
        r0: Vec4v {
            x: width * (HALF_SCALE as int),
            y: 0,
            z: 0,
            w: width * (HALF_SCALE as int),
        },
        r1: Vec4v {
            x: 0,
            y: -height * (HALF_SCALE as int),
            z: 0,
            w: height * (HALF_SCALE as int),
        },
        r2: Vec4v { x: 0, y: 0, z: HALF_SCALE as int, w: HALF_SCALE as int },
        r3: Vec4v { x: 0, y: 0, z: 0, w: SCALE as int },
    }
}

/// A pixel raster target's fixed dimensions and derived transform.
pub struct Viewport {
    width: u16,
    height: u16,
    mat: Mat4Fx,
}

impl Viewport {
    pub closed spec fn spec_width(self) -> u16 {
        self.width
    }

    pub closed spec fn spec_height(self) -> u16 {
        self.height
    }

    pub closed spec fn spec_mat(self) -> Mat4Fx {
        self.mat
    }

    /// Both dimensions are positive and the stored matrix is exactly the
    /// viewport transform for them.
    pub open spec fn wf(self) -> bool {
        &&& self.spec_width() >= 1
        &&& self.spec_height() >= 1
        &&& lift_mat(self.spec_mat()) == viewport_mat_v(
            self.spec_width() as int,
            self.spec_height() as int,
        )
        &&& mat_in_range(lift_mat(self.spec_mat()), MAT_ENTRY_LIMIT as int)
    }

    pub fn new(width: u16, height: u16) -> (r: Viewport)
        requires
            width >= 1,
            height >= 1,
        ensures
            r.wf(),
            r.spec_width() == width,
            r.spec_height() == height,
    {
        let mat = Mat4Fx {
            r0: Vec4Fx {
                x: (width as i64) * HALF_SCALE,
                y: 0,
                z: 0,
                w: (width as i64) * HALF_SCALE,
            },
            r1: Vec4Fx {
                x: 0,
                y: -((height as i64) * HALF_SCALE),
                z: 0,
                w: (height as i64) * HALF_SCALE,
            },
            r2: Vec4Fx { x: 0, y: 0, z: HALF_SCALE, w: HALF_SCALE },
            r3: Vec4Fx { x: 0, y: 0, z: 0, w: SCALE },
        };
        proof {
            assert(lift_mat(mat) =~~= viewport_mat_v(width as int, height as int));
        }
        Viewport { width, height, mat }
    }

    pub fn dimensions(&self) -> (r: (u16, u16))
        ensures
            r.0 == self.spec_width(),
            r.1 == self.spec_height(),
    {
        (self.width, self.height)
    }

    pub fn width(&self) -> (r: u16)
        ensures
            r == self.spec_width(),
    {
        self.width
    }

    pub fn height(&self) -> (r: u16)
        ensures
            r == self.spec_height(),
    {
        self.height
    }

    /// The viewport transform, the leftmost factor of the combined
    /// per-frame matrix.
    pub fn matrix(&self) -> (r: Mat4Fx)
        ensures
            r == self.spec_mat(),
    {
        self.mat
    }
}

} // verus!

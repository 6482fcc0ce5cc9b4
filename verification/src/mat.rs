//! Fixed-point homogeneous vectors and 4x4 matrices.
//!
//! Executable values hold raw `i64` fixed-point entries; specifications lift
//! them to mathematical integers (`Vec4v`, `Mat4v`) and state every product
//! exactly, including the floor rounding of the fixed-point scale.

use crate::num::{
    in_range, lemma_div_scale_bound, lemma_mul_bound, COORD_LIMIT, MAT_ENTRY_LIMIT, SCALE,
    VERTEX_LIMIT,
};
use vstd::prelude::*;

verus! {

/// A model-space position, in fixed-point raw form.
#[derive(Clone, Copy, PartialEq, Eq, Structural, Debug)]
pub struct Vec3Fx {
    pub x: i64,
    pub y: i64,
    pub z: i64,
}

/// A homogeneous coordinate vector, in fixed-point raw form.
#[derive(Clone, Copy, PartialEq, Eq, Structural, Debug)]
pub struct Vec4Fx {
    pub x: i64,
    pub y: i64,
    pub z: i64,
    pub w: i64,
}

/// A 4x4 transform, stored by rows, in fixed-point raw form.
#[derive(Clone, Copy, PartialEq, Eq, Structural, Debug)]
pub struct Mat4Fx {
    pub r0: Vec4Fx,
    pub r1: Vec4Fx,
    pub r2: Vec4Fx,
    pub r3: Vec4Fx,
}

/// The mathematical value of a homogeneous vector: four unbounded integers.
#[verifier::ext_equal]
pub ghost struct Vec4v {
    pub x: int,
    pub y: int,
    pub z: int,
    pub w: int,
}

/// The mathematical value of a 4x4 matrix.
#[verifier::ext_equal]
pub ghost struct Mat4v {
    pub r0: Vec4v,
    pub r1: Vec4v,
    pub r2: Vec4v,
    pub r3: Vec4v,
}

pub open spec fn lift4(v: Vec4Fx) -> Vec4v {
    Vec4v { x: v.x as int, y: v.y as int, z: v.z as int, w: v.w as int }
}

/// A model-space position as a homogeneous vector: the fourth component is
/// the fixed-point form of one.
pub open spec fn hom3(v: Vec3Fx) -> Vec4v {
    Vec4v { x: v.x as int, y: v.y as int, z: v.z as int, w: SCALE as int }
}

pub open spec fn lift_mat(m: Mat4Fx) -> Mat4v {
    Mat4v { r0: lift4(m.r0), r1: lift4(m.r1), r2: lift4(m.r2), r3: lift4(m.r3) }
}

pub open spec fn vec3_in_range(v: Vec3Fx, limit: int) -> bool {
    &&& in_range(v.x as int, limit)
    &&& in_range(v.y as int, limit)
    &&& in_range(v.z as int, limit)
}

pub open spec fn vec4_in_range(v: Vec4v, limit: int) -> bool {
    &&& in_range(v.x, limit)
    &&& in_range(v.y, limit)
    &&& in_range(v.z, limit)
    &&& in_range(v.w, limit)
}

pub open spec fn mat_in_range(m: Mat4v, limit: int) -> bool {
    &&& vec4_in_range(m.r0, limit)
    &&& vec4_in_range(m.r1, limit)
    &&& vec4_in_range(m.r2, limit)
    &&& vec4_in_range(m.r3, limit)
}

/// The exact (unscaled) sum of products of a fixed-point dot product.
pub open spec fn dot4_num(u: Vec4v, v: Vec4v) -> int {
    u.x * v.x + u.y * v.y + u.z * v.z + u.w * v.w
}

/// A fixed-point dot product: the exact sum of raw products, floor-divided
/// once by the scale.
pub open spec fn dot4(u: Vec4v, v: Vec4v) -> int {
    dot4_num(u, v) / (SCALE as int)
}

pub open spec fn col0(m: Mat4v) -> Vec4v {
    Vec4v { x: m.r0.x, y: m.r1.x, z: m.r2.x, w: m.r3.x }
}

pub open spec fn col1(m: Mat4v) -> Vec4v {
    Vec4v { x: m.r0.y, y: m.r1.y, z: m.r2.y, w: m.r3.y }
}

pub open spec fn col2(m: Mat4v) -> Vec4v {
    Vec4v { x: m.r0.z, y: m.r1.z, z: m.r2.z, w: m.r3.z }
}

pub open spec fn col3(m: Mat4v) -> Vec4v {
    Vec4v { x: m.r0.w, y: m.r1.w, z: m.r2.w, w: m.r3.w }
}

/// The fixed-point matrix product, entry by entry.
pub open spec fn mat_mul_v(a: Mat4v, b: Mat4v) -> Mat4v {
    Mat4v {
        r0: Vec4v {
            x: dot4(a.r0, col0(b)),
            y: dot4(a.r0, col1(b)),
            z: dot4(a.r0, col2(b)),
            w: dot4(a.r0, col3(b)),
        },
        r1: Vec4v {
            x: dot4(a.r1, col0(b)),
            y: dot4(a.r1, col1(b)),
            z: dot4(a.r1, col2(b)),
            w: dot4(a.r1, col3(b)),
        },
        r2: Vec4v {
            x: dot4(a.r2, col0(b)),
            y: dot4(a.r2, col1(b)),
            z: dot4(a.r2, col2(b)),
            w: dot4(a.r2, col3(b)),
        },
        r3: Vec4v {
            x: dot4(a.r3, col0(b)),
            y: dot4(a.r3, col1(b)),
            z: dot4(a.r3, col2(b)),
            w: dot4(a.r3, col3(b)),
        },
    }
}

/// A matrix applied to a homogeneous vector, rows dotted with the vector.
pub open spec fn transform4(m: Mat4v, v: Vec4v) -> Vec4v {
    Vec4v { x: dot4(m.r0, v), y: dot4(m.r1, v), z: dot4(m.r2, v), w: dot4(m.r3, v) }
}

/// The fixed-point identity: the scale on the diagonal.
pub open spec fn identity_v() -> Mat4v {
    Mat4v {
        r0: Vec4v { x: SCALE as int, y: 0, z: 0, w: 0 },
        r1: Vec4v { x: 0, y: SCALE as int, z: 0, w: 0 },
        r2: Vec4v { x: 0, y: 0, z: SCALE as int, w: 0 },
        r3: Vec4v { x: 0, y: 0, z: 0, w: SCALE as int },
    }
}

/// The three fixed-point products of the whole rendering pipeline:
/// `((viewport * projection) * view) * model`.
pub open spec fn combine_v(vp: Mat4v, p: Mat4v, v: Mat4v, m: Mat4v) -> Mat4v {
    mat_mul_v(mat_mul_v(mat_mul_v(vp, p), v), m)
}

/// Every partial product of the pipeline stays within the matrix entry limit.
pub open spec fn combine_fits(vp: Mat4v, p: Mat4v, v: Mat4v, m: Mat4v) -> bool {
    let ab = mat_mul_v(vp, p);
    let abc = mat_mul_v(ab, v);
    let abcd = mat_mul_v(abc, m);
    &&& mat_in_range(ab, MAT_ENTRY_LIMIT as int)
    &&& mat_in_range(abc, MAT_ENTRY_LIMIT as int)
    &&& mat_in_range(abcd, MAT_ENTRY_LIMIT as int)
}

/// One fixed-point dot product, exact.  With both operands within the matrix
/// entry limit the result always fits well inside an `i64`; with the second
/// operand within the vertex limit it fits the transformed coordinate limit.
fn fx_dot(u: &Vec4Fx, v: &Vec4Fx) -> (r: i64)
    requires
        vec4_in_range(lift4(*u), MAT_ENTRY_LIMIT as int),
        vec4_in_range(lift4(*v), MAT_ENTRY_LIMIT as int),
    ensures
        r as int == dot4(lift4(*u), lift4(*v)),
        in_range(r as int, 0x1_0000_0000_0000),
        vec4_in_range(lift4(*v), VERTEX_LIMIT as int) ==> in_range(r as int, COORD_LIMIT as int),
{
    proof {
        let lm = MAT_ENTRY_LIMIT as int;
        lemma_mul_bound(u.x as int, v.x as int, lm, lm);
        lemma_mul_bound(u.y as int, v.y as int, lm, lm);
        lemma_mul_bound(u.z as int, v.z as int, lm, lm);
        lemma_mul_bound(u.w as int, v.w as int, lm, lm);
    }
    let s: i128 = (u.x as i128) * (v.x as i128) + (u.y as i128) * (v.y as i128) + (u.z as i128)
        * (v.z as i128) + (u.w as i128) * (v.w as i128);
    proof {
        lemma_div_scale_bound(s as int, 0x1_0000_0000_0000_0000);
        if vec4_in_range(lift4(*v), VERTEX_LIMIT as int) {
            let lv = VERTEX_LIMIT as int;
            let lm = MAT_ENTRY_LIMIT as int;
            lemma_mul_bound(u.x as int, v.x as int, lm, lv);
            lemma_mul_bound(u.y as int, v.y as int, lm, lv);
            lemma_mul_bound(u.z as int, v.z as int, lm, lv);
            lemma_mul_bound(u.w as int, v.w as int, lm, lv);
            lemma_div_scale_bound(s as int, 0x100_0000_0000_0000int);
        }
    }
    let q: i128 = match s.checked_div_euclid(SCALE as i128) {
        Some(q) => q,
        None => 0,
    };
    q as i64
}

/// The fixed-point identity matrix.
pub fn mat4_identity() -> (r: Mat4Fx)
    ensures
        lift_mat(r) == identity_v(),
        mat_in_range(lift_mat(r), MAT_ENTRY_LIMIT as int),
{
    Mat4Fx {
        r0: Vec4Fx { x: SCALE, y: 0, z: 0, w: 0 },
        r1: Vec4Fx { x: 0, y: SCALE, z: 0, w: 0 },
        r2: Vec4Fx { x: 0, y: 0, z: SCALE, w: 0 },
        r3: Vec4Fx { x: 0, y: 0, z: 0, w: SCALE },
    }
}

/// The fixed-point product of two matrices whose entries are within the
/// matrix entry limit.  Returns the exact product when every entry of the
/// product is itself within that limit, and nothing otherwise.
pub fn mat4_mul(a: &Mat4Fx, b: &Mat4Fx) -> (r: Option<Mat4Fx>)
    requires
        mat_in_range(lift_mat(*a), MAT_ENTRY_LIMIT as int),
        mat_in_range(lift_mat(*b), MAT_ENTRY_LIMIT as int),
    ensures
        r is Some <==> mat_in_range(
            mat_mul_v(lift_mat(*a), lift_mat(*b)),
            MAT_ENTRY_LIMIT as int,
        ),
        r matches Some(c) ==> lift_mat(c) == mat_mul_v(lift_mat(*a), lift_mat(*b)),
{
    let c0 = Vec4Fx { x: b.r0.x, y: b.r1.x, z: b.r2.x, w: b.r3.x };
    let c1 = Vec4Fx { x: b.r0.y, y: b.r1.y, z: b.r2.y, w: b.r3.y };
    let c2 = Vec4Fx { x: b.r0.z, y: b.r1.z, z: b.r2.z, w: b.r3.z };
    let c3 = Vec4Fx { x: b.r0.w, y: b.r1.w, z: b.r2.w, w: b.r3.w };
    proof {
        assert(lift4(c0) =~= col0(lift_mat(*b)));
        assert(lift4(c1) =~= col1(lift_mat(*b)));
        assert(lift4(c2) =~= col2(lift_mat(*b)));
        assert(lift4(c3) =~= col3(lift_mat(*b)));
    }
    let e00 = fx_dot(&a.r0, &c0);
    let e01 = fx_dot(&a.r0, &c1);
    let e02 = fx_dot(&a.r0, &c2);
    let e03 = fx_dot(&a.r0, &c3);
    let e10 = fx_dot(&a.r1, &c0);
    let e11 = fx_dot(&a.r1, &c1);
    let e12 = fx_dot(&a.r1, &c2);
    let e13 = fx_dot(&a.r1, &c3);
    let e20 = fx_dot(&a.r2, &c0);
    let e21 = fx_dot(&a.r2, &c1);
    let e22 = fx_dot(&a.r2, &c2);
    let e23 = fx_dot(&a.r2, &c3);
    let e30 = fx_dot(&a.r3, &c0);
    let e31 = fx_dot(&a.r3, &c1);
    let e32 = fx_dot(&a.r3, &c2);
    let e33 = fx_dot(&a.r3, &c3);
    if e00 < -MAT_ENTRY_LIMIT || e00 > MAT_ENTRY_LIMIT || e01 < -MAT_ENTRY_LIMIT || e01
        > MAT_ENTRY_LIMIT || e02 < -MAT_ENTRY_LIMIT || e02 > MAT_ENTRY_LIMIT || e03
        < -MAT_ENTRY_LIMIT || e03 > MAT_ENTRY_LIMIT || e10 < -MAT_ENTRY_LIMIT || e10
        > MAT_ENTRY_LIMIT || e11 < -MAT_ENTRY_LIMIT || e11 > MAT_ENTRY_LIMIT || e12
        < -MAT_ENTRY_LIMIT || e12 > MAT_ENTRY_LIMIT || e13 < -MAT_ENTRY_LIMIT || e13
        > MAT_ENTRY_LIMIT || e20 < -MAT_ENTRY_LIMIT || e20 > MAT_ENTRY_LIMIT || e21
        < -MAT_ENTRY_LIMIT || e21 > MAT_ENTRY_LIMIT || e22 < -MAT_ENTRY_LIMIT || e22
        > MAT_ENTRY_LIMIT || e23 < -MAT_ENTRY_LIMIT || e23 > MAT_ENTRY_LIMIT || e30
        < -MAT_ENTRY_LIMIT || e30 > MAT_ENTRY_LIMIT || e31 < -MAT_ENTRY_LIMIT || e31
        > MAT_ENTRY_LIMIT || e32 < -MAT_ENTRY_LIMIT || e32 > MAT_ENTRY_LIMIT || e33
        < -MAT_ENTRY_LIMIT || e33 > MAT_ENTRY_LIMIT {
        return None;
    }
    let m = Mat4Fx {
        r0: Vec4Fx { x: e00, y: e01, z: e02, w: e03 },
        r1: Vec4Fx { x: e10, y: e11, z: e12, w: e13 },
        r2: Vec4Fx { x: e20, y: e21, z: e22, w: e23 },
        r3: Vec4Fx { x: e30, y: e31, z: e32, w: e33 },
    };
    proof {
        assert(lift_mat(m) =~~= mat_mul_v(lift_mat(*a), lift_mat(*b)));
    }
    Some(m)
}

/// The combined per-frame transform of the pipeline, in the fixed order
/// viewport, then projection, then view, then model.  Returns the exact
/// fixed-point product when every partial product stays within the matrix
/// entry limit, and nothing otherwise.
pub fn combine(vp: &Mat4Fx, p: &Mat4Fx, v: &Mat4Fx, m: &Mat4Fx) -> (r: Option<Mat4Fx>)
    requires
        mat_in_range(lift_mat(*vp), MAT_ENTRY_LIMIT as int),
        mat_in_range(lift_mat(*p), MAT_ENTRY_LIMIT as int),
        mat_in_range(lift_mat(*v), MAT_ENTRY_LIMIT as int),
        mat_in_range(lift_mat(*m), MAT_ENTRY_LIMIT as int),
    ensures
        r is Some <==> combine_fits(lift_mat(*vp), lift_mat(*p), lift_mat(*v), lift_mat(*m)),
        r matches Some(c) ==> lift_mat(c) == combine_v(
            lift_mat(*vp),
            lift_mat(*p),
            lift_mat(*v),
            lift_mat(*m),
        ),
{
    let ab = match mat4_mul(vp, p) {
        Some(x) => x,
        None => {
            return None;
        },
    };
    let abc = match mat4_mul(&ab, v) {
        Some(x) => x,
        None => {
            return None;
        },
    };
    match mat4_mul(&abc, m) {
        Some(x) => Some(x),
        None => None,
    }
}

/// A model-space vertex taken through a transform whose entries are within
/// the matrix entry limit: the exact fixed-point image of the homogeneous
/// vertex, every coordinate within the transformed coordinate limit.
pub fn transform_vertex(t: &Mat4Fx, v: &Vec3Fx) -> (r: Vec4Fx)
    requires
        mat_in_range(lift_mat(*t), MAT_ENTRY_LIMIT as int),
        vec3_in_range(*v, VERTEX_LIMIT as int),
    ensures
        lift4(r) == transform4(lift_mat(*t), hom3(*v)),
        vec4_in_range(lift4(r), COORD_LIMIT as int),
{
    let hv = Vec4Fx { x: v.x, y: v.y, z: v.z, w: SCALE };
    proof {
        assert(lift4(hv) =~= hom3(*v));
    }
    let r = Vec4Fx {
        x: fx_dot(&t.r0, &hv),
        y: fx_dot(&t.r1, &hv),
        z: fx_dot(&t.r2, &hv),
        w: fx_dot(&t.r3, &hv),
    };
    proof {
        assert(lift4(r) =~= transform4(lift_mat(*t), hom3(*v)));
    }
    r
}

} // verus!

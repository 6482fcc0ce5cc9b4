//! Barycentric edge-function rasterization of a single triangle.
//!
//! The three vertices arrive in pixel-space homogeneous form (transformed by
//! the combined matrix, not yet perspective-divided).  A triangle entirely
//! behind the camera (`w < 0` at every vertex) emits nothing, as does a
//! degenerate or back-facing one (`det <= 0`).  Otherwise every pixel of the
//! bounding box (or of the whole viewport, when a vertex has `w <= 0`) is
//! tested against three integer edge functionals, exactly.

use crate::mat::{lift4, vec4_in_range, Vec4Fx, Vec4v};
use crate::num::{in_range, lemma_mul_bound, COORD_LIMIT};
use crate::viewport::Viewport;
use vstd::prelude::*;

verus! {

/// One raster pixel coordinate.
#[derive(Clone, Copy, PartialEq, Eq, Structural, Debug, Hash)]
pub struct Pixel {
    pub x: u16,
    pub y: u16,
}

/// Raw magnitude bound of an edge coefficient built from coordinates within
/// [`COORD_LIMIT`].
pub open spec fn coeff_limit() -> int {
    0x2_0000_0000_0000_0000_0000
}

pub open spec fn coeff_a(a: Vec4v, b: Vec4v) -> int {
    a.y * b.w - a.w * b.y
}

pub open spec fn coeff_b(a: Vec4v, b: Vec4v) -> int {
    a.w * b.x - a.x * b.w
}

pub open spec fn coeff_c(a: Vec4v, b: Vec4v) -> int {
    a.x * b.y - a.y * b.x
}

/// The edge functional of the directed edge from `a` to `b`, evaluated at the
/// homogeneous point `(px, py, pw)`: the determinant of the 3x3 matrix whose
/// rows are `(px, py, pw)`, `(a.x, a.y, a.w)` and `(b.x, b.y, b.w)`.  It
/// vanishes on the edge and is positive on the inner side.
pub open spec fn edge_fn(a: Vec4v, b: Vec4v, px: int, py: int, pw: int) -> int {
    coeff_a(a, b) * px + coeff_b(a, b) * py + coeff_c(a, b) * pw
}

/// The determinant of the matrix `M` whose rows are the `(x, y, w)`
/// coordinates of the three vertices.  Positive exactly for a front-facing
/// triangle of nonzero area under the fixed winding convention.
pub open spec fn tri_det(v0: Vec4v, v1: Vec4v, v2: Vec4v) -> int {
    edge_fn(v1, v2, v0.x, v0.y, v0.w)
}

/// Every vertex lies strictly behind the camera.
pub open spec fn all_behind(v0: Vec4v, v1: Vec4v, v2: Vec4v) -> bool {
    v0.w < 0 && v1.w < 0 && v2.w < 0
}

/// Every vertex lies strictly in front of the camera, so the bounding box
/// can be taken from the perspective-divided coordinates.
pub open spec fn all_w_pos(v0: Vec4v, v1: Vec4v, v2: Vec4v) -> bool {
    v0.w > 0 && v1.w > 0 && v2.w > 0
}

/// The triangle emits no pixels: fully behind the camera, or degenerate or
/// back-facing.
pub open spec fn rejected(v0: Vec4v, v1: Vec4v, v2: Vec4v) -> bool {
    all_behind(v0, v1, v2) || tri_det(v0, v1, v2) <= 0
}

/// The strict inside test: all three edge functionals are positive at the
/// pixel centre `(px, py, 1)`.  Pixels exactly on an edge are excluded.
pub open spec fn inside(v0: Vec4v, v1: Vec4v, v2: Vec4v, px: int, py: int) -> bool {
    &&& edge_fn(v1, v2, px, py, 1) > 0
    &&& edge_fn(v2, v0, px, py, 1) > 0
    &&& edge_fn(v0, v1, px, py, 1) > 0
}

pub open spec fn clampi(v: int, lo: int, hi: int) -> int {
    if v < lo {
        lo
    } else if v > hi {
        hi
    } else {
        v
    }
}

pub open spec fn min3(a: int, b: int, c: int) -> int {
    if a <= b && a <= c {
        a
    } else if b <= c {
        b
    } else {
        c
    }
}

pub open spec fn max3(a: int, b: int, c: int) -> int {
    if a >= b && a >= c {
        a
    } else if b >= c {
        b
    } else {
        c
    }
}

/// The screen column of a perspective-divided vertex, clamped to the
/// viewport.  Division is floor division; `w` must be positive.
pub open spec fn screen_x(v: Vec4v, width: int) -> int {
    clampi(v.x / v.w, 0, width - 1)
}

/// The screen row of a perspective-divided vertex, clamped to the viewport.
pub open spec fn screen_y(v: Vec4v, height: int) -> int {
    clampi(v.y / v.w, 0, height - 1)
}

/// The inclusive pixel bounding box scanned for the triangle, as
/// `(x_min, x_max, y_min, y_max)`: the box of the divided vertices when all
/// are in front of the camera, and the whole viewport otherwise.
pub open spec fn bbox(v0: Vec4v, v1: Vec4v, v2: Vec4v, width: int, height: int) -> (
    int,
    int,
    int,
    int,
) {
    if all_w_pos(v0, v1, v2) {
        (
            min3(screen_x(v0, width), screen_x(v1, width), screen_x(v2, width)),
            max3(screen_x(v0, width), screen_x(v1, width), screen_x(v2, width)),
            min3(screen_y(v0, height), screen_y(v1, height), screen_y(v2, height)),
            max3(screen_y(v0, height), screen_y(v1, height), screen_y(v2, height)),
        )
    } else {
        (0, width - 1, 0, height - 1)
    }
}

/// The pixels of one scan row, in increasing column order: those columns of
/// `[px, px_end]` whose centre passes the strict inside test.
pub open spec fn row_seq(v0: Vec4v, v1: Vec4v, v2: Vec4v, py: int, px: int, px_end: int) -> Seq<
    Pixel,
>
    decreases px_end + 1 - px,
{
    if px > px_end {
        Seq::empty()
    } else {
        (if inside(v0, v1, v2, px, py) {
            seq![Pixel { x: px as u16, y: py as u16 }]
        } else {
            Seq::empty()
        }) + row_seq(v0, v1, v2, py, px + 1, px_end)
    }
}

/// The pixels of the rows `[py, py_end]`, each row in increasing column
/// order, rows in increasing order.
pub open spec fn rows_seq(
    v0: Vec4v,
    v1: Vec4v,
    v2: Vec4v,
    py: int,
    py_end: int,
    px: int,
    px_end: int,
) -> Seq<Pixel>
    decreases py_end + 1 - py,
{
    if py > py_end {
        Seq::empty()
    } else {
        row_seq(v0, v1, v2, py, px, px_end) + rows_seq(v0, v1, v2, py + 1, py_end, px, px_end)
    }
}

/// The full pixel sequence of an accepted triangle: the inside pixels of its
/// bounding box, in row-major order.
pub open spec fn raster_pixels(v0: Vec4v, v1: Vec4v, v2: Vec4v, width: int, height: int) -> Seq<
    Pixel,
> {
    let b = bbox(v0, v1, v2, width, height);
    rows_seq(v0, v1, v2, b.2, b.3, b.0, b.1)
}

/// The three raw integer coefficients of the edge functional of the directed
/// edge from `a` to `b`.
fn edge_coeffs(a: &Vec4Fx, b: &Vec4Fx) -> (r: (i128, i128, i128))
    requires
        vec4_in_range(lift4(*a), COORD_LIMIT as int),
        vec4_in_range(lift4(*b), COORD_LIMIT as int),
    ensures
        r.0 as int == coeff_a(lift4(*a), lift4(*b)),
        r.1 as int == coeff_b(lift4(*a), lift4(*b)),
        r.2 as int == coeff_c(lift4(*a), lift4(*b)),
        in_range(r.0 as int, coeff_limit()),
        in_range(r.1 as int, coeff_limit()),
        in_range(r.2 as int, coeff_limit()),
{
    proof {
        let lc = COORD_LIMIT as int;
        lemma_mul_bound(a.y as int, b.w as int, lc, lc);
        lemma_mul_bound(a.w as int, b.y as int, lc, lc);
        lemma_mul_bound(a.w as int, b.x as int, lc, lc);
        lemma_mul_bound(a.x as int, b.w as int, lc, lc);
        lemma_mul_bound(a.x as int, b.y as int, lc, lc);
        lemma_mul_bound(a.y as int, b.x as int, lc, lc);
    }
    let ca = (a.y as i128) * (b.w as i128) - (a.w as i128) * (b.y as i128);
    let cb = (a.w as i128) * (b.x as i128) - (a.x as i128) * (b.w as i128);
    let cc = (a.x as i128) * (b.y as i128) - (a.y as i128) * (b.x as i128);
    (ca, cb, cc)
}

/// Floor division by a positive divisor maps `[-m, m]` into itself.
proof fn lemma_div_keeps_bound(c: int, w: int, m: int)
    by (nonlinear_arith)
    requires
        1 <= w,
        0 <= m,
        -m <= c <= m,
    ensures
        -m <= c / w <= m,
{
}

/// One perspective-divided, clamped screen coordinate.
fn screen_coord(c: i64, w: i64, hi: i64) -> (r: i64)
    requires
        1 <= w,
        0 <= hi,
        in_range(c as int, COORD_LIMIT as int),
    ensures
        r as int == clampi(c as int / w as int, 0, hi as int),
        0 <= r <= hi,
{
    proof {
        lemma_div_keeps_bound(c as int, w as int, COORD_LIMIT as int);
    }
    let q: i64 = match c.checked_div_euclid(w) {
        Some(q) => q,
        None => 0,
    };
    if q < 0 {
        0
    } else if q > hi {
        hi
    } else {
        q
    }
}

fn min3e(a: i64, b: i64, c: i64) -> (r: i64)
    ensures
        r as int == min3(a as int, b as int, c as int),
{
    if a <= b && a <= c {
        a
    } else if b <= c {
        b
    } else {
        c
    }
}

fn max3e(a: i64, b: i64, c: i64) -> (r: i64)
    ensures
        r as int == max3(a as int, b as int, c as int),
{
    if a >= b && a >= c {
        a
    } else if b >= c {
        b
    } else {
        c
    }
}

/// Rasterize one triangle given in pixel-space homogeneous coordinates.
///
/// Returns nothing exactly when the triangle is rejected (fully behind the
/// camera, degenerate, or back-facing), and otherwise the inside pixels of
/// its bounding box in row-major order — exactly [`raster_pixels`].  Two
/// calls on identical inputs therefore return identical sequences.
#[verifier::loop_isolation(false)]
pub fn rasterize_triangle(v0: Vec4Fx, v1: Vec4Fx, v2: Vec4Fx, vp: &Viewport) -> (r: Option<
    Vec<Pixel>,
>)
    requires
        vp.wf(),
        vec4_in_range(lift4(v0), COORD_LIMIT as int),
        vec4_in_range(lift4(v1), COORD_LIMIT as int),
        vec4_in_range(lift4(v2), COORD_LIMIT as int),
    ensures
        r is None <==> rejected(lift4(v0), lift4(v1), lift4(v2)),
        r matches Some(pts) ==> pts@ == raster_pixels(
            lift4(v0),
            lift4(v1),
            lift4(v2),
            vp.spec_width() as int,
            vp.spec_height() as int,
        ),
{
    let ghost g0 = lift4(v0);
    let ghost g1 = lift4(v1);
    let ghost g2 = lift4(v2);
    let ghost gw = vp.spec_width() as int;
    let ghost gh = vp.spec_height() as int;

    if v0.w < 0 && v1.w < 0 && v2.w < 0 {
        // Fully behind the camera.
        return None;
    }
    let (width, height) = vp.dimensions();

    let (x_min, x_max, y_min, y_max): (i64, i64, i64, i64) = if v0.w > 0 && v1.w > 0 && v2.w > 0 {
        let sx0 = screen_coord(v0.x, v0.w, (width - 1) as i64);
        let sx1 = screen_coord(v1.x, v1.w, (width - 1) as i64);
        let sx2 = screen_coord(v2.x, v2.w, (width - 1) as i64);
        let sy0 = screen_coord(v0.y, v0.w, (height - 1) as i64);
        let sy1 = screen_coord(v1.y, v1.w, (height - 1) as i64);
        let sy2 = screen_coord(v2.y, v2.w, (height - 1) as i64);
        (min3e(sx0, sx1, sx2), max3e(sx0, sx1, sx2), min3e(sy0, sy1, sy2), max3e(sy0, sy1, sy2))
    } else {
        // A vertex with w <= 0 straddles the camera plane: no perspective
        // divide is safe, so scan the whole viewport.
        (0, (width - 1) as i64, 0, (height - 1) as i64)
    };
    proof {
        let b = bbox(g0, g1, g2, gw, gh);
        assert(x_min as int == b.0 && x_max as int == b.1 && y_min as int == b.2 && y_max as int
            == b.3);
        assert(0 <= x_min <= x_max < width);
        assert(0 <= y_min <= y_max < height);
    }

    let (a0, b0, c0) = edge_coeffs(&v1, &v2);
    let (a1, b1, c1) = edge_coeffs(&v2, &v0);
    let (a2, b2, c2) = edge_coeffs(&v0, &v1);

    proof {
        lemma_mul_bound(a0 as int, v0.x as int, coeff_limit(), COORD_LIMIT as int);
        lemma_mul_bound(b0 as int, v0.y as int, coeff_limit(), COORD_LIMIT as int);
        lemma_mul_bound(c0 as int, v0.w as int, coeff_limit(), COORD_LIMIT as int);
    }
    let det: i128 = a0 * (v0.x as i128) + b0 * (v0.y as i128) + c0 * (v0.w as i128);
    proof {
        assert(det as int == tri_det(g0, g1, g2));
    }
    if det <= 0 {
        // Degenerate or back-facing.
        return None;
    }

    let mut pts: Vec<Pixel> = Vec::new();
    let mut y: i64 = y_min;
    proof {
        assert(pts@ + rows_seq(g0, g1, g2, y_min as int, y_max as int, x_min as int, x_max as int)
            =~= rows_seq(g0, g1, g2, y_min as int, y_max as int, x_min as int, x_max as int));
    }
    while y <= y_max
        invariant
            y_min <= y <= y_max + 1,
            pts@ + rows_seq(g0, g1, g2, y as int, y_max as int, x_min as int, x_max as int)
                == rows_seq(g0, g1, g2, y_min as int, y_max as int, x_min as int, x_max as int),
        decreases y_max + 1 - y,
    {
        let mut x: i64 = x_min;
        proof {
            assert(rows_seq(g0, g1, g2, y as int, y_max as int, x_min as int, x_max as int)
                == row_seq(g0, g1, g2, y as int, x_min as int, x_max as int) + rows_seq(
                g0,
                g1,
                g2,
                y as int + 1,
                y_max as int,
                x_min as int,
                x_max as int,
            ));
            assert(pts@ + (row_seq(g0, g1, g2, y as int, x_min as int, x_max as int) + rows_seq(
                g0,
                g1,
                g2,
                y as int + 1,
                y_max as int,
                x_min as int,
                x_max as int,
            )) =~= (pts@ + row_seq(g0, g1, g2, y as int, x_min as int, x_max as int)) + rows_seq(
                g0,
                g1,
                g2,
                y as int + 1,
                y_max as int,
                x_min as int,
                x_max as int,
            ));
        }
        while x <= x_max
            invariant
                x_min <= x <= x_max + 1,
                (pts@ + row_seq(g0, g1, g2, y as int, x as int, x_max as int)) + rows_seq(
                    g0,
                    g1,
                    g2,
                    y as int + 1,
                    y_max as int,
                    x_min as int,
                    x_max as int,
                ) == rows_seq(g0, g1, g2, y_min as int, y_max as int, x_min as int, x_max as int),
            decreases x_max + 1 - x,
        {
            proof {
                lemma_mul_bound(a0 as int, x as int, coeff_limit(), 0x10000);
                lemma_mul_bound(b0 as int, y as int, coeff_limit(), 0x10000);
                lemma_mul_bound(a1 as int, x as int, coeff_limit(), 0x10000);
                lemma_mul_bound(b1 as int, y as int, coeff_limit(), 0x10000);
                lemma_mul_bound(a2 as int, x as int, coeff_limit(), 0x10000);
                lemma_mul_bound(b2 as int, y as int, coeff_limit(), 0x10000);
            }
            let e0: i128 = a0 * (x as i128) + b0 * (y as i128) + c0;
            let e1: i128 = a1 * (x as i128) + b1 * (y as i128) + c1;
            let e2: i128 = a2 * (x as i128) + b2 * (y as i128) + c2;
            let ghost pts_before = pts@;
            if e0 > 0 && e1 > 0 && e2 > 0 {
                pts.push(Pixel { x: x as u16, y: y as u16 });
            }
            proof {
                assert(inside(g0, g1, g2, x as int, y as int) <==> (e0 > 0 && e1 > 0 && e2 > 0));
                let head = if inside(g0, g1, g2, x as int, y as int) {
                    seq![Pixel { x: x as u16, y: y as u16 }]
                } else {
                    Seq::<Pixel>::empty()
                };
                assert(row_seq(g0, g1, g2, y as int, x as int, x_max as int) == head + row_seq(
                    g0,
                    g1,
                    g2,
                    y as int,
                    x as int + 1,
                    x_max as int,
                ));
                assert(pts@ + row_seq(g0, g1, g2, y as int, x as int + 1, x_max as int)
                    =~= pts_before + row_seq(g0, g1, g2, y as int, x as int, x_max as int));
            }
            x = x + 1;
        }
        proof {
            assert(row_seq(g0, g1, g2, y as int, x as int, x_max as int) =~= Seq::<Pixel>::empty());
            assert(pts@ + rows_seq(g0, g1, g2, y as int + 1, y_max as int, x_min as int, x_max as int)
                =~= (pts@ + row_seq(g0, g1, g2, y as int, x as int, x_max as int)) + rows_seq(
                g0,
                g1,
                g2,
                y as int + 1,
                y_max as int,
                x_min as int,
                x_max as int,
            ));
        }
        y = y + 1;
    }
    proof {
        assert(rows_seq(g0, g1, g2, y as int, y_max as int, x_min as int, x_max as int) =~= Seq::<
            Pixel,
        >::empty());
        assert(pts@ =~= pts@ + rows_seq(g0, g1, g2, y as int, y_max as int, x_min as int, x_max as int));
        assert(pts@ == raster_pixels(g0, g1, g2, gw, gh));
    }
    Some(pts)
}

proof fn lemma_add_contains<A>(a: Seq<A>, b: Seq<A>, p: A)
    ensures
        (a + b).contains(p) <==> a.contains(p) || b.contains(p),
{
    if (a + b).contains(p) {
        let i = choose|i: int| 0 <= i < (a + b).len() && (a + b)[i] == p;
        if i < a.len() {
            assert(a[i] == p);
        } else {
            assert(b[i - a.len()] == p);
        }
    }
    if a.contains(p) {
        let i = choose|i: int| 0 <= i < a.len() && a[i] == p;
        assert((a + b)[i] == p);
    }
    if b.contains(p) {
        let i = choose|i: int| 0 <= i < b.len() && b[i] == p;
        assert((a + b)[a.len() + i] == p);
    }
}

/// A scan row holds exactly the pixels of its column range, at its own row,
/// that pass the strict inside test.
pub proof fn lemma_row_seq_contains(
    v0: Vec4v,
    v1: Vec4v,
    v2: Vec4v,
    py: int,
    px: int,
    px_end: int,
    p: Pixel,
)
    requires
        0 <= px,
        px_end < 0x10000,
        0 <= py < 0x10000,
    ensures
        row_seq(v0, v1, v2, py, px, px_end).contains(p) <==> (px <= p.x as int <= px_end
            && p.y as int == py && inside(v0, v1, v2, p.x as int, py)),
    decreases px_end + 1 - px,
{
    if px > px_end {
    } else {
        let head = if inside(v0, v1, v2, px, py) {
            seq![Pixel { x: px as u16, y: py as u16 }]
        } else {
            Seq::<Pixel>::empty()
        };
        let tail = row_seq(v0, v1, v2, py, px + 1, px_end);
        lemma_add_contains(head, tail, p);
        lemma_row_seq_contains(v0, v1, v2, py, px + 1, px_end, p);
        if inside(v0, v1, v2, px, py) {
            assert(head[0] == Pixel { x: px as u16, y: py as u16 });
            if p == (Pixel { x: px as u16, y: py as u16 }) {
                assert(head.contains(p));
            }
        }
    }
}

/// A scan block holds exactly the pixels of its row and column ranges that
/// pass the strict inside test.
pub proof fn lemma_rows_seq_contains(
    v0: Vec4v,
    v1: Vec4v,
    v2: Vec4v,
    py: int,
    py_end: int,
    px: int,
    px_end: int,
    p: Pixel,
)
    requires
        0 <= px,
        px_end < 0x10000,
        0 <= py,
        py_end < 0x10000,
    ensures
        rows_seq(v0, v1, v2, py, py_end, px, px_end).contains(p) <==> (px <= p.x as int <= px_end
            && py <= p.y as int <= py_end && inside(v0, v1, v2, p.x as int, p.y as int)),
    decreases py_end + 1 - py,
{
    if py > py_end {
    } else {
        lemma_add_contains(
            row_seq(v0, v1, v2, py, px, px_end),
            rows_seq(v0, v1, v2, py + 1, py_end, px, px_end),
            p,
        );
        lemma_row_seq_contains(v0, v1, v2, py, px, px_end, p);
        lemma_rows_seq_contains(v0, v1, v2, py + 1, py_end, px, px_end, p);
    }
}

/// Law: the rasterized sequence holds a pixel exactly when it lies within
/// the computed bounding box and passes the strict inside test.  In
/// particular no returned pixel lies outside the bounding box, and none lies
/// outside the viewport.
pub proof fn lemma_raster_pixels_bbox(
    v0: Vec4v,
    v1: Vec4v,
    v2: Vec4v,
    width: int,
    height: int,
    p: Pixel,
)
    requires
        1 <= width <= 0x10000,
        1 <= height <= 0x10000,
    ensures
        raster_pixels(v0, v1, v2, width, height).contains(p) <==> ({
            let b = bbox(v0, v1, v2, width, height);
            b.0 <= p.x as int <= b.1 && b.2 <= p.y as int <= b.3 && inside(
                v0,
                v1,
                v2,
                p.x as int,
                p.y as int,
            )
        }),
{
    let b = bbox(v0, v1, v2, width, height);
    assert(0 <= b.0 && b.1 <= width - 1 && 0 <= b.2 && b.3 <= height - 1);
    lemma_rows_seq_contains(v0, v1, v2, b.2, b.3, b.0, b.1, p);
}

/// Law: two triangles whose bounding boxes share no column range or no row
/// range rasterize to disjoint pixel sets.  Such triangles are independent:
/// a dispatcher may write them in any order and reach the same frame.
pub proof fn lemma_disjoint_bboxes_disjoint_pixels(
    t0: Vec4v,
    t1: Vec4v,
    t2: Vec4v,
    u0: Vec4v,
    u1: Vec4v,
    u2: Vec4v,
    width: int,
    height: int,
)
    requires
        1 <= width <= 0x10000,
        1 <= height <= 0x10000,
        ({
            let bt = bbox(t0, t1, t2, width, height);
            let bu = bbox(u0, u1, u2, width, height);
            bt.1 < bu.0 || bu.1 < bt.0 || bt.3 < bu.2 || bu.3 < bt.2
        }),
    ensures
        forall|p: Pixel|
            !(#[trigger] raster_pixels(t0, t1, t2, width, height).contains(p) && raster_pixels(
                u0,
                u1,
                u2,
                width,
                height,
            ).contains(p)),
{
    assert forall|p: Pixel|
        !(#[trigger] raster_pixels(t0, t1, t2, width, height).contains(p) && raster_pixels(
            u0,
            u1,
            u2,
            width,
            height,
        ).contains(p)) by {
        lemma_raster_pixels_bbox(t0, t1, t2, width, height, p);
        lemma_raster_pixels_bbox(u0, u1, u2, width, height, p);
    }
}

/// Law: rasterization is a pure function of its inputs.  Any two pixel
/// sequences obtained from the same vertices and the same viewport are the
/// same sequence; rasterizing twice changes nothing.
pub proof fn lemma_raster_deterministic(
    v0: Vec4v,
    v1: Vec4v,
    v2: Vec4v,
    width: int,
    height: int,
    r1: Seq<Pixel>,
    r2: Seq<Pixel>,
)
    requires
        r1 == raster_pixels(v0, v1, v2, width, height),
        r2 == raster_pixels(v0, v1, v2, width, height),
    ensures
        r1 == r2,
{
}

/// Law: a triangle with a vertex exactly on the camera plane (`w == 0`) is
/// never perspective-divided; its scan falls back to the whole viewport.
pub proof fn lemma_w_zero_full_viewport(
    v0: Vec4v,
    v1: Vec4v,
    v2: Vec4v,
    width: int,
    height: int,
)
    requires
        v0.w == 0 || v1.w == 0 || v2.w == 0,
    ensures
        bbox(v0, v1, v2, width, height) == (0int, width - 1, 0int, height - 1),
{
}

/// Law: each edge functional is the unnormalized barycentric coordinate of
/// its opposite vertex: it evaluates to the triangle determinant at that
/// vertex and to zero at the two vertices spanning the edge.  (Scaling by a
/// positive determinant, this is the classical "1 at the vertex, 0 along the
/// opposite edge".)
/// Cyclic symmetry of the 3x3 determinant: rotating the three rows leaves
/// it unchanged.  Both expansions are brought to the same six monomials.
proof fn lemma_det_cyclic(
    ax: int,
    ay: int,
    aw: int,
    bx: int,
    b_y: int,
    bw: int,
    cx: int,
    cy: int,
    cw: int,
)
    ensures
        (cy * aw - cw * ay) * bx + (cw * ax - cx * aw) * b_y + (cx * ay - cy * ax) * bw == (b_y * cw
            - bw * cy) * ax + (bw * cx - bx * cw) * ay + (bx * cy - b_y * cx) * aw,
{
    assert((cy * aw - cw * ay) * bx == (aw * bx) * cy - (ay * bx) * cw) by (nonlinear_arith);
    assert((cw * ax - cx * aw) * b_y == (ax * b_y) * cw - (aw * b_y) * cx) by (nonlinear_arith);
    assert((cx * ay - cy * ax) * bw == (ay * bw) * cx - (ax * bw) * cy) by (nonlinear_arith);
    assert((b_y * cw - bw * cy) * ax == (ax * b_y) * cw - (ax * bw) * cy) by (nonlinear_arith);
    assert((bw * cx - bx * cw) * ay == (ay * bw) * cx - (ay * bx) * cw) by (nonlinear_arith);
    assert((bx * cy - b_y * cx) * aw == (aw * bx) * cy - (aw * b_y) * cx) by (nonlinear_arith);
}

pub proof fn lemma_edge_fn_barycentric(v0: Vec4v, v1: Vec4v, v2: Vec4v)
    ensures
        edge_fn(v1, v2, v0.x, v0.y, v0.w) == tri_det(v0, v1, v2),
        edge_fn(v2, v0, v1.x, v1.y, v1.w) == tri_det(v0, v1, v2),
        edge_fn(v0, v1, v2.x, v2.y, v2.w) == tri_det(v0, v1, v2),
        edge_fn(v1, v2, v1.x, v1.y, v1.w) == 0,
        edge_fn(v1, v2, v2.x, v2.y, v2.w) == 0,
        edge_fn(v2, v0, v2.x, v2.y, v2.w) == 0,
        edge_fn(v2, v0, v0.x, v0.y, v0.w) == 0,
        edge_fn(v0, v1, v0.x, v0.y, v0.w) == 0,
        edge_fn(v0, v1, v1.x, v1.y, v1.w) == 0,
{
    lemma_det_cyclic(v0.x, v0.y, v0.w, v1.x, v1.y, v1.w, v2.x, v2.y, v2.w);
    assert(edge_fn(v2, v0, v1.x, v1.y, v1.w) == edge_fn(v1, v2, v0.x, v0.y, v0.w));
    lemma_det_cyclic(v1.x, v1.y, v1.w, v2.x, v2.y, v2.w, v0.x, v0.y, v0.w);
    assert(edge_fn(v0, v1, v2.x, v2.y, v2.w) == edge_fn(v2, v0, v1.x, v1.y, v1.w));
    assert(edge_fn(v1, v2, v1.x, v1.y, v1.w) == 0) by (nonlinear_arith);
    assert(edge_fn(v1, v2, v2.x, v2.y, v2.w) == 0) by (nonlinear_arith);
    assert(edge_fn(v2, v0, v2.x, v2.y, v2.w) == 0) by (nonlinear_arith);
    assert(edge_fn(v2, v0, v0.x, v0.y, v0.w) == 0) by (nonlinear_arith);
    assert(edge_fn(v0, v1, v0.x, v0.y, v0.w) == 0) by (nonlinear_arith);
    assert(edge_fn(v0, v1, v1.x, v1.y, v1.w) == 0) by (nonlinear_arith);
}

} // verus!

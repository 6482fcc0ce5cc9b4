//! Rasterizer properties: culling, winding, pixel counts, idempotence, and
//! the camera-plane fallback.

use softrast::raster::rasterize_triangle;
use softrast::{Pixel, Vec4Fx, Viewport};

const S: i64 = 65536;

/// A vertex already in pixel space, in front of the camera (w = 1).
fn px(x: i64, y: i64) -> Vec4Fx {
    Vec4Fx { x: x * S, y: y * S, z: 0, w: S }
}

#[test]
fn behind_camera_triangle_is_empty() {
    let vp = Viewport::new(100, 100);
    let v = |x: i64, y: i64| Vec4Fx { x: x * S, y: y * S, z: 0, w: -S };
    assert_eq!(rasterize_triangle(v(10, 10), v(50, 10), v(10, 50), &vp), None);
}

#[test]
fn one_vertex_in_front_is_not_behind_culled() {
    let vp = Viewport::new(100, 100);
    let mut v2 = px(10, 50);
    v2.w = -S;
    // Not all w < 0, so the triangle reaches the determinant test; this
    // winding is accepted and scanned over the whole viewport.
    let r = rasterize_triangle(px(10, 10), px(50, 10), v2, &vp);
    assert!(r.is_some());
}

#[test]
fn reversed_winding_is_empty() {
    let vp = Viewport::new(100, 100);
    // The same triangle in both windings: one fills, the other is culled.
    let accepted = rasterize_triangle(px(10, 10), px(50, 10), px(10, 50), &vp);
    let culled = rasterize_triangle(px(10, 10), px(10, 50), px(50, 10), &vp);
    assert!(accepted.is_some());
    assert!(!accepted.unwrap().is_empty());
    assert_eq!(culled, None);
}

#[test]
fn degenerate_triangle_is_empty() {
    let vp = Viewport::new(100, 100);
    assert_eq!(rasterize_triangle(px(10, 10), px(20, 20), px(30, 30), &vp), None);
    // A repeated vertex has zero area too.
    assert_eq!(rasterize_triangle(px(10, 10), px(10, 10), px(30, 40), &vp), None);
}

#[test]
fn right_triangle_pixel_count_is_half_square() {
    let vp = Viewport::new(100, 100);
    // Legs of length 40 aligned to the axes, corner at (10, 10).  The strict
    // inside test keeps pixels with x > 10, y > 10 and x + y < 60:
    // sum over y in 11..=48 of (49 - y) pixels.
    let l: i64 = 40;
    let pts = rasterize_triangle(px(10, 10), px(50, 10), px(10, 50), &vp).expect("front-facing");
    let expected: i64 = (1..=38).sum();
    assert_eq!(pts.len() as i64, expected);
    // Within rounding of the boundary policy, about l*l/2.
    assert!((pts.len() as i64 - l * l / 2).abs() <= 2 * l);
    // No pixel outside the bounding box of the vertices.
    for p in &pts {
        assert!(p.x >= 10 && p.x <= 50, "x out of box: {}", p.x);
        assert!(p.y >= 10 && p.y <= 50, "y out of box: {}", p.y);
        // The strict inside test, restated.
        assert!(p.x > 10 && p.y > 10 && (p.x as i64) + (p.y as i64) < 60);
    }
    // Row-major order, first pixel just inside the corner.
    assert_eq!(pts[0], Pixel { x: 11, y: 11 });
}

#[test]
fn rasterizing_twice_gives_identical_pixels() {
    let vp = Viewport::new(200, 150);
    let (a, b, c) = (px(17, 23), px(110, 31), px(60, 140));
    let first = rasterize_triangle(a, b, c, &vp);
    let second = rasterize_triangle(a, b, c, &vp);
    assert!(first.is_some());
    assert_eq!(first, second);
}

#[test]
fn vertex_on_camera_plane_takes_fallback_scan() {
    let vp = Viewport::new(40, 40);
    // v2 sits exactly at w = 0: no perspective divide may happen, and the
    // scan falls back to the whole viewport.
    let v0 = px(10, 10);
    let v1 = px(30, 10);
    let v2 = Vec4Fx { x: 0, y: S, z: 0, w: 0 };
    let r = rasterize_triangle(v0, v1, v2, &vp);
    // det = 20 * S^3 > 0 for this arrangement: accepted, no division by
    // zero, and every emitted pixel lies within the viewport.
    let pts = r.expect("accepted through the fallback branch");
    for p in &pts {
        assert!(p.x < 40 && p.y < 40);
    }
}

#[test]
fn vertex_on_camera_plane_back_facing_is_empty() {
    let vp = Viewport::new(40, 40);
    let v0 = px(10, 10);
    let v1 = px(30, 10);
    let v2 = Vec4Fx { x: 0, y: -S, z: 0, w: 0 };
    assert_eq!(rasterize_triangle(v0, v1, v2, &vp), None);
}

#[test]
fn bounding_box_clamps_to_viewport() {
    let vp = Viewport::new(50, 50);
    // A large triangle hanging far off every side still emits only
    // viewport pixels.
    let pts = rasterize_triangle(px(-100, -100), px(200, -100), px(-100, 200), &vp)
        .expect("front-facing");
    assert!(!pts.is_empty());
    for p in &pts {
        assert!(p.x < 50 && p.y < 50);
    }
}

//! End-to-end scene: a unit cube viewed from (0, 5, 8) toward the origin,
//! 45 degree vertical field of view, 1280x720 viewport.  Camera-facing faces
//! produce bounded, non-empty pixel sets; faces turned away produce none.

use softrast::mat::{combine, Mat4Fx, Vec4Fx};
use softrast::{Mesh, Vec3Fx, Viewport};

fn fx(v: f64) -> i64 {
    (v * 65536.0).round() as i64
}

fn mat_fx(m: [[f64; 4]; 4]) -> Mat4Fx {
    let r = |i: usize| Vec4Fx { x: fx(m[i][0]), y: fx(m[i][1]), z: fx(m[i][2]), w: fx(m[i][3]) };
    Mat4Fx { r0: r(0), r1: r(1), r2: r(2), r3: r(3) }
}

fn normalize(v: [f64; 3]) -> [f64; 3] {
    let n = (v[0] * v[0] + v[1] * v[1] + v[2] * v[2]).sqrt();
    [v[0] / n, v[1] / n, v[2] / n]
}

fn cross(a: [f64; 3], b: [f64; 3]) -> [f64; 3] {
    [a[1] * b[2] - a[2] * b[1], a[2] * b[0] - a[0] * b[2], a[0] * b[1] - a[1] * b[0]]
}

fn dot(a: [f64; 3], b: [f64; 3]) -> f64 {
    a[0] * b[0] + a[1] * b[1] + a[2] * b[2]
}

/// A right-handed view matrix looking from `eye` toward `center`.
fn look_at(eye: [f64; 3], center: [f64; 3], up: [f64; 3]) -> [[f64; 4]; 4] {
    let f = normalize([center[0] - eye[0], center[1] - eye[1], center[2] - eye[2]]);
    let s = normalize(cross(f, up));
    let u = cross(s, f);
    [
        [s[0], s[1], s[2], -dot(s, eye)],
        [u[0], u[1], u[2], -dot(u, eye)],
        [-f[0], -f[1], -f[2], dot(f, eye)],
        [0.0, 0.0, 0.0, 1.0],
    ]
}

/// A right-handed perspective projection with the given vertical field of
/// view (radians), aspect ratio and near/far planes.
fn perspective(fov_y: f64, aspect: f64, near: f64, far: f64) -> [[f64; 4]; 4] {
    let f = 1.0 / (fov_y / 2.0).tan();
    [
        [f / aspect, 0.0, 0.0, 0.0],
        [0.0, f, 0.0, 0.0],
        [0.0, 0.0, (far + near) / (near - far), 2.0 * far * near / (near - far)],
        [0.0, 0.0, -1.0, 0.0],
    ]
}

fn cube() -> Mesh {
    let vertices: Vec<Vec3Fx> = [
        (-0.5, -0.5, -0.5),
        (0.5, -0.5, -0.5),
        (0.5, -0.5, 0.5),
        (-0.5, -0.5, 0.5),
        (-0.5, 0.5, -0.5),
        (0.5, 0.5, -0.5),
        (0.5, 0.5, 0.5),
        (-0.5, 0.5, 0.5),
    ]
    .iter()
    .map(|&(x, y, z)| Vec3Fx { x: fx(x), y: fx(y), z: fx(z) })
    .collect();
    let indices = vec![
        3, 7, 6, 6, 2, 3, // +z face, toward the camera
        2, 6, 5, 5, 1, 2, // +x face, edge-on from x = 0
        1, 5, 4, 4, 0, 1, // -z face, away
        0, 4, 7, 7, 3, 0, // -x face, edge-on from x = 0
        7, 4, 5, 5, 6, 7, // +y face, toward the camera from above
        0, 3, 2, 2, 1, 0, // -y face, away
    ];
    Mesh::new(vertices, indices).expect("valid cube")
}

#[test]
fn cube_scene_culls_far_faces_and_fills_near_ones() {
    let vp = Viewport::new(1280, 720);
    let mesh = cube();
    let view = mat_fx(look_at([0.0, 5.0, 8.0], [0.0, 0.0, 0.0], [0.0, 1.0, 0.0]));
    let proj = mat_fx(perspective(45f64.to_radians(), 1280.0 / 720.0, 0.1, 100.0));
    let t = combine(&vp.matrix(), &proj, &view, &mesh.transform())
        .expect("pipeline product fits");

    let mut results = Vec::new();
    for k in 0..mesh.triangle_count() {
        results.push(mesh.triangle_pixels(&t, &vp, k));
    }

    // The +z and +y faces look at the camera: non-empty, bounded pixel sets.
    for &k in &[0usize, 1, 8, 9] {
        let paint = results[k].as_ref().expect("camera-facing triangle accepted");
        assert!(!paint.pixels.is_empty(), "triangle {} should fill pixels", k);
        for p in &paint.pixels {
            assert!(p.x < 1280 && p.y < 720, "pixel off screen in triangle {}", k);
        }
    }
    // The -z and -y faces look away: culled, no pixels at all.
    for &k in &[4usize, 5, 10, 11] {
        assert!(results[k].is_none(), "far-side triangle {} should be culled", k);
    }
    // A visible face covers a substantial part of a 1280x720 screen.
    let total: usize = results.iter().flatten().map(|tp| tp.pixels.len()).sum();
    assert!(total > 10_000, "scene should fill many pixels, got {}", total);
}

#[test]
fn cube_faces_share_their_first_vertex_color() {
    // Both triangles of one face name the same first vertex, so flat
    // shading colors the whole face alike.
    let vp = Viewport::new(640, 360);
    let mesh = cube();
    let view = mat_fx(look_at([0.0, 5.0, 8.0], [0.0, 0.0, 0.0], [0.0, 1.0, 0.0]));
    let proj = mat_fx(perspective(45f64.to_radians(), 640.0 / 360.0, 0.1, 100.0));
    let t = combine(&vp.matrix(), &proj, &view, &mesh.transform())
        .expect("pipeline product fits");
    // +y face: triangles 8 and 9, first indices 7 and 5.
    let a = mesh.triangle_pixels(&t, &vp, 8).expect("top face accepted");
    let b = mesh.triangle_pixels(&t, &vp, 9).expect("top face accepted");
    assert_eq!(a.color, mesh.color(7));
    assert_eq!(b.color, mesh.color(5));
}

//! Viewport, matrix and mesh-construction behavior.

use softrast::mat::{combine, mat4_identity, mat4_mul, transform_vertex, Mat4Fx, Vec3Fx, Vec4Fx};
use softrast::{Color, Mesh, Viewport};

const S: i64 = 65536;

fn fx(v: f64) -> i64 {
    (v * 65536.0).round() as i64
}

fn row(x: i64, y: i64, z: i64, w: i64) -> Vec4Fx {
    Vec4Fx { x, y, z, w }
}

fn cube_vertices() -> Vec<Vec3Fx> {
    [
        (-0.5, -0.5, -0.5),
        (0.5, -0.5, -0.5),
        (0.5, -0.5, 0.5),
        (-0.5, -0.5, 0.5),
        (-0.5, 0.5, -0.5),
        (0.5, 0.5, -0.5),
        (0.5, 0.5, 0.5),
        (-0.5, 0.5, 0.5),
    ]
    .iter()
    .map(|&(x, y, z)| Vec3Fx { x: fx(x), y: fx(y), z: fx(z) })
    .collect()
}

fn cube_indices() -> Vec<u32> {
    vec![
        3, 7, 6, 6, 2, 3, 2, 6, 5, 5, 1, 2, 1, 5, 4, 4, 0, 1, 0, 4, 7, 7, 3, 0, 7, 4, 5, 5, 6, 7,
        0, 3, 2, 2, 1, 0,
    ]
}

#[test]
fn viewport_dimensions_kept() {
    let vp = Viewport::new(1280, 720);
    assert_eq!(vp.dimensions(), (1280, 720));
    assert_eq!(vp.width(), 1280);
    assert_eq!(vp.height(), 720);
}

#[test]
fn viewport_matrix_entries() {
    let vp = Viewport::new(1280, 720);
    let m = vp.matrix();
    assert_eq!(m.r0, row(1280 * 32768, 0, 0, 1280 * 32768));
    assert_eq!(m.r1, row(0, -720 * 32768, 0, 720 * 32768));
    assert_eq!(m.r2, row(0, 0, 32768, 32768));
    assert_eq!(m.r3, row(0, 0, 0, 65536));
}

#[test]
fn identity_is_left_unit_of_multiplication() {
    let a = Mat4Fx {
        r0: row(fx(1.5), fx(-2.0), 0, fx(12.0)),
        r1: row(0, fx(0.25), fx(3.0), fx(-7.5)),
        r2: row(fx(-1.0), 0, fx(2.0), 0),
        r3: row(0, 0, 0, S),
    };
    assert_eq!(mat4_mul(&mat4_identity(), &a), Some(a));
    assert_eq!(mat4_mul(&a, &mat4_identity()), Some(a));
}

#[test]
fn multiplication_matches_hand_product() {
    // Two upper-left 2x2 blocks with exact fixed-point entries.
    let a = Mat4Fx {
        r0: row(2 * S, 3 * S, 0, 0),
        r1: row(S, -S, 0, 0),
        r2: row(0, 0, S, 0),
        r3: row(0, 0, 0, S),
    };
    let b = Mat4Fx {
        r0: row(5 * S, 0, 0, 7 * S),
        r1: row(-2 * S, S, 0, 0),
        r2: row(0, 0, S, 0),
        r3: row(0, 0, 0, S),
    };
    let c = mat4_mul(&a, &b).expect("product fits");
    // Row 0: 2*(5,0,0,7) + 3*(-2,1,0,0) = (4, 3, 0, 14).
    assert_eq!(c.r0, row(4 * S, 3 * S, 0, 14 * S));
    // Row 1: 1*(5,0,0,7) - 1*(-2,1,0,0) = (7, -1, 0, 7).
    assert_eq!(c.r1, row(7 * S, -S, 0, 7 * S));
    assert_eq!(c.r2, row(0, 0, S, 0));
    assert_eq!(c.r3, row(0, 0, 0, S));
}

#[test]
fn multiplication_out_of_range_is_refused() {
    let big = 0x8000_0000i64;
    let a = Mat4Fx { r0: row(big, 0, 0, 0), r1: row(0, big, 0, 0), r2: row(0, 0, big, 0), r3: row(
        0,
        0,
        0,
        big,
    ) };
    assert_eq!(mat4_mul(&a, &a), None);
}

#[test]
fn combine_is_the_nested_product() {
    let vp = Viewport::new(640, 480);
    let p = Mat4Fx {
        r0: row(fx(2.4), 0, 0, 0),
        r1: row(0, fx(2.4), 0, 0),
        r2: row(0, 0, fx(-1.0), fx(-0.2)),
        r3: row(0, 0, fx(-1.0), 0),
    };
    let v = Mat4Fx {
        r0: row(S, 0, 0, fx(0.5)),
        r1: row(0, S, 0, fx(-1.0)),
        r2: row(0, 0, S, fx(-8.0)),
        r3: row(0, 0, 0, S),
    };
    let m = mat4_identity();
    let nested = mat4_mul(
        &mat4_mul(&mat4_mul(&vp.matrix(), &p).unwrap(), &v).unwrap(),
        &m,
    )
    .unwrap();
    assert_eq!(combine(&vp.matrix(), &p, &v, &m), Some(nested));
}

#[test]
fn transform_vertex_by_identity_extends() {
    let v = Vec3Fx { x: fx(0.5), y: fx(-0.25), z: fx(2.0) };
    let t = transform_vertex(&mat4_identity(), &v);
    assert_eq!(t, Vec4Fx { x: fx(0.5), y: fx(-0.25), z: fx(2.0), w: S });
}

#[test]
fn transform_vertex_applies_translation() {
    let mut t = mat4_identity();
    t.r0.w = 3 * S;
    t.r1.w = -2 * S;
    let v = Vec3Fx { x: S, y: S, z: 0 };
    let r = transform_vertex(&t, &v);
    assert_eq!(r, Vec4Fx { x: 4 * S, y: -S, z: 0, w: S });
}

#[test]
fn mesh_new_accepts_cube_and_colors_every_vertex() {
    let mesh = Mesh::new(cube_vertices(), cube_indices()).expect("valid mesh");
    assert_eq!(mesh.vertex_count(), 8);
    assert_eq!(mesh.triangle_count(), 12);
    assert_eq!(mesh.transform(), mat4_identity());
    // One color per vertex exists.
    for i in 0..8 {
        let _ = mesh.color(i);
    }
}

#[test]
fn mesh_new_rejects_out_of_range_index() {
    let mesh = Mesh::new(cube_vertices(), vec![0, 1, 8]);
    assert!(mesh.is_none());
}

#[test]
fn mesh_new_rejects_partial_triangle() {
    let mesh = Mesh::new(cube_vertices(), vec![0, 1, 2, 3]);
    assert!(mesh.is_none());
}

#[test]
fn mesh_new_rejects_oversized_vertex() {
    let vertices = vec![
        Vec3Fx { x: 0x80_0001, y: 0, z: 0 },
        Vec3Fx { x: 0, y: 0, z: 0 },
        Vec3Fx { x: 0, y: S, z: 0 },
    ];
    let mesh = Mesh::new(vertices, vec![0, 1, 2]);
    assert!(mesh.is_none());
}

#[test]
fn mesh_with_colors_keeps_colors() {
    let colors: Vec<Color> = (0..8u16)
        .map(|i| Color { r: i * 1000, g: 0xFFFF - i * 1000, b: 0x8000 })
        .collect();
    let mesh = Mesh::with_colors(cube_vertices(), colors.clone(), cube_indices())
        .expect("valid mesh");
    for (i, c) in colors.iter().enumerate() {
        assert_eq!(mesh.color(i), *c);
    }
}

#[test]
fn mesh_with_colors_rejects_length_mismatch() {
    let colors = vec![Color { r: 0, g: 0, b: 0 }; 7];
    assert!(Mesh::with_colors(cube_vertices(), colors, cube_indices()).is_none());
}

#[test]
fn mesh_with_transform_replaces_transform() {
    let mesh = Mesh::new(cube_vertices(), cube_indices()).expect("valid mesh");
    let mut t = mat4_identity();
    t.r0.w = 2 * S;
    let mesh = mesh.with_transform(t);
    assert_eq!(mesh.transform(), t);
    assert_eq!(mesh.vertex_count(), 8);
}

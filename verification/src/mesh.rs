//! A mesh: vertex, color and index buffers, a local transform, and the
//! per-triangle walk that feeds the rasterizer.

use crate::mat::{
    hom3, identity_v, lift_mat, mat4_identity, mat4_mul, mat_in_range, mat_mul_v, transform4,
    transform_vertex, vec3_in_range, Mat4Fx, Mat4v, Vec3Fx,
};
use crate::num::{MAT_ENTRY_LIMIT, VERTEX_LIMIT};
use crate::raster::{raster_pixels, rasterize_triangle, rejected, Pixel};
use crate::viewport::{viewport_mat_v, Viewport};
use vstd::prelude::*;

verus! {

/// A flat triangle color; each channel is a fraction of `0xFFFF`.
#[derive(Clone, Copy, PartialEq, Eq, Structural, Debug, Hash)]
pub struct Color {
    pub r: u16,
    pub g: u16,
    pub b: u16,
}

/// The rasterized pixels of one accepted triangle, with its flat color:
/// the unit a raster target consumes in one write.
#[derive(Clone, Debug)]
pub struct TrianglePaint {
    pub color: Color,
    pub pixels: Vec<Pixel>,
}

/// Relies on rand::random: a sample of the standard distribution from the
/// thread-local generator; nothing is promised of the value.
pub assume_specification<T>[ rand::random::<T> ]() -> (r: T)
    where
        rand::distr::StandardUniform: rand::distr::Distribution<T>,
;

/// One color with arbitrary channels.
fn random_color() -> Color {
    Color { r: rand::random::<u16>(), g: rand::random::<u16>(), b: rand::random::<u16>() }
}

/// The construction-time contract of a mesh: the index buffer is a whole
/// number of triangles, every index names a vertex, and every vertex
/// coordinate is within the model-space limit.
pub open spec fn mesh_inputs_ok(vertices: Seq<Vec3Fx>, indices: Seq<u32>) -> bool {
    &&& indices.len() % 3 == 0
    &&& forall|i: int| 0 <= i < indices.len() ==> (#[trigger] indices[i] as int) < vertices.len()
    &&& forall|i: int|
        0 <= i < vertices.len() ==> vec3_in_range(#[trigger] vertices[i], VERTEX_LIMIT as int)
}

/// The view a sequence of triangle paints presents to specifications: each
/// paint as its pixel sequence and color.
pub open spec fn paints_of(s: Seq<TrianglePaint>) -> Seq<(Seq<Pixel>, Color)> {
    s.map_values(|tp: TrianglePaint| (tp.pixels@, tp.color))
}

fn inputs_ok(vertices: &Vec<Vec3Fx>, indices: &Vec<u32>) -> (b: bool)
    ensures
        b == mesh_inputs_ok(vertices@, indices@),
{
    if indices.len() % 3 != 0 {
        return false;
    }
    let mut i: usize = 0;
    while i < indices.len()
        invariant
            0 <= i <= indices@.len(),
            forall|j: int| 0 <= j < i ==> (#[trigger] indices@[j] as int) < vertices@.len(),
        decreases indices@.len() - i,
    {
        if indices[i] as usize >= vertices.len() {
            return false;
        }
        i = i + 1;
    }
    let mut i: usize = 0;
    while i < vertices.len()
        invariant
            0 <= i <= vertices@.len(),
            forall|j: int|
                0 <= j < i ==> vec3_in_range(#[trigger] vertices@[j], VERTEX_LIMIT as int),
        decreases vertices@.len() - i,
    {
        let v = vertices[i];
        if v.x < -VERTEX_LIMIT || v.x > VERTEX_LIMIT || v.y < -VERTEX_LIMIT || v.y > VERTEX_LIMIT
            || v.z < -VERTEX_LIMIT || v.z > VERTEX_LIMIT {
            return false;
        }
        i = i + 1;
    }
    true
}

/// Vertex, color and index buffers with a local transform.  Read-only during
/// rendering; built once, and only through the validating constructors.
pub struct Mesh {
    vertices: Vec<Vec3Fx>,
    colors: Vec<Color>,
    indices: Vec<u32>,
    transform: Mat4Fx,
}

impl Mesh {
    pub closed spec fn spec_vertices(self) -> Seq<Vec3Fx> {
        self.vertices@
    }

    pub closed spec fn spec_colors(self) -> Seq<Color> {
        self.colors@
    }

    pub closed spec fn spec_indices(self) -> Seq<u32> {
        self.indices@
    }

    pub closed spec fn spec_transform(self) -> Mat4Fx {
        self.transform
    }

    pub open spec fn triangle_count_spec(self) -> int {
        self.spec_indices().len() as int / 3
    }

    /// Valid buffers, one color per vertex, and a bounded local transform.
    pub open spec fn wf(self) -> bool {
        &&& mesh_inputs_ok(self.spec_vertices(), self.spec_indices())
        &&& self.spec_colors().len() == self.spec_vertices().len()
        &&& mat_in_range(lift_mat(self.spec_transform()), MAT_ENTRY_LIMIT as int)
    }

    /// A mesh with one freshly drawn random color per vertex, the identity
    /// local transform, and validated buffers: construction fails exactly
    /// when the buffers break the construction-time contract.
    pub fn new(vertices: Vec<Vec3Fx>, indices: Vec<u32>) -> (r: Option<Mesh>)
        ensures
            r is Some <==> mesh_inputs_ok(vertices@, indices@),
            r matches Some(m) ==> {
                &&& m.wf()
                &&& m.spec_vertices() == vertices@
                &&& m.spec_indices() == indices@
                &&& m.spec_colors().len() == vertices@.len()
                &&& lift_mat(m.spec_transform()) == identity_v()
            },
    {
        if !inputs_ok(&vertices, &indices) {
            return None;
        }
        let mut colors: Vec<Color> = Vec::new();
        let mut i: usize = 0;
        while i < vertices.len()
            invariant
                i <= vertices@.len(),
                colors@.len() == i,
            decreases vertices@.len() - i,
        {
            colors.push(random_color());
            i = i + 1;
        }
        Some(Mesh { vertices, colors, indices, transform: mat4_identity() })
    }

    /// A mesh with a caller-chosen color per vertex; construction fails
    /// exactly when the buffers break the construction-time contract or the
    /// color buffer's length differs from the vertex buffer's.
    pub fn with_colors(vertices: Vec<Vec3Fx>, colors: Vec<Color>, indices: Vec<u32>) -> (r: Option<
        Mesh,
    >)
        ensures
            r is Some <==> (mesh_inputs_ok(vertices@, indices@) && colors@.len()
                == vertices@.len()),
            r matches Some(m) ==> {
                &&& m.wf()
                &&& m.spec_vertices() == vertices@
                &&& m.spec_colors() == colors@
                &&& m.spec_indices() == indices@
                &&& lift_mat(m.spec_transform()) == identity_v()
            },
    {
        if colors.len() != vertices.len() {
            return None;
        }
        if !inputs_ok(&vertices, &indices) {
            return None;
        }
        Some(Mesh { vertices, colors, indices, transform: mat4_identity() })
    }

    /// The same mesh rebuilt with another local transform; the buffers are
    /// kept as they are.
    pub fn with_transform(self, t: Mat4Fx) -> (r: Mesh)
        requires
            self.wf(),
            mat_in_range(lift_mat(t), MAT_ENTRY_LIMIT as int),
        ensures
            r.wf(),
            r.spec_transform() == t,
            r.spec_vertices() == self.spec_vertices(),
            r.spec_colors() == self.spec_colors(),
            r.spec_indices() == self.spec_indices(),
    {
        Mesh { transform: t, ..self }
    }

    /// The local transform, identity unless replaced.
    pub fn transform(&self) -> (r: Mat4Fx)
        ensures
            r == self.spec_transform(),
    {
        self.transform
    }

    pub fn vertex_count(&self) -> (r: usize)
        ensures
            r == self.spec_vertices().len(),
    {
        self.vertices.len()
    }

    pub fn triangle_count(&self) -> (r: usize)
        ensures
            r == self.triangle_count_spec(),
    {
        self.indices.len() / 3
    }

    pub fn color(&self, i: usize) -> (r: Color)
        requires
            i < self.spec_colors().len(),
        ensures
            r == self.spec_colors()[i as int],
    {
        self.colors[i]
    }

    /// What triangle `k` contributes under the combined transform `tm`:
    /// nothing when its transformed vertices are rejected, and otherwise its
    /// rasterized pixels with the color of its first vertex.
    pub open spec fn spec_triangle(self, tm: Mat4v, width: int, height: int, k: int) -> Option<
        (Seq<Pixel>, Color),
    > {
        let i0 = self.spec_indices()[3 * k] as int;
        let i1 = self.spec_indices()[3 * k + 1] as int;
        let i2 = self.spec_indices()[3 * k + 2] as int;
        let tv0 = transform4(tm, hom3(self.spec_vertices()[i0]));
        let tv1 = transform4(tm, hom3(self.spec_vertices()[i1]));
        let tv2 = transform4(tm, hom3(self.spec_vertices()[i2]));
        if rejected(tv0, tv1, tv2) {
            None
        } else {
            Some((raster_pixels(tv0, tv1, tv2, width, height), self.spec_colors()[i0]))
        }
    }

    /// The contributions of triangles `k` onward, in index order, accepted
    /// triangles only.
    pub open spec fn spec_draw(self, tm: Mat4v, width: int, height: int, k: int) -> Seq<
        (Seq<Pixel>, Color),
    >
        decreases self.triangle_count_spec() - k,
    {
        if k >= self.triangle_count_spec() {
            Seq::empty()
        } else {
            (match self.spec_triangle(tm, width, height, k) {
                Some(pr) => seq![pr],
                None => Seq::empty(),
            }) + self.spec_draw(tm, width, height, k + 1)
        }
    }

    /// Transform and rasterize one triangle.  This is the read-only unit of
    /// work a dispatcher may hand to any worker: it writes nothing.
    pub fn triangle_pixels(&self, t: &Mat4Fx, vp: &Viewport, k: usize) -> (r: Option<
        TrianglePaint,
    >)
        requires
            self.wf(),
            vp.wf(),
            mat_in_range(lift_mat(*t), MAT_ENTRY_LIMIT as int),
            k < self.triangle_count_spec(),
        ensures
            r is Some <==> self.spec_triangle(
                lift_mat(*t),
                vp.spec_width() as int,
                vp.spec_height() as int,
                k as int,
            ) is Some,
            r matches Some(tp) ==> Some((tp.pixels@, tp.color)) == self.spec_triangle(
                lift_mat(*t),
                vp.spec_width() as int,
                vp.spec_height() as int,
                k as int,
            ),
    {
        let idx_len = self.indices.len();
        proof {
            let n = idx_len as int;
            assert(n == 3 * (n / 3) + n % 3) by {
                vstd::arithmetic::div_mod::lemma_fundamental_div_mod(n, 3);
            }
            assert(3 * (k as int) + 2 < n);
        }
        let i0 = self.indices[3 * k] as usize;
        let i1 = self.indices[3 * k + 1] as usize;
        let i2 = self.indices[3 * k + 2] as usize;
        let tv0 = transform_vertex(t, &self.vertices[i0]);
        let tv1 = transform_vertex(t, &self.vertices[i1]);
        let tv2 = transform_vertex(t, &self.vertices[i2]);
        match rasterize_triangle(tv0, tv1, tv2, vp) {
            Some(pixels) => Some(TrianglePaint { color: self.colors[i0], pixels }),
            None => None,
        }
    }

    /// Draw the whole mesh under the model-view-projection transform `mvp`:
    /// compose the viewport matrix onto it, then rasterize every triangle in
    /// index order.  Fails exactly when the composed matrix leaves the entry
    /// limit.  The result lists the accepted triangles' pixels and colors;
    /// writing them to a raster target is the caller's step.
    #[verifier::loop_isolation(false)]
    pub fn draw(&self, mvp: &Mat4Fx, vp: &Viewport) -> (r: Option<Vec<TrianglePaint>>)
        requires
            self.wf(),
            vp.wf(),
            mat_in_range(lift_mat(*mvp), MAT_ENTRY_LIMIT as int),
        ensures
            r is Some <==> mat_in_range(
                mat_mul_v(
                    viewport_mat_v(vp.spec_width() as int, vp.spec_height() as int),
                    lift_mat(*mvp),
                ),
                MAT_ENTRY_LIMIT as int,
            ),
            r matches Some(list) ==> paints_of(list@) == self.spec_draw(
                mat_mul_v(
                    viewport_mat_v(vp.spec_width() as int, vp.spec_height() as int),
                    lift_mat(*mvp),
                ),
                vp.spec_width() as int,
                vp.spec_height() as int,
                0,
            ),
    {
        let ghost gprod = mat_mul_v(
            viewport_mat_v(vp.spec_width() as int, vp.spec_height() as int),
            lift_mat(*mvp),
        );
        let ghost gw = vp.spec_width() as int;
        let ghost gh = vp.spec_height() as int;
        let vpm = vp.matrix();
        let t = match mat4_mul(&vpm, mvp) {
            Some(t) => t,
            None => {
                return None;
            },
        };
        proof {
            assert(lift_mat(t) == gprod);
        }
        let n = self.triangle_count();
        let mut out: Vec<TrianglePaint> = Vec::new();
        let mut k: usize = 0;
        proof {
            assert(paints_of(out@) + self.spec_draw(gprod, gw, gh, 0) =~~= self.spec_draw(
                gprod,
                gw,
                gh,
                0,
            ));
        }
        while k < n
            invariant
                k <= n,
                paints_of(out@) + self.spec_draw(gprod, gw, gh, k as int) == self.spec_draw(
                    gprod,
                    gw,
                    gh,
                    0,
                ),
            decreases n - k,
        {
            let ghost out_before = out@;
            match self.triangle_pixels(&t, vp, k) {
                Some(tp) => {
                    let ghost pr = (tp.pixels@, tp.color);
                    out.push(tp);
                    proof {
                        assert(paints_of(out@) =~~= paints_of(out_before).push(pr));
                        assert(self.spec_draw(gprod, gw, gh, k as int) == seq![pr]
                            + self.spec_draw(gprod, gw, gh, k as int + 1));
                        assert(paints_of(out@) + self.spec_draw(gprod, gw, gh, k as int + 1)
                            =~~= paints_of(out_before) + self.spec_draw(gprod, gw, gh, k as int));
                    }
                },
                None => {
                    proof {
                        assert(self.spec_draw(gprod, gw, gh, k as int) == Seq::<
                            (Seq<Pixel>, Color),
                        >::empty() + self.spec_draw(gprod, gw, gh, k as int + 1));
                        assert(paints_of(out@) + self.spec_draw(gprod, gw, gh, k as int + 1)
                            =~~= paints_of(out@) + self.spec_draw(gprod, gw, gh, k as int));
                    }
                },
            }
            k = k + 1;
        }
        proof {
            assert(self.spec_draw(gprod, gw, gh, k as int) =~~= Seq::<(Seq<Pixel>, Color)>::empty());
            assert(paints_of(out@) =~~= paints_of(out@) + self.spec_draw(gprod, gw, gh, k as int));
        }
        Some(out)
    }
}

} // verus!

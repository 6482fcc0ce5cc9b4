//! A software triangle rasterizer over fixed-point coordinates.
//!
//! World-space vertices are carried through a model-view-projection-viewport
//! transform into pixel-space homogeneous coordinates, and each triangle is
//! rasterized with exact integer barycentric edge functions.  All coordinates
//! are fixed-point numbers: an `i64` holding the real value times [`num::SCALE`].

pub mod frame;
pub mod mat;
pub mod mesh;
pub mod num;
pub mod raster;
pub mod viewport;

pub use frame::Frame;
pub use mat::{Mat4Fx, Vec3Fx, Vec4Fx};
pub use mesh::{Color, Mesh, TrianglePaint};
pub use raster::Pixel;
pub use viewport::Viewport;


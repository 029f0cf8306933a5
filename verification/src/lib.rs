//! The geometry-to-render pipeline and the spatial layer store of a map
//! viewer.
//!
//! Layers of vector geometry are kept with their bounding rectangles and a
//! merged extent, and answer which layers lie under a coordinate. Polygons
//! are packed for a triangulator and their triangles gathered into one mesh
//! for each layer; line strings become quads to stroke; rings become pen
//! commands. A camera pans and zooms on key presses and moves to show each
//! newly loaded layer.
//!
//! Everything here works on whole numbers. Coordinates are positions on an
//! integer grid whose unit the caller chooses, and the scale of the camera is
//! counted in thousandths. What needs real numbers (the triangulator itself,
//! and the normals of stroke corners) is left to the caller, who hands the
//! results back as plain values.

pub mod bounding_rect;
pub mod camera;
pub mod contains;
pub mod error;
pub mod geometry;
pub mod layer;
pub mod path;
pub mod render;
pub mod settings;
pub mod stroke;
pub mod tasks;
pub mod tessellate;

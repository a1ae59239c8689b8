//! Mesh ingestion and vertex generation for a rasterising renderer.
//!
//! A Wavefront-style text mesh is scanned into a geometry store and a list of
//! faces, every face is split into triangles, and the triangles are laid out
//! as vertex buffers, either expanded (one vertex per triangle corner, with
//! barycentric weights) or indexed (distinct vertices plus 16-bit indices).
//!
//! Scalars are carried as the bit patterns of single-precision numbers: the
//! library copies and compares them and never computes with them.
//!
//! * [`scanner`], [`literal`] and [`record`] read lines, tokens and records;
//!   [`parse`] reads a whole text.
//! * [`store`] holds the geometry and resolves corners to vertices.
//! * [`face`] holds faces and the rule that splits them into triangles.
//! * [`mesh`] joins geometry and faces; [`emit`] lays a mesh out as buffers.
//! * [`scene`], [`camera`] and [`context`] serve a viewer: what it draws, and
//!   what its window events ask of it.

pub mod error;
pub mod scanner;
pub mod literal;
pub mod face;
pub mod store;
pub mod mesh;
pub mod record;
pub mod parse;
pub mod emit;
pub mod scene;
pub mod camera;
pub mod context;

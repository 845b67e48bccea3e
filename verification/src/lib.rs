//! An interpreter for the LDraw part-file format.
//!
//! LDraw part files are line-based text files that describe brick geometry as
//! a hierarchy: a file emits triangles and quadrilaterals of its own and
//! places other files under affine transforms.  This crate resolves such a
//! hierarchy into a flat list of oriented, colored triangles:
//!
//! * [`color`] maps numeric LDraw color codes to RGBA values,
//! * [`geom`] holds the fixed-point points, transforms and polygons,
//! * [`scan`] splits file contents into lines and whitespace tokens,
//! * [`digits`] reads decimal numbers into fixed-point values,
//! * [`loader`] assembles the flat triangle list from a set of part files,
//! * [`laws`] states and proves the format-level guarantees of the loader,
//! * [`render`] holds plain data shared with a rendering layer.
//!
//! All coordinates are exact fixed-point numbers in millionths of an LDraw
//! unit; reading the files, locating them on disk and converting the result
//! to floating point for display are left to the embedding application.

pub mod color;
pub mod digits;
pub mod geom;
pub mod laws;
pub mod loader;
pub mod render;
pub mod scan;

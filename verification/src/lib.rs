//! Data model of a brush-based level editor: map documents, layers, brushes,
//! entities and groups, together with the index bookkeeping that turns brush
//! faces and height-field grids into triangle meshes.
//!
//! Floating-point quantities (coordinates, colours, intensities) are carried
//! through the model as the IEEE-754 bit patterns of single-precision numbers;
//! the arithmetic on them lives with the renderer, outside this crate.

pub mod types;
pub mod ids;
pub mod brush;
pub mod layer;
pub mod group;
pub mod entity;
pub mod document;
pub mod geometry;
pub mod terrain;
pub mod tools;
pub mod editor;

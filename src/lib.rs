//! In-memory raster annotation engine of a screenshot tool: a captured bitmap with its
//! original and checkpoint copies, the editing operations on it, the mapping from
//! display coordinates back to pixels, and the tool state that drives the editing.

pub mod pixel;
pub mod raster;
pub mod backend;
pub mod screenshot;
pub mod brush;
pub mod drawing;
pub mod text;
pub mod viewport;
pub mod editor;
pub mod settings;
pub mod saving;

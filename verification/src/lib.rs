//! Editing engine of a 2D tile-level editor: tiles, layers, levels, undo
//! history, rectangular selections, fill tools and the project file schema.

pub mod clipboard;
pub mod codec;
pub mod color;
pub mod editor;
pub mod history;
pub mod json;
pub mod layer;
pub mod level;
pub mod project;
pub mod region;
pub mod schema;
pub mod selection;
pub mod text;
pub mod tile;
pub mod tile_key;

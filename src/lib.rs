pub mod value;
pub mod ns_archive;
pub mod text;
pub mod geometry;
pub mod tiling;
pub mod canvas;
pub mod silica;
pub mod tiles;
pub mod document;
pub mod source;
pub mod laws;

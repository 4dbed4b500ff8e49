//! Verified core of a viewer for very large text files.

pub mod bounds;
pub mod decimal;
pub mod egui;
pub mod encodings;
pub mod fields;
pub mod hexcolor;
pub mod levels;
pub mod macos;
pub mod native;
pub mod numbers;
pub mod occurrences;
pub mod palettes;
pub mod paths;
pub mod sorting;
pub mod text;
pub mod utf16;

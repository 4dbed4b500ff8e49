//! Logic of the egui front end.

pub mod highlight;
pub mod huge_cache;
pub mod panel;
pub mod rows;
pub mod toolbar;
pub mod viewer;

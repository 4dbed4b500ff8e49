//! Dialogs.

pub mod donate;
pub mod encoding;
pub mod frame;
pub mod indexes;
pub mod notes;
pub mod settings;
pub mod text_panel;
pub mod texts;

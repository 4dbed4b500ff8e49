//! Logic of the AppKit front end.

pub mod app;
pub mod bridge;
pub mod config;
pub mod dialogs;
pub mod lines;
pub mod menu;
pub mod selection;
pub mod session;
pub mod settings_sheet;
pub mod text;
pub mod theme;
pub mod toolbar;
pub mod util;
pub mod view;
pub mod window;

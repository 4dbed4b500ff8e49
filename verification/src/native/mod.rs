//! Logic of the Win32 front end.

pub mod annotations;
pub mod app;
pub mod diagnostics;
pub mod dlg;
pub mod drawing;
pub mod engine_bridge;
pub mod fontmgr;
pub mod geom;
pub mod layout;
pub mod marks;
pub mod menu;
pub mod msg;
pub mod paint;
pub mod scroll;
pub mod selection;
pub mod session;
pub mod settings;
pub mod statusbar;
pub mod theme;
pub mod toolbar;
pub mod view;
pub mod widgets;

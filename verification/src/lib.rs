//! The verified core of Tessera, a terminal emulator with draggable pane
//! splitting: everything that decides, computes or parses, apart from drawing
//! and talking to the operating system.

pub mod app;
pub mod case;
pub mod color;
pub mod config;
pub mod dialogs;
pub mod font;
pub mod frame;
pub mod keynames;
pub mod keys;
pub mod labels;
pub mod launch;
pub mod laws;
pub mod layout;
pub mod number;
pub mod outcomes;
pub mod panes;
pub mod paste;
pub mod pointer;
pub mod presses;
pub mod routing;
pub mod shortcuts;
pub mod strip;
pub mod template;
pub mod terminal;
pub mod text;
pub mod theme;
pub mod tiling;
pub mod typing;

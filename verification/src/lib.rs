use vstd::prelude::*;

pub mod app;
pub mod backend;
pub mod config;
pub mod diff;
pub mod editor;
pub mod keybindings;
pub mod laws;
pub mod list_laws;
pub mod session;
pub mod text;
pub mod view;
pub mod window;

verus! {
}

//! Settings persistence and menubar behaviour of a small terminal text editor.
//!
//! The library holds the editor's decisions as plain functions with contracts:
//! how `settings.json` is read into [`settings::Settings`], how the
//! `window.menuBarVisibility` key is rewritten in place, and how the menubar
//! decides what to draw and what a menu entry does. Drawing, terminal input and
//! file access stay with the caller.

pub mod apperr;
pub mod buffer;
pub mod input;
pub mod json;
pub mod menubar;
pub mod settings;
pub mod text;

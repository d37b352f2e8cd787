//! `vvv` as verified logic: reading Rust and TypeScript files (their
//! declarations, imports, identifier tokens and colours, from a parse by
//! tree-sitter through ast-grep), the path algebra of their layouts and the
//! surgery that respells imports and module lines, and the interactive
//! picker: keys and keymaps, the query bar, and the state machine of the
//! search hub and its modes.

use vstd::prelude::*;

pub mod action;
pub mod engine;
pub mod keymap;
pub mod keys;
pub mod model;
pub mod paths;
pub mod modes;
pub mod picker;
pub mod query;
pub mod rust;
pub mod screen;
pub mod session;
pub mod source;
pub mod syntax;
pub mod text;
pub mod typescript;
pub mod update;
pub mod wording;

verus! {
} // verus!

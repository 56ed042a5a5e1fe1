//! The expansion engine of a text expander: it recognizes triggers in the
//! stream of typed keys, renders their templates, and decides the key
//! presses and clipboard operations that replace a trigger by its expansion.
//! The side effects themselves (key synthesis, the clipboard, the shell, the
//! clock) are the caller's: the engine takes their results as arguments and
//! hands back lists of `engine::Action`s to carry out.

use vstd::prelude::*;

pub mod engine;
pub mod extension;
pub mod laws;
pub mod matcher;
pub mod model;
pub mod render;
pub mod params;
pub mod text;

verus! {

/// The operating system family the daemon runs on.
#[derive(Clone, Copy, PartialEq, Eq, Structural, Debug)]
pub enum Platform {
    Linux,
    MacOs,
    Windows,
}

} // verus!

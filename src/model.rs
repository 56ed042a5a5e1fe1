use vstd::prelude::*;

use crate::params::Params;

verus! {

/// How a replacement reaches the focused application.
#[derive(Clone, Copy, PartialEq, Eq, Structural, Debug)]
pub enum Backend {
    /// Synthesized key presses.
    Inject,
    /// The clipboard, then a paste shortcut.
    Clipboard,
}

/// The options of a configuration that the engine reads.
pub struct Config {
    pub backend: Backend,
    /// Matches are ignored while this is false.
    pub enable_active: bool,
    /// The passive-mode key does nothing while this is false.
    pub enable_passive: bool,
    /// Save the clipboard before a clipboard expansion and restore it after;
    /// the engine reads this from the default configuration.
    pub preserve_clipboard: bool,
    pub paste_shortcut: String,
    /// Least number of milliseconds between two honored actions.
    pub action_noop_interval: u64,
    /// Milliseconds to wait before the saved clipboard is written back.
    pub restore_clipboard_delay: u64,
}

/// The extensions that compute a variable's value.
#[derive(Clone, Copy, PartialEq, Eq, Structural, Debug)]
pub enum ExtensionKind {
    Dummy,
    Random,
    Shell,
}

/// A variable of a text match.
pub struct Variable {
    pub name: String,
    pub kind: ExtensionKind,
    pub params: Params,
}

/// What a match expands to.
pub enum MatchContent {
    Text { template: String, vars: Vec<Variable> },
    Image { path: String },
}

/// A trigger and its replacement.
pub struct Match {
    pub trigger: String,
    pub content: MatchContent,
    /// Whether the trigger must be followed by a separator.
    pub word: bool,
}

/// The outcome of rendering a match.
#[derive(Debug, PartialEq, Eq)]
pub enum RenderResult {
    Text(String),
    Image(String),
    Error,
}

} // verus!

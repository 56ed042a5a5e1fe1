use vstd::prelude::*;

use crate::extension::dummy::{echo_key, DummyExtension};
use crate::extension::item_text;
use crate::extension::random::{choice_items, RandomExtension};
use crate::extension::shell::{arg_marker, cmd_key, ShellExtension};
use crate::extension::text_or_empty;
use crate::model::{ExtensionKind, Match, MatchContent, RenderResult, Variable};
use crate::params::ParamValue;
use crate::text::{
    chars_of, normalize, normalize_newlines, render_positional, string_of, substitute_variables,
    substitute_vars,
};
use crate::Platform;

verus! {

/// Where a variable's value stands after its extension ran in the library.
pub enum Evaluation {
    /// The value, or `None` where the extension gave none.
    Ready(Option<String>),
    /// The value is what this shell command prints, shaped by
    /// `ShellExtension::process_output`; `None` where it cannot be run.
    RunShell(String),
}

/// The rendering of templates, with the extensions that compute variables.
pub struct Renderer {
    pub dummy: DummyExtension,
    pub random: RandomExtension,
    pub shell: ShellExtension,
}

impl Renderer {
    pub fn new(platform: Platform) -> (r: Renderer)
        ensures
            r.shell.platform == platform,
    {
        Renderer { dummy: DummyExtension::new(), random: RandomExtension::new(), shell: ShellExtension::new(platform) }
    }

    /// Runs the extension of `var` with the positional arguments `args`, as
    /// far as it runs without the outside world.
    pub fn evaluate(&self, var: &Variable, args: &Vec<String>) -> (r: Evaluation)
        ensures
            var.kind == ExtensionKind::Dummy ==> (r matches Evaluation::Ready(o) && (o is None <==> var.params.lookup(
                echo_key(),
            ) is None) && (o matches Some(s) ==> s@ == text_or_empty(var.params.lookup(echo_key())->0))),
            var.kind == ExtensionKind::Random ==> (r matches Evaluation::Ready(o) && (o is Some <==> (choice_items(
                var.params,
            ) matches Some(items) && items.len() > 0)) && (o matches Some(out) ==> exists|i: int|
                0 <= i < choice_items(var.params)->0.len() && out@ == render_positional(
                    #[trigger] item_text(choice_items(var.params)->0[i]),
                    args@,
                    '$',
                    true,
                ))),
            var.kind == ExtensionKind::Shell ==> (if var.params.lookup(cmd_key()) matches Some(ParamValue::Str(_)) {
                r matches Evaluation::RunShell(c) && c@ == render_positional(
                    text_or_empty(var.params.lookup(cmd_key())->0),
                    args@,
                    arg_marker(self.shell.platform),
                    false,
                )
            } else {
                r matches Evaluation::Ready(None)
            }),
    {
        match var.kind {
            ExtensionKind::Dummy => Evaluation::Ready(self.dummy.calculate(&var.params, args)),
            ExtensionKind::Random => Evaluation::Ready(self.random.calculate(&var.params, args)),
            ExtensionKind::Shell => match self.shell.prepare_command(&var.params, args) {
                Some(c) => Evaluation::RunShell(c),
                None => Evaluation::Ready(None),
            },
        }
    }

    /// The binding of the variable `name` to `value`, or to an empty text
    /// where its extension gave no value.
    pub fn bind(name: &String, value: Option<String>) -> (r: (String, String))
        ensures
            r.0@ == name@,
            r.1@ == (match value {
                Some(v) => v@,
                None => Seq::<char>::empty(),
            }),
    {
        match value {
            Some(v) => (name.clone(), v),
            None => (name.clone(), String::new()),
        }
    }

    /// The template with its variables replaced by their values, and its
    /// newlines normalized.
    pub fn render_text(template: &String, bindings: &Vec<(String, String)>) -> (r: String)
        ensures
            r@ == normalize_newlines(substitute_vars(template@, bindings@)),
    {
        let cs = chars_of(template.as_str());
        let sub = substitute_variables(&cs, bindings);
        let n = normalize(&sub);
        string_of(&n)
    }

    /// The rendering of a selected text in the passive mode: the text taken
    /// as a template without variables.
    pub fn render_passive(text: &String) -> (r: RenderResult)
        ensures
            r matches RenderResult::Text(s) && s@ == normalize_newlines(substitute_vars(text@, Seq::empty())),
    {
        let no_bindings: Vec<(String, String)> = Vec::new();
        RenderResult::Text(Self::render_text(text, &no_bindings))
    }

    /// The rendering of `m` once its variables are bound: a text match
    /// renders its template, an image match its path.
    pub fn render_match(m: &Match, bindings: &Vec<(String, String)>) -> (r: RenderResult)
        ensures
            m.content matches MatchContent::Text { template, .. } ==> r matches RenderResult::Text(s) && s@
                == normalize_newlines(substitute_vars(template@, bindings@)),
            m.content matches MatchContent::Image { path } ==> r matches RenderResult::Image(p) && p@ == path@,
    {
        match &m.content {
            MatchContent::Text { template, .. } => RenderResult::Text(Self::render_text(template, bindings)),
            MatchContent::Image { path } => RenderResult::Image(path.clone()),
        }
    }
}

} // verus!

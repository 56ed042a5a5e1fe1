use vstd::prelude::*;

use crate::extension::text_or_empty;
use crate::params::{ParamValue, Params};
use crate::text::{chars_of, render_positional, string_of, substitute_positional, trim, trimmed};
use crate::Platform;

verus! {

/// The name of the parameter that holds the command.
pub open spec fn cmd_key() -> Seq<char> {
    seq!['c', 'm', 'd']
}

/// The name of the parameter that asks for the output to be trimmed.
pub open spec fn trim_key() -> Seq<char> {
    seq!['t', 'r', 'i', 'm']
}

/// The character that starts a positional argument in a command: `%` on
/// Windows, `$` elsewhere.
pub open spec fn arg_marker(p: Platform) -> char {
    if p == Platform::Windows {
        '%'
    } else {
        '$'
    }
}

/// Whether the output is to be trimmed: only where `trim` is the boolean `true`.
pub open spec fn trim_requested(params: Params) -> bool {
    params.lookup(trim_key()) == Some(ParamValue::Bool(true))
}

/// The extension that runs a command through the platform's shell. The
/// library prepares the command and shapes what it printed; running it is
/// left to the caller.
pub struct ShellExtension {
    pub platform: Platform,
}

impl ShellExtension {
    pub fn new(platform: Platform) -> (r: ShellExtension)
        ensures
            r.platform == platform,
    {
        ShellExtension { platform }
    }

    /// The extension's name.
    pub fn name(&self) -> (r: String)
        ensures
            r@ == seq!['s', 'h', 'e', 'l', 'l'],
    {
        proof {
            reveal_strlit("shell");
        }
        "shell".to_owned()
    }

    /// The command to run: `cmd` with its positional arguments (`$0`, or
    /// `%0` on Windows) filled in; `None` where `cmd` is missing or no string.
    pub fn prepare_command(&self, params: &Params, args: &Vec<String>) -> (r: Option<String>)
        ensures
            r is Some <==> params.lookup(cmd_key()) matches Some(ParamValue::Str(_)),
            r matches Some(c) ==> c@ == render_positional(
                text_or_empty(params.lookup(cmd_key())->0),
                args@,
                arg_marker(self.platform),
                false,
            ),
    {
        proof {
            reveal_strlit("cmd");
        }
        assert("cmd"@ =~= cmd_key());
        let marker = if self.platform == Platform::Windows {
            '%'
        } else {
            '$'
        };
        match params.get("cmd") {
            Some(ParamValue::Str(cmd)) => {
                let cs = chars_of(cmd.as_str());
                let out = substitute_positional(&cs, args, marker, false);
                Some(string_of(&out))
            },
            _ => None,
        }
    }

    /// What the command printed, trimmed where `trim` is `true`.
    pub fn process_output(&self, params: &Params, output: &String) -> (r: String)
        ensures
            r@ == (if trim_requested(*params) {
                trimmed(output@)
            } else {
                output@
            }),
    {
        proof {
            reveal_strlit("trim");
        }
        assert("trim"@ =~= trim_key());
        let wanted = match params.get("trim") {
            Some(ParamValue::Bool(b)) => *b,
            _ => false,
        };
        if wanted {
            let cs = chars_of(output.as_str());
            let t = trim(&cs);
            string_of(&t)
        } else {
            output.clone()
        }
    }
}

} // verus!

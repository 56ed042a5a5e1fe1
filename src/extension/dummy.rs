use vstd::prelude::*;

use crate::extension::text_or_empty;
use crate::params::{ParamValue, Params};

verus! {

/// The name of the parameter that holds the text to echo.
pub open spec fn echo_key() -> Seq<char> {
    seq!['e', 'c', 'h', 'o']
}

/// The extension that hands back the text of its `echo` parameter.
pub struct DummyExtension {}

impl DummyExtension {
    pub fn new() -> DummyExtension {
        DummyExtension {}
    }

    /// The extension's name.
    pub fn name(&self) -> (r: String)
        ensures
            r@ == seq!['d', 'u', 'm', 'm', 'y'],
    {
        proof {
            reveal_strlit("dummy");
        }
        "dummy".to_owned()
    }

    /// The `echo` parameter's text (empty where it is no string), or `None`
    /// where there is no such parameter.
    pub fn calculate(&self, params: &Params, args: &Vec<String>) -> (r: Option<String>)
        ensures
            r is None <==> params.lookup(echo_key()) is None,
            r matches Some(s) ==> s@ == text_or_empty(params.lookup(echo_key())->0),
    {
        proof {
            reveal_strlit("echo");
        }
        assert("echo"@ =~= echo_key());
        match params.get("echo") {
            None => None,
            Some(ParamValue::Str(s)) => Some(s.clone()),
            Some(_) => Some(String::new()),
        }
    }
}

} // verus!

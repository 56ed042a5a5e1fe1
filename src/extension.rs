use vstd::prelude::*;

pub mod dummy;
pub mod random;
pub mod shell;

use crate::params::ParamValue;

verus! {

/// The text of a parameter value: its string, or nothing for any other value.
pub open spec fn text_or_empty(v: ParamValue) -> Seq<char> {
    match v {
        ParamValue::Str(s) => s@,
        _ => seq![],
    }
}

/// The text of an item of a sequence parameter: nothing for an item that is no string.
pub open spec fn item_text(item: Option<String>) -> Seq<char> {
    match item {
        Some(s) => s@,
        None => seq![],
    }
}

} // verus!

use vstd::prelude::*;

use rand::seq::SliceRandom;

use crate::extension::item_text;
use crate::params::{ParamValue, Params};
use crate::text::{chars_of, render_positional, string_of, substitute_positional};

verus! {

/// The name of the parameter that holds the choices.
pub open spec fn choices_key() -> Seq<char> {
    seq!['c', 'h', 'o', 'i', 'c', 'e', 's']
}

/// The items of the `choices` parameter, where it is a sequence.
pub open spec fn choice_items(params: Params) -> Option<Seq<Option<String>>> {
    match params.lookup(choices_key()) {
        Some(ParamValue::List(items)) => Some(items@),
        _ => None,
    }
}

/// Relies on rand's `SliceRandom::choose` on a slice: `None` for an empty
/// slice, otherwise one of its elements, drawn with the thread-local generator.
#[verifier::external_body]
fn choose_one(choices: &Vec<String>) -> (r: Option<String>)
    ensures
        r is None <==> choices@.len() == 0,
        r matches Some(c) ==> exists|i: int| 0 <= i < choices@.len() && #[trigger] choices@[i]@ == c@,
{
    choices.choose(&mut rand::thread_rng()).cloned()
}

/// The extension that picks one of its `choices` at random and fills in the
/// positional arguments (`$0`, or `$0$`) of the pick.
pub struct RandomExtension {}

impl RandomExtension {
    pub fn new() -> RandomExtension {
        RandomExtension {}
    }

    /// The extension's name.
    pub fn name(&self) -> (r: String)
        ensures
            r@ == seq!['r', 'a', 'n', 'd', 'o', 'm'],
    {
        proof {
            reveal_strlit("random");
        }
        "random".to_owned()
    }

    /// `choice` with its positional arguments filled in.
    pub fn render_choice(choice: &String, args: &Vec<String>) -> (r: String)
        ensures
            r@ == render_positional(choice@, args@, '$', true),
    {
        let cs = chars_of(choice.as_str());
        let out = substitute_positional(&cs, args, '$', true);
        string_of(&out)
    }

    /// One of the choices, drawn at random, with its positional arguments
    /// filled in; `None` where `choices` is missing, no sequence, or empty.
    pub fn calculate(&self, params: &Params, args: &Vec<String>) -> (r: Option<String>)
        ensures
            r is Some <==> (choice_items(*params) matches Some(items) && items.len() > 0),
            r matches Some(out) ==> exists|i: int|
                0 <= i < choice_items(*params)->0.len() && out@ == render_positional(
                    #[trigger] item_text(choice_items(*params)->0[i]),
                    args@,
                    '$',
                    true,
                ),
    {
        proof {
            reveal_strlit("choices");
        }
        assert("choices"@ =~= choices_key());
        match params.get("choices") {
            Some(ParamValue::List(items)) => {
                let mut texts: Vec<String> = Vec::new();
                let mut i: usize = 0;
                while i < items.len()
                    invariant
                        i <= items@.len(),
                        texts@.len() == i,
                        forall|j: int| 0 <= j < i ==> #[trigger] texts@[j]@ == item_text(items@[j]),
                    decreases items@.len() - i,
                {
                    match &items[i] {
                        Some(s) => texts.push(s.clone()),
                        None => texts.push(String::new()),
                    }
                    i = i + 1;
                }
                match choose_one(&texts) {
                    Some(c) => {
                        let out = Self::render_choice(&c, args);
                        let ghost k = choose|k: int| 0 <= k < texts@.len() && #[trigger] texts@[k]@ == c@;
                        assert(item_text(items@[k]) == c@);
                        Some(out)
                    },
                    None => None,
                }
            },
            _ => None,
        }
    }
}

} // verus!

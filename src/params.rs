use vstd::prelude::*;

verus! {

/// A parameter value of a variable, as the configuration gives it.
pub enum ParamValue {
    Null,
    Bool(bool),
    Str(String),
    /// A sequence; each item is its text, or `None` where the item is no string.
    List(Vec<Option<String>>),
    /// A number or a nested mapping: nothing reads those.
    Other,
}

/// The parameters of a variable: a mapping from names to values.
pub struct Params {
    /// The entries, newest first; a name's value is that of its first entry.
    pub entries: Vec<(String, ParamValue)>,
}

/// The value of `key` among `entries`: that of the first entry with this name.
pub open spec fn param_lookup(entries: Seq<(String, ParamValue)>, key: Seq<char>) -> Option<ParamValue>
    decreases entries.len(),
{
    if entries.len() == 0 {
        None
    } else if entries[0].0@ == key {
        Some(entries[0].1)
    } else {
        param_lookup(entries.subrange(1, entries.len() as int), key)
    }
}

impl Params {
    /// The value of `key`.
    pub open spec fn lookup(&self, key: Seq<char>) -> Option<ParamValue> {
        param_lookup(self.entries@, key)
    }

    /// An empty mapping.
    pub fn new() -> (r: Params)
        ensures
            forall|k: Seq<char>| #[trigger] r.lookup(k) is None,
    {
        Params { entries: Vec::new() }
    }

    /// Binds `key` to `value`, in place of any earlier value of `key`.
    pub fn insert(&mut self, key: String, value: ParamValue)
        ensures
            final(self).lookup(key@) == Some(value),
            forall|k: Seq<char>| k != key@ ==> #[trigger] final(self).lookup(k) == old(self).lookup(k),
    {
        self.entries.insert(0, (key, value));
        assert(self.entries@.subrange(1, self.entries@.len() as int) =~= old(self).entries@);
    }

    /// The value of `key`, if it has one.
    pub fn get(&self, key: &str) -> (r: Option<&ParamValue>)
        ensures
            r is None <==> self.lookup(key@) is None,
            r matches Some(v) ==> self.lookup(key@) == Some(*v),
    {
        let k = key.to_owned();
        let mut i: usize = 0;
        assert(self.entries@.subrange(0, self.entries@.len() as int) =~= self.entries@);
        while i < self.entries.len()
            invariant
                k@ == key@,
                i <= self.entries@.len(),
                self.lookup(key@) == param_lookup(self.entries@.subrange(i as int, self.entries@.len() as int), key@),
            decreases self.entries@.len() - i,
        {
            let ghost rest = self.entries@.subrange(i as int, self.entries@.len() as int);
            assert(rest[0] == self.entries@[i as int]);
            if self.entries[i].0 == k {
                return Some(&self.entries[i].1);
            }
            assert(rest.subrange(1, rest.len() as int) =~= self.entries@.subrange(i + 1, self.entries@.len() as int));
            i = i + 1;
        }
        None
    }
}

} // verus!

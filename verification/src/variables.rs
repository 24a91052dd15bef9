//! The inputs of a program: a text for each variable name. A text is read
//! as a number only when an instruction asks for it.

use vstd::prelude::*;

verus! {

/// The mapping that a list of bindings stands for: a later binding of a
/// name replaces an earlier one.
pub open spec fn bindings_map(entries: Seq<(String, String)>) -> Map<Seq<char>, String>
    decreases entries.len(),
{
    if entries.len() == 0 {
        Map::empty()
    } else {
        bindings_map(entries.drop_last()).insert(entries.last().0@, entries.last().1)
    }
}

/// A mapping from variable names to their texts.
#[derive(Debug)]
pub struct Variables {
    entries: Vec<(String, String)>,
}

impl View for Variables {
    type V = Map<Seq<char>, String>;

    closed spec fn view(&self) -> Map<Seq<char>, String> {
        bindings_map(self.entries@)
    }
}

impl Variables {
    /// The mapping without any variable.
    pub fn new() -> (vars: Variables)
        ensures
            vars@ == Map::<Seq<char>, String>::empty(),
    {
        Variables { entries: Vec::new() }
    }

    /// Gives `name` the text `value`, in place of the one it had.
    pub fn insert(&mut self, name: String, value: String)
        ensures
            final(self)@ == old(self)@.insert(name@, value),
    {
        self.entries.push((name, value));
        assert(self.entries@.drop_last() == old(self).entries@);
    }

    /// The text of `name`, if it has one.
    pub fn get(&self, name: &String) -> (value: Option<&String>)
        ensures
            match value {
                Some(text) => self@.contains_key(name@) && *text == self@[name@],
                None => !self@.contains_key(name@),
            },
    {
        let mut i: usize = self.entries.len();
        assert(self.entries@.take(i as int) == self.entries@);
        while i > 0
            invariant
                i <= self.entries.len(),
                bindings_map(self.entries@).contains_key(name@) <==> bindings_map(
                    self.entries@.take(i as int),
                ).contains_key(name@),
                bindings_map(self.entries@).contains_key(name@) ==> bindings_map(self.entries@)[name@]
                    == bindings_map(self.entries@.take(i as int))[name@],
            decreases i,
        {
            i = i - 1;
            assert(self.entries@.take(i + 1).drop_last() == self.entries@.take(i as int));
            if self.entries[i].0 == *name {
                return Some(&self.entries[i].1);
            }
        }
        assert(self.entries@.take(0) == Seq::<(String, String)>::empty());
        None
    }

    /// Whether `name` has a text.
    pub fn contains_key(&self, name: &String) -> (found: bool)
        ensures
            found == self@.contains_key(name@),
    {
        self.get(name).is_some()
    }

    /// A copy of the mapping.
    pub fn duplicate(&self) -> (copy: Variables)
        ensures
            copy@ == self@,
    {
        let mut entries: Vec<(String, String)> = Vec::new();
        let mut i: usize = 0;
        while i < self.entries.len()
            invariant
                i <= self.entries.len(),
                entries@ == self.entries@.take(i as int),
            decreases self.entries.len() - i,
        {
            let name = self.entries[i].0.clone();
            let value = self.entries[i].1.clone();
            entries.push((name, value));
            i = i + 1;
        }
        assert(self.entries@.take(i as int) == self.entries@);
        Variables { entries }
    }
}

impl Clone for Variables {
    fn clone(&self) -> (copy: Variables)
        ensures
            copy@ == self@,
    {
        self.duplicate()
    }
}

} // verus!

//! A slides project: the root aggregate a build starts from.

use vstd::prelude::*;
use vstd::string::*;
use crate::deck::Deck;

verus! {

/// A project, identified by its root directory.
#[derive(Debug)]
pub struct Project {
    pub root: String,
}

impl Project {
    /// A project at the given root.
    pub fn at(root: &str) -> (r: Project)
        ensures
            r.root@ == root@,
    {
        Project { root: root.to_owned() }
    }

    /// A deck of this project, by name and locale.
    pub fn deck(&self, name: &str, lang: &str) -> (r: Deck)
        ensures
            r.name@ == name@,
            r.lang@ == lang@,
            r.root@ == self.root@,
            r.slides@.len() == 0,
    {
        Deck::new(name, lang, self.root.as_str())
    }
}

} // verus!

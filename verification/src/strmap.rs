//! An insertion-ordered string-to-string map.
//!
//! The pipeline needs maps whose iteration order is the order in which
//! entries were added (layouts, translations, rendered page sets), and whose
//! lookup semantics are "the latest binding wins".  The map is a vector of
//! pairs; its abstract view is the finite map induced by folding the pairs
//! left to right.

use vstd::prelude::*;
use vstd::string::*;
use crate::text;

verus! {

/// The finite map induced by a sequence of bindings, later bindings
/// overriding earlier ones.
pub open spec fn map_of(s: Seq<(Seq<char>, Seq<char>)>) -> Map<Seq<char>, Seq<char>>
    decreases s.len(),
{
    if s.len() == 0 {
        Map::empty()
    } else {
        map_of(s.drop_last()).insert(s.last().0, s.last().1)
    }
}

/// An insertion-ordered map from strings to strings.
pub struct StrMap {
    pub entries: Vec<(String, String)>,
}

impl View for StrMap {
    type V = Map<Seq<char>, Seq<char>>;

    open spec fn view(&self) -> Map<Seq<char>, Seq<char>> {
        map_of(self.entry_views())
    }
}

/// A binding at position `i` whose key does not recur later holds the map's
/// value for that key.
proof fn lemma_map_of_at(s: Seq<(Seq<char>, Seq<char>)>, i: int)
    requires
        0 <= i < s.len(),
        forall|j: int| i < j < s.len() ==> s[j].0 != s[i].0,
    ensures
        map_of(s).contains_key(s[i].0),
        map_of(s)[s[i].0] == s[i].1,
    decreases s.len(),
{
    if i == s.len() - 1 {
    } else {
        lemma_map_of_at(s.drop_last(), i);
    }
}

/// A key under no binding is not in the map.
proof fn lemma_map_of_absent(s: Seq<(Seq<char>, Seq<char>)>, k: Seq<char>)
    requires
        forall|j: int| 0 <= j < s.len() ==> s[j].0 != k,
    ensures
        !map_of(s).contains_key(k),
    decreases s.len(),
{
    if s.len() > 0 {
        lemma_map_of_absent(s.drop_last(), k);
    }
}

/// Every key of the map stands under some binding.
pub proof fn lemma_map_of_keys(s: Seq<(Seq<char>, Seq<char>)>, k: Seq<char>)
    requires
        map_of(s).contains_key(k),
    ensures
        exists|j: int| 0 <= j < s.len() && s[j].0 == k,
    decreases s.len(),
{
    if s.len() > 0 {
        if s.last().0 == k {
            assert(s[s.len() - 1].0 == k);
        } else {
            lemma_map_of_keys(s.drop_last(), k);
            let j = choose|j: int| 0 <= j < s.drop_last().len() && s.drop_last()[j].0 == k;
            assert(s[j].0 == k);
        }
    }
}

impl StrMap {
    /// The bindings in insertion order, as character sequences.
    pub open spec fn entry_views(&self) -> Seq<(Seq<char>, Seq<char>)> {
        self.entries@.map_values(|p: (String, String)| (p.0@, p.1@))
    }

    /// An empty map.
    pub fn new() -> (r: StrMap)
        ensures
            r@ == Map::<Seq<char>, Seq<char>>::empty(),
            r.entry_views() == Seq::<(Seq<char>, Seq<char>)>::empty(),
    {
        let r = StrMap { entries: Vec::new() };
        proof {
            assert(r.entry_views() =~= Seq::<(Seq<char>, Seq<char>)>::empty());
        }
        r
    }

    /// The number of bindings (an overriding binding counts again).
    pub fn len(&self) -> (r: usize)
        ensures
            r == self.entry_views().len(),
    {
        self.entries.len()
    }

    /// Add a binding, overriding any earlier binding of the same key.
    pub fn insert(&mut self, key: String, value: String)
        ensures
            final(self)@ == old(self)@.insert(key@, value@),
            final(self).entry_views() == old(self).entry_views().push((key@, value@)),
    {
        let ghost old_views = self.entry_views();
        let ghost kv = (key@, value@);
        self.entries.push((key, value));
        proof {
            assert(self.entry_views() =~= old_views.push(kv));
            assert(self.entry_views().drop_last() =~= old_views);
        }
    }

    /// Look a key up; the latest binding wins.
    pub fn get(&self, key: &str) -> (r: Option<&String>)
        ensures
            match r {
                Some(v) => self@.contains_key(key@) && v@ == self@[key@],
                None => !self@.contains_key(key@),
            },
    {
        let kv = text::to_chars(key);
        let mut i: usize = self.entries.len();
        while i > 0
            invariant
                i <= self.entry_views().len(),
                kv@ == key@,
                forall|j: int| i <= j < self.entry_views().len() ==> self.entry_views()[j].0
                    != key@,
            decreases i,
        {
            i -= 1;
            let ek = text::to_chars(self.entries[i].0.as_str());
            if text::eq_chars(&ek, &kv) {
                proof {
                    lemma_map_of_at(self.entry_views(), i as int);
                }
                return Some(&self.entries[i].1);
            }
        }
        proof {
            lemma_map_of_absent(self.entry_views(), key@);
        }
        None
    }

    /// Whether the map binds a key.
    pub fn contains_key(&self, key: &str) -> (r: bool)
        ensures
            r == self@.contains_key(key@),
    {
        match self.get(key) {
            Some(_) => true,
            None => false,
        }
    }

    /// The key of the binding at position `i`.
    pub fn key_at(&self, i: usize) -> (r: &String)
        requires
            i < self.entry_views().len(),
        ensures
            r@ == self.entry_views()[i as int].0,
    {
        &self.entries[i].0
    }

    /// The value of the binding at position `i`.
    pub fn value_at(&self, i: usize) -> (r: &String)
        requires
            i < self.entry_views().len(),
        ensures
            r@ == self.entry_views()[i as int].1,
    {
        &self.entries[i].1
    }

    /// An identical copy.
    pub fn duplicate(&self) -> (r: StrMap)
        ensures
            r@ == self@,
            r.entry_views() == self.entry_views(),
    {
        let mut entries: Vec<(String, String)> = Vec::new();
        let mut i: usize = 0;
        while i < self.entries.len()
            invariant
                i <= self.entries@.len(),
                entries@.len() == i,
                forall|j: int| 0 <= j < i ==> entries@[j].0@ == self.entries@[j].0@
                    && entries@[j].1@ == self.entries@[j].1@,
            decreases self.entries@.len() - i,
        {
            let k = self.entries[i].0.clone();
            let v = self.entries[i].1.clone();
            entries.push((k, v));
            i += 1;
        }
        let r = StrMap { entries };
        proof {
            assert(r.entry_views() =~= self.entry_views());
        }
        r
    }
}

} // verus!

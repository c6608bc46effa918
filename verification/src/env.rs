//! The two tables of the evaluator, backed by association lists whose view
//! is a map: the global variable table (name to value, later bindings win)
//! and the function table (name to the index of the declaration).

use vstd::prelude::*;
use crate::ast::{Value, ValueM};
use crate::text::str_eq;

verus! {

/// The map an association list stands for: later entries win.
pub open spec fn assoc_map(s: Seq<(String, Value)>) -> Map<Seq<char>, ValueM>
    decreases s.len(),
{
    if s.len() == 0 {
        Map::empty()
    } else {
        assoc_map(s.drop_last()).insert(s.last().0@, s.last().1@)
    }
}

/// The single global variable table: at most one visible binding per name
/// at any instant; declaration and assignment both write through it.
pub struct Env {
    items: Vec<(String, Value)>,
}

impl View for Env {
    type V = Map<Seq<char>, ValueM>;

    closed spec fn view(&self) -> Map<Seq<char>, ValueM> {
        assoc_map(self.items@)
    }
}

impl Env {
    /// The number of entries the table holds, shadowing included.
    pub closed spec fn depth(&self) -> nat {
        self.items@.len()
    }

    /// An empty table.
    pub fn new() -> (r: Env)
        ensures
            r@ == Map::<Seq<char>, ValueM>::empty(),
    {
        Env { items: Vec::new() }
    }

    /// The value bound to a name, if any.
    pub fn get(&self, name: &str) -> (r: Option<&Value>)
        ensures
            match r {
                Some(v) => self@.contains_key(name@) && v@ == self@[name@],
                None => !self@.contains_key(name@),
            },
    {
        let mut i: usize = self.items.len();
        loop
            invariant
                0 <= i <= self.items@.len(),
                forall|j: int| i <= j < self.items@.len() ==> self.items@[j].0@ != name@,
            decreases i,
        {
            if i == 0 {
                proof {
                    lemma_assoc_none(self.items@, name@);
                }
                return None;
            }
            i = i - 1;
            if str_eq(self.items[i].0.as_str(), name) {
                proof {
                    lemma_assoc_hit(self.items@, name@, i as int);
                }
                return Some(&self.items[i].1);
            }
        }
    }

    /// Whether a name is bound.
    pub fn contains(&self, name: &str) -> (r: bool)
        ensures
            r == self@.contains_key(name@),
    {
        match self.get(name) {
            Some(_) => true,
            None => false,
        }
    }

    /// Creates or overwrites a binding.
    pub fn insert(&mut self, name: String, value: Value)
        ensures
            final(self)@ == old(self)@.insert(name@, value@),
    {
        self.items.push((name, value));
        proof {
            assert(self.items@.drop_last() =~= old(self).items@);
        }
    }

    /// Removes every binding of a name.
    pub fn remove(&mut self, name: &str)
        ensures
            final(self)@ == old(self)@.remove(name@),
        decreases self.depth(),
    {
        let n = self.items.len();
        if n == 0 {
            proof {
                assert(self@ =~= old(self)@.remove(name@));
            }
        } else {
            let ghost inner = self.items@.drop_last();
            let hit = str_eq(self.items[n - 1].0.as_str(), name);
            match self.items.pop() {
                Some(e) => {
                    proof {
                        assert(old(self).items@.last() == e);
                        assert(old(self)@ == assoc_map(inner).insert(e.0@, e.1@));
                    }
                    if hit {
                        self.remove(name);
                        proof {
                            assert(self@ =~= old(self)@.remove(name@));
                        }
                    } else {
                        self.remove(name);
                        let ghost mid = self.items@;
                        self.items.push(e);
                        proof {
                            assert(self.items@.last() == e);
                            assert(self.items@.drop_last() =~= mid);
                            assert(self@ == assoc_map(mid).insert(e.0@, e.1@));
                            assert(assoc_map(mid) == assoc_map(inner).remove(name@));
                            assert(self@ =~= old(self)@.remove(name@));
                        }
                    }
                },
                None => {
                    proof {
                        assert(false);
                    }
                },
            }
        }
    }
}

/// The map an index association list stands for: later entries win.
pub open spec fn assoc_imap(s: Seq<(String, usize)>) -> Map<Seq<char>, usize>
    decreases s.len(),
{
    if s.len() == 0 {
        Map::empty()
    } else {
        assoc_imap(s.drop_last()).insert(s.last().0@, s.last().1)
    }
}

/// The function table: function name to the index of its declaration among
/// the program's top-level statements. A later declaration of the same name
/// overwrites an earlier one.
pub struct FnTab {
    items: Vec<(String, usize)>,
}

impl View for FnTab {
    type V = Map<Seq<char>, usize>;

    closed spec fn view(&self) -> Map<Seq<char>, usize> {
        assoc_imap(self.items@)
    }
}

impl FnTab {
    /// An empty table.
    pub fn new() -> (r: FnTab)
        ensures
            r@ == Map::<Seq<char>, usize>::empty(),
    {
        FnTab { items: Vec::new() }
    }

    /// The declaration index registered for a name, if any.
    pub fn get(&self, name: &str) -> (r: Option<usize>)
        ensures
            match r {
                Some(i) => self@.contains_key(name@) && self@[name@] == i,
                None => !self@.contains_key(name@),
            },
    {
        let mut i: usize = self.items.len();
        loop
            invariant
                0 <= i <= self.items@.len(),
                forall|j: int| i <= j < self.items@.len() ==> self.items@[j].0@ != name@,
            decreases i,
        {
            if i == 0 {
                proof {
                    lemma_assoc_imap_none(self.items@, name@);
                }
                return None;
            }
            i = i - 1;
            if str_eq(self.items[i].0.as_str(), name) {
                proof {
                    lemma_assoc_imap_hit(self.items@, name@, i as int);
                }
                return Some(self.items[i].1);
            }
        }
    }

    /// Registers or overwrites the declaration index of a name.
    pub fn insert(&mut self, name: String, idx: usize)
        ensures
            final(self)@ == old(self)@.insert(name@, idx),
    {
        self.items.push((name, idx));
        proof {
            assert(self.items@.drop_last() =~= old(self).items@);
        }
    }
}

proof fn lemma_assoc_imap_none(s: Seq<(String, usize)>, k: Seq<char>)
    requires
        forall|j: int| 0 <= j < s.len() ==> s[j].0@ != k,
    ensures
        !assoc_imap(s).contains_key(k),
    decreases s.len(),
{
    if s.len() > 0 {
        lemma_assoc_imap_none(s.drop_last(), k);
    }
}

proof fn lemma_assoc_imap_hit(s: Seq<(String, usize)>, k: Seq<char>, i: int)
    requires
        0 <= i < s.len(),
        s[i].0@ == k,
        forall|j: int| i < j < s.len() ==> s[j].0@ != k,
    ensures
        assoc_imap(s).contains_key(k),
        assoc_imap(s)[k] == s[i].1,
    decreases s.len(),
{
    if i + 1 < s.len() {
        assert(s.drop_last()[i] == s[i]);
        lemma_assoc_imap_hit(s.drop_last(), k, i);
    }
}

proof fn lemma_assoc_none(s: Seq<(String, Value)>, k: Seq<char>)
    requires
        forall|j: int| 0 <= j < s.len() ==> s[j].0@ != k,
    ensures
        !assoc_map(s).contains_key(k),
    decreases s.len(),
{
    if s.len() > 0 {
        lemma_assoc_none(s.drop_last(), k);
    }
}

proof fn lemma_assoc_hit(s: Seq<(String, Value)>, k: Seq<char>, i: int)
    requires
        0 <= i < s.len(),
        s[i].0@ == k,
        forall|j: int| i < j < s.len() ==> s[j].0@ != k,
    ensures
        assoc_map(s).contains_key(k),
        assoc_map(s)[k] == s[i].1@,
    decreases s.len(),
{
    if i + 1 < s.len() {
        assert(s.drop_last()[i] == s[i]);
        lemma_assoc_hit(s.drop_last(), k, i);
    }
}

} // verus!

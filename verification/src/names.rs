//! Sets of names: texts without repetition, kept in the order in which
//! they were first added.

use crate::text::{chars_eq, str_chars};
use vstd::prelude::*;

verus! {

/// Whether two strings hold the same text.
pub fn same_text(a: &str, b: &str) -> (r: bool)
    ensures
        r == (a@ == b@),
{
    let x = str_chars(a);
    let y = str_chars(b);
    chars_eq(&x, &y)
}

/// The texts of a sequence of strings.
pub open spec fn names_of(items: Seq<String>) -> Seq<Seq<char>> {
    items.map_values(|s: String| s@)
}

/// A set of names. No name occurs twice; the names stand in the order in
/// which they were added.
pub struct NameSet {
    items: Vec<String>,
}

impl NameSet {
    #[verifier::type_invariant]
    spec fn distinct(&self) -> bool {
        names_of(self.items@).no_duplicates()
    }

    /// The names, in the order in which they were added.
    pub closed spec fn view(&self) -> Seq<Seq<char>> {
        names_of(self.items@)
    }

    /// Moves the names out and leaves the set empty.
    fn take_items(&mut self) -> (items: Vec<String>)
        ensures
            items == old(self).items,
            final(self).items@ == Seq::<String>::empty(),
    {
        let mut items: Vec<String> = Vec::new();
        core::mem::swap(&mut self.items, &mut items);
        items
    }

    pub fn new() -> (r: Self)
        ensures
            r@ == Seq::<Seq<char>>::empty(),
    {
        NameSet { items: Vec::new() }
    }

    pub fn len(&self) -> (n: usize)
        ensures
            n == self@.len(),
            self@.no_duplicates(),
    {
        proof {
            use_type_invariant(self);
        }
        self.items.len()
    }

    pub fn is_empty(&self) -> (r: bool)
        ensures
            r == (self@.len() == 0),
    {
        self.items.len() == 0
    }

    /// The name at position `i`.
    pub fn get(&self, i: usize) -> (name: &String)
        requires
            i < self@.len(),
        ensures
            name@ == self@[i as int],
    {
        &self.items[i]
    }

    /// The position of `name`, if the set holds it.
    pub fn position(&self, name: &str) -> (r: Option<usize>)
        ensures
            match r {
                Some(i) => i < self@.len() && self@[i as int] == name@,
                None => !self@.contains(name@),
            },
    {
        let mut i: usize = 0;
        while i < self.items.len()
            invariant
                i <= self.items.len(),
                forall|k: int| 0 <= k < i ==> names_of(self.items@)[k] != name@,
            decreases self.items.len() - i,
        {
            if same_text(self.items[i].as_str(), name) {
                return Some(i);
            }
            i += 1;
        }
        None
    }

    pub fn contains(&self, name: &str) -> (r: bool)
        ensures
            r == self@.contains(name@),
    {
        self.position(name).is_some()
    }

    /// Adds `name` unless the set holds it already; says whether it was added.
    pub fn insert(&mut self, name: String) -> (fresh: bool)
        ensures
            fresh == !old(self)@.contains(name@),
            final(self)@ == if fresh {
                old(self)@.push(name@)
            } else {
                old(self)@
            },
    {
        proof {
            use_type_invariant(&*self);
        }
        if self.position(name.as_str()).is_some() {
            return false;
        }
        let ghost before = names_of(self.items@);
        let ghost text = name@;
        let mut items = self.take_items();
        items.push(name);
        assert(names_of(items@) =~= before.push(text));
        self.items = items;
        true
    }

    /// Takes `name` out of the set; says whether the set held it.
    pub fn remove(&mut self, name: &str) -> (found: bool)
        ensures
            found == old(self)@.contains(name@),
            !final(self)@.contains(name@),
            forall|n: Seq<char>| n != name@ ==> (final(self)@.contains(n) <==> old(self)@.contains(n)),
            final(self)@ == match old(self)@.index_of_first(name@) {
                Some(i) => old(self)@.remove(i),
                None => old(self)@,
            },
    {
        proof {
            use_type_invariant(&*self);
        }
        let ghost before = names_of(self.items@);
        match self.position(name) {
            None => {
                proof {
                    before.index_of_first_ensures(name@);
                }
                false
            },
            Some(i) => {
                proof {
                    before.index_of_first_ensures(name@);
                }
                let mut items = self.take_items();
                items.remove(i);
                assert(names_of(items@) =~= before.remove(i as int));
                self.items = items;
                assert forall|n: Seq<char>| n != name@ implies (before.remove(i as int).contains(n)
                    <==> before.contains(n)) by {
                    if before.contains(n) {
                        let k = choose|k: int| 0 <= k < before.len() && before[k] == n;
                        if k < i {
                            assert(before.remove(i as int)[k] == n);
                        } else {
                            assert(before.remove(i as int)[k - 1] == n);
                        }
                    }
                }
                true
            },
        }
    }
}

} // verus!

//! A table of types under keys of any kind.

use vstd::prelude::*;
use crate::graph::var::{Type, TypeModel};
use crate::table::{distinct, inserted, lemma_mapped, lemma_mapped_inserted, lookup, mapped, Key, Table};

verus! {

/// Types under keys.
pub struct TypeMap<T> {
    map: Table<T, Type>,
}

impl<T> View for TypeMap<T> {
    type V = Seq<(T, TypeModel)>;

    closed spec fn view(&self) -> Seq<(T, TypeModel)> {
        mapped(self.map@, |t: Type| t@)
    }
}

impl<T: Key> TypeMap<T> {
    /// A table without entries.
    pub fn new() -> (r: Self)
        ensures
            r@ == Seq::<(T, TypeModel)>::empty(),
    {
        let r = TypeMap { map: Table::new() };
        assert(r@ =~= Seq::<(T, TypeModel)>::empty());
        r
    }

    /// Records a type under a key, in place of what the key had.
    pub fn set(&mut self, from: T, ty: Type)
        ensures
            final(self)@ == inserted(old(self)@, from, ty@),
            distinct(final(self)@),
    {
        self.map.keys_are_known_distinct();
        proof {
            lemma_mapped_inserted(self.map@, |t: Type| t@, from, ty);
        }
        let ghost key = from;
        self.map.insert(from, ty);
        proof {
            lemma_mapped(self.map@, |t: Type| t@, key);
        }
    }

    /// The type under a key, if it has one.
    pub fn get(&self, from: T) -> (r: Option<&Type>)
        ensures
            distinct(self@),
            match r {
                Some(ty) => lookup(self@, from) == Some(ty@),
                None => lookup(self@, from) is None,
            },
    {
        let r = self.map.get(&from);
        proof {
            lemma_mapped(self.map@, |t: Type| t@, from);
        }
        r
    }
}

} // verus!

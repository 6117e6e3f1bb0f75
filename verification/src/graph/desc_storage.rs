//! The store of node descriptions, grouped into libraries by category.

use vstd::prelude::*;
use vstd::string::*;
use crate::graph::node::{DescModel, NodeDesc};
use crate::text::same_text;

verus! {

/// A library of node descriptions.
#[derive(Debug)]
pub struct DescLib {
    pub category: String,
    pub lib: String,
    pub descs: Vec<NodeDesc>,
}

/// What a [`DescLib`] stands for.
pub struct DescLibModel {
    pub category: Seq<char>,
    pub lib: Seq<char>,
    pub descs: Seq<DescModel>,
}

impl View for DescLib {
    type V = DescLibModel;

    open spec fn view(&self) -> DescLibModel {
        DescLibModel {
            category: self.category@,
            lib: self.lib@,
            descs: self.descs@.map_values(|d: NodeDesc| d@),
        }
    }
}

impl Clone for DescLib {
    fn clone(&self) -> (r: Self)
        ensures
            r@ == self@,
    {
        let descs = self.descs.clone();
        assert(descs@.map_values(|d: NodeDesc| d@) =~= self.descs@.map_values(|d: NodeDesc| d@));
        DescLib { category: self.category.clone(), lib: self.lib.clone(), descs }
    }
}

/// The index of the first of `libs[from..]` with the given category.
pub open spec fn category_index_from(libs: Seq<DescLibModel>, category: Seq<char>, from: int) -> Option<
    int,
>
    decreases libs.len() - from,
{
    if from < 0 || from >= libs.len() {
        None
    } else if libs[from].category == category {
        Some(from)
    } else {
        category_index_from(libs, category, from + 1)
    }
}

/// The index of the first library with the given category.
pub open spec fn category_index(libs: Seq<DescLibModel>, category: Seq<char>) -> Option<int> {
    category_index_from(libs, category, 0)
}

/// A library is found exactly when some library has the category; the one
/// found has it and none before it has.
pub proof fn lemma_category_index(libs: Seq<DescLibModel>, category: Seq<char>, from: int)
    requires
        0 <= from,
    ensures
        match category_index_from(libs, category, from) {
            Some(i) => from <= i < libs.len() && libs[i].category == category && forall|j: int|
                from <= j < i ==> libs[j].category != category,
            None => forall|j: int| from <= j < libs.len() ==> libs[j].category != category,
        },
    decreases libs.len() - from,
{
    if from < libs.len() && libs[from].category != category {
        lemma_category_index(libs, category, from + 1);
    }
}

/// The index of the first of `descs[from..]` with the given title.
pub open spec fn title_index_from(descs: Seq<DescModel>, title: Seq<char>, from: int) -> Option<int>
    decreases descs.len() - from,
{
    if from < 0 || from >= descs.len() {
        None
    } else if descs[from].title == title {
        Some(from)
    } else {
        title_index_from(descs, title, from + 1)
    }
}

/// The number of descriptions in the first `n` libraries.
pub open spec fn desc_total(libs: Seq<DescLibModel>, n: int) -> nat
    decreases n,
{
    if n <= 0 {
        0
    } else {
        desc_total(libs, n - 1) + libs[n - 1].descs.len()
    }
}

/// The first `n` libraries without those of the given category.
pub open spec fn without_category(libs: Seq<DescLibModel>, category: Seq<char>, n: int) -> Seq<
    DescLibModel,
>
    decreases n,
{
    if n <= 0 {
        Seq::empty()
    } else {
        let rest = without_category(libs, category, n - 1);
        if libs[n - 1].category == category {
            rest
        } else {
            rest.push(libs[n - 1])
        }
    }
}

/// The failure of an import.
#[derive(Debug, Clone, Copy, PartialEq, Eq, Structural)]
pub enum ImportError {
    /// The store already has a library of the category.
    AlreadyExists,
}

/// The store of node descriptions.
#[derive(Debug)]
pub struct DescStorage {
    pub libs: Vec<DescLib>,
}

impl View for DescStorage {
    type V = Seq<DescLibModel>;

    open spec fn view(&self) -> Seq<DescLibModel> {
        self.libs@.map_values(|l: DescLib| l@)
    }
}

impl DescStorage {
    /// A store without libraries.
    pub fn new() -> (r: Self)
        ensures
            r@ == Seq::<DescLibModel>::empty(),
    {
        let r = DescStorage { libs: Vec::new() };
        assert(r@ =~= Seq::<DescLibModel>::empty());
        r
    }

    /// The categories of the libraries, in order.
    pub fn categories(&self) -> (r: Vec<String>)
        ensures
            r@.len() == self@.len(),
            forall|i: int| 0 <= i < r@.len() ==> (#[trigger] r@[i])@ == self@[i].category,
    {
        let mut out: Vec<String> = Vec::new();
        let mut i: usize = 0;
        while i < self.libs.len()
            invariant
                i <= self.libs.len(),
                out@.len() == i,
                forall|k: int| 0 <= k < i ==> (#[trigger] out@[k])@ == self@[k].category,
            decreases self.libs.len() - i,
        {
            out.push(self.libs[i].category.clone());
            i = i + 1;
        }
        out
    }

    fn find(&self, category: &str) -> (r: Option<usize>)
        ensures
            match r {
                Some(i) => i < self.libs@.len() && category_index(self@, category@) == Some(
                    i as int,
                ),
                None => category_index(self@, category@) is None,
            },
    {
        let mut i: usize = 0;
        while i < self.libs.len()
            invariant
                i <= self.libs.len(),
                category_index(self@, category@) == category_index_from(
                    self@,
                    category@,
                    i as int,
                ),
            decreases self.libs.len() - i,
        {
            if same_text(self.libs[i].category.as_str(), category) {
                return Some(i);
            }
            i = i + 1;
        }
        None
    }

    /// The descriptions of the first library with the given category.
    pub fn descs_category(&self, category: &str) -> (r: Option<&Vec<NodeDesc>>)
        ensures
            match category_index(self@, category@) {
                Some(i) => r == Some(&self.libs@[i].descs),
                None => r is None,
            },
    {
        match self.find(category) {
            Some(i) => Some(&self.libs[i].descs),
            None => None,
        }
    }

    /// The description with the given title in the first library with the
    /// given category: the first with that title.
    pub fn desc(&self, category: &str, title: &str) -> (r: Option<&NodeDesc>)
        ensures
            match category_index(self@, category@) {
                Some(i) => match title_index_from(self@[i].descs, title@, 0) {
                    Some(k) => r == Some(&self.libs@[i].descs@[k]),
                    None => r is None,
                },
                None => r is None,
            },
    {
        match self.find(category) {
            Some(i) => {
                let descs = &self.libs[i].descs;
                let mut k: usize = 0;
                while k < descs.len()
                    invariant
                        k <= descs.len(),
                        i < self.libs@.len(),
                        category_index(self@, category@) == Some(i as int),
                        descs == &self.libs@[i as int].descs,
                        title_index_from(self@[i as int].descs, title@, 0) == title_index_from(
                            self@[i as int].descs,
                            title@,
                            k as int,
                        ),
                    decreases descs.len() - k,
                {
                    if same_text(descs[k].title.as_str(), title) {
                        return Some(&descs[k]);
                    }
                    k = k + 1;
                }
                None
            },
            None => None,
        }
    }

    /// The number of descriptions in all libraries.
    pub fn desc_count(&self) -> (r: usize)
        requires
            desc_total(self@, self@.len() as int) <= usize::MAX,
        ensures
            r == desc_total(self@, self@.len() as int),
    {
        let mut total: usize = 0;
        let mut i: usize = 0;
        while i < self.libs.len()
            invariant
                i <= self.libs.len(),
                total == desc_total(self@, i as int),
                desc_total(self@, self@.len() as int) <= usize::MAX,
            decreases self.libs.len() - i,
        {
            proof {
                lemma_desc_total_grows(self@, i + 1, self@.len() as int);
            }
            total = total + self.libs[i].descs.len();
            i = i + 1;
        }
        total
    }

    /// Whether some library has the given category.
    pub fn lib_exists(&self, category: &str) -> (r: bool)
        ensures
            r == category_index(self@, category@) is Some,
            r == exists|i: int| 0 <= i < self@.len() && self@[i].category == category@,
    {
        proof {
            lemma_category_index(self@, category@, 0);
        }
        self.find(category).is_some()
    }

    /// Takes a library into the store. Where the store has no library of
    /// its category, the library is added at the end. Where it has one, an
    /// upgrade first drops every library of the category, and anything else
    /// fails and leaves the store as it is.
    pub fn import(&mut self, lib: DescLib, upgrade: bool) -> (r: Result<(), ImportError>)
        ensures
            match r {
                Err(e) => e == ImportError::AlreadyExists && !upgrade && category_index(
                    old(self)@,
                    lib@.category,
                ) is Some && final(self)@ == old(self)@,
                Ok(()) => (upgrade || category_index(old(self)@, lib@.category) is None)
                    && final(self)@ == without_category(
                    old(self)@,
                    lib@.category,
                    old(self)@.len() as int,
                ).push(lib@),
            },
    {
        if self.lib_exists(lib.category.as_str()) {
            if !upgrade {
                return Err(ImportError::AlreadyExists);
            }
            let mut kept: Vec<DescLib> = Vec::new();
            let mut i: usize = 0;
            while i < self.libs.len()
                invariant
                    i <= self.libs.len(),
                    kept@.map_values(|l: DescLib| l@) == without_category(
                        self@,
                        lib@.category,
                        i as int,
                    ),
                decreases self.libs.len() - i,
            {
                if !same_text(self.libs[i].category.as_str(), lib.category.as_str()) {
                    let copy = self.libs[i].clone();
                    assert(kept@.push(copy).map_values(|l: DescLib| l@) =~= kept@.map_values(
                        |l: DescLib| l@,
                    ).push(copy@));
                    kept.push(copy);
                }
                i = i + 1;
            }
            assert(kept@.push(lib).map_values(|l: DescLib| l@) =~= kept@.map_values(
                |l: DescLib| l@,
            ).push(lib@));
            kept.push(lib);
            self.libs = kept;
        } else {
            proof {
                lemma_category_index(self@, lib@.category, 0);
                lemma_without_absent(self@, lib@.category, self@.len() as int);
            }
            assert(self.libs@.push(lib).map_values(|l: DescLib| l@) =~= self@.push(lib@));
            self.libs.push(lib);
        }
        Ok(())
    }
}

/// The number of descriptions grows with the number of libraries counted.
pub proof fn lemma_desc_total_grows(libs: Seq<DescLibModel>, a: int, b: int)
    requires
        a <= b,
    ensures
        desc_total(libs, a) <= desc_total(libs, b),
    decreases b - a,
{
    if a < b {
        lemma_desc_total_grows(libs, a, b - 1);
    }
}

/// Dropping a category that no library has drops nothing.
pub proof fn lemma_without_absent(libs: Seq<DescLibModel>, category: Seq<char>, n: int)
    requires
        0 <= n <= libs.len(),
        forall|j: int| 0 <= j < libs.len() ==> libs[j].category != category,
    ensures
        without_category(libs, category, n) == libs.take(n),
    decreases n,
{
    if n > 0 {
        lemma_without_absent(libs, category, n - 1);
        assert(libs.take(n - 1).push(libs[n - 1]) =~= libs.take(n));
    } else {
        assert(libs.take(0) =~= Seq::<DescLibModel>::empty());
    }
}

} // verus!

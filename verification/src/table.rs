//! Tables keyed by name.
//!
//! A [`NameTable`] keeps its entries in the order in which they were added,
//! so that whatever is built by walking a table comes out in that order. A
//! lookup finds the first entry that carries the name.

use vstd::prelude::*;

verus! {

/// Equality of string slices, which the standard library decides by
/// comparing their bytes: two slices are equal exactly when they hold the
/// same characters.
pub assume_specification[ <str as PartialEq>::eq ](a: &str, b: &str) -> (same: bool)
    ensures
        same == (a@ == b@),
;

/// An ordered list of named values.
#[derive(Debug, PartialEq)]
pub struct NameTable<V> {
    pub entries: Vec<(String, V)>,
}

impl<V> NameTable<V> {
    /// The name of entry `i`.
    pub open spec fn key(&self, i: int) -> Seq<char> {
        self.entries@[i].0@
    }

    /// The value of entry `i`.
    pub open spec fn value(&self, i: int) -> V {
        self.entries@[i].1
    }

    /// Whether `i` is the first entry named `name`.
    pub open spec fn first_at(&self, name: Seq<char>, i: int) -> bool {
        &&& 0 <= i < self.entries@.len()
        &&& self.key(i) == name
        &&& forall|j: int| 0 <= j < i ==> self.key(j) != name
    }

    /// Whether some entry is named `name`.
    pub open spec fn contains(&self, name: Seq<char>) -> bool {
        exists|i: int| 0 <= i < self.entries@.len() && self.key(i) == name
    }

    /// The index of the first entry named `name`, where there is one.
    pub open spec fn index_of(&self, name: Seq<char>) -> int {
        choose|i: int| self.first_at(name, i)
    }

    /// The value of the first entry named `name`.
    pub open spec fn lookup(&self, name: Seq<char>) -> Option<V> {
        if self.contains(name) {
            Some(self.value(self.index_of(name)))
        } else {
            None
        }
    }

    /// Whether no name occurs twice.
    pub open spec fn distinct(&self) -> bool {
        forall|i: int, j: int|
            0 <= i < j < self.entries@.len() ==> self.key(i) != self.key(j)
    }

    /// A table without entries.
    pub fn new() -> (table: Self)
        ensures
            table.entries@.len() == 0,
            table.distinct(),
    {
        NameTable { entries: Vec::new() }
    }

    /// The number of entries.
    pub fn len(&self) -> (n: usize)
        ensures
            n == self.entries@.len(),
    {
        self.entries.len()
    }

    /// Whether no name occurs twice.
    pub fn is_distinct(&self) -> (distinct: bool)
        ensures
            distinct == self.distinct(),
    {
        let mut j: usize = 0;
        while j < self.entries.len()
            invariant
                j <= self.entries@.len(),
                forall|a: int, b: int| 0 <= a < b < j ==> self.key(a) != self.key(b),
            decreases self.entries@.len() - j,
        {
            let mut i: usize = 0;
            while i < j
                invariant
                    i <= j < self.entries@.len(),
                    forall|a: int| 0 <= a < i ==> self.key(a) != self.key(j as int),
                decreases j - i,
            {
                if self.entries[i].0.as_str().eq(self.entries[j].0.as_str()) {
                    assert(self.key(i as int) == self.key(j as int));
                    return false;
                }
                i = i + 1;
            }
            j = j + 1;
        }
        true
    }

    /// The index of the first entry named `name`.
    pub fn find(&self, name: &str) -> (found: Option<usize>)
        ensures
            found is Some <==> self.contains(name@),
            found matches Some(i) ==> self.first_at(name@, i as int) && i as int == self.index_of(
                name@,
            ),
    {
        let mut i: usize = 0;
        while i < self.entries.len()
            invariant
                i <= self.entries@.len(),
                forall|j: int| 0 <= j < i ==> self.key(j) != name@,
            decreases self.entries@.len() - i,
        {
            if self.entries[i].0.as_str().eq(name) {
                proof {
                    self.lemma_first_is_index_of(name@, i as int);
                }
                return Some(i);
            }
            i = i + 1;
        }
        None
    }

    /// The value of the first entry named `name`.
    pub fn get(&self, name: &str) -> (value: Option<&V>)
        ensures
            value == match self.lookup(name@) {
                Some(v) => Some(&v),
                None => None,
            },
    {
        match self.find(name) {
            Some(i) => Some(&self.entries[i].1),
            None => None,
        }
    }

    /// Adds an entry for `name`, or replaces the value of the entry that
    /// already carries the name. Returns the index of the entry.
    pub fn insert(&mut self, name: String, value: V) -> (at: usize)
        ensures
            at as int == if old(self).contains(name@) {
                old(self).index_of(name@)
            } else {
                old(self).entries@.len() as int
            },
            final(self).entries@.len() == if old(self).contains(name@) {
                old(self).entries@.len()
            } else {
                old(self).entries@.len() + 1
            },
            final(self).key(at as int) == name@,
            final(self).value(at as int) == value,
            forall|i: int|
                0 <= i < old(self).entries@.len() && i != at ==> final(self).entries@[i] == old(
                    self,
                ).entries@[i],
            forall|i: int|
                0 <= i < old(self).entries@.len() ==> final(self).key(i) == old(self).key(i),
            old(self).distinct() ==> final(self).distinct(),
            final(self).lookup(name@) == Some(value),
    {
        let found = self.find(name.as_str());
        match found {
            Some(i) => {
                self.entries[i].1 = value;
                proof {
                    assert forall|j: int| 0 <= j < self.entries@.len() implies self.key(j) == old(
                        self,
                    ).key(j) by {
                        if j != i {
                            assert(self.entries@[j] == old(self).entries@[j]);
                        }
                    }
                    assert(self.first_at(name@, i as int));
                    self.lemma_first_is_index_of(name@, i as int);
                }
                i
            },
            None => {
                let n: usize = self.entries.len();
                self.entries.push((name, value));
                proof {
                    assert forall|j: int| 0 <= j < n implies self.key(j) == old(self).key(j)
                        && self.key(j) != name@ by {
                        assert(self.entries@[j] == old(self).entries@[j]);
                        assert(!old(self).contains(name@));
                    }
                    assert(self.first_at(name@, n as int));
                    self.lemma_first_is_index_of(name@, n as int);
                }
                n
            },
        }
    }

    /// The first entry with a name is the one that `index_of` picks.
    pub proof fn lemma_first_is_index_of(&self, name: Seq<char>, i: int)
        requires
            self.first_at(name, i),
        ensures
            self.contains(name),
            self.index_of(name) == i,
            self.lookup(name) == Some(self.value(i)),
    {
        let k = self.index_of(name);
        assert(self.first_at(name, k));
        if k < i {
            assert(self.key(k) != name);
        }
        if i < k {
            assert(self.key(i) != name);
        }
    }

    /// Two tables that hold the same names in the same order agree on
    /// whether a name occurs twice.
    pub proof fn lemma_same_names(&self, other: &NameTable<V>)
        requires
            self.entries@.len() == other.entries@.len(),
            forall|i: int| 0 <= i < self.entries@.len() ==> self.key(i) == other.key(i),
        ensures
            self.distinct() == other.distinct(),
    {
        if self.distinct() {
            assert forall|i: int, j: int| 0 <= i < j < other.entries@.len() implies other.key(i)
                != other.key(j) by {
                assert(self.key(i) != self.key(j));
            }
        }
        if other.distinct() {
            assert forall|i: int, j: int| 0 <= i < j < self.entries@.len() implies self.key(i)
                != self.key(j) by {
                assert(other.key(i) != other.key(j));
            }
        }
    }

    /// Where no name occurs twice, every entry is the one that its name
    /// finds: a lookup of the name of entry `i` gives the value of entry
    /// `i`, whichever entry that is.
    pub proof fn lemma_distinct_lookup(&self, i: int)
        requires
            self.distinct(),
            0 <= i < self.entries@.len(),
        ensures
            self.first_at(self.key(i), i),
            self.index_of(self.key(i)) == i,
            self.lookup(self.key(i)) == Some(self.value(i)),
    {
        self.lemma_first_is_index_of(self.key(i), i);
    }
}

} // verus!

//! Static solution table: an immutable, externally supplied array of 10,000
//! slots, one per canonical index, each holding an ordered sequence of
//! solution strings (possibly empty).
//!
//! The table is a read-only data asset: it is populated once, before any
//! lookup, and every valid canonical index has an entry.

use crate::indexer::TABLE_SIZE;
use vstd::prelude::*;

verus! {

/// The immutable mapping from canonical index to its solution set.
pub struct SolutionTable {
    entries: Vec<Vec<String>>,
}

impl SolutionTable {
    /// The table's contents: one sequence of solution strings per index.
    pub closed spec fn contents(self) -> Seq<Seq<String>> {
        self.entries@.map_values(|e: Vec<String>| e@)
    }

    /// A well-formed table has exactly one entry per canonical index.
    pub open spec fn wf(self) -> bool {
        self.contents().len() == TABLE_SIZE
    }

    /// Adopt an externally produced array of solution sets as the table.
    /// Accepts exactly the arrays with one entry per canonical index.
    pub fn from_entries(entries: Vec<Vec<String>>) -> (r: Option<SolutionTable>)
        ensures
            entries@.len() == TABLE_SIZE ==> (r matches Some(t) && t.wf() && t.contents()
                == entries@.map_values(|e: Vec<String>| e@)),
            entries@.len() != TABLE_SIZE ==> r is None,
    {
        if entries.len() == TABLE_SIZE {
            Some(SolutionTable { entries })
        } else {
            None
        }
    }

    /// Read-only lookup, total over the canonical indices.
    pub fn lookup(&self, index: usize) -> (r: &Vec<String>)
        requires
            self.wf(),
            index < TABLE_SIZE,
        ensures
            r@ == self.contents()[index as int],
    {
        &self.entries[index]
    }

    /// A fresh, independently owned copy of one entry, for callers that must
    /// not alias table-owned storage.
    pub fn entry_copy(&self, index: usize) -> (r: Vec<String>)
        requires
            self.wf(),
            index < TABLE_SIZE,
        ensures
            r@ == self.contents()[index as int],
    {
        copy_strings(self.lookup(index))
    }
}

/// Element-by-element copy of a sequence of strings.
fn copy_strings(v: &Vec<String>) -> (r: Vec<String>)
    ensures
        r@ == v@,
{
    let mut r: Vec<String> = Vec::new();
    let mut j: usize = 0;
    while j < v.len()
        invariant
            j <= v.len(),
            r@ == v@.subrange(0, j as int),
        decreases v.len() - j,
    {
        r.push(v[j].clone());
        assert(r@ =~= v@.subrange(0, j + 1));
        j += 1;
    }
    assert(r@ =~= v@);
    r
}

} // verus!

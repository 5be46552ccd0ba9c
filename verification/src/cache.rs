//! Memoizing result cache: one write-once slot per canonical index, holding a
//! shared handle to the materialized solution set for that index.
//!
//! A slot moves from empty to populated at most once; once populated it is
//! never re-derived, so every caller holding a handle sees the same value.
//! The `Solver` wraps the slots in a single lock so that the check of a slot
//! and its population happen in one exclusion region, as one `O(1)` step.

use crate::indexer::{all_digits_ok, get_index, lemma_index_in_range, spec_index, TABLE_SIZE};
use crate::table::SolutionTable;
use std::sync::Arc;
use vstd::pervasive::VecAdditionalExecFns;
use vstd::prelude::*;
use vstd::rwlock::{RwLock, RwLockPredicate};

verus! {

/// Relies on std's `Arc::clone`: the returned handle points to the same
/// allocation as `h`, so it carries the same value; only a reference count
/// is touched.
#[verifier::external_body]
fn share(h: &Arc<Vec<String>>) -> (r: Arc<Vec<String>>)
    ensures
        r == *h,
{
    Arc::clone(h)
}

/// The write-once memoization slots, one per canonical index.
pub struct ResultCache {
    slots: Vec<Option<Arc<Vec<String>>>>,
}

impl View for ResultCache {
    type V = Seq<Option<Arc<Vec<String>>>>;

    closed spec fn view(&self) -> Seq<Option<Arc<Vec<String>>>> {
        self.slots@
    }
}

impl ResultCache {
    /// The slot for `i` is already populated.
    pub open spec fn populated(self, i: int) -> bool {
        self@[i] is Some
    }

    /// The cache is sized to the whole domain and every populated slot holds
    /// exactly the solution set that `contents` gives for its index.
    pub open spec fn coherent(self, contents: Seq<Seq<String>>) -> bool {
        &&& self@.len() == TABLE_SIZE
        &&& forall|i: int|
            0 <= i < self@.len() ==> ((#[trigger] self@[i]) matches Some(h) ==> h@ == contents[i])
    }

    /// A cache with every slot still empty.
    pub fn empty() -> (r: ResultCache)
        ensures
            r@.len() == TABLE_SIZE,
            forall|i: int| 0 <= i < TABLE_SIZE ==> (#[trigger] r@[i]) is None,
    {
        let mut slots: Vec<Option<Arc<Vec<String>>>> = Vec::new();
        let mut j: usize = 0;
        while j < TABLE_SIZE
            invariant
                j <= TABLE_SIZE,
                slots@.len() == j,
                forall|i: int| 0 <= i < j ==> slots@[i] is None,
            decreases TABLE_SIZE - j,
        {
            slots.push(None);
            j += 1;
        }
        ResultCache { slots }
    }

    /// Get-or-populate for one slot: on a hit, hand out another handle to the
    /// already materialized value and change nothing; on a miss, materialize
    /// the table's entry once, store a handle, and hand one out.
    ///
    /// The slot is written at most once: a populated slot is returned as is,
    /// never re-derived or overwritten.
    pub fn get_or_populate(&mut self, index: usize, table: &SolutionTable) -> (r: Arc<
        Vec<String>,
    >)
        requires
            table.wf(),
            index < TABLE_SIZE,
            old(self).coherent(table.contents()),
        ensures
            final(self).coherent(table.contents()),
            r@ == table.contents()[index as int],
            final(self)@[index as int] == Some(r),
            old(self).populated(index as int) ==> final(self)@ == old(self)@ && old(
                self,
            )@[index as int] == Some(r),
            !old(self).populated(index as int) ==> final(self)@ == old(self)@.update(
                index as int,
                Some(r),
            ),
    {
        match &self.slots[index] {
            Some(h) => share(h),
            None => {
                let fresh = Arc::new(table.entry_copy(index));
                let handle = share(&fresh);
                self.slots.set(index, Some(handle));
                fresh
            },
        }
    }
}

/// The lock invariant of the shared cache: the slots stay coherent with one
/// fixed table contents, chosen when the solver is wired together.
pub struct CachePred {
    pub contents: Seq<Seq<String>>,
}

impl RwLockPredicate<ResultCache> for CachePred {
    open spec fn inv(self, c: ResultCache) -> bool {
        c.coherent(self.contents)
    }
}

/// The wired-together system: the immutable solution table beside the
/// memoizing cache, the latter guarded by one lock for the whole slot array.
///
/// The table and the indexer are immutable and need no synchronization; only
/// slot population is serialized, and the exclusion region spans exactly the
/// check-then-write of one slot.
pub struct Solver {
    table: SolutionTable,
    cache: RwLock<ResultCache, CachePred>,
}

impl Solver {
    /// The solution sets this solver serves, by canonical index.
    pub closed spec fn contents(self) -> Seq<Seq<String>> {
        self.table.contents()
    }

    #[verifier::type_invariant]
    spec fn inv(self) -> bool {
        &&& self.table.wf()
        &&& self.cache.pred() == (CachePred { contents: self.table.contents() })
    }

    /// Wire a solver around an externally supplied table; the cache starts
    /// with every slot empty.
    pub fn new(table: SolutionTable) -> (s: Solver)
        requires
            table.wf(),
        ensures
            s.contents() == table.contents(),
    {
        let ghost pred = CachePred { contents: table.contents() };
        let cache = ResultCache::empty();
        Solver { table, cache: RwLock::new(cache, Ghost(pred)) }
    }

    /// Cached-handle variant: a shared handle to the materialized solution
    /// set for `index`, produced at most once per index.
    ///
    /// The slot check and, on a miss, the population happen under one
    /// exclusive lock, so no two callers race to populate the same slot and
    /// none observes a half-populated slot.
    pub fn materialize(&self, index: usize) -> (r: Arc<Vec<String>>)
        requires
            index < TABLE_SIZE,
        ensures
            r@ == self.contents()[index as int],
    {
        proof {
            use_type_invariant(self);
        }
        let (mut cache, handle) = self.cache.acquire_write();
        let r = cache.get_or_populate(index, &self.table);
        handle.release_write(cache);
        r
    }

    /// The primary call surface: the solution set for four digit values.
    ///
    /// Fail-soft: an out-of-range value yields an empty solution set, never
    /// an error. Valid digits yield the cached handle for their canonical
    /// index.
    pub fn solve(&self, n1: u8, n2: u8, n3: u8, n4: u8) -> (r: Arc<Vec<String>>)
        ensures
            all_digits_ok(n1, n2, n3, n4) ==> r@ == self.contents()[spec_index(
                n1 as int,
                n2 as int,
                n3 as int,
                n4 as int,
            )],
            !all_digits_ok(n1, n2, n3, n4) ==> r@ == Seq::<String>::empty(),
    {
        match get_index(n1, n2, n3, n4) {
            Some(index) => {
                proof {
                    lemma_index_in_range(n1, n2, n3, n4);
                }
                self.materialize(index)
            },
            None => Arc::new(Vec::new()),
        }
    }

    /// Transient-copy variant: a fresh, independently owned copy of the
    /// solution set, serialized directly from the table on every call and
    /// bypassing the cache. Agrees with `solve` on content for every input.
    pub fn solve_transient(&self, n1: u8, n2: u8, n3: u8, n4: u8) -> (r: Vec<String>)
        ensures
            all_digits_ok(n1, n2, n3, n4) ==> r@ == self.contents()[spec_index(
                n1 as int,
                n2 as int,
                n3 as int,
                n4 as int,
            )],
            !all_digits_ok(n1, n2, n3, n4) ==> r@ == Seq::<String>::empty(),
    {
        proof {
            use_type_invariant(self);
        }
        match get_index(n1, n2, n3, n4) {
            Some(index) => {
                proof {
                    lemma_index_in_range(n1, n2, n3, n4);
                }
                self.table.entry_copy(index)
            },
            None => Vec::new(),
        }
    }
}

} // verus!

use make10::cache::{ResultCache, Solver};
use make10::table::SolutionTable;
use std::sync::Arc;

fn sample_entries() -> Vec<Vec<String>> {
    let mut entries: Vec<Vec<String>> = vec![Vec::new(); 10000];
    entries[1234] = vec!["1+2+3+4".to_string(), "1*2+3*4 - 4".to_string()];
    entries[5555] = vec!["5+5+5-5".to_string()];
    entries[279] = vec!["(9-2)+0+7 - 4".to_string()];
    entries
}

fn sample_table() -> SolutionTable {
    SolutionTable::from_entries(sample_entries()).unwrap()
}

#[test]
fn from_entries_accepts_exactly_the_full_size() {
    assert!(SolutionTable::from_entries(Vec::new()).is_none());
    assert!(SolutionTable::from_entries(vec![Vec::new(); 9999]).is_none());
    assert!(SolutionTable::from_entries(vec![Vec::new(); 10001]).is_none());
    assert!(SolutionTable::from_entries(vec![Vec::new(); 10000]).is_some());
}

#[test]
fn lookup_returns_the_stored_entry() {
    let table = sample_table();
    assert_eq!(*table.lookup(1234), sample_entries()[1234]);
    assert_eq!(*table.lookup(0), Vec::<String>::new());
    assert_eq!(table.entry_copy(5555), sample_entries()[5555]);
}

#[test]
fn solve_returns_table_slot_1234() {
    let solver = Solver::new(sample_table());
    assert_eq!(*solver.solve(1, 2, 3, 4), sample_entries()[1234]);
}

#[test]
fn solve_is_permutation_invariant_in_content() {
    let solver = Solver::new(sample_table());
    let first = solver.solve(1, 2, 3, 4);
    let second = solver.solve(4, 3, 2, 1);
    assert_eq!(*first, *second);
    assert_eq!(*second, sample_entries()[1234]);
}

#[test]
fn solve_rejects_out_of_range_with_empty_result() {
    let solver = Solver::new(sample_table());
    assert_eq!(*solver.solve(1, 2, 3, 10), Vec::<String>::new());
    assert_eq!(solver.solve_transient(1, 2, 3, 10), Vec::<String>::new());
    assert_eq!(*solver.solve(200, 9, 9, 9), Vec::<String>::new());
}

#[test]
fn solve_zero_quadruple_matches_slot_zero() {
    let solver = Solver::new(sample_table());
    assert_eq!(*solver.solve(0, 0, 0, 0), Vec::<String>::new());
}

#[test]
fn repeated_solve_shares_one_materialized_value() {
    let solver = Solver::new(sample_table());
    let first = solver.solve(5, 5, 5, 5);
    let second = solver.solve(5, 5, 5, 5);
    let third = solver.solve(5, 5, 5, 5);
    assert_eq!(*first, sample_entries()[5555]);
    assert_eq!(*first, *second);
    // The slot was populated exactly once: later calls hand out handles to
    // the same allocation, not fresh conversions.
    assert!(Arc::ptr_eq(&first, &second));
    assert!(Arc::ptr_eq(&first, &third));
}

#[test]
fn materialize_is_content_stable() {
    let solver = Solver::new(sample_table());
    let expected = sample_entries()[279].clone();
    for _ in 0..5 {
        assert_eq!(*solver.materialize(279), expected);
    }
    for _ in 0..3 {
        assert_eq!(*solver.materialize(42), Vec::<String>::new());
    }
}

#[test]
fn transient_copy_agrees_with_cached_handle() {
    let solver = Solver::new(sample_table());
    for &(n1, n2, n3, n4) in
        &[(1u8, 2u8, 3u8, 4u8), (5, 5, 5, 5), (0, 0, 0, 0), (9, 7, 2, 0), (9, 9, 9, 9)]
    {
        let cached = solver.solve(n1, n2, n3, n4);
        let transient = solver.solve_transient(n1, n2, n3, n4);
        assert_eq!(*cached, transient);
    }
}

#[test]
fn transient_copy_does_not_alias_the_table() {
    let solver = Solver::new(sample_table());
    let mut copy = solver.solve_transient(5, 5, 5, 5);
    copy.push("scribble".to_string());
    assert_eq!(solver.solve_transient(5, 5, 5, 5), sample_entries()[5555]);
}

#[test]
fn cache_component_populates_each_slot_once() {
    let table = sample_table();
    let mut cache = ResultCache::empty();
    let first = cache.get_or_populate(1234, &table);
    let second = cache.get_or_populate(1234, &table);
    assert_eq!(*first, sample_entries()[1234]);
    assert!(Arc::ptr_eq(&first, &second));
    let other = cache.get_or_populate(0, &table);
    assert_eq!(*other, Vec::<String>::new());
    assert!(!Arc::ptr_eq(&first, &other));
}

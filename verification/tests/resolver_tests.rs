use nordea2ynab::resolver::{resolve_cut, select_new_rows, ResolveError};
use nordea2ynab::TransactionRecord;

fn rec(date: &str, amount: &str, description: &str) -> TransactionRecord {
    TransactionRecord {
        date: date.to_string(),
        amount: amount.to_string(),
        description: description.to_string(),
    }
}

fn anchor() -> TransactionRecord {
    rec("2023-10-01", "-10,00", "Coffee")
}

#[test]
fn no_previous_emits_everything() {
    let rows = vec![
        rec("2023-10-03", "-1,00", "A"),
        rec("2023-10-02", "-2,00", "B"),
        rec("2023-10-01", "-3,00", "C"),
    ];
    assert_eq!(resolve_cut(&rows, None), Ok(3));
    let emitted = select_new_rows(&rows, 3);
    assert_eq!(emitted, rows);
}

#[test]
fn rerun_with_identical_export_emits_nothing() {
    let rows = vec![
        rec("2023-10-03", "-1,00", "A"),
        rec("2023-10-02", "-2,00", "B"),
        rec("2023-10-01", "-3,00", "C"),
    ];
    assert_eq!(resolve_cut(&rows, None), Ok(3));
    let cut = resolve_cut(&rows, Some(&rows)).unwrap();
    assert_eq!(cut, 0);
    assert!(select_new_rows(&rows, cut).is_empty());
}

#[test]
fn duplicate_anchor_contiguous() {
    let a = anchor();
    let prev = vec![a.clone(), a.clone(), a.clone(), rec("2023-09-30", "-4,00", "Old")];
    let mut current = vec![
        rec("2023-10-05", "-1,00", "N1"),
        rec("2023-10-04", "-2,00", "N2"),
        rec("2023-10-04", "-3,00", "N3"),
        rec("2023-10-03", "-4,00", "N4"),
        rec("2023-10-02", "-5,00", "N5"),
    ];
    let new_rows = current.clone();
    current.extend(prev.iter().cloned());
    assert_eq!(resolve_cut(&current, Some(&prev)), Ok(5));
    assert_eq!(select_new_rows(&current, 5), new_rows);
}

#[test]
fn duplicate_anchor_non_contiguous() {
    let a = anchor();
    let prev = vec![
        a.clone(),
        rec("2023-10-01", "-7,00", "Groceries"),
        a.clone(),
        rec("2023-09-30", "-4,00", "Old"),
        a.clone(),
    ];
    let mut current = vec![
        rec("2023-10-05", "-1,00", "N1"),
        rec("2023-10-04", "-2,00", "N2"),
        rec("2023-10-04", "-3,00", "N3"),
        rec("2023-10-03", "-4,00", "N4"),
        rec("2023-10-02", "-5,00", "N5"),
    ];
    let new_rows = current.clone();
    current.extend(prev.iter().cloned());
    assert_eq!(resolve_cut(&current, Some(&prev)), Ok(5));
    assert_eq!(select_new_rows(&current, 5), new_rows);
}

#[test]
fn reconciliation_gap_fails() {
    let a = anchor();
    let prev = vec![a.clone(), rec("2023-09-30", "-4,00", "Old"), a.clone()];
    let current = vec![rec("2023-10-05", "-1,00", "N1"), a.clone(), rec("2023-09-29", "-5,00", "Older")];
    assert_eq!(
        resolve_cut(&current, Some(&prev)),
        Err(ResolveError::NonOverlapping { found: 1, expected: 2 })
    );
}

#[test]
fn empty_previous_fails() {
    let prev: Vec<TransactionRecord> = Vec::new();
    let current = vec![rec("2023-10-05", "-1,00", "N1")];
    assert_eq!(resolve_cut(&current, Some(&prev)), Err(ResolveError::EmptyPrevious));
}

#[test]
fn extra_anchor_occurrences_cut_at_latest() {
    // The anchor appears once in the previous export but twice in the
    // current one: the single known occurrence is consumed from the end, so
    // the earlier occurrence counts as new.
    let a = anchor();
    let prev = vec![a.clone(), rec("2023-09-30", "-4,00", "Old")];
    let current = vec![
        rec("2023-10-05", "-1,00", "N1"),
        a.clone(),
        rec("2023-10-02", "-5,00", "N2"),
        a.clone(),
        rec("2023-09-30", "-4,00", "Old"),
    ];
    assert_eq!(resolve_cut(&current, Some(&prev)), Ok(3));
}

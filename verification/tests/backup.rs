use noted_core::backup::{check_snapshot, SnapshotRefusal, INVENTORY_TABLES};

fn inventory(rows: &[(&str, i64)]) -> Vec<(String, i64)> {
    rows.iter().map(|(name, count)| (name.to_string(), *count)).collect()
}

#[test]
fn a_clean_snapshot_with_matching_counts_is_accepted() {
    let expected = inventory(&[("meetings", 4), ("notes", 12)]);
    assert!(check_snapshot(&["ok".to_owned()], false, &expected, &expected.clone()).is_ok());
}

#[test]
fn quick_check_findings_are_listed_in_the_refusal() {
    let rows = vec!["*** in database main ***".to_owned(), "Page 4: never used".to_owned()];
    match check_snapshot(&rows, false, &[], &[]) {
        Err(SnapshotRefusal::QuickCheck(message)) => assert_eq!(
            message,
            "snapshot quick_check failed: *** in database main ***; Page 4: never used"
        ),
        other => panic!("unexpected verdict {other:?}"),
    }
    match check_snapshot(&[], false, &[], &[]) {
        Err(refusal) => assert_eq!(refusal.message("", ""), "snapshot quick_check failed: "),
        Ok(()) => panic!("an empty quick check is no success"),
    }
    assert!(check_snapshot(&["ok".to_owned(), "ok".to_owned()], false, &[], &[]).is_err());
}

#[test]
fn foreign_key_violations_and_count_drift_are_refused_in_that_order() {
    let expected = inventory(&[("notes", 12)]);
    let drifted = inventory(&[("notes", 11)]);
    let verdict = check_snapshot(&["ok".to_owned()], true, &expected, &drifted);
    assert!(matches!(verdict, Err(SnapshotRefusal::ForeignKeys)));
    assert_eq!(
        verdict.unwrap_err().message("", ""),
        "snapshot foreign_key_check failed"
    );
    let verdict = check_snapshot(&["ok".to_owned()], false, &expected, &drifted);
    let refusal = verdict.unwrap_err();
    assert!(matches!(refusal, SnapshotRefusal::InventoryMismatch));
    assert_eq!(
        refusal.message("{\"notes\": 12}", "{\"notes\": 11}"),
        "snapshot canonical inventory mismatch: expected {\"notes\": 12}, got {\"notes\": 11}"
    );
    let missing = inventory(&[]);
    assert!(matches!(
        check_snapshot(&["ok".to_owned()], false, &expected, &missing),
        Err(SnapshotRefusal::InventoryMismatch)
    ));
}

#[test]
fn the_inventory_covers_the_canonical_tables() {
    assert_eq!(INVENTORY_TABLES.len(), 25);
    assert!(INVENTORY_TABLES.contains(&"notes"));
    assert!(INVENTORY_TABLES.contains(&"agent_context_receipts"));
    assert!(!INVENTORY_TABLES.iter().any(|table| table.contains("fts")));
}

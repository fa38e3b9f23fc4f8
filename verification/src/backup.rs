//! The acceptance rule for a database snapshot: a snapshot is published only
//! where SQLite's quick check reports exactly "ok", no foreign key is
//! violated, and every canonical table holds as many rows as it did in the
//! source. The files, the `VACUUM INTO` and the queries stay with the caller.
use vstd::prelude::*;
use crate::brain::{join, join_words};
use crate::text::{char_seqs, chars_eq, chars_of, str_eq, string_from_chars, string_seqs};

verus! {

/// The canonical and user-owned tables whose row counts must survive a
/// snapshot. Rebuildable full-text and vector tables are left out; the quick
/// check still covers the whole file.
pub const INVENTORY_TABLES: [&'static str; 25] = [
    "categories",
    "notes",
    "entries",
    "note_folders",
    "note_folder_items",
    "note_filing_events",
    "meeting_filing_rules",
    "app_metadata",
    "recaps",
    "entities",
    "entity_mentions",
    "dismissed_merges",
    "pending_captures",
    "brain_vaults",
    "meetings",
    "meeting_segments",
    "transcript_vocabulary",
    "transcript_correction_batches",
    "transcript_correction_items",
    "meeting_summaries",
    "meeting_speakers",
    "speaker_profiles",
    "meeting_templates",
    "agent_context_receipts",
    "schema_migrations",
];

/// Why a snapshot is refused.
#[derive(Debug)]
pub enum SnapshotRefusal {
    /// The quick check reported something other than a single "ok"; the
    /// message lists what it reported.
    QuickCheck(String),
    /// The foreign key check reported a violation.
    ForeignKeys,
    /// Some table's row count differs from the source's.
    InventoryMismatch,
}

/// A table inventory as plain values: each table with its row count.
pub open spec fn inventory_view(v: Seq<(String, i64)>) -> Seq<(Seq<char>, i64)> {
    Seq::new(v.len(), |i: int| (v[i].0@, v[i].1))
}

/// The refusal a snapshot earns, or none: first the quick check, then the
/// foreign keys, then the inventory.
pub open spec fn snapshot_refusal(
    quick_check: Seq<Seq<char>>,
    foreign_key_violation: bool,
    expected: Seq<(Seq<char>, i64)>,
    actual: Seq<(Seq<char>, i64)>,
) -> Option<u8> {
    if quick_check != seq!["ok"@] {
        Some(0)
    } else if foreign_key_violation {
        Some(1)
    } else if expected != actual {
        Some(2)
    } else {
        None
    }
}

fn message(s: &str) -> (r: String)
    ensures
        r@ == s@,
{
    string_from_chars(&chars_of(s))
}

fn inventories_equal(a: &[(String, i64)], b: &[(String, i64)]) -> (r: bool)
    ensures
        r == (inventory_view(a@) == inventory_view(b@)),
{
    if a.len() != b.len() {
        assert(inventory_view(a@).len() != inventory_view(b@).len());
        return false;
    }
    let mut i: usize = 0;
    while i < a.len()
        invariant
            i <= a@.len(),
            a@.len() == b@.len(),
            forall|k: int| 0 <= k < i ==> (#[trigger] inventory_view(a@)[k]) == inventory_view(b@)[k],
        decreases a@.len() - i,
    {
        if !str_eq(a[i].0.as_str(), b[i].0.as_str()) || a[i].1 != b[i].1 {
            assert(inventory_view(a@)[i as int] != inventory_view(b@)[i as int]);
            return false;
        }
        i = i + 1;
    }
    assert(inventory_view(a@) =~= inventory_view(b@));
    true
}

/// Decides whether a validated snapshot may be published, from the rows of
/// its quick check, whether its foreign key check reported anything, and
/// the inventories of the source and of the snapshot (each table with its
/// row count, in table-name order).
pub fn check_snapshot(
    quick_check: &[String],
    foreign_key_violation: bool,
    expected: &[(String, i64)],
    actual: &[(String, i64)],
) -> (r: Result<(), SnapshotRefusal>)
    ensures
        match snapshot_refusal(
            string_seqs(quick_check@),
            foreign_key_violation,
            inventory_view(expected@),
            inventory_view(actual@),
        ) {
            None => r is Ok,
            Some(0) => r matches Err(SnapshotRefusal::QuickCheck(m)) && m@
                == "snapshot quick_check failed: "@ + join(string_seqs(quick_check@), "; "@),
            Some(1) => r matches Err(SnapshotRefusal::ForeignKeys),
            Some(_) => r matches Err(SnapshotRefusal::InventoryMismatch),
        },
{
    let ok = chars_of("ok");
    let mut only_ok = quick_check.len() == 1;
    if only_ok {
        let first = chars_of(quick_check[0].as_str());
        only_ok = chars_eq(first.as_slice(), ok.as_slice());
    }
    proof {
        if string_seqs(quick_check@) == seq!["ok"@] {
            assert(string_seqs(quick_check@).len() == quick_check@.len());
            assert(seq!["ok"@].len() == 1);
            assert(string_seqs(quick_check@)[0] == quick_check@[0]@);
        }
        if quick_check@.len() == 1 && quick_check@[0]@ == ok@ {
            assert(string_seqs(quick_check@) =~= seq!["ok"@]);
        }
    }
    if !only_ok {
        let mut rows: Vec<Vec<char>> = Vec::new();
        let mut i: usize = 0;
        while i < quick_check.len()
            invariant
                i <= quick_check@.len(),
                rows@.len() == i,
                char_seqs(rows@) == string_seqs(quick_check@).take(i as int),
            decreases quick_check@.len() - i,
        {
            let ghost before = rows@;
            let c = chars_of(quick_check[i].as_str());
            rows.push(c);
            assert(rows@ == before.push(c));
            assert forall|k: int| 0 <= k < i + 1 implies #[trigger] char_seqs(rows@)[k]
                == string_seqs(quick_check@).take(i + 1)[k] by {
                if k < i {
                    assert(rows@[k] == before[k]);
                    assert(char_seqs(before)[k] == before[k]@);
                }
            }
            assert(char_seqs(rows@) =~= string_seqs(quick_check@).take(i + 1));
            i = i + 1;
        }
        assert(string_seqs(quick_check@).take(quick_check@.len() as int) =~= string_seqs(quick_check@));
        let sep = chars_of("; ");
        let joined = join_words(&rows, sep.as_slice());
        let mut text = chars_of("snapshot quick_check failed: ");
        let mut tail = joined;
        text.append(&mut tail);
        return Err(SnapshotRefusal::QuickCheck(string_from_chars(text.as_slice())));
    }
    if foreign_key_violation {
        return Err(SnapshotRefusal::ForeignKeys);
    }
    if !inventories_equal(expected, actual) {
        return Err(SnapshotRefusal::InventoryMismatch);
    }
    Ok(())
}

impl SnapshotRefusal {
    /// The message a refused snapshot is reported with; the inventory
    /// mismatch names the two inventories, which `expected` and `actual`
    /// render.
    pub fn message(&self, expected: &str, actual: &str) -> (r: String)
        ensures
            match self {
                SnapshotRefusal::QuickCheck(m) => r@ == m@,
                SnapshotRefusal::ForeignKeys => r@ == "snapshot foreign_key_check failed"@,
                SnapshotRefusal::InventoryMismatch => r@
                    == "snapshot canonical inventory mismatch: expected "@ + expected@ + ", got "@
                    + actual@,
            },
    {
        match self {
            SnapshotRefusal::QuickCheck(m) => string_from_chars(&chars_of(m.as_str())),
            SnapshotRefusal::ForeignKeys => message("snapshot foreign_key_check failed"),
            SnapshotRefusal::InventoryMismatch => {
                let mut text = chars_of("snapshot canonical inventory mismatch: expected ");
                let mut e = chars_of(expected);
                text.append(&mut e);
                let mut g = chars_of(", got ");
                text.append(&mut g);
                let mut a = chars_of(actual);
                text.append(&mut a);
                string_from_chars(text.as_slice())
            },
        }
    }
}

} // verus!

use noted_core::db::{
    context_walk_step, folder_path_text, ContextWalk,
    check_folder_move, decide_undo_filing, inferred_folder_rule, is_filing_source,
    matches_daily_standup, normalized_filing_context, remove_sibling, reorder_siblings,
    restored_source, CurrentFiling, FilingEventFacts, FolderMoveFacts,
};
use noted_core::direct_authority_store::{ConfirmOutcome, StoreError};
use noted_core::direct_pairing::{
    check_active_replay, decide_delivery_commit, delivery_resolution, map_confirmation_outcome,
    owner_confirmation_path, to_array32, AuthorityClockError, CoordinatorError,
    OwnerConfirmationPath, OwnerConfirmationResult, PairingError,
    MAX_BOOTSTRAP_DELIVERY_REPLAYS_PER_WINDOW,
};
use noted_core::direct_pairing_delivery::{
    BootstrapDeliveryError, BootstrapDeliveryReplay, BootstrapDeliveryResolution, BootstrapDeliveryTerminal,
    BootstrapReplayCommit,
};

#[test]
fn folder_names_imply_rules_whatever_their_spelling() {
    assert_eq!(inferred_folder_rule("  One-on-Ones "), "one_on_one");
    assert_eq!(inferred_folder_rule("1:1"), "one_on_one");
    assert_eq!(inferred_folder_rule("partner_meetings"), "external_partner");
    assert_eq!(inferred_folder_rule("Partners"), "external_partner");
    assert_eq!(inferred_folder_rule("Projects"), "");
}

#[test]
fn standups_are_found_in_text_or_categories_but_not_under_schedule() {
    assert!(matches_daily_standup("Daily Stand-Up notes", &[]));
    assert!(matches_daily_standup("notes", &["Team standup".to_owned()]));
    assert!(matches_daily_standup("our daily scrum", &[]));
    assert!(!matches_daily_standup("Daily standup", &[" Schedule ".to_owned()]));
    assert!(!matches_daily_standup("planning", &["Work".to_owned()]));
}

#[test]
fn filing_contexts_are_work_or_personal() {
    assert_eq!(normalized_filing_context("  WORK ").unwrap(), "work");
    assert_eq!(normalized_filing_context("Personal").unwrap(), "personal");
    assert!(normalized_filing_context("home").is_err());
}

#[test]
fn moving_a_folder_reorders_siblings() {
    assert_eq!(reorder_siblings(&[1, 2, 3], 2, None).unwrap(), vec![1, 3, 2]);
    assert_eq!(reorder_siblings(&[1, 2, 3], 3, Some(1)).unwrap(), vec![3, 1, 2]);
    assert_eq!(reorder_siblings(&[1, 3], 9, Some(3)).unwrap(), vec![1, 9, 3]);
    assert_eq!(
        reorder_siblings(&[1, 3], 9, Some(4)).unwrap_err(),
        "destination sibling not found"
    );
    assert_eq!(remove_sibling(&[4, 9, 5, 9], 9), vec![4, 5]);
}

fn move_facts() -> FolderMoveFacts {
    FolderMoveFacts {
        kind: "folder".to_owned(),
        parent_exists: true,
        creates_cycle: false,
        source_context: "work".to_owned(),
        destination_context: "work".to_owned(),
        before_parent: Some(Some(10)),
    }
}

#[test]
fn folder_moves_are_checked_in_order() {
    assert_eq!(check_folder_move(5, Some(10), Some(6), &move_facts()).unwrap(), 10);
    let mut context = move_facts();
    context.kind = "context".to_owned();
    assert_eq!(
        check_folder_move(5, Some(10), None, &context).unwrap_err(),
        "only folders can be moved"
    );
    let mut cycle = move_facts();
    cycle.creates_cycle = true;
    assert_eq!(
        check_folder_move(5, Some(10), None, &cycle).unwrap_err(),
        "a folder cannot be moved inside itself"
    );
    assert_eq!(
        check_folder_move(5, None, None, &move_facts()).unwrap_err(),
        "folders must remain inside the Work or Personal context"
    );
    let mut crossing = move_facts();
    crossing.destination_context = "personal".to_owned();
    assert_eq!(
        check_folder_move(5, Some(10), None, &crossing).unwrap_err(),
        "folders cannot move between Work and Personal"
    );
    assert_eq!(
        check_folder_move(5, Some(10), Some(5), &move_facts()).unwrap_err(),
        "a folder cannot be placed before itself"
    );
    let mut elsewhere = move_facts();
    elsewhere.before_parent = Some(Some(11));
    assert_eq!(
        check_folder_move(5, Some(10), Some(6), &elsewhere).unwrap_err(),
        "destination sibling has a different parent"
    );
    let mut missing = move_facts();
    missing.before_parent = None;
    assert_eq!(
        check_folder_move(5, Some(10), Some(6), &missing).unwrap_err(),
        "destination sibling not found"
    );
}

fn event() -> FilingEventFacts {
    FilingEventFacts {
        note_id: 1,
        from_folder_id: Some(3),
        to_folder_id: Some(4),
        from_path: Some("Work / Acme".to_owned()),
        from_context: Some("work".to_owned()),
        to_context: Some("work".to_owned()),
        reason: "Moved by rule".to_owned(),
        from_event_id: Some(7),
    }
}

fn current() -> Option<CurrentFiling> {
    Some(CurrentFiling {
        folder_id: Some(4),
        event_id: Some(8),
        path: Some("Work / Beta".to_owned()),
        context: Some("work".to_owned()),
    })
}

#[test]
fn undo_restores_the_previous_filing_only_while_it_is_current() {
    let plan = decide_undo_filing(8, &event(), false, &current(), true).unwrap();
    assert_eq!(plan.folder_id, Some(3));
    assert_eq!(plan.reason, "Restored Work / Acme by undoing: Moved by rule");
    assert_eq!(plan.context.as_deref(), Some("work"));
    assert_eq!(
        decide_undo_filing(8, &event(), true, &current(), true).unwrap_err(),
        "restore the note before changing its filing"
    );
    assert_eq!(
        decide_undo_filing(9, &event(), false, &current(), true).unwrap_err(),
        "filing changed since this action"
    );
    assert_eq!(
        decide_undo_filing(8, &event(), false, &None, true).unwrap_err(),
        "filing changed since this action"
    );
    assert_eq!(
        decide_undo_filing(8, &event(), false, &current(), false).unwrap_err(),
        "the previous folder no longer exists"
    );
    let mut unfiled = event();
    unfiled.from_folder_id = None;
    unfiled.from_path = None;
    assert_eq!(
        decide_undo_filing(8, &unfiled, false, &current(), false)
            .unwrap()
            .reason,
        "Restored Unfiled by undoing: Moved by rule"
    );
    assert_eq!(restored_source(Some("rule".to_owned()), None), "rule");
    assert_eq!(restored_source(None, Some(3)), "manual");
    assert_eq!(restored_source(None, None), "context");
    assert!(is_filing_source("undo"));
    assert!(!is_filing_source("import"));
}

#[test]
fn owner_answers_are_routed_by_receipt_state() {
    assert_eq!(
        owner_confirmation_path("pending_user_confirmation", true, true, true),
        Ok(OwnerConfirmationPath::Generate)
    );
    assert_eq!(
        owner_confirmation_path("pending_user_confirmation", true, false, true),
        Ok(OwnerConfirmationPath::Cancel)
    );
    assert_eq!(
        owner_confirmation_path("active", false, true, true),
        Err(PairingError::EnrollmentAlreadyActive)
    );
    assert_eq!(
        owner_confirmation_path("active", true, false, false),
        Ok(OwnerConfirmationPath::ReplayActive)
    );
    assert_eq!(
        owner_confirmation_path("pending_finish", false, false, false),
        Ok(OwnerConfirmationPath::ReplayPending)
    );
    assert_eq!(
        owner_confirmation_path("revoked", true, true, true),
        Err(PairingError::DeviceRevoked)
    );
    assert_eq!(
        owner_confirmation_path("cancelled", true, true, true),
        Err(PairingError::EnrollmentCancelled)
    );
}

#[test]
fn confirmation_outcomes_map_to_results() {
    assert_eq!(
        map_confirmation_outcome(ConfirmOutcome::Confirmed(vec![1])),
        Ok(OwnerConfirmationResult::Bootstrap(vec![1]))
    );
    assert_eq!(
        map_confirmation_outcome(ConfirmOutcome::Cancelled),
        Ok(OwnerConfirmationResult::Cancelled)
    );
    assert_eq!(
        map_confirmation_outcome(ConfirmOutcome::Quarantined),
        Err(CoordinatorError::Protocol(PairingError::IdReuseQuarantined))
    );
    assert_eq!(
        map_confirmation_outcome(ConfirmOutcome::Expired),
        Err(CoordinatorError::Protocol(PairingError::ReceiptExpired))
    );
    assert_eq!(check_active_replay(&Some([1; 32]), &[1; 32]), Ok(()));
    assert_eq!(
        check_active_replay(&Some([1; 32]), &[2; 32]),
        Err(PairingError::IdReuseQuarantined)
    );
    assert_eq!(
        check_active_replay(&None, &[1; 32]),
        Err(PairingError::IdReuseQuarantined)
    );
    assert_eq!(
        AuthorityClockError.message(),
        "trusted authority clock is unavailable"
    );
}

#[test]
fn delivery_sees_pending_ready_and_terminal_receipts() {
    assert_eq!(
        delivery_resolution("pending_user_confirmation", 100, 50, None),
        Ok(BootstrapDeliveryResolution::Pending {
            retry_after_ms: 500
        })
    );
    assert_eq!(
        delivery_resolution("pending_finish", 100, 50, Some(vec![9])),
        Ok(BootstrapDeliveryResolution::Ready {
            exact_bootstrap_envelope: vec![9]
        })
    );
    assert_eq!(
        delivery_resolution("active", 100, 500, Some(vec![9])),
        Ok(BootstrapDeliveryResolution::Ready {
            exact_bootstrap_envelope: vec![9]
        })
    );
    assert_eq!(
        delivery_resolution("pending_user_confirmation", 100, 100, None),
        Ok(BootstrapDeliveryResolution::Rejected {
            reason: BootstrapDeliveryTerminal::Expired
        })
    );
    assert_eq!(
        delivery_resolution("cancelled", 100, 50, None),
        Ok(BootstrapDeliveryResolution::Rejected {
            reason: BootstrapDeliveryTerminal::Cancelled
        })
    );
    assert_eq!(
        delivery_resolution("pending_finish", 100, 50, None),
        Err(CoordinatorError::StateUnavailable("bootstrap response missing"))
    );
    assert_eq!(
        delivery_resolution("weird", 100, 50, None),
        Err(CoordinatorError::StateUnavailable(
            "invalid bootstrap delivery receipt state"
        ))
    );
}

fn replay(request_fill: u8) -> BootstrapDeliveryReplay {
    BootstrapDeliveryReplay {
        message_id: "m".to_owned(),
        receipt_id: "r".to_owned(),
        device_id: "d".to_owned(),
        tls_spki_sha256: [8; 32],
        exact_request_sha256: [request_fill; 32],
        exact_response_sha256: [3; 32],
        exact_response_bytes: vec![1, 2],
    }
}

#[test]
fn delivery_commits_settle_against_the_stored_row() {
    assert_eq!(
        decide_delivery_commit(&replay(1), Some(replay(1)), 0),
        Ok(Some(BootstrapReplayCommit::Existing(replay(1))))
    );
    assert_eq!(
        decide_delivery_commit(&replay(1), Some(replay(2)), 0),
        Ok(Some(BootstrapReplayCommit::Conflict))
    );
    assert_eq!(decide_delivery_commit(&replay(1), None, 3), Ok(None));
    assert_eq!(
        decide_delivery_commit(&replay(1), None, MAX_BOOTSTRAP_DELIVERY_REPLAYS_PER_WINDOW),
        Err(CoordinatorError::Protocol(PairingError::ResourceLimit))
    );
    assert_eq!(to_array32(&[5; 32]).unwrap(), [5; 32]);
    assert_eq!(
        to_array32(&[5; 31]).unwrap_err(),
        CoordinatorError::StateUnavailable("stored byte length mismatch")
    );
}

#[test]
fn folder_paths_read_from_the_root_down() {
    let names = vec!["Launch".to_owned(), "Projects".to_owned(), "Work".to_owned()];
    assert_eq!(folder_path_text(&names), "Work / Projects / Launch");
    assert_eq!(folder_path_text(&["Personal".to_owned()]), "Personal");
    assert_eq!(folder_path_text(&[]), "");
}

#[test]
fn walking_up_to_a_space_names_its_context() {
    let row = |name: &str, kind: &str, parent: Option<i64>| {
        Some((name.to_owned(), kind.to_owned(), parent))
    };
    assert!(matches!(context_walk_step(&[], 7, row("Launch", "folder", Some(3))), ContextWalk::Up(3)));
    match context_walk_step(&[7], 3, row("  Work ", "space", None)) {
        ContextWalk::Found(context) => assert_eq!(context, "work"),
        _ => panic!("expected the work space"),
    }
    match context_walk_step(&[7, 3], 7, row("Launch", "folder", Some(3))) {
        ContextWalk::Refused(reason) => assert_eq!(reason, "folder hierarchy contains a cycle"),
        _ => panic!("expected a cycle"),
    }
    match context_walk_step(&[], 9, None) {
        ContextWalk::Refused(reason) => assert_eq!(reason, "filing target not found"),
        _ => panic!("expected a missing folder"),
    }
    match context_walk_step(&[], 4, row("Loose", "folder", None)) {
        ContextWalk::Refused(reason) => assert_eq!(reason, "filing target is outside a context"),
        _ => panic!("expected a folder outside any space"),
    }
    match context_walk_step(&[], 5, row("Archive", "space", None)) {
        ContextWalk::Refused(reason) => assert_eq!(reason, "filing context must be work or personal"),
        _ => panic!("expected an unknown space"),
    }
}

#[test]
fn coordinator_errors_read_with_their_source() {
    assert_eq!(
        CoordinatorError::Protocol(PairingError::PinMismatch).message("transport pin mismatch"),
        "direct pairing protocol error: transport pin mismatch"
    );
    assert_eq!(
        CoordinatorError::Store(StoreError::ReplayLimit).message(""),
        "direct pairing store error: direct replay limit reached"
    );
    assert_eq!(
        CoordinatorError::Database("disk I/O error".to_owned()).message(""),
        "direct pairing database error: disk I/O error"
    );
    assert_eq!(
        CoordinatorError::Serialization.message(""),
        "direct pairing serialization failed"
    );
    assert_eq!(
        CoordinatorError::ClockUnavailable.message(""),
        "direct pairing authority clock failed"
    );
    assert_eq!(
        CoordinatorError::BootstrapDelivery(BootstrapDeliveryError::ReceiptNotFound).message(""),
        "bootstrap delivery receipt not found"
    );
    assert_eq!(
        CoordinatorError::StateUnavailable("receipt row missing").message(""),
        "direct pairing state unavailable: receipt row missing"
    );
}

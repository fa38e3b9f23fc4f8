use noted_core::direct_authority_store::{
    classify_replay, decide_acknowledgement, decide_activation, decide_change,
    decide_confirmation, decide_consume, decide_finish_failure, decide_finish_replay,
    decide_hello_replay,
    decide_invitation_failure, decide_profile_initialization, decide_registration,
    decide_revocation, i64_from_u64, json_equal, rate_window_start, require_fixture_profile,
    u64_from_db, validate_json, validate_sha256_hex, validate_text, validate_uuid_v7,
    AcknowledgeCheckpoint, AcknowledgementRow, ActivateEnrollment, AttemptOutcome, AttemptWrite,
    ChangeDecision, ConfirmDecision, FixtureChangeOutcome, ConfirmEnrollment, ConsumeInvitation, ConsumeStep,
    CounterDeviceRow, DeviceRow, FinishReplayDecision, FixtureAcceptedChange, FixtureProfileRow, HelloReplayDecision,
    InvitationRow, InvitationState, NewInvitation, ProfileRow, ReceiptRow, ReceiptState,
    RegistrationDecision, ReplayMatch, ReplayRow, RequestReplayRow, RevokeOutcome, SchemaAudit,
    StoreError, verify_schema_audit, REQUIRED_SCHEMA_OBJECTS,
};

const LIBRARY: &str = "018f0000-0000-7000-8000-000000000001";
const INVITATION: &str = "018f0000-0000-7000-8000-000000000002";
const RECEIPT: &str = "018f0000-0000-7000-8000-000000000003";
const DEVICE: &str = "018f0000-0000-7000-8000-000000000004";
const MESSAGE: &str = "018f0000-0000-7000-8000-000000000005";
const DIGEST_HEX: &str = "00112233445566778899aabbccddeeff00112233445566778899aabbccddeeff";

fn profile() -> Option<FixtureProfileRow> {
    Some(FixtureProfileRow {
        environment: "development".to_owned(),
        library_data_class: "sanitized_fixture".to_owned(),
        readiness_state: "fixture_ready".to_owned(),
        authority_generation: 1,
    })
}

fn invitation_row(state: &str, failed: i64) -> Option<InvitationRow> {
    Some(InvitationRow {
        library_id: LIBRARY.to_owned(),
        authority_generation: 1,
        pin: vec![8; 32],
        expires_at_ms: 1_000,
        failed_attempts: failed,
        state: state.to_owned(),
    })
}

fn receipt_row(state: &str) -> ReceiptRow {
    ReceiptRow {
        invitation_id: INVITATION.to_owned(),
        library_id: LIBRARY.to_owned(),
        device_id: DEVICE.to_owned(),
        display_name: "Phone".to_owned(),
        authority_generation: 1,
        granted_scopes_json: "[\"note\",\"folder\"]".to_owned(),
        capabilities_json: "{}".to_owned(),
        signing_key: vec![4; 65],
        hpke_key: vec![5; 32],
        verification_code: Some("123456".to_owned()),
        confirmation_digest: Some(vec![9; 32]),
        bootstrap_response: Some(b"bootstrap".to_vec()),
        failed_finish_attempts: 0,
        expires_at_ms: 1_000,
        state: state.to_owned(),
    }
}

fn consume(now: i64) -> ConsumeInvitation {
    ConsumeInvitation {
        message_id: MESSAGE.to_owned(),
        invitation_id: INVITATION.to_owned(),
        request_digest: [1; 32],
        observed_tls_spki_sha256: [8; 32],
        receipt_id: RECEIPT.to_owned(),
        device_id: DEVICE.to_owned(),
        display_name: "Phone".to_owned(),
        app_version: "1.0".to_owned(),
        build_version: "7".to_owned(),
        receipt_json: "{}".to_owned(),
        granted_scopes_json: "[]".to_owned(),
        capabilities_json: "{}".to_owned(),
        client_signing_public_key: [4; 65],
        client_hpke_public_key: [5; 32],
        exact_begin_response_bytes: b"server hello".to_vec(),
        verification_code: "123456".to_owned(),
        authority_now_ms: now,
    }
}

#[test]
fn field_checks_follow_their_rules() {
    assert!(validate_uuid_v7(LIBRARY, "library_id").is_ok());
    assert!(validate_uuid_v7("018F0000-0000-7000-B000-00000000000A", "x").is_ok());
    assert_eq!(
        validate_uuid_v7("018f0000-0000-4000-8000-000000000001", "library_id"),
        Err(StoreError::InvalidInput("library_id"))
    );
    assert!(validate_text("Edison's phone", 128, "display_name").is_ok());
    assert!(validate_text("   ", 128, "display_name").is_err());
    assert!(validate_text("bad\u{7}", 128, "display_name").is_err());
    assert!(validate_text("ééé", 5, "display_name").is_err());
    assert!(validate_sha256_hex(DIGEST_HEX, "d").is_ok());
    assert!(validate_sha256_hex(&DIGEST_HEX.to_uppercase(), "d").is_err());
    assert!(validate_json("{\"a\":1}", "j").is_ok());
    assert!(validate_json("{", "j").is_err());
    assert!(validate_json("", "j").is_err());
    assert_eq!(json_equal("{\"a\":1,\"b\":2}", "{\"b\":2,\"a\":1}"), Ok(true));
    assert_eq!(json_equal("[1,2]", "[2,1]"), Ok(false));
    assert_eq!(json_equal("[", "[]"), Err(StoreError::InvalidInput("json")));
    assert_eq!(i64_from_u64(u64::MAX, "g"), Err(StoreError::InvalidInput("g")));
    assert_eq!(u64_from_db(-1, "g"), Err(StoreError::StateUnavailable("g")));
    assert_eq!(rate_window_start(1_000_000), 700_000);
    assert_eq!(rate_window_start(i64::MIN + 5), i64::MIN);
}

#[test]
fn only_the_ready_fixture_profile_is_accepted() {
    assert_eq!(require_fixture_profile(&profile(), 1), Ok(()));
    assert_eq!(
        require_fixture_profile(&profile(), 2),
        Err(StoreError::StateUnavailable("authority generation changed"))
    );
    let mut personal = profile().unwrap();
    personal.library_data_class = "personal".to_owned();
    assert_eq!(require_fixture_profile(&Some(personal), 1), Err(StoreError::FixtureOnly));
    assert_eq!(
        require_fixture_profile(&None, 1),
        Err(StoreError::StateUnavailable("fixture authority is not initialized"))
    );
    assert_eq!(InvitationState::parse("consumed"), Ok(InvitationState::Consumed));
    assert!(InvitationState::parse("unknown").is_err());
    assert_eq!(ReceiptState::PendingFinish.as_str(), "pending_finish");
    assert!(InvitationState::Pending.can_become(InvitationState::Consumed));
    assert!(!InvitationState::Active.can_become(InvitationState::Pending));
    assert!(ReceiptState::PendingFinish.can_become(ReceiptState::Active));
    assert!(!ReceiptState::Cancelled.can_become(ReceiptState::Active));
}

#[test]
fn invitation_failures_count_to_five_then_cancel() {
    let outcome = decide_invitation_failure(INVITATION, &invitation_row("pending", 0), &profile(), 10).unwrap();
    assert_eq!(
        outcome,
        (
            AttemptOutcome::Recorded { failed_attempts: 1, attempts_remaining: 4 },
            Some(AttemptWrite::Count { failed_attempts: 1 })
        )
    );
    let outcome = decide_invitation_failure(INVITATION, &invitation_row("pending", 4), &profile(), 10).unwrap();
    assert_eq!(outcome, (AttemptOutcome::Cancelled, Some(AttemptWrite::Cancel { failed_attempts: 5 })));
    let outcome = decide_invitation_failure(INVITATION, &invitation_row("pending", 1), &profile(), 1_000).unwrap();
    assert_eq!(outcome, (AttemptOutcome::Expired, Some(AttemptWrite::Expire)));
    assert_eq!(
        decide_invitation_failure(INVITATION, &invitation_row("cancelled", 5), &profile(), 10),
        Ok((AttemptOutcome::Cancelled, None))
    );
    assert_eq!(
        decide_invitation_failure(INVITATION, &invitation_row("consumed", 0), &profile(), 10),
        Err(StoreError::InvitationConsumed)
    );
    assert_eq!(
        decide_invitation_failure(INVITATION, &None, &profile(), 10),
        Err(StoreError::InvitationNotFound)
    );
    assert_eq!(
        decide_invitation_failure(INVITATION, &invitation_row("pending", 0), &profile(), -1),
        Err(StoreError::InvalidInput("authority time"))
    );
}

#[test]
fn finish_failures_only_count_while_waiting_for_client_finish() {
    let pending = Some(receipt_row("pending_finish"));
    assert_eq!(
        decide_finish_failure(RECEIPT, &pending, &profile(), 10),
        Ok((
            AttemptOutcome::Recorded { failed_attempts: 1, attempts_remaining: 4 },
            Some(AttemptWrite::Count { failed_attempts: 1 })
        ))
    );
    assert_eq!(
        decide_finish_failure(RECEIPT, &Some(receipt_row("pending_user_confirmation")), &profile(), 10),
        Err(StoreError::UserConfirmationRequired)
    );
    assert_eq!(
        decide_finish_failure(RECEIPT, &Some(receipt_row("active")), &profile(), 10),
        Err(StoreError::EnrollmentAlreadyActive)
    );
}

#[test]
fn a_first_client_hello_consumes_only_a_live_pending_invitation() {
    assert_eq!(decide_consume(&invitation_row("pending", 0), &profile(), &consume(10)), Ok(ConsumeStep::Consume));
    assert_eq!(
        decide_consume(&invitation_row("pending", 0), &profile(), &consume(1_000)),
        Ok(ConsumeStep::ExpireInvitation)
    );
    assert_eq!(
        decide_consume(&invitation_row("consumed", 0), &profile(), &consume(10)),
        Err(StoreError::InvitationConsumed)
    );
    assert_eq!(
        decide_consume(&invitation_row("expired", 0), &profile(), &consume(10)),
        Err(StoreError::InvitationExpired)
    );
    let mut wrong_pin = consume(10);
    wrong_pin.observed_tls_spki_sha256 = [9; 32];
    assert_eq!(
        decide_consume(&invitation_row("pending", 0), &profile(), &wrong_pin),
        Err(StoreError::PinMismatch)
    );
}

#[test]
fn a_repeated_client_hello_replays_or_is_quarantined() {
    let replay = ReplayRow {
        subject_id: RECEIPT.to_owned(),
        digest: vec![1; 32],
        pin: vec![8; 32],
        response: b"server hello".to_vec(),
    };
    assert_eq!(classify_replay(&replay, &[8; 32], &[1; 32]), Ok(ReplayMatch::Exact));
    assert_eq!(classify_replay(&replay, &[8; 32], &[2; 32]), Ok(ReplayMatch::Conflict));
    assert_eq!(classify_replay(&replay, &[7; 32], &[1; 32]), Err(StoreError::PinMismatch));

    let receipt = Some(receipt_row("pending_user_confirmation"));
    let consumed = invitation_row("consumed", 0);
    assert_eq!(
        decide_hello_replay(replay.clone(), &consume(10), &receipt, &profile(), &consumed),
        Ok(HelloReplayDecision::ExactReplay(b"server hello".to_vec()))
    );
    assert_eq!(
        decide_hello_replay(replay.clone(), &consume(2_000), &receipt, &profile(), &consumed),
        Ok(HelloReplayDecision::ExpireReceipt)
    );
    let mut other = consume(10);
    other.request_digest = [3; 32];
    assert_eq!(
        decide_hello_replay(replay.clone(), &other, &receipt, &profile(), &consumed),
        Ok(HelloReplayDecision::Quarantine)
    );
    assert_eq!(
        decide_hello_replay(replay, &consume(10), &Some(receipt_row("revoked")), &profile(), &consumed),
        Err(StoreError::DeviceRevoked)
    );
}

fn confirmation(approved: bool, code: &str, scopes: &str) -> ConfirmEnrollment {
    ConfirmEnrollment {
        receipt_id: RECEIPT.to_owned(),
        confirmation_digest: [9; 32],
        displayed_verification_code: code.to_owned(),
        displayed_scopes_json: scopes.to_owned(),
        approved,
        bootstrap_envelope_bytes: b"envelope".to_vec(),
        bootstrap_envelope_digest: [6; 32],
        exact_bootstrap_response_bytes: b"bootstrap".to_vec(),
        authority_now_ms: 10,
    }
}

#[test]
fn owner_confirmation_confirms_cancels_replays_or_quarantines() {
    let first = Some(receipt_row("pending_user_confirmation"));
    assert_eq!(
        decide_confirmation(&confirmation(true, "123456", "[\"note\", \"folder\"]"), first.clone(), &profile()),
        Ok(ConfirmDecision::Confirm)
    );
    assert_eq!(
        decide_confirmation(&confirmation(false, "123456", "[\"note\",\"folder\"]"), first.clone(), &profile()),
        Ok(ConfirmDecision::Cancel)
    );
    assert_eq!(
        decide_confirmation(&confirmation(true, "654321", "[\"note\",\"folder\"]"), first.clone(), &profile()),
        Ok(ConfirmDecision::Cancel)
    );
    assert_eq!(
        decide_confirmation(&confirmation(true, "123456", "[\"folder\"]"), first, &profile()),
        Ok(ConfirmDecision::Cancel)
    );
    let confirmed = Some(receipt_row("pending_finish"));
    assert_eq!(
        decide_confirmation(&confirmation(true, "123456", "[\"note\",\"folder\"]"), confirmed.clone(), &profile()),
        Ok(ConfirmDecision::ExactReplay(b"bootstrap".to_vec()))
    );
    assert_eq!(
        decide_confirmation(&confirmation(false, "123456", "[\"note\",\"folder\"]"), confirmed, &profile()),
        Ok(ConfirmDecision::Quarantine(vec![9; 32]))
    );
    assert_eq!(
        decide_confirmation(&confirmation(true, "123456", "{"), Some(receipt_row("pending_finish")), &profile()),
        Err(StoreError::InvalidInput("displayed_scopes_json"))
    );
}

fn activation() -> ActivateEnrollment {
    ActivateEnrollment {
        message_id: MESSAGE.to_owned(),
        receipt_id: RECEIPT.to_owned(),
        device_id: DEVICE.to_owned(),
        authority_generation: 1,
        request_digest: [1; 32],
        observed_tls_spki_sha256: [8; 32],
        exact_server_finish_bytes: b"server finish".to_vec(),
        authority_now_ms: 10,
    }
}

#[test]
fn activation_needs_a_confirmed_receipt_and_an_unregistered_device() {
    let receipt = Some(receipt_row("pending_finish"));
    let consumed = invitation_row("consumed", 0);
    assert_eq!(decide_activation(&activation(), &receipt, &profile(), &consumed, false), Ok(true));
    assert_eq!(
        decide_activation(&activation(), &receipt, &profile(), &consumed, true),
        Err(StoreError::StateUnavailable("device id is already registered"))
    );
    assert_eq!(
        decide_activation(&activation(), &Some(receipt_row("pending_user_confirmation")), &profile(), &consumed, false),
        Err(StoreError::UserConfirmationRequired)
    );
    let mut late = activation();
    late.authority_now_ms = 5_000;
    assert_eq!(decide_activation(&late, &receipt, &profile(), &consumed, false), Ok(false));
}

#[test]
fn revocation_is_idempotent() {
    assert_eq!(
        decide_revocation(DEVICE, 10, &Some("active".to_owned()), Some(1), &profile()),
        Ok(RevokeOutcome::Revoked)
    );
    assert_eq!(
        decide_revocation(DEVICE, 10, &Some("revoked".to_owned()), Some(1), &profile()),
        Ok(RevokeOutcome::AlreadyRevoked)
    );
    assert_eq!(
        decide_revocation(DEVICE, 10, &None, Some(1), &profile()),
        Err(StoreError::DeviceNotFound)
    );
}

fn change(counter: u64) -> FixtureAcceptedChange {
    FixtureAcceptedChange {
        request_id: MESSAGE.to_owned(),
        request_digest: [1; 32],
        exact_response_bytes: b"accepted".to_vec(),
        library_id: LIBRARY.to_owned(),
        authority_generation: 1,
        transaction_id: RECEIPT.to_owned(),
        device_id: DEVICE.to_owned(),
        device_transaction_counter: counter,
        transaction_digest: DIGEST_HEX.to_owned(),
        transaction_json: "{}".to_owned(),
        receipt_json: "{}".to_owned(),
        authority_now_ms: 10,
        created_at_ms: 5,
        expires_at_ms: 50,
    }
}

#[test]
fn accepted_changes_advance_the_device_counter_by_exactly_one() {
    let device = Some(CounterDeviceRow {
        role: "replica".to_owned(),
        enrollment_state: "active".to_owned(),
        last_transaction_counter: 4,
    });
    let accepted = decide_change(&change(5), &profile(), 41, &device, None, 0);
    assert_eq!(accepted, Ok(ChangeDecision::Accept { cursor: 42 }));
    assert_eq!(
        accepted.unwrap().outcome(&change(5)),
        FixtureChangeOutcome::Accepted { cursor: 42, exact_response_bytes: b"accepted".to_vec() }
    );
    assert_eq!(
        decide_change(&change(6), &profile(), 41, &device, None, 0),
        Err(StoreError::StateUnavailable("device counter is not next"))
    );
    assert_eq!(decide_change(&change(5), &profile(), 41, &device, None, 128), Err(StoreError::ReplayLimit));
    assert_eq!(
        decide_change(&change(5), &profile(), i64::MAX, &device, None, 0),
        Err(StoreError::StateUnavailable("high_water_cursor"))
    );
    let replay = RequestReplayRow {
        digest: vec![1; 32],
        endpoint: "/sync/v1/push".to_owned(),
        response: b"accepted".to_vec(),
    };
    assert_eq!(
        decide_change(&change(9), &profile(), 41, &device, Some(replay.clone()), 0),
        Ok(ChangeDecision::ExactReplay(b"accepted".to_vec()))
    );
    let reused = RequestReplayRow { digest: vec![2; 32], ..replay };
    let quarantined = decide_change(&change(9), &profile(), 41, &device, Some(reused), 0).unwrap();
    assert_eq!(quarantined.outcome(&change(9)), FixtureChangeOutcome::Quarantined);
}

fn ack(cursor: u64) -> AcknowledgeCheckpoint {
    AcknowledgeCheckpoint {
        library_id: LIBRARY.to_owned(),
        device_id: DEVICE.to_owned(),
        authority_generation: 1,
        high_water_cursor: cursor,
        checkpoint_digest: DIGEST_HEX.to_owned(),
        exact_response_bytes: b"ack".to_vec(),
        authority_now_ms: 10,
    }
}

#[test]
fn acknowledgements_only_move_forward() {
    let active = Some("active".to_owned());
    let stored = |cursor: Option<i64>| {
        Some(AcknowledgementRow {
            acknowledged_cursor: cursor,
            checkpoint_digest: cursor.map(|_| DIGEST_HEX.to_owned()),
            response: cursor.map(|_| b"old ack".to_vec()),
        })
    };
    assert_eq!(decide_acknowledgement(&ack(3), &profile(), &active, true, stored(None)), Ok(None));
    assert_eq!(decide_acknowledgement(&ack(3), &profile(), &active, true, stored(Some(2))), Ok(None));
    assert_eq!(
        decide_acknowledgement(&ack(3), &profile(), &active, true, stored(Some(3))),
        Ok(Some(b"old ack".to_vec()))
    );
    assert_eq!(
        decide_acknowledgement(&ack(2), &profile(), &active, true, stored(Some(3))),
        Err(StoreError::AckMismatch)
    );
    assert_eq!(
        decide_acknowledgement(&ack(4), &profile(), &active, false, stored(None)),
        Err(StoreError::AckMismatch)
    );
}

#[test]
fn profiles_and_invitations_are_registered_once() {
    assert_eq!(decide_profile_initialization(LIBRARY, 1, "{}", 10, Some(1), &None), Ok(true));
    let existing = Some(ProfileRow {
        environment: "development".to_owned(),
        library_data_class: "sanitized_fixture".to_owned(),
        protocol_version: 1,
        capabilities_json: "{ }".to_owned(),
    });
    assert_eq!(decide_profile_initialization(LIBRARY, 1, "{}", 10, Some(1), &existing), Ok(false));
    assert_eq!(
        decide_profile_initialization(LIBRARY, 1, "{\"a\":1}", 10, Some(1), &existing),
        Err(StoreError::FixtureOnly)
    );

    let invitation = NewInvitation {
        invitation_id: INVITATION.to_owned(),
        library_id: LIBRARY.to_owned(),
        authority_generation: 1,
        invitation_digest: [3; 32],
        nonce_hash: [4; 32],
        mac_pairing_signing_public_key: [4; 65],
        mac_pairing_hpke_public_key: [5; 32],
        tls_spki_sha256: [8; 32],
        scope_ceiling_json: "[\"note\"]".to_owned(),
        created_at_ms: 0,
        expires_at_ms: 300_000,
    };
    assert_eq!(decide_registration(&invitation, 10, &profile(), None, 0), Ok(RegistrationDecision::Register));
    assert_eq!(
        decide_registration(&invitation, 10, &profile(), Some(vec![3; 32]), 0),
        Ok(RegistrationDecision::ExactReplay)
    );
    assert_eq!(
        decide_registration(&invitation, 10, &profile(), Some(vec![7; 32]), 0),
        Ok(RegistrationDecision::Quarantine(vec![7; 32]))
    );
    let mut too_long = invitation.clone();
    too_long.expires_at_ms = 300_001;
    assert_eq!(
        decide_registration(&too_long, 10, &profile(), None, 0),
        Err(StoreError::InvalidInput("invitation lifetime"))
    );
}

fn clean_audit() -> SchemaAudit {
    SchemaAudit {
        missing_objects: 0,
        foreign_key_violations: false,
        non_fixture_profiles: 0,
        non_development_invitations: 0,
        invalid_stored_json: false,
        inconsistent_enrollments: 0,
        orphan_consumed_invitations: 0,
        noncontiguous_cursors: 0,
        unbound_changes: 0,
        unbound_transactions: 0,
        unbound_checkpoints: 0,
        unbound_device_sync_state: 0,
    }
}

#[test]
fn schema_audit_reports_the_first_failed_check() {
    assert_eq!(verify_schema_audit(&clean_audit()), Ok(()));
    let missing = SchemaAudit {
        missing_objects: 1,
        foreign_key_violations: true,
        ..clean_audit()
    };
    assert_eq!(
        verify_schema_audit(&missing),
        Err(StoreError::StateUnavailable("direct authority schema is incomplete"))
    );
    let production = SchemaAudit {
        non_fixture_profiles: 1,
        unbound_changes: 2,
        ..clean_audit()
    };
    assert_eq!(verify_schema_audit(&production), Err(StoreError::FixtureOnly));
    let json = SchemaAudit {
        invalid_stored_json: true,
        ..clean_audit()
    };
    assert_eq!(
        verify_schema_audit(&json),
        Err(StoreError::InvalidInput("stored_json"))
    );
    let cursor = SchemaAudit {
        noncontiguous_cursors: 3,
        unbound_checkpoints: 1,
        ..clean_audit()
    };
    assert_eq!(
        verify_schema_audit(&cursor),
        Err(StoreError::StateUnavailable(
            "accepted change cursor is not contiguous"
        ))
    );
    assert_eq!(REQUIRED_SCHEMA_OBJECTS.len(), 32);
    assert_eq!(REQUIRED_SCHEMA_OBJECTS[0], ("table", "direct_authority_profiles"));
    assert_eq!(
        REQUIRED_SCHEMA_OBJECTS[31],
        ("index", "direct_request_replays_created")
    );
}

#[test]
fn a_repeated_activation_gets_the_first_server_finish() {
    let first = activation();
    let row = ReplayRow {
        subject_id: first.receipt_id.clone(),
        digest: first.request_digest.to_vec(),
        pin: first.observed_tls_spki_sha256.to_vec(),
        response: first.exact_server_finish_bytes.clone(),
    };
    let mut again = activation();
    again.exact_server_finish_bytes = b"another server finish".to_vec();
    let device = Some(DeviceRow {
        library_id: LIBRARY.to_owned(),
        role: "replica".to_owned(),
        enrollment_state: "active".to_owned(),
    });
    let receipt = Some(receipt_row("active"));
    let active = invitation_row("active", 0);
    assert_eq!(
        decide_finish_replay(row.clone(), &again, &receipt, &profile(), &active, &device),
        Ok(FinishReplayDecision::ExactReplay(b"server finish".to_vec()))
    );
    let mut other = activation();
    other.request_digest = [2; 32];
    assert_eq!(
        decide_finish_replay(row, &other, &receipt, &profile(), &active, &device),
        Ok(FinishReplayDecision::Quarantine)
    );
}

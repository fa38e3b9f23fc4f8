use noted_core::direct_authority_store::StoreError;
use noted_core::direct_pairing_delivery::BootstrapDeliveryError;
use noted_core::error::{Error, NativeErrorCode};
use base64::Engine;
use noted_core::models::{
    validate_uuid_v7, BootstrapRecoveryWire, HardenStoreArgs, IdentityHandle, IdentityLifecycle,
    PendingBootstrapHandle, PrepareIdentityArgs, PublicIdentity, PublicIdentityWire, SigningKeyBacking,
    StoreProtectionReport,
};

fn encode(bytes: &[u8]) -> String {
    base64::engine::general_purpose::STANDARD.encode(bytes)
}

#[test]
fn native_error_codes_are_stable_and_fail_unknown_closed() {
    assert_eq!(
        NativeErrorCode::from_code("passcode_required"),
        NativeErrorCode::PasscodeRequired
    );
    assert_eq!(
        NativeErrorCode::from_code("protected_data_unavailable"),
        NativeErrorCode::ProtectedDataUnavailable
    );
    assert_eq!(
        NativeErrorCode::from_code("future_native_error"),
        NativeErrorCode::Unknown
    );
}

#[test]
fn every_native_code_round_trips() {
    assert_eq!(NativeErrorCode::from_code("invalid_arguments"), NativeErrorCode::InvalidArguments);
    assert_eq!(NativeErrorCode::from_code("unsupported_platform"), NativeErrorCode::UnsupportedPlatform);
    assert_eq!(NativeErrorCode::from_code(""), NativeErrorCode::Unknown);
    assert_eq!(NativeErrorCode::from_code("Passcode_Required"), NativeErrorCode::Unknown);
}

#[test]
fn opaque_handles_require_canonical_lowercase_uuid_shape() {
    assert!(IdentityHandle::parse("018f47a0-7b80-7000-8000-000000000001".into()).is_ok());
    assert!(IdentityHandle::parse("018F47A0-7B80-7000-8000-000000000001".into()).is_err());
    assert!(IdentityHandle::parse("../../identity".into()).is_err());
}

#[test]
fn handles_expose_exactly_their_text() {
    let h = PendingBootstrapHandle::from_opaque("018f47a0-7b80-4000-8000-000000000003").unwrap();
    assert_eq!(h.expose_opaque(), "018f47a0-7b80-4000-8000-000000000003");
    assert!(PendingBootstrapHandle::from_opaque("018f47a0x7b80-4000-8000-000000000003").is_err());
}

#[test]
fn store_paths_must_be_absolute() {
    assert!(HardenStoreArgs::new("noted.sqlite3", &[]).is_err());
    assert!(HardenStoreArgs::new("/tmp/noted.sqlite3", &[]).is_ok());
    assert!(HardenStoreArgs::new("/tmp/noted.sqlite3", &["wal".to_owned()]).is_err());
}

#[test]
fn uuid_v7_requires_version_and_variant_nibbles() {
    assert!(validate_uuid_v7("018f47a0-7b80-7000-8000-000000000006").is_ok());
    assert!(validate_uuid_v7("018f47a0-7b80-4000-8000-000000000006").is_err());
    assert!(validate_uuid_v7("018f47a0-7b80-7000-c000-000000000006").is_err());
    assert!(validate_uuid_v7("018f47a0-7b80-7000-b000-000000000006").is_ok());
}

#[test]
fn compliance_requires_complete_protection_and_no_pending_paths() {
    let mut report = StoreProtectionReport {
        protection_class: "NSFileProtectionComplete".to_owned(),
        hardened_paths: vec!["/a".to_owned()],
        inherited_pending_paths: vec![],
        violations: vec![],
    };
    assert!(report.is_compliant());
    report.inherited_pending_paths.push("/b".to_owned());
    assert!(!report.is_compliant());
    report.inherited_pending_paths.clear();
    report.protection_class = "NSFileProtectionCompleteUnlessOpen".to_owned();
    assert!(!report.is_compliant());
}

#[test]
fn native_failures_map_their_code_and_keep_a_message() {
    let known = Error::native(Some("passcode_required".to_owned()), Some("Set a passcode".to_owned()));
    assert_eq!(known.message(), "PasscodeRequired: Set a passcode");
    let unknown = Error::native(Some("future_native_error".to_owned()), None);
    assert_eq!(
        unknown.message(),
        "Unknown: native Apple security operation failed"
    );
    assert_eq!(
        Error::InvalidNativeResponse("handle").message(),
        "native Apple security returned invalid handle"
    );
    assert_eq!(
        Error::UnsupportedPlatform.message(),
        "Apple security is available only in the iOS runtime"
    );
}

#[test]
fn store_and_delivery_errors_read_as_sentences() {
    assert_eq!(
        StoreError::StateUnavailable("foreign key check failed").message(),
        "direct authority state unavailable: foreign key check failed"
    );
    assert_eq!(
        StoreError::FixtureOnly.message(),
        "direct authority is limited to sanitized development fixtures"
    );
    assert_eq!(
        BootstrapDeliveryError::InvalidField("retry_after_ms").message(),
        "invalid bootstrap delivery field: retry_after_ms"
    );
    assert_eq!(
        BootstrapDeliveryError::Store("disk full".to_owned()).message(),
        "bootstrap delivery store failed: disk full"
    );
}

#[test]
fn p256_wire_shape_is_checked_before_use() {
    let wire = PublicIdentityWire {
        handle: "018f47a0-7b80-7000-8000-000000000001".into(),
        device_id: "018f47a0-7b80-7000-8000-000000000001".into(),
        signing_public_key_base64: encode(&[0x04; 65]),
        hpke_public_key_base64: encode(&[0x22; 32]),
        lifecycle: IdentityLifecycle::Pending,
        signing_key_backing: SigningKeyBacking::SecureEnclave,
        bootstrap_recovery: None,
    };
    assert!(PublicIdentity::from_wire(wire).is_ok());
}

#[test]
fn public_identity_rejects_non_v7_device_ids() {
    let wire = PublicIdentityWire {
        handle: "018f47a0-7b80-7000-8000-000000000001".into(),
        device_id: "018f47a0-7b80-4000-8000-000000000001".into(),
        signing_public_key_base64: encode(&[0x04; 65]),
        hpke_public_key_base64: encode(&[0x22; 32]),
        lifecycle: IdentityLifecycle::Pending,
        signing_key_backing: SigningKeyBacking::SecureEnclave,
        bootstrap_recovery: None,
    };
    assert!(PublicIdentity::from_wire(wire).is_err());
}

#[test]
fn public_inventory_recovery_exposes_only_opaque_bootstrap_binding() {
    let wire = PublicIdentityWire {
        handle: "018f47a0-7b80-4000-8000-000000000001".into(),
        device_id: "018f47a0-7b80-7000-8000-000000000002".into(),
        signing_public_key_base64: encode(&[0x04; 65]),
        hpke_public_key_base64: encode(&[0x22; 32]),
        lifecycle: IdentityLifecycle::Pending,
        signing_key_backing: SigningKeyBacking::SecureEnclave,
        bootstrap_recovery: Some(BootstrapRecoveryWire {
            pending_bootstrap_handle: "018f47a0-7b80-4000-8000-000000000003".into(),
            receipt_id: "018f47a0-7b80-7000-8000-000000000004".into(),
            envelope_digest_base64: encode(&[0x55; 32]),
        }),
    };
    let identity = PublicIdentity::from_wire(wire).expect("parse public recovery binding");
    let recovery = identity
        .bootstrap_recovery
        .expect("public recovery binding is present");
    assert_eq!(
        recovery.pending_bootstrap_handle.expose_opaque(),
        "018f47a0-7b80-4000-8000-000000000003"
    );
    assert_eq!(recovery.envelope_digest, vec![0x55; 32]);
}

#[test]
fn public_identity_refuses_a_compressed_signing_key() {
    let wire = PublicIdentityWire {
        handle: "018f47a0-7b80-7000-8000-000000000001".into(),
        device_id: "018f47a0-7b80-7000-8000-000000000001".into(),
        signing_public_key_base64: encode(&[0x02; 65]),
        hpke_public_key_base64: encode(&[0x22; 32]),
        lifecycle: IdentityLifecycle::Active,
        signing_key_backing: SigningKeyBacking::SoftwareFixture,
        bootstrap_recovery: None,
    };
    assert!(PublicIdentity::from_wire(wire).is_err());
}

#[test]
fn known_native_codes_name_distinct_variants() {
    let spellings = [
        "invalid_arguments",
        "path_rejected",
        "keychain_failure",
        "passcode_required",
        "secure_enclave_unavailable",
        "entropy_unavailable",
        "fixture_gate_rejected",
        "identity_not_found",
        "invalid_identity_state",
        "identity_corrupted",
        "bootstrap_replay_mismatch",
        "legacy_bootstrap_requires_discard",
        "signing_failed",
        "hpke_open_failed",
        "protected_data_unavailable",
        "file_protection_failed",
        "backup_exclusion_failed",
        "unsupported_platform",
    ];
    let codes: Vec<NativeErrorCode> = spellings.iter().map(|s| NativeErrorCode::from_code(s)).collect();
    for (i, a) in codes.iter().enumerate() {
        assert_ne!(*a, NativeErrorCode::Unknown);
        for b in codes.iter().skip(i + 1) {
            assert_ne!(a, b);
        }
    }
}

#[test]
fn identity_creation_binds_the_canonical_replica_device_id() {
    let args = PrepareIdentityArgs {
        device_id: "018f47a0-7b80-7000-8000-000000000006",
        fixture_gate: None,
    };
    let json: serde_json::Value = serde_json::from_str(&args.to_json()).unwrap();
    let expected: serde_json::Value = serde_json::from_str(
        r#"{"deviceId": "018f47a0-7b80-7000-8000-000000000006", "fixtureGate": null}"#,
    )
    .unwrap();
    assert_eq!(json, expected);
    assert!(validate_uuid_v7("018f47a0-7b80-7000-8000-000000000006").is_ok());
    assert!(validate_uuid_v7("018f47a0-7b80-4000-8000-000000000006").is_err());
}

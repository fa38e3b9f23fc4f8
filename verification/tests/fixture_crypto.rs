use noted_core::fixture_record_crypto::SanitizedFixtureRecordCrypto;
use noted_core::models::{
    BootstrapCapabilityV1, BootstrapMetadataV1, MAX_SIGNING_MESSAGE_BYTES, PAIRING_PROTOCOL,
    PAIRING_SUITE, RECORD_CIPHER_SUITE,
};
use noted_core::record_crypto::{
    record_signature_message, RecordCryptoContextV1, RecordCryptoOperationV1, RecordKindV1,
    MAX_RECORD_PLAINTEXT_BYTES,
};

fn context() -> RecordCryptoContextV1 {
    RecordCryptoContextV1 {
        version: 1,
        cipher_suite: RECORD_CIPHER_SUITE.to_owned(),
        library_id: "018f47a0-7b80-7000-8000-000000000101".to_owned(),
        record_id: "018f47a0-7b80-7000-8000-000000000102".to_owned(),
        record_kind: RecordKindV1::Note,
        schema_version: 1,
        base_revision: 1,
        base_version_id: Some("018f47a0-7b80-7000-8000-000000000103".to_owned()),
        proposed_revision: 2,
        version_id: "018f47a0-7b80-7000-8000-000000000104".to_owned(),
        mutation_id: "018f47a0-7b80-7000-8000-000000000105".to_owned(),
        authority_generation: 7,
        purge_generation: 2,
        key_epoch: 3,
        operation: RecordCryptoOperationV1::Update,
    }
}

fn metadata(environment: &str, library_data_class: &str) -> BootstrapMetadataV1 {
    let capability = BootstrapCapabilityV1 {
        reader_version: 1,
        writer_version: Some(1),
    };
    BootstrapMetadataV1 {
        version: 1,
        protocol: PAIRING_PROTOCOL.to_owned(),
        suite: PAIRING_SUITE.to_owned(),
        sync_protocol_version: 1,
        environment: environment.to_owned(),
        library_data_class: library_data_class.to_owned(),
        receipt_id: "018f47a0-7b80-7000-8000-000000000106".to_owned(),
        library_id: context().library_id,
        device_id: "018f47a0-7b80-7000-8000-000000000107".to_owned(),
        authority_generation: 7,
        purge_generation: 2,
        key_epoch: 3,
        default_scope_id: "018f47a0-7b80-7000-8000-000000000108".to_owned(),
        default_scope_class: "unknown".to_owned(),
        granted_scopes: vec!["note".to_owned(), "category".to_owned(), "folder".to_owned()],
        capabilities: vec![
            ("note".to_owned(), capability),
            ("category".to_owned(), capability),
            ("folder".to_owned(), capability),
        ],
        record_cipher_suite: RECORD_CIPHER_SUITE.to_owned(),
        durable_sync_spki_sha256: [0x77; 32],
        transcript_digest: [0x88; 32],
    }
}

fn provider() -> SanitizedFixtureRecordCrypto {
    SanitizedFixtureRecordCrypto::new(
        metadata("development", "sanitized_fixture"),
        std::array::from_fn(|index| index as u8 + 1),
        {
            let mut signing = [0_u8; 32];
            signing[31] = 1;
            signing
        },
    )
    .unwrap()
}

#[test]
fn provider_is_send_sync_and_round_trips_with_fresh_nonces() {
    fn assert_send_sync<T: Send + Sync>() {}
    assert_send_sync::<SanitizedFixtureRecordCrypto>();

    let provider = provider();
    assert_eq!(
        provider.bootstrap_metadata(),
        &metadata("development", "sanitized_fixture")
    );
    let plaintext = b"sanitized fixture note";
    let first = provider.seal_record(&context(), plaintext).unwrap();
    let second = provider.seal_record(&context(), plaintext).unwrap();
    assert_ne!(first.nonce, second.nonce);
    assert_ne!(first.ciphertext, second.ciphertext);
    assert_eq!(
        provider
            .open_record(&context(), &first, &provider.signing_public_key())
            .unwrap()
            .plaintext,
        plaintext
    );
}

#[test]
fn outer_signatures_are_p1363_and_require_the_supplied_writer_key() {
    let provider = provider();
    let message = b"outer mutation signing bytes";
    let signature = provider.sign_p256_p1363(message).unwrap();
    assert!(SanitizedFixtureRecordCrypto::verify_p256_p1363(
        &provider.signing_public_key(),
        message,
        &signature,
    )
    .unwrap());
    assert!(!SanitizedFixtureRecordCrypto::verify_p256_p1363(
        &provider.signing_public_key(),
        b"other mutation signing bytes",
        &signature,
    )
    .unwrap());

    let sealed = provider.seal_record(&context(), b"signed").unwrap();
    let other = p256::ecdsa::SigningKey::from_slice(&[9_u8; 32]).unwrap();
    assert!(provider
        .open_record(
            &context(),
            &sealed,
            other.verifying_key().to_encoded_point(false).as_bytes(),
        )
        .is_err());
}

#[test]
fn fixture_policy_and_secret_inputs_fail_closed() {
    let library = || [7_u8; 32];
    let signing = || [8_u8; 32];
    assert!(SanitizedFixtureRecordCrypto::new(
        metadata("production", "sanitized_fixture"),
        library(),
        signing(),
    )
    .is_err());
    assert!(SanitizedFixtureRecordCrypto::new(
        metadata("development", "personal"),
        library(),
        signing(),
    )
    .is_err());
    assert!(SanitizedFixtureRecordCrypto::new(
        metadata("development", "sanitized_fixture"),
        [0_u8; 32],
        signing(),
    )
    .is_err());
    assert!(SanitizedFixtureRecordCrypto::new(
        metadata("development", "sanitized_fixture"),
        library(),
        [0_u8; 32],
    )
    .is_err());
}

#[test]
fn wrong_context_tamper_and_oversize_are_rejected() {
    let provider = provider();
    let context = context();
    let sealed = provider.seal_record(&context, b"bound").unwrap();

    let mut wrong_context = context.clone();
    wrong_context.key_epoch += 1;
    assert!(provider
        .open_record(&wrong_context, &sealed, &provider.signing_public_key())
        .is_err());
    let mut tampered = sealed.clone();
    tampered.ciphertext[0] ^= 1;
    assert!(provider
        .open_record(&context, &tampered, &provider.signing_public_key())
        .is_err());
    let mut signature_tampered = sealed;
    signature_tampered.record_signature[0] ^= 1;
    assert!(provider
        .open_record(&context, &signature_tampered, &provider.signing_public_key())
        .is_err());
    assert!(provider
        .seal_record(&context, &vec![0_u8; MAX_RECORD_PLAINTEXT_BYTES + 1])
        .is_err());
    assert!(provider
        .sign_p256_p1363(&vec![0_u8; MAX_SIGNING_MESSAGE_BYTES + 1])
        .is_err());
}

#[test]
fn a_fixed_nonce_seals_deterministically_and_binds_the_envelope() {
    let provider = provider();
    let first = provider
        .seal_record_with_nonce(&context(), b"note", [5; 12])
        .unwrap();
    let second = provider
        .seal_record_with_nonce(&context(), b"note", [5; 12])
        .unwrap();
    assert_eq!(first, second);
    assert_eq!(first.ciphertext.len(), 4 + 16);
    assert_ne!(&first.ciphertext[..4], b"note");
    assert!(SanitizedFixtureRecordCrypto::verify_p256_p1363(
        &provider.signing_public_key(),
        &record_signature_message(&first.envelope_digest),
        &first.record_signature,
    )
    .unwrap());
    assert_eq!(provider.signing_public_key()[0], 0x04);
}

#[test]
fn malformed_verification_requests_are_refused() {
    let provider = provider();
    let signature = provider.sign_p256_p1363(b"m").unwrap();
    assert!(SanitizedFixtureRecordCrypto::verify_p256_p1363(&[4; 64], b"m", &signature).is_err());
    assert!(
        SanitizedFixtureRecordCrypto::verify_p256_p1363(&provider.signing_public_key(), b"m", &[1; 63])
            .is_err()
    );
    let mut off_curve = [0_u8; 65];
    off_curve[0] = 4;
    assert!(SanitizedFixtureRecordCrypto::verify_p256_p1363(&off_curve, b"m", &signature).is_err());
}

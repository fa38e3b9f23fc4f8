use base64::Engine;
use noted_core::models::{
    BootstrapCapabilityV1, BootstrapMetadataV1, PAIRING_PROTOCOL, PAIRING_SUITE,
    P256_SIGNATURE_BYTES, RECORD_CIPHER_SUITE, SHA256_BYTES,
};
use noted_core::record_crypto::{
    canonical_record_crypto_context, decode_record_ciphertext_v1, encode_record_ciphertext_v1,
    max_plaintext_for_transaction, record_associated_data, record_context_digest, record_hkdf_info, record_envelope_digest, RecordCiphertextBridge, RecordCiphertextV1,
    RecordCryptoContextV1, RecordCryptoOperationV1, RecordKindV1,
    MAX_RECORD_CIPHERTEXT_BYTES, MAX_RECORD_CIPHERTEXT_CONTAINER_BYTES,
    MAX_RECORD_PLAINTEXT_BYTES, RECORD_CIPHERTEXT_V1_FIXED_OVERHEAD, RECORD_NONCE_BYTES,
    RECORD_TAG_BYTES,
};

fn context() -> RecordCryptoContextV1 {
    RecordCryptoContextV1 {
        version: 1,
        cipher_suite: RECORD_CIPHER_SUITE.to_owned(),
        library_id: "018f47a0-7b80-7000-8000-000000000101".to_owned(),
        record_id: "018f47a0-7b80-7000-8000-000000000102".to_owned(),
        record_kind: RecordKindV1::Note,
        schema_version: 1,
        base_revision: 1,
        base_version_id: Some("018f47a0-7b80-7000-8000-000000000103".to_owned()),
        proposed_revision: 2,
        version_id: "018f47a0-7b80-7000-8000-000000000104".to_owned(),
        mutation_id: "018f47a0-7b80-7000-8000-000000000105".to_owned(),
        authority_generation: 7,
        purge_generation: 2,
        key_epoch: 3,
        operation: RecordCryptoOperationV1::Update,
    }
}

fn metadata() -> BootstrapMetadataV1 {
    let capability = BootstrapCapabilityV1 {
        reader_version: 1,
        writer_version: Some(1),
    };
    BootstrapMetadataV1 {
        version: 1,
        protocol: PAIRING_PROTOCOL.to_owned(),
        suite: PAIRING_SUITE.to_owned(),
        sync_protocol_version: 1,
        environment: "development".to_owned(),
        library_data_class: "sanitized_fixture".to_owned(),
        receipt_id: "018f47a0-7b80-7000-8000-000000000106".to_owned(),
        library_id: context().library_id,
        device_id: "018f47a0-7b80-7000-8000-000000000107".to_owned(),
        authority_generation: 7,
        purge_generation: 2,
        key_epoch: 3,
        default_scope_id: "018f47a0-7b80-7000-8000-000000000108".to_owned(),
        default_scope_class: "unknown".to_owned(),
        granted_scopes: vec!["note".to_owned(), "category".to_owned(), "folder".to_owned()],
        capabilities: vec![
            ("note".to_owned(), capability),
            ("category".to_owned(), capability),
            ("folder".to_owned(), capability),
        ],
        record_cipher_suite: RECORD_CIPHER_SUITE.to_owned(),
        durable_sync_spki_sha256: [0x77; 32],
        transcript_digest: [0x88; 32],
    }
}

fn sealed_for(context: &RecordCryptoContextV1, ciphertext: Vec<u8>) -> RecordCiphertextV1 {
    let nonce = vec![0x11; RECORD_NONCE_BYTES];
    RecordCiphertextV1 {
        version: 1,
        cipher_suite: RECORD_CIPHER_SUITE.to_owned(),
        context_digest: record_context_digest(context).unwrap(),
        envelope_digest: record_envelope_digest(context, &nonce, &ciphertext).unwrap(),
        nonce,
        ciphertext,
        record_signature: vec![0x33; P256_SIGNATURE_BYTES],
    }
}

#[test]
fn context_is_strict_and_binds_active_bootstrap() {
    let value = context();
    assert!(value.validate().is_ok());
    assert!(value.validate_against_bootstrap(&metadata()).is_ok());

    let mut changed = value.clone();
    changed.proposed_revision = 3;
    assert!(changed.validate().is_err());
    changed = value.clone();
    changed.operation = RecordCryptoOperationV1::Create;
    assert!(changed.validate().is_err());
    changed = value.clone();
    changed.key_epoch += 1;
    assert!(changed.validate_against_bootstrap(&metadata()).is_err());
    changed = value;
    changed.record_kind = RecordKindV1::Category;
    changed.schema_version = 2;
    assert!(changed.validate_against_bootstrap(&metadata()).is_err());
}

#[test]
fn record_descriptor_recomputes_every_public_binding() {
    let context = context();
    let mut sealed = sealed_for(&context, vec![0x22; 48]);
    assert!(sealed.validate_for(&context).is_ok());
    sealed.nonce[0] ^= 1;
    assert!(sealed.validate_for(&context).is_err());
}

#[test]
fn bridge_rejects_oversize_or_rebound_native_results() {
    let context = context();
    let sealed = sealed_for(&context, vec![0x22; 48]);
    let wire = RecordCiphertextBridge::from_public(&sealed);
    assert_eq!(wire.into_public(&context).unwrap(), sealed);

    let engine = base64::engine::general_purpose::STANDARD;
    let mut oversize = RecordCiphertextBridge::from_public(&sealed);
    oversize.ciphertext_base64 = engine.encode(vec![0_u8; MAX_RECORD_CIPHERTEXT_BYTES + 1]);
    assert!(oversize.into_public(&context).is_err());
    let mut rebound = RecordCiphertextBridge::from_public(&sealed);
    rebound.context_digest_base64 = engine.encode([0x44; SHA256_BYTES]);
    assert!(rebound.into_public(&context).is_err());
}

#[test]
fn fixed_binary_codec_is_exact_bounded_and_rejects_trailing_bytes() {
    let context = context();
    let sealed = sealed_for(&context, vec![0x22; 48]);
    let encoded = encode_record_ciphertext_v1(&sealed, &context).unwrap();
    assert_eq!(
        encoded.len(),
        RECORD_CIPHERTEXT_V1_FIXED_OVERHEAD + sealed.ciphertext.len()
    );
    assert_eq!(decode_record_ciphertext_v1(&encoded, &context).unwrap(), sealed);

    let mut wrong_magic = encoded.clone();
    wrong_magic[0] ^= 1;
    assert!(decode_record_ciphertext_v1(&wrong_magic, &context).is_err());
    let mut wrong_version = encoded.clone();
    wrong_version[7] = 2;
    assert!(decode_record_ciphertext_v1(&wrong_version, &context).is_err());
    let mut wrong_length = encoded.clone();
    wrong_length[11] = wrong_length[11].wrapping_add(1);
    assert!(decode_record_ciphertext_v1(&wrong_length, &context).is_err());
    assert!(decode_record_ciphertext_v1(&encoded[..encoded.len() - 1], &context).is_err());
    let mut trailing = encoded;
    trailing.push(0);
    assert!(decode_record_ciphertext_v1(&trailing, &context).is_err());
    let mut tampered_nonce = encode_record_ciphertext_v1(&sealed, &context).unwrap();
    tampered_nonce[12] ^= 1;
    assert!(decode_record_ciphertext_v1(&tampered_nonce, &context).is_err());

    assert_eq!(RECORD_CIPHERTEXT_V1_FIXED_OVERHEAD, 152);
    assert_eq!(
        max_plaintext_for_transaction(MAX_RECORD_CIPHERTEXT_CONTAINER_BYTES),
        Some(MAX_RECORD_PLAINTEXT_BYTES)
    );
    assert_eq!(
        max_plaintext_for_transaction(RECORD_CIPHERTEXT_V1_FIXED_OVERHEAD + RECORD_TAG_BYTES),
        Some(0)
    );
    assert_eq!(max_plaintext_for_transaction(1), None);

    let maximum_ciphertext = vec![0x5a; MAX_RECORD_CIPHERTEXT_BYTES];
    let nonce = vec![0x6b; RECORD_NONCE_BYTES];
    let maximum = RecordCiphertextV1 {
        version: 1,
        cipher_suite: RECORD_CIPHER_SUITE.to_owned(),
        context_digest: record_context_digest(&context).unwrap(),
        envelope_digest: record_envelope_digest(&context, &nonce, &maximum_ciphertext).unwrap(),
        nonce,
        ciphertext: maximum_ciphertext,
        record_signature: vec![0x7c; P256_SIGNATURE_BYTES],
    };
    let maximum_encoded = encode_record_ciphertext_v1(&maximum, &context).unwrap();
    assert_eq!(maximum_encoded.len(), MAX_RECORD_CIPHERTEXT_CONTAINER_BYTES);
    assert_eq!(
        decode_record_ciphertext_v1(&maximum_encoded, &context).unwrap(),
        maximum
    );
}

#[test]
fn container_round_trip_law_on_a_small_record() {
    let context = context();
    let sealed = sealed_for(&context, vec![0x01, 0x02, 0x03, 0x04, 0x05, 0x06, 0x07, 0x08, 0x09, 0x0a, 0x0b, 0x0c, 0x0d, 0x0e, 0x0f, 0x10]);
    let encoded = encode_record_ciphertext_v1(&sealed, &context).unwrap();
    assert_eq!(&encoded[..4], b"NRC1");
    assert_eq!(decode_record_ciphertext_v1(&encoded, &context).unwrap(), sealed);
}

#[test]
fn decoding_then_encoding_gives_back_the_exact_container() {
    let context = context();
    let sealed = sealed_for(&context, vec![0x22; RECORD_TAG_BYTES + 3]);
    let encoded = encode_record_ciphertext_v1(&sealed, &context).unwrap();
    let decoded = decode_record_ciphertext_v1(&encoded, &context).unwrap();
    assert_eq!(encode_record_ciphertext_v1(&decoded, &context).unwrap(), encoded);
}

#[test]
fn hkdf_info_is_separated_from_the_associated_data() {
    let context = context();
    let info = record_hkdf_info(&context).unwrap();
    let aad = record_associated_data(&context).unwrap();
    assert_ne!(info, aad);
    let mut other = context.clone();
    other.key_epoch = 4;
    assert_ne!(record_hkdf_info(&other).unwrap(), info);
}

#[test]
fn every_public_fact_changes_the_canonical_context() {
    let base = canonical_record_crypto_context(&context()).unwrap();
    let mut changes: Vec<RecordCryptoContextV1> = Vec::new();
    let mut c = context();
    c.record_id = "018f47a0-7b80-7000-8000-000000000109".to_owned();
    changes.push(c);
    let mut c = context();
    c.record_kind = RecordKindV1::Folder;
    changes.push(c);
    let mut c = context();
    c.base_revision = 5;
    c.proposed_revision = 6;
    changes.push(c);
    let mut c = context();
    c.mutation_id = "018f47a0-7b80-7000-8000-000000000110".to_owned();
    changes.push(c);
    let mut c = context();
    c.purge_generation = 9;
    changes.push(c);
    let mut c = context();
    c.operation = RecordCryptoOperationV1::Delete;
    changes.push(c);
    for changed in changes {
        assert_ne!(canonical_record_crypto_context(&changed).unwrap(), base);
    }
}

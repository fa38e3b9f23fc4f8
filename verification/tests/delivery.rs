use std::cell::RefCell;
use std::collections::BTreeMap;

use noted_core::direct_pairing_delivery::{
    check_payload_size, decide_poll_answer, replay_record, request_signing_bytes,
    resolve_disposition, response_signing_bytes, sign_poll_request, validate_binding,
    validate_response, validate_retry_after, verify_poll_response,
    BootstrapDeliveryBinding, BootstrapDeliveryCoordinator, BootstrapDeliveryError,
    BootstrapDeliveryReplay, BootstrapDeliveryResolution, BootstrapDeliverySnapshot,
    BootstrapDeliveryStore, BootstrapDeliveryTerminal, BootstrapDeliveryTransport,
    BootstrapDeliveryVerifier, BootstrapPollDisposition, BootstrapPollRequest,
    BootstrapPollResponse, BootstrapReplayCommit, CommitAnswer, IphoneBootstrapPollSigner,
    MacBootstrapDeliverySigner, PairingRole, PollAnswer, PollPlan, SpecBytes, SpecText, MAX_BOOTSTRAP_ENVELOPE_BYTES,
    MAX_BOOTSTRAP_POLL_REQUEST_BYTES, MAX_BOOTSTRAP_POLL_RESPONSE_BYTES,
    MAX_BOOTSTRAP_RETRY_AFTER_MS,
};

/// SHA-256 of exact bytes.
fn sha256(bytes: &[u8]) -> [u8; 32] {
    <sha2::Sha256 as sha2::Digest>::digest(bytes).into()
}

const RECEIPT: &str = "018f0000-0000-7000-8000-000000000001";
const DEVICE: &str = "018f0000-0000-7000-8000-000000000002";
const MESSAGE_ONE: &str = "018f0000-0000-7000-8000-000000000011";
const MESSAGE_TWO: &str = "018f0000-0000-7000-8000-000000000012";

/// A stand-in signature scheme: the signature of a message under a role is
/// the SHA-256 of the message followed by the SHA-256 of the role's key and
/// the message. Any change to the message or the key changes it.
struct TestCrypto;

fn test_signature(key: &[u8; 65], message: &[u8]) -> [u8; 64] {
    let first = sha256(message);
    let mut keyed = key.to_vec();
    keyed.extend_from_slice(message);
    let second = sha256(&keyed);
    let mut out = [0u8; 64];
    out[..32].copy_from_slice(&first);
    out[32..].copy_from_slice(&second);
    out
}

impl BootstrapDeliveryVerifier for TestCrypto {
    /// Read by the verifier only.
    fn accepts(&self, _: PairingRole, _: SpecBytes, _: SpecBytes, _: SpecBytes) -> bool {
        true
    }

    fn verify_p256_p1363(
        &self,
        _signer_role: PairingRole,
        public_key: &[u8; 65],
        message: &[u8],
        signature: &[u8; 64],
    ) -> Result<(), ()> {
        if &test_signature(public_key, message) == signature {
            Ok(())
        } else {
            Err(())
        }
    }
}

impl IphoneBootstrapPollSigner for TestCrypto {
    /// Read by the verifier only.
    fn iphone_signed(&self, _: SpecBytes, _: SpecBytes) -> bool {
        true
    }

    fn sign_iphone_poll(&self, message: &[u8]) -> Result<[u8; 64], ()> {
        Ok(test_signature(&key(9), message))
    }
}

impl MacBootstrapDeliverySigner for TestCrypto {
    /// Read by the verifier only.
    fn mac_signed(&self, _: SpecBytes, _: SpecBytes) -> bool {
        true
    }

    fn sign_mac_delivery(&self, message: &[u8]) -> Result<[u8; 64], ()> {
        Ok(test_signature(&key(10), message))
    }
}

struct TestStore {
    snapshot: RefCell<BootstrapDeliverySnapshot>,
    replays: RefCell<BTreeMap<String, BootstrapDeliveryReplay>>,
}

impl TestStore {
    fn pending() -> TestStore {
        TestStore {
            snapshot: RefCell::new(BootstrapDeliverySnapshot {
                binding: binding(),
                resolution: BootstrapDeliveryResolution::Pending {
                    retry_after_ms: 500,
                },
            }),
            replays: RefCell::new(BTreeMap::new()),
        }
    }

    fn with_resolution(resolution: BootstrapDeliveryResolution) -> TestStore {
        let store = TestStore::pending();
        store.snapshot.borrow_mut().resolution = resolution;
        store
    }
}

impl BootstrapDeliveryStore for TestStore {
    /// Read by the verifier only.
    fn delivery_loaded(
        &self,
        _: SpecText,
        _: Result<Option<BootstrapDeliverySnapshot>, String>,
    ) -> bool {
        true
    }

    /// Read by the verifier only.
    fn replay_loaded(&self, _: SpecText, _: Result<Option<BootstrapDeliveryReplay>, String>) -> bool {
        true
    }

    /// Read by the verifier only.
    fn replay_committed(
        &self,
        _: BootstrapDeliveryReplay,
        _: Result<BootstrapReplayCommit, String>,
    ) -> bool {
        true
    }

    fn load_delivery(&self, receipt_id: &str) -> Result<Option<BootstrapDeliverySnapshot>, String> {
        let snapshot = self.snapshot.borrow();
        if snapshot.binding.receipt_id == receipt_id {
            Ok(Some(snapshot.clone()))
        } else {
            Ok(None)
        }
    }

    fn load_replay(&self, message_id: &str) -> Result<Option<BootstrapDeliveryReplay>, String> {
        Ok(self.replays.borrow().get(message_id).cloned())
    }

    fn commit_replay(&self, replay: &BootstrapDeliveryReplay) -> Result<BootstrapReplayCommit, String> {
        let mut replays = self.replays.borrow_mut();
        if let Some(existing) = replays.get(&replay.message_id) {
            return Ok(if existing.exact_request_sha256 == replay.exact_request_sha256 {
                BootstrapReplayCommit::Existing(existing.clone())
            } else {
                BootstrapReplayCommit::Conflict
            });
        }
        replays.insert(replay.message_id.clone(), replay.clone());
        Ok(BootstrapReplayCommit::Inserted)
    }
}

fn key(fill: u8) -> [u8; 65] {
    let mut key = [fill; 65];
    key[0] = 0x04;
    key
}

fn binding() -> BootstrapDeliveryBinding {
    BootstrapDeliveryBinding {
        receipt_id: RECEIPT.to_owned(),
        device_id: DEVICE.to_owned(),
        transcript_digest: [7; 32],
        tls_spki_sha256: [8; 32],
        iphone_signing_public_key: key(9),
        mac_pairing_signing_public_key: key(10),
    }
}

fn transport() -> BootstrapDeliveryTransport {
    BootstrapDeliveryTransport {
        tls_version: "1.3".to_owned(),
        used_zero_rtt: false,
        peer_spki_sha256: binding().tls_spki_sha256.to_vec(),
    }
}

fn envelope_bytes() -> Vec<u8> {
    b"{\"protocol\":\"noted.direct-pairing.v1\",\"sealed\":true}".to_vec()
}

fn request(message_id: &str) -> BootstrapPollRequest {
    sign_poll_request(&binding(), message_id.to_owned(), &TestCrypto).unwrap()
}

/// Stands in for the exact request bytes a transport received.
fn exact_bytes(request: &BootstrapPollRequest) -> Vec<u8> {
    let mut bytes = request_signing_bytes(request).unwrap();
    bytes.extend_from_slice(&request.proof_signature);
    bytes
}

fn exact_sha(request: &BootstrapPollRequest) -> [u8; 32] {
    sha256(&exact_bytes(request))
}

fn response_bytes(response: &BootstrapPollResponse) -> Vec<u8> {
    let mut bytes = response_signing_bytes(response).unwrap();
    bytes.extend_from_slice(&response.proof_signature);
    bytes
}

/// One full poll: authenticate, answer fresh or replay, commit, and return
/// the exact bytes together with the structured answer.
fn handle<S: BootstrapDeliveryStore>(
    coordinator: &BootstrapDeliveryCoordinator<S, TestCrypto>,
    request: &BootstrapPollRequest,
    transport: &BootstrapDeliveryTransport,
) -> Result<(Vec<u8>, Option<BootstrapPollResponse>), BootstrapDeliveryError> {
    let exact = exact_bytes(request);
    let (snapshot, answer) = coordinator.answer_poll(request, &exact, transport)?;
    match answer {
        PollAnswer::Replay(replay) => Ok((replay.exact_response_bytes, None)),
        PollAnswer::Fresh(response) => {
            let bytes = response_bytes(&response);
            match coordinator.commit_answer(request, &snapshot.binding, &exact, bytes)? {
                CommitAnswer::Committed(replay) => Ok((replay.exact_response_bytes, Some(response))),
                CommitAnswer::Existing(replay) => Ok((replay.exact_response_bytes, None)),
            }
        }
    }
}

#[test]
fn pending_response_is_signed_request_bound_and_replayed_exactly() {
    let coordinator = BootstrapDeliveryCoordinator::new(TestStore::pending(), TestCrypto);
    let request = request(MESSAGE_ONE);
    let (first, response) = handle(&coordinator, &request, &transport()).unwrap();
    let (second, replayed) = handle(&coordinator, &request, &transport()).unwrap();
    assert_eq!(first, second);
    assert!(replayed.is_none());
    let response = response.unwrap();
    validate_response(&response, &request, &binding(), &exact_sha(&request), &TestCrypto).unwrap();
    assert_eq!(response.http_status(), 202);
    assert_eq!(
        response.disposition,
        BootstrapPollDisposition::Pending {
            retry_after_ms: 500
        }
    );
}

#[test]
fn a_new_message_observes_pending_to_ready_transition() {
    let store = TestStore::pending();
    let coordinator = BootstrapDeliveryCoordinator::new(store, TestCrypto);
    let first = request(MESSAGE_ONE);
    let (_, pending) = handle(&coordinator, &first, &transport()).unwrap();
    let pending = pending.unwrap();
    validate_response(&pending, &first, &binding(), &exact_sha(&first), &TestCrypto).unwrap();
    assert_eq!(pending.http_status(), 202);

    let ready_store = TestStore::with_resolution(BootstrapDeliveryResolution::Ready {
        exact_bootstrap_envelope: envelope_bytes(),
    });
    let coordinator = BootstrapDeliveryCoordinator::new(ready_store, TestCrypto);
    let second = request(MESSAGE_TWO);
    let (_, ready) = handle(&coordinator, &second, &transport()).unwrap();
    let response = ready.unwrap();
    validate_response(&response, &second, &binding(), &exact_sha(&second), &TestCrypto).unwrap();
    assert_eq!(response.http_status(), 200);
    let BootstrapPollDisposition::Ready {
        exact_bootstrap_envelope,
        exact_bootstrap_envelope_sha256,
    } = response.disposition
    else {
        panic!("expected ready")
    };
    assert_eq!(exact_bootstrap_envelope, envelope_bytes());
    assert_eq!(
        exact_bootstrap_envelope_sha256,
        sha256(&exact_bootstrap_envelope).to_vec()
    );
}

#[test]
fn terminal_pairing_states_are_signed_and_never_masquerade_as_pending() {
    for (reason, expected_status) in [
        (BootstrapDeliveryTerminal::Cancelled, 403),
        (BootstrapDeliveryTerminal::Expired, 410),
        (BootstrapDeliveryTerminal::Revoked, 403),
    ] {
        let store = TestStore::with_resolution(BootstrapDeliveryResolution::Rejected { reason });
        let coordinator = BootstrapDeliveryCoordinator::new(store, TestCrypto);
        let exact_request = request(MESSAGE_ONE);
        let (_, response) = handle(&coordinator, &exact_request, &transport()).unwrap();
        let response = response.unwrap();
        validate_response(
            &response,
            &exact_request,
            &binding(),
            &exact_sha(&exact_request),
            &TestCrypto,
        )
        .unwrap();
        assert_eq!(response.http_status(), expected_status);
        assert_eq!(
            response.disposition,
            BootstrapPollDisposition::Rejected { reason }
        );
    }
}

#[test]
fn tampered_request_signature_is_rejected() {
    let coordinator = BootstrapDeliveryCoordinator::new(TestStore::pending(), TestCrypto);
    let mut tampered = request(MESSAGE_ONE);
    tampered.transcript_digest[0] = 99;
    let error = handle(&coordinator, &tampered, &transport()).unwrap_err();
    assert!(matches!(
        error,
        BootstrapDeliveryError::BindingMismatch("receipt transcript")
            | BootstrapDeliveryError::InvalidSignature
    ));
}

#[test]
fn role_swap_is_rejected() {
    let coordinator = BootstrapDeliveryCoordinator::new(TestStore::pending(), TestCrypto);
    let mut swapped = request(MESSAGE_ONE);
    swapped.sender_role = PairingRole::MacAuthority;
    assert_eq!(
        handle(&coordinator, &swapped, &transport()).unwrap_err(),
        BootstrapDeliveryError::BindingMismatch("roles")
    );
}

#[test]
fn cross_receipt_request_is_rejected() {
    let coordinator = BootstrapDeliveryCoordinator::new(TestStore::pending(), TestCrypto);
    let mut other = request(MESSAGE_ONE);
    other.receipt_id = "018f0000-0000-7000-8000-000000000099".to_owned();
    assert_eq!(
        handle(&coordinator, &other, &transport()).unwrap_err(),
        BootstrapDeliveryError::ReceiptNotFound
    );
}

#[test]
fn cross_pin_transport_and_claim_are_rejected() {
    let coordinator = BootstrapDeliveryCoordinator::new(TestStore::pending(), TestCrypto);
    let mut wrong_transport = transport();
    wrong_transport.peer_spki_sha256[0] ^= 1;
    assert_eq!(
        handle(&coordinator, &request(MESSAGE_ONE), &wrong_transport).unwrap_err(),
        BootstrapDeliveryError::PinMismatch
    );

    let mut claim = request(MESSAGE_TWO);
    claim.tls_spki_sha256[0] = 99;
    assert_eq!(
        handle(&coordinator, &claim, &transport()).unwrap_err(),
        BootstrapDeliveryError::PinMismatch
    );
}

#[test]
fn byte_different_message_id_reuse_is_rejected() {
    let coordinator = BootstrapDeliveryCoordinator::new(TestStore::pending(), TestCrypto);
    let exact = request(MESSAGE_ONE);
    handle(&coordinator, &exact, &transport()).unwrap();
    let mut different = exact.clone();
    different.proof_signature[0] = 99;
    assert!(matches!(
        handle(&coordinator, &different, &transport()).unwrap_err(),
        BootstrapDeliveryError::InvalidSignature | BootstrapDeliveryError::ReplayConflict
    ));
}

#[test]
fn request_response_and_retry_limits_are_enforced() {
    assert_eq!(
        check_payload_size(
            &vec![b' '; MAX_BOOTSTRAP_POLL_REQUEST_BYTES + 1],
            MAX_BOOTSTRAP_POLL_REQUEST_BYTES
        )
        .unwrap_err(),
        BootstrapDeliveryError::PayloadTooLarge
    );
    assert_eq!(
        check_payload_size(
            &vec![b' '; MAX_BOOTSTRAP_POLL_RESPONSE_BYTES + 1],
            MAX_BOOTSTRAP_POLL_RESPONSE_BYTES
        )
        .unwrap_err(),
        BootstrapDeliveryError::PayloadTooLarge
    );
    let store = TestStore::with_resolution(BootstrapDeliveryResolution::Pending {
        retry_after_ms: MAX_BOOTSTRAP_RETRY_AFTER_MS + 1,
    });
    assert_eq!(
        handle(
            &BootstrapDeliveryCoordinator::new(store, TestCrypto),
            &request(MESSAGE_ONE),
            &transport()
        )
        .unwrap_err(),
        BootstrapDeliveryError::InvalidField("retry_after_ms")
    );
}

#[test]
fn ready_payload_digest_tampering_is_rejected_even_if_outer_shape_is_valid() {
    let store = TestStore::with_resolution(BootstrapDeliveryResolution::Ready {
        exact_bootstrap_envelope: envelope_bytes(),
    });
    let coordinator = BootstrapDeliveryCoordinator::new(store, TestCrypto);
    let exact_request = request(MESSAGE_ONE);
    let (_, response) = handle(&coordinator, &exact_request, &transport()).unwrap();
    let mut response = response.unwrap();
    if let BootstrapPollDisposition::Ready {
        exact_bootstrap_envelope_sha256,
        ..
    } = &mut response.disposition
    {
        exact_bootstrap_envelope_sha256[0] = 99;
    }
    assert_eq!(
        validate_response(
            &response,
            &exact_request,
            &binding(),
            &exact_sha(&exact_request),
            &TestCrypto,
        )
        .unwrap_err(),
        BootstrapDeliveryError::BindingMismatch("exact bootstrap envelope digest")
    );
}

#[test]
fn response_cannot_be_rebound_to_another_request_or_receipt() {
    let coordinator = BootstrapDeliveryCoordinator::new(TestStore::pending(), TestCrypto);
    let first = request(MESSAGE_ONE);
    let (_, response) = handle(&coordinator, &first, &transport()).unwrap();
    let response = response.unwrap();
    let second = request(MESSAGE_TWO);
    assert_eq!(
        validate_response(&response, &second, &binding(), &exact_sha(&second), &TestCrypto)
            .unwrap_err(),
        BootstrapDeliveryError::BindingMismatch("poll request")
    );

    let mut other = binding();
    other.receipt_id = "018f0000-0000-7000-8000-000000000099".to_owned();
    assert_eq!(
        validate_response(&response, &first, &other, &exact_sha(&first), &TestCrypto).unwrap_err(),
        BootstrapDeliveryError::BindingMismatch("receipt transcript")
    );
}

#[test]
fn invalid_p256_and_p1363_shapes_are_rejected() {
    let mut invalid = binding();
    invalid.iphone_signing_public_key = [0; 65];
    assert_eq!(
        sign_poll_request(&invalid, MESSAGE_ONE.to_owned(), &TestCrypto).unwrap_err(),
        BootstrapDeliveryError::InvalidField("p256_public_key")
    );
    let coordinator = BootstrapDeliveryCoordinator::new(TestStore::pending(), TestCrypto);
    let mut short = request(MESSAGE_ONE);
    short.proof_signature = vec![1, 2, 3];
    assert_eq!(
        handle(&coordinator, &short, &transport()).unwrap_err(),
        BootstrapDeliveryError::InvalidField("proof_signature")
    );
}

#[test]
fn request_signing_text_is_canonical_json_under_the_request_domain() {
    let request = request(MESSAGE_ONE);
    let text = String::from_utf8(request_signing_bytes(&request).unwrap()).unwrap();
    let digest = format!("[{}]", vec!["7"; 32].join(","));
    let pin = format!("[{}]", vec!["8"; 32].join(","));
    let expected = format!(
        "{{\"domain\":\"noted.direct-pairing.v1/bootstrap-poll/request\",\"request\":{{\"device_id\":\"{DEVICE}\",\"message_id\":\"{MESSAGE_ONE}\",\"proof_signature\":[],\"protocol\":\"noted.direct-pairing.v1\",\"receipt_id\":\"{RECEIPT}\",\"recipient_role\":\"mac_authority\",\"sender_role\":\"iphone_companion\",\"suite\":\"P256-ECDSA-P1363+X25519-HPKE-SHA256+TLS13-SPKI-PIN\",\"tls_spki_sha256\":{pin},\"transcript_digest\":{digest}}},\"route\":\"/pairing/v1/bootstrap\"}}"
    );
    assert_eq!(text, expected);
}

#[test]
fn signing_text_ignores_the_signature_but_covers_every_other_field() {
    let request = request(MESSAGE_ONE);
    let mut resigned = request.clone();
    resigned.proof_signature = vec![0; 64];
    assert_eq!(
        request_signing_bytes(&request).unwrap(),
        request_signing_bytes(&resigned).unwrap()
    );
    let mut moved = request.clone();
    moved.device_id = MESSAGE_TWO.to_owned();
    assert_ne!(
        request_signing_bytes(&request).unwrap(),
        request_signing_bytes(&moved).unwrap()
    );
}

#[test]
fn non_v7_message_ids_and_zero_pins_are_refused_before_signing() {
    assert_eq!(
        sign_poll_request(
            &binding(),
            "018f0000-0000-4000-8000-000000000011".to_owned(),
            &TestCrypto
        )
        .unwrap_err(),
        BootstrapDeliveryError::InvalidIdentifier
    );
    let mut zero_pin = binding();
    zero_pin.tls_spki_sha256 = [0; 32];
    assert_eq!(
        validate_binding(&zero_pin).unwrap_err(),
        BootstrapDeliveryError::InvalidField("tls_spki_sha256")
    );
}

#[test]
fn retry_window_bounds_are_inclusive() {
    assert!(validate_retry_after(250).is_ok());
    assert!(validate_retry_after(5000).is_ok());
    assert_eq!(
        validate_retry_after(249).unwrap_err(),
        BootstrapDeliveryError::InvalidField("retry_after_ms")
    );
}

#[test]
fn oversize_envelopes_are_refused_and_ready_carries_the_digest() {
    assert_eq!(
        resolve_disposition(&BootstrapDeliveryResolution::Ready {
            exact_bootstrap_envelope: vec![0; MAX_BOOTSTRAP_ENVELOPE_BYTES + 1]
        })
        .unwrap_err(),
        BootstrapDeliveryError::PayloadTooLarge
    );
    let ready = resolve_disposition(&BootstrapDeliveryResolution::Ready {
        exact_bootstrap_envelope: b"abc".to_vec(),
    })
    .unwrap();
    assert_eq!(
        ready,
        BootstrapPollDisposition::Ready {
            exact_bootstrap_envelope: b"abc".to_vec(),
            exact_bootstrap_envelope_sha256: sha256(b"abc").to_vec(),
        }
    );
}

#[test]
fn insecure_transport_is_refused() {
    let coordinator = BootstrapDeliveryCoordinator::new(TestStore::pending(), TestCrypto);
    let mut early = transport();
    early.used_zero_rtt = true;
    assert_eq!(
        handle(&coordinator, &request(MESSAGE_ONE), &early).unwrap_err(),
        BootstrapDeliveryError::InsecureTransport
    );
}

fn pending_snapshot(retry_after_ms: u32) -> BootstrapDeliverySnapshot {
    BootstrapDeliverySnapshot {
        binding: binding(),
        resolution: BootstrapDeliveryResolution::Pending { retry_after_ms },
    }
}

#[test]
fn an_unanswered_poll_is_answered_from_the_resolution() {
    let request = request(MESSAGE_ONE);
    let sha = exact_sha(&request);
    assert_eq!(
        decide_poll_answer(&request, &pending_snapshot(500), None, &sha).unwrap(),
        PollPlan::Respond(BootstrapPollDisposition::Pending { retry_after_ms: 500 })
    );
    assert_eq!(
        decide_poll_answer(&request, &pending_snapshot(5001), None, &sha).unwrap_err(),
        BootstrapDeliveryError::InvalidField("retry_after_ms")
    );
    let rejected = BootstrapDeliverySnapshot {
        binding: binding(),
        resolution: BootstrapDeliveryResolution::Rejected {
            reason: BootstrapDeliveryTerminal::Revoked,
        },
    };
    assert_eq!(
        decide_poll_answer(&request, &rejected, None, &sha).unwrap(),
        PollPlan::Respond(BootstrapPollDisposition::Rejected {
            reason: BootstrapDeliveryTerminal::Revoked
        })
    );
}

#[test]
fn a_committed_pair_is_replayed_only_for_the_same_exact_request() {
    let request = request(MESSAGE_ONE);
    let exact = exact_bytes(&request);
    let sha = sha256(&exact);
    let committed = replay_record(&request, &binding(), &sha, b"answer".to_vec()).unwrap();
    assert_eq!(committed.message_id, MESSAGE_ONE);
    assert_eq!(committed.receipt_id, RECEIPT);
    assert_eq!(committed.device_id, DEVICE);
    assert_eq!(committed.tls_spki_sha256, binding().tls_spki_sha256);
    assert_eq!(committed.exact_request_sha256, sha);
    assert_eq!(committed.exact_response_sha256, sha256(b"answer"));
    assert_eq!(committed.exact_response_bytes, b"answer".to_vec());
    assert_eq!(
        decide_poll_answer(&request, &pending_snapshot(500), Some(committed.clone()), &sha)
            .unwrap(),
        PollPlan::Replay(committed.clone())
    );
    let mut other_bytes = exact.clone();
    other_bytes.push(b' ');
    assert_eq!(
        decide_poll_answer(
            &request,
            &pending_snapshot(500),
            Some(committed),
            &sha256(&other_bytes)
        )
        .unwrap_err(),
        BootstrapDeliveryError::ReplayConflict
    );
    assert_eq!(
        replay_record(
            &request,
            &binding(),
            &sha,
            vec![0; MAX_BOOTSTRAP_POLL_RESPONSE_BYTES + 1]
        )
        .unwrap_err(),
        BootstrapDeliveryError::PayloadTooLarge
    );
}

#[test]
fn the_phone_checks_an_answer_against_its_exact_request_bytes() {
    let coordinator = BootstrapDeliveryCoordinator::new(TestStore::pending(), TestCrypto);
    let request = request(MESSAGE_ONE);
    let (_, response) = handle(&coordinator, &request, &transport()).unwrap();
    let response = response.unwrap();
    let exact = exact_bytes(&request);
    verify_poll_response(&response, &request, &exact, &binding(), &TestCrypto).unwrap();
    let mut altered = exact.clone();
    altered.push(b' ');
    assert_eq!(
        verify_poll_response(&response, &request, &altered, &binding(), &TestCrypto).unwrap_err(),
        BootstrapDeliveryError::BindingMismatch("poll request")
    );
    let mut zero_pin = binding();
    zero_pin.tls_spki_sha256 = [0; 32];
    assert_eq!(
        verify_poll_response(&response, &request, &exact, &zero_pin, &TestCrypto).unwrap_err(),
        BootstrapDeliveryError::InvalidField("tls_spki_sha256")
    );
}

#[test]
fn an_answer_is_accepted_only_under_the_macs_signature() {
    let coordinator = BootstrapDeliveryCoordinator::new(TestStore::pending(), TestCrypto);
    let request = request(MESSAGE_ONE);
    let (_, response) = handle(&coordinator, &request, &transport()).unwrap();
    let mut forged = response.unwrap();
    forged.proof_signature[0] ^= 1;
    assert_eq!(
        verify_poll_response(&forged, &request, &exact_bytes(&request), &binding(), &TestCrypto)
            .unwrap_err(),
        BootstrapDeliveryError::InvalidSignature
    );
    let mut other_key = binding();
    other_key.mac_pairing_signing_public_key = key(9);
    let (_, response) = handle(
        &BootstrapDeliveryCoordinator::new(TestStore::pending(), TestCrypto),
        &request,
        &transport(),
    )
    .unwrap();
    assert_eq!(
        verify_poll_response(
            &response.unwrap(),
            &request,
            &exact_bytes(&request),
            &other_key,
            &TestCrypto
        )
        .unwrap_err(),
        BootstrapDeliveryError::InvalidSignature
    );
}

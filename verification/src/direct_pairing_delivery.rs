//! Authenticated, transport-independent delivery of an approved pairing
//! bootstrap.
//!
//! A phone whose ClientHello completed before the Mac owner approved the
//! enrollment polls the same receipt until its exact bootstrap envelope is
//! ready. Every poll is signed by the phone and bound to the receipt, the
//! transcript and the TLS pin; every answer is signed by the Mac and bound to
//! the exact request bytes, and a durable store commits the exact answer
//! before it is returned, so one message id never sees two answers.
use vstd::prelude::*;
use crate::canonical::{
    json_bytes, json_string, member, push_decimal, push_json_bytes, push_json_string, push_key,
    push_str, decimal,
};
use crate::digest::{sha256, sha256_spec};
use crate::models::{is_uuid_v7, validate_uuid_v7, PAIRING_PROTOCOL, PAIRING_SUITE};
use crate::text::{bytes_eq, str_eq, string_from_chars};
use vstd::string::StrSliceExecFns;
use vstd::string::StringSliceAdditionalSpecFns;
use vstd::utf8::encode_utf8;

verus! {

pub const BOOTSTRAP_DELIVERY_ROUTE: &'static str = "/pairing/v1/bootstrap";
pub const MAX_BOOTSTRAP_POLL_REQUEST_BYTES: usize = 8192;
pub const MAX_BOOTSTRAP_ENVELOPE_BYTES: usize = 16384;
pub const MAX_BOOTSTRAP_POLL_RESPONSE_BYTES: usize = 98304;
pub const MIN_BOOTSTRAP_RETRY_AFTER_MS: u32 = 250;
pub const MAX_BOOTSTRAP_RETRY_AFTER_MS: u32 = 5000;
pub const POLL_REQUEST_DOMAIN: &'static str = "noted.direct-pairing.v1/bootstrap-poll/request";
pub const POLL_RESPONSE_DOMAIN: &'static str = "noted.direct-pairing.v1/bootstrap-poll/response";

/// The two parties of a direct pairing.
#[derive(Debug, Clone, Copy, PartialEq, Eq, Structural)]
pub enum PairingRole {
    MacAuthority,
    IphoneCompanion,
}

pub open spec fn role_name(role: PairingRole) -> Seq<char> {
    match role {
        PairingRole::MacAuthority => "mac_authority"@,
        PairingRole::IphoneCompanion => "iphone_companion"@,
    }
}

impl PairingRole {
    /// The wire spelling of the role.
    pub fn as_str(self) -> (r: &'static str)
        ensures
            r@ == role_name(self),
    {
        match self {
            PairingRole::MacAuthority => "mac_authority",
            PairingRole::IphoneCompanion => "iphone_companion",
        }
    }
}

#[derive(Debug, Clone, PartialEq, Eq)]
pub struct BootstrapPollRequest {
    pub protocol: String,
    pub suite: String,
    pub message_id: String,
    pub receipt_id: String,
    pub device_id: String,
    pub transcript_digest: Vec<u8>,
    pub tls_spki_sha256: Vec<u8>,
    pub sender_role: PairingRole,
    pub recipient_role: PairingRole,
    pub proof_signature: Vec<u8>,
}

#[derive(Debug, Clone, PartialEq, Eq)]
pub enum BootstrapPollDisposition {
    Pending { retry_after_ms: u32 },
    Ready { exact_bootstrap_envelope: Vec<u8>, exact_bootstrap_envelope_sha256: Vec<u8> },
    Rejected { reason: BootstrapDeliveryTerminal },
}

#[derive(Debug, Clone, Copy, PartialEq, Eq, Structural)]
pub enum BootstrapDeliveryTerminal {
    Cancelled,
    Expired,
    Revoked,
}

pub open spec fn terminal_name(t: BootstrapDeliveryTerminal) -> Seq<char> {
    match t {
        BootstrapDeliveryTerminal::Cancelled => "cancelled"@,
        BootstrapDeliveryTerminal::Expired => "expired"@,
        BootstrapDeliveryTerminal::Revoked => "revoked"@,
    }
}

impl BootstrapDeliveryTerminal {
    /// The wire spelling of the terminal state.
    pub fn as_str(self) -> (r: &'static str)
        ensures
            r@ == terminal_name(self),
    {
        match self {
            BootstrapDeliveryTerminal::Cancelled => "cancelled",
            BootstrapDeliveryTerminal::Expired => "expired",
            BootstrapDeliveryTerminal::Revoked => "revoked",
        }
    }
}

#[derive(Debug, Clone, PartialEq, Eq)]
pub struct BootstrapPollResponse {
    pub protocol: String,
    pub suite: String,
    pub request_message_id: String,
    pub exact_request_sha256: Vec<u8>,
    pub receipt_id: String,
    pub device_id: String,
    pub transcript_digest: Vec<u8>,
    pub tls_spki_sha256: Vec<u8>,
    pub sender_role: PairingRole,
    pub recipient_role: PairingRole,
    pub disposition: BootstrapPollDisposition,
    pub proof_signature: Vec<u8>,
}

/// The HTTP status a thin HTTPS adapter reports for a disposition; the
/// signed body stays authoritative.
pub open spec fn http_status_of(d: BootstrapPollDisposition) -> u16 {
    match d {
        BootstrapPollDisposition::Pending { .. } => 202,
        BootstrapPollDisposition::Ready { .. } => 200,
        BootstrapPollDisposition::Rejected { reason } => if reason
            == BootstrapDeliveryTerminal::Expired {
            410
        } else {
            403
        },
    }
}

impl BootstrapPollResponse {
    /// Status for a thin HTTPS adapter; the signed body remains authoritative.
    pub fn http_status(&self) -> (r: u16)
        ensures
            r == http_status_of(self.disposition),
    {
        match &self.disposition {
            BootstrapPollDisposition::Pending { .. } => 202,
            BootstrapPollDisposition::Ready { .. } => 200,
            BootstrapPollDisposition::Rejected { reason } => match reason {
                BootstrapDeliveryTerminal::Expired => 410,
                _ => 403,
            },
        }
    }
}

/// Authority-owned receipt facts. None of these values may come from a poll
/// request when a durable store builds this binding.
#[derive(Debug, Clone, PartialEq, Eq)]
pub struct BootstrapDeliveryBinding {
    pub receipt_id: String,
    pub device_id: String,
    pub transcript_digest: [u8; 32],
    pub tls_spki_sha256: [u8; 32],
    pub iphone_signing_public_key: [u8; 65],
    pub mac_pairing_signing_public_key: [u8; 65],
}

#[derive(Debug, Clone, PartialEq, Eq)]
pub enum BootstrapDeliveryResolution {
    Pending { retry_after_ms: u32 },
    Ready { exact_bootstrap_envelope: Vec<u8> },
    Rejected { reason: BootstrapDeliveryTerminal },
}

#[derive(Debug, Clone, PartialEq, Eq)]
pub struct BootstrapDeliverySnapshot {
    pub binding: BootstrapDeliveryBinding,
    pub resolution: BootstrapDeliveryResolution,
}

/// Exact request/response pair committed by the durable coordinator.
#[derive(Debug, Clone, PartialEq, Eq)]
pub struct BootstrapDeliveryReplay {
    pub message_id: String,
    pub receipt_id: String,
    pub device_id: String,
    pub tls_spki_sha256: [u8; 32],
    pub exact_request_sha256: [u8; 32],
    pub exact_response_sha256: [u8; 32],
    pub exact_response_bytes: Vec<u8>,
}

#[derive(Debug, Clone, PartialEq, Eq)]
pub enum BootstrapReplayCommit {
    Inserted,
    Existing(BootstrapDeliveryReplay),
    Conflict,
}

/// Text as the contracts of this module's traits see it.
pub type SpecText = Seq<char>;

/// Persistence boundary for an atomic, restart-safe delivery adapter.
///
/// `commit_replay` must use a uniqueness constraint on `message_id`. On a
/// race it returns the winning row as `Existing` and never overwrites it.
/// Errors are reported as text.
///
/// The contracts speak of what each call answered through relations that an
/// implementation defines: they fix what is asked of the store, not what a
/// durable store holds at the time.
pub trait BootstrapDeliveryStore {
    /// Whether `r` is what this store answered when asked for `receipt_id`.
    spec fn delivery_loaded(
        &self,
        receipt_id: SpecText,
        r: Result<Option<BootstrapDeliverySnapshot>, String>,
    ) -> bool;

    /// Whether `r` is what this store answered when asked for `message_id`.
    spec fn replay_loaded(
        &self,
        message_id: SpecText,
        r: Result<Option<BootstrapDeliveryReplay>, String>,
    ) -> bool;

    /// Whether `r` is what this store answered when asked to commit `replay`.
    spec fn replay_committed(
        &self,
        replay: BootstrapDeliveryReplay,
        r: Result<BootstrapReplayCommit, String>,
    ) -> bool;

    fn load_delivery(&self, receipt_id: &str) -> (r: Result<
        Option<BootstrapDeliverySnapshot>,
        String,
    >)
        ensures
            self.delivery_loaded(receipt_id@, r),
    ;

    fn load_replay(&self, message_id: &str) -> (r: Result<Option<BootstrapDeliveryReplay>, String>)
        ensures
            self.replay_loaded(message_id@, r),
    ;

    /// An `Existing` answer is the row already committed under the same
    /// message id.
    fn commit_replay(&self, replay: &BootstrapDeliveryReplay) -> (r: Result<
        BootstrapReplayCommit,
        String,
    >)
        ensures
            self.replay_committed(*replay, r),
            r matches Ok(BootstrapReplayCommit::Existing(x)) ==> x.message_id@
                == replay.message_id@,
    ;
}

/// Byte strings as the contracts of this module's traits see them.
pub type SpecBytes = Seq<u8>;

/// P-256 verification of an IEEE P1363 signature by the named role's key.
pub trait BootstrapDeliveryVerifier {
    /// Whether this verifier accepts `signature` over `message` as made by
    /// `signer_role`'s key `public_key`.
    spec fn accepts(
        &self,
        signer_role: PairingRole,
        public_key: SpecBytes,
        message: SpecBytes,
        signature: SpecBytes,
    ) -> bool;

    /// Succeeds exactly when the verifier accepts the signature.
    fn verify_p256_p1363(
        &self,
        signer_role: PairingRole,
        public_key: &[u8; 65],
        message: &[u8],
        signature: &[u8; 64],
    ) -> (r: Result<(), ()>)
        ensures
            r is Ok <==> self.accepts(signer_role, public_key@, message@, signature@),
    ;
}

/// The phone's signing key for poll requests.
pub trait IphoneBootstrapPollSigner {
    /// Whether `signature` is one this key made over `message`.
    spec fn iphone_signed(&self, message: SpecBytes, signature: SpecBytes) -> bool;

    fn sign_iphone_poll(&self, message: &[u8]) -> (r: Result<[u8; 64], ()>)
        ensures
            r matches Ok(signature) ==> self.iphone_signed(message@, signature@),
    ;
}

/// The Mac's pairing signing key for poll responses.
pub trait MacBootstrapDeliverySigner {
    /// Whether `signature` is one this key made over `message`.
    spec fn mac_signed(&self, message: SpecBytes, signature: SpecBytes) -> bool;

    fn sign_mac_delivery(&self, message: &[u8]) -> (r: Result<[u8; 64], ()>)
        ensures
            r matches Ok(signature) ==> self.mac_signed(message@, signature@),
    ;
}

/// What the transport adapter observed of the TLS connection.
#[derive(Debug, Clone, PartialEq, Eq)]
pub struct BootstrapDeliveryTransport {
    pub tls_version: String,
    pub used_zero_rtt: bool,
    pub peer_spki_sha256: Vec<u8>,
}

#[derive(Debug, Clone, PartialEq, Eq)]
pub enum BootstrapDeliveryError {
    PayloadTooLarge,
    ParseRejected,
    UnsupportedProtocol,
    UnsupportedSuite,
    InvalidIdentifier,
    InvalidField(&'static str),
    InvalidSignature,
    CryptoUnavailable,
    InsecureTransport,
    PinMismatch,
    ReceiptNotFound,
    BindingMismatch(&'static str),
    ReplayConflict,
    Store(String),
}

pub type DeliveryResult<T> = Result<T, BootstrapDeliveryError>;

/// How a delivery error reads to a user.
pub open spec fn delivery_error_message(e: BootstrapDeliveryError) -> Seq<char> {
    match e {
        BootstrapDeliveryError::PayloadTooLarge => "bootstrap delivery payload too large"@,
        BootstrapDeliveryError::ParseRejected => "bootstrap delivery payload rejected"@,
        BootstrapDeliveryError::UnsupportedProtocol => "unsupported pairing protocol"@,
        BootstrapDeliveryError::UnsupportedSuite => "unsupported pairing suite"@,
        BootstrapDeliveryError::InvalidIdentifier => "invalid bootstrap delivery identifier"@,
        BootstrapDeliveryError::InvalidField(field) => "invalid bootstrap delivery field: "@ + field@,
        BootstrapDeliveryError::InvalidSignature => "bootstrap delivery signature rejected"@,
        BootstrapDeliveryError::CryptoUnavailable => "bootstrap delivery cryptography unavailable"@,
        BootstrapDeliveryError::InsecureTransport => "bootstrap delivery requires TLS 1.3 without 0-RTT"@,
        BootstrapDeliveryError::PinMismatch => "bootstrap delivery TLS pin mismatch"@,
        BootstrapDeliveryError::ReceiptNotFound => "bootstrap delivery receipt not found"@,
        BootstrapDeliveryError::BindingMismatch(field) => "bootstrap delivery binding mismatch: "@ + field@,
        BootstrapDeliveryError::ReplayConflict => "byte-different bootstrap poll message id reuse"@,
        BootstrapDeliveryError::Store(reason) => "bootstrap delivery store failed: "@ + reason@,
    }
}

impl BootstrapDeliveryError {
    /// How the error reads to a user.
    pub fn message(&self) -> (r: String)
        ensures
            r@ == delivery_error_message(*self),
    {
        let mut out: Vec<char> = Vec::new();
        match self {
            BootstrapDeliveryError::PayloadTooLarge => {
                push_str(&mut out, "bootstrap delivery payload too large");
            },
            BootstrapDeliveryError::ParseRejected => {
                push_str(&mut out, "bootstrap delivery payload rejected");
            },
            BootstrapDeliveryError::UnsupportedProtocol => {
                push_str(&mut out, "unsupported pairing protocol");
            },
            BootstrapDeliveryError::UnsupportedSuite => {
                push_str(&mut out, "unsupported pairing suite");
            },
            BootstrapDeliveryError::InvalidIdentifier => {
                push_str(&mut out, "invalid bootstrap delivery identifier");
            },
            BootstrapDeliveryError::InvalidField(field) => {
                push_str(&mut out, "invalid bootstrap delivery field: ");
                push_str(&mut out, field);
            },
            BootstrapDeliveryError::InvalidSignature => {
                push_str(&mut out, "bootstrap delivery signature rejected");
            },
            BootstrapDeliveryError::CryptoUnavailable => {
                push_str(&mut out, "bootstrap delivery cryptography unavailable");
            },
            BootstrapDeliveryError::InsecureTransport => {
                push_str(&mut out, "bootstrap delivery requires TLS 1.3 without 0-RTT");
            },
            BootstrapDeliveryError::PinMismatch => {
                push_str(&mut out, "bootstrap delivery TLS pin mismatch");
            },
            BootstrapDeliveryError::ReceiptNotFound => {
                push_str(&mut out, "bootstrap delivery receipt not found");
            },
            BootstrapDeliveryError::BindingMismatch(field) => {
                push_str(&mut out, "bootstrap delivery binding mismatch: ");
                push_str(&mut out, field);
            },
            BootstrapDeliveryError::ReplayConflict => {
                push_str(&mut out, "byte-different bootstrap poll message id reuse");
            },
            BootstrapDeliveryError::Store(reason) => {
                push_str(&mut out, "bootstrap delivery store failed: ");
                push_str(&mut out, reason);
            },
        }
        assert(out@ =~= delivery_error_message(*self));
        string_from_chars(&out)
    }
}

// ---------------------------------------------------------------------------
// Field checks
// ---------------------------------------------------------------------------

/// Bytes larger than `limit` are refused before any parsing.
pub fn check_payload_size(bytes: &[u8], limit: usize) -> (r: DeliveryResult<()>)
    ensures
        r is Ok <==> bytes@.len() <= limit,
        r matches Err(e) ==> e == BootstrapDeliveryError::PayloadTooLarge,
{
    if bytes.len() > limit {
        Err(BootstrapDeliveryError::PayloadTooLarge)
    } else {
        Ok(())
    }
}

pub open spec fn all_zero(b: Seq<u8>) -> bool {
    forall|i: int| 0 <= i < b.len() ==> #[trigger] b[i] == 0
}

fn is_all_zero(b: &[u8], from: usize) -> (r: bool)
    requires
        from <= b@.len(),
    ensures
        r == all_zero(b@.subrange(from as int, b@.len() as int)),
{
    let mut i = from;
    while i < b.len()
        invariant
            from <= i <= b@.len(),
            forall|k: int| from <= k < i ==> b@[k] == 0,
        decreases b@.len() - i,
    {
        if b[i] != 0 {
            assert(b@.subrange(from as int, b@.len() as int)[i - from] != 0);
            return false;
        }
        i = i + 1;
    }
    assert forall|k: int| 0 <= k < b@.len() - from implies #[trigger] b@.subrange(
        from as int,
        b@.len() as int,
    )[k] == 0 by {
        assert(b@[from + k] == 0);
    }
    true
}

pub open spec fn public_key_ok(key: Seq<u8>) -> bool {
    key[0] == 0x04 && !all_zero(key.subrange(1, key.len() as int))
}

/// A SEC1 uncompressed point prefix with a non-zero body; the verifier
/// decodes and validates the point itself.
pub fn validate_public_key(public_key: &[u8; 65]) -> (r: DeliveryResult<()>)
    ensures
        r is Ok <==> public_key_ok(public_key@),
        r matches Err(e) ==> e == BootstrapDeliveryError::InvalidField("p256_public_key"),
{
    if public_key[0] != 0x04 || is_all_zero(public_key, 1) {
        return Err(BootstrapDeliveryError::InvalidField("p256_public_key"));
    }
    Ok(())
}

fn uuid_v7_ok(value: &str) -> (r: bool)
    ensures
        r == is_uuid_v7(value@),
{
    validate_uuid_v7(value).is_ok()
}

pub open spec fn binding_check(b: BootstrapDeliveryBinding) -> DeliveryResult<()> {
    if !is_uuid_v7(b.receipt_id@) || !is_uuid_v7(b.device_id@) {
        Err(BootstrapDeliveryError::InvalidIdentifier)
    } else if all_zero(b.tls_spki_sha256@) {
        Err(BootstrapDeliveryError::InvalidField("tls_spki_sha256"))
    } else if !public_key_ok(b.iphone_signing_public_key@) || !public_key_ok(
        b.mac_pairing_signing_public_key@,
    ) {
        Err(BootstrapDeliveryError::InvalidField("p256_public_key"))
    } else {
        Ok(())
    }
}

/// A binding names canonical UUIDv7 receipt and device ids, a non-zero TLS
/// pin and two plausible P-256 public keys.
pub fn validate_binding(binding: &BootstrapDeliveryBinding) -> (r: DeliveryResult<()>)
    ensures
        r == binding_check(*binding),
{
    if !uuid_v7_ok(&binding.receipt_id) || !uuid_v7_ok(&binding.device_id) {
        return Err(BootstrapDeliveryError::InvalidIdentifier);
    }
    if is_all_zero(&binding.tls_spki_sha256, 0) {
        assert(binding.tls_spki_sha256@.subrange(0, 32) =~= binding.tls_spki_sha256@);
        return Err(BootstrapDeliveryError::InvalidField("tls_spki_sha256"));
    }
    assert(binding.tls_spki_sha256@.subrange(0, 32) =~= binding.tls_spki_sha256@);
    validate_public_key(&binding.iphone_signing_public_key)?;
    validate_public_key(&binding.mac_pairing_signing_public_key)?;
    Ok(())
}

pub open spec fn protocol_and_ids_check(
    protocol: Seq<char>,
    suite: Seq<char>,
    message_id: Seq<char>,
    receipt_id: Seq<char>,
    device_id: Seq<char>,
) -> DeliveryResult<()> {
    if protocol != PAIRING_PROTOCOL@ {
        Err(BootstrapDeliveryError::UnsupportedProtocol)
    } else if suite != PAIRING_SUITE@ {
        Err(BootstrapDeliveryError::UnsupportedSuite)
    } else if !is_uuid_v7(message_id) || !is_uuid_v7(receipt_id) || !is_uuid_v7(device_id) {
        Err(BootstrapDeliveryError::InvalidIdentifier)
    } else {
        Ok(())
    }
}

/// The protocol and suite must be this library's, and the message, receipt
/// and device ids canonical UUIDv7.
pub fn validate_protocol_and_ids(
    protocol: &str,
    suite: &str,
    message_id: &str,
    receipt_id: &str,
    device_id: &str,
) -> (r: DeliveryResult<()>)
    ensures
        r == protocol_and_ids_check(protocol@, suite@, message_id@, receipt_id@, device_id@),
{
    if !str_eq(protocol, PAIRING_PROTOCOL) {
        return Err(BootstrapDeliveryError::UnsupportedProtocol);
    }
    if !str_eq(suite, PAIRING_SUITE) {
        return Err(BootstrapDeliveryError::UnsupportedSuite);
    }
    if !uuid_v7_ok(message_id) || !uuid_v7_ok(receipt_id) || !uuid_v7_ok(device_id) {
        return Err(BootstrapDeliveryError::InvalidIdentifier);
    }
    Ok(())
}

pub open spec fn request_claims_check(
    request: BootstrapPollRequest,
    binding: BootstrapDeliveryBinding,
) -> DeliveryResult<()> {
    if protocol_and_ids_check(
        request.protocol@,
        request.suite@,
        request.message_id@,
        request.receipt_id@,
        request.device_id@,
    ) is Err {
        protocol_and_ids_check(
            request.protocol@,
            request.suite@,
            request.message_id@,
            request.receipt_id@,
            request.device_id@,
        )
    } else if request.sender_role != PairingRole::IphoneCompanion || request.recipient_role
        != PairingRole::MacAuthority {
        Err(BootstrapDeliveryError::BindingMismatch("roles"))
    } else if request.receipt_id@ != binding.receipt_id@ || request.device_id@
        != binding.device_id@ || request.transcript_digest@ != binding.transcript_digest@ {
        Err(BootstrapDeliveryError::BindingMismatch("receipt transcript"))
    } else if request.tls_spki_sha256@ != binding.tls_spki_sha256@ {
        Err(BootstrapDeliveryError::PinMismatch)
    } else if request.proof_signature@.len() != 64 {
        Err(BootstrapDeliveryError::InvalidField("proof_signature"))
    } else {
        Ok(())
    }
}

/// A poll request must come from the phone to the Mac, for the binding's
/// receipt, device and transcript, over its TLS pin, with a 64-byte proof.
pub fn validate_request_claims(
    request: &BootstrapPollRequest,
    binding: &BootstrapDeliveryBinding,
) -> (r: DeliveryResult<()>)
    ensures
        r == request_claims_check(*request, *binding),
{
    validate_protocol_and_ids(
        &request.protocol,
        &request.suite,
        &request.message_id,
        &request.receipt_id,
        &request.device_id,
    )?;
    if request.sender_role != PairingRole::IphoneCompanion || request.recipient_role
        != PairingRole::MacAuthority {
        return Err(BootstrapDeliveryError::BindingMismatch("roles"));
    }
    if !str_eq(&request.receipt_id, &binding.receipt_id) || !str_eq(
        &request.device_id,
        &binding.device_id,
    ) || !bytes_eq(&request.transcript_digest, &binding.transcript_digest) {
        return Err(BootstrapDeliveryError::BindingMismatch("receipt transcript"));
    }
    if !bytes_eq(&request.tls_spki_sha256, &binding.tls_spki_sha256) {
        return Err(BootstrapDeliveryError::PinMismatch);
    }
    if request.proof_signature.len() != 64 {
        return Err(BootstrapDeliveryError::InvalidField("proof_signature"));
    }
    Ok(())
}

pub open spec fn transport_check(
    transport: BootstrapDeliveryTransport,
    binding: BootstrapDeliveryBinding,
) -> DeliveryResult<()> {
    if transport.tls_version@ != "1.3"@ || transport.used_zero_rtt {
        Err(BootstrapDeliveryError::InsecureTransport)
    } else if transport.peer_spki_sha256@ != binding.tls_spki_sha256@ {
        Err(BootstrapDeliveryError::PinMismatch)
    } else {
        Ok(())
    }
}

/// Only TLS 1.3 without 0-RTT, to the pinned peer key, is accepted.
pub fn validate_transport(
    transport: &BootstrapDeliveryTransport,
    binding: &BootstrapDeliveryBinding,
) -> (r: DeliveryResult<()>)
    ensures
        r == transport_check(*transport, *binding),
{
    if !str_eq(&transport.tls_version, "1.3") || transport.used_zero_rtt {
        return Err(BootstrapDeliveryError::InsecureTransport);
    }
    if !bytes_eq(&transport.peer_spki_sha256, &binding.tls_spki_sha256) {
        return Err(BootstrapDeliveryError::PinMismatch);
    }
    Ok(())
}

/// A pending answer asks the phone to wait between 250 ms and 5 s.
pub fn validate_retry_after(retry_after_ms: u32) -> (r: DeliveryResult<()>)
    ensures
        r is Ok <==> MIN_BOOTSTRAP_RETRY_AFTER_MS <= retry_after_ms <= MAX_BOOTSTRAP_RETRY_AFTER_MS,
        r matches Err(e) ==> e == BootstrapDeliveryError::InvalidField("retry_after_ms"),
{
    if retry_after_ms < MIN_BOOTSTRAP_RETRY_AFTER_MS || retry_after_ms
        > MAX_BOOTSTRAP_RETRY_AFTER_MS {
        return Err(BootstrapDeliveryError::InvalidField("retry_after_ms"));
    }
    Ok(())
}

pub open spec fn replay_matches(
    replay: BootstrapDeliveryReplay,
    request: BootstrapPollRequest,
    binding: BootstrapDeliveryBinding,
    exact_request_sha256: Seq<u8>,
) -> bool {
    &&& replay.message_id@ == request.message_id@
    &&& replay.receipt_id@ == binding.receipt_id@
    &&& replay.device_id@ == binding.device_id@
    &&& replay.tls_spki_sha256@ == binding.tls_spki_sha256@
    &&& replay.exact_request_sha256@ == exact_request_sha256
    &&& replay.exact_response_sha256@ == sha256_spec(replay.exact_response_bytes@)
    &&& replay.exact_response_bytes@.len() <= MAX_BOOTSTRAP_POLL_RESPONSE_BYTES
}

/// A committed replay answers a request only when it was committed for the
/// same message, receipt, device, pin and exact request bytes, and its
/// response bytes still hash to the committed digest.
pub fn validate_replay(
    replay: &BootstrapDeliveryReplay,
    request: &BootstrapPollRequest,
    binding: &BootstrapDeliveryBinding,
    exact_request_sha256: &[u8; 32],
) -> (r: DeliveryResult<()>)
    ensures
        r is Ok <==> replay_matches(*replay, *request, *binding, exact_request_sha256@),
        r matches Err(e) ==> e == BootstrapDeliveryError::ReplayConflict,
{
    let response_sha = sha256(&replay.exact_response_bytes);
    if !str_eq(&replay.message_id, &request.message_id) || !str_eq(
        &replay.receipt_id,
        &binding.receipt_id,
    ) || !str_eq(&replay.device_id, &binding.device_id) || !bytes_eq(
        &replay.tls_spki_sha256,
        &binding.tls_spki_sha256,
    ) || !bytes_eq(&replay.exact_request_sha256, exact_request_sha256) || !bytes_eq(
        &replay.exact_response_sha256,
        &response_sha,
    ) || replay.exact_response_bytes.len() > MAX_BOOTSTRAP_POLL_RESPONSE_BYTES {
        return Err(BootstrapDeliveryError::ReplayConflict);
    }
    Ok(())
}

/// Copies a 64-byte P1363 signature out of a byte string of that length.
pub fn to_signature(bytes: &[u8], field: &'static str) -> (r: DeliveryResult<[u8; 64]>)
    ensures
        r is Ok <==> bytes@.len() == 64,
        r matches Ok(a) ==> a@ == bytes@,
        r matches Err(e) ==> e == BootstrapDeliveryError::InvalidField(field),
{
    if bytes.len() != 64 {
        return Err(BootstrapDeliveryError::InvalidField(field));
    }
    let mut out = [0u8; 64];
    let mut i: usize = 0;
    while i < 64
        invariant
            bytes@.len() == 64,
            i <= 64,
            forall|k: int| 0 <= k < i ==> out@[k] == bytes@[k],
        decreases 64 - i,
    {
        out[i] = bytes[i];
        i = i + 1;
    }
    assert(out@ =~= bytes@);
    Ok(out)
}

// ---------------------------------------------------------------------------
// Signed bytes
// ---------------------------------------------------------------------------

pub open spec fn comma() -> Seq<char> {
    seq![',']
}

pub open spec fn request_head(r: BootstrapPollRequest) -> Seq<char> {
    member("device_id"@, json_string(r.device_id@)) + comma() + member(
        "message_id"@,
        json_string(r.message_id@),
    ) + comma() + member("proof_signature"@, json_bytes(Seq::empty())) + comma() + member(
        "protocol"@,
        json_string(r.protocol@),
    ) + comma() + member("receipt_id"@, json_string(r.receipt_id@))
}

pub open spec fn request_tail(r: BootstrapPollRequest) -> Seq<char> {
    member("recipient_role"@, json_string(role_name(r.recipient_role))) + comma() + member(
        "sender_role"@,
        json_string(role_name(r.sender_role)),
    ) + comma() + member("suite"@, json_string(r.suite@)) + comma() + member(
        "tls_spki_sha256"@,
        json_bytes(r.tls_spki_sha256@),
    ) + comma() + member("transcript_digest"@, json_bytes(r.transcript_digest@))
}

/// The request as a canonical JSON object with an empty proof signature.
#[verifier::opaque]
pub open spec fn request_object(r: BootstrapPollRequest) -> Seq<char> {
    seq!['{'] + request_head(r) + comma() + request_tail(r) + seq!['}']
}

/// The canonical text a phone signs for a poll request: the request without
/// its signature, under the request domain and the delivery route.
pub open spec fn request_signing_text(r: BootstrapPollRequest) -> Seq<char> {
    seq!['{'] + member("domain"@, json_string(POLL_REQUEST_DOMAIN@)) + comma() + member(
        "request"@,
        request_object(r),
    ) + comma() + member("route"@, json_string(BOOTSTRAP_DELIVERY_ROUTE@)) + seq!['}']
}

pub open spec fn disposition_object(d: BootstrapPollDisposition) -> Seq<char> {
    match d {
        BootstrapPollDisposition::Pending { retry_after_ms } => seq!['{'] + member(
            "retry_after_ms"@,
            decimal(retry_after_ms as nat),
        ) + comma() + member("status"@, json_string("pending"@)) + seq!['}'],
        BootstrapPollDisposition::Ready {
            exact_bootstrap_envelope,
            exact_bootstrap_envelope_sha256,
        } => seq!['{'] + member("exact_bootstrap_envelope"@, json_bytes(exact_bootstrap_envelope@))
            + comma() + member(
            "exact_bootstrap_envelope_sha256"@,
            json_bytes(exact_bootstrap_envelope_sha256@),
        ) + comma() + member("status"@, json_string("ready"@)) + seq!['}'],
        BootstrapPollDisposition::Rejected { reason } => seq!['{'] + member(
            "reason"@,
            json_string(terminal_name(reason)),
        ) + comma() + member("status"@, json_string("rejected"@)) + seq!['}'],
    }
}

pub open spec fn response_head(r: BootstrapPollResponse) -> Seq<char> {
    member("device_id"@, json_string(r.device_id@)) + comma() + member(
        "disposition"@,
        disposition_object(r.disposition),
    ) + comma() + member("exact_request_sha256"@, json_bytes(r.exact_request_sha256@)) + comma()
        + member("proof_signature"@, json_bytes(Seq::empty())) + comma() + member(
        "protocol"@,
        json_string(r.protocol@),
    )
}

pub open spec fn response_middle(r: BootstrapPollResponse) -> Seq<char> {
    member("receipt_id"@, json_string(r.receipt_id@)) + comma() + member(
        "recipient_role"@,
        json_string(role_name(r.recipient_role)),
    ) + comma() + member("request_message_id"@, json_string(r.request_message_id@))
}

pub open spec fn response_tail(r: BootstrapPollResponse) -> Seq<char> {
    member("sender_role"@, json_string(role_name(r.sender_role))) + comma() + member(
        "suite"@,
        json_string(r.suite@),
    ) + comma() + member("tls_spki_sha256"@, json_bytes(r.tls_spki_sha256@)) + comma() + member(
        "transcript_digest"@,
        json_bytes(r.transcript_digest@),
    )
}

/// The response as a canonical JSON object with an empty proof signature.
#[verifier::opaque]
pub open spec fn response_object(r: BootstrapPollResponse) -> Seq<char> {
    seq!['{'] + response_head(r) + comma() + response_middle(r) + comma() + response_tail(r)
        + seq!['}']
}

/// The canonical text the Mac signs for a poll response.
pub open spec fn response_signing_text(r: BootstrapPollResponse) -> Seq<char> {
    seq!['{'] + member("domain"@, json_string(POLL_RESPONSE_DOMAIN@)) + comma() + member(
        "response"@,
        response_object(r),
    ) + comma() + member("route"@, json_string(BOOTSTRAP_DELIVERY_ROUTE@)) + seq!['}']
}

/// UTF-8 bytes of a character sequence.
fn utf8_bytes(text: &Vec<char>) -> (r: Vec<u8>)
    ensures
        r@ == encode_utf8(text@),
{
    let s = string_from_chars(text);
    s.as_str().as_bytes_vec()
}

fn push_member_string(out: &mut Vec<char>, key: &str, value: &str)
    ensures
        final(out)@ == old(out)@ + member(key@, json_string(value@)),
{
    push_key(out, key);
    push_json_string(out, value);
    assert(final(out)@ =~= old(out)@ + member(key@, json_string(value@)));
}

fn push_member_bytes(out: &mut Vec<char>, key: &str, value: &[u8])
    ensures
        final(out)@ == old(out)@ + member(key@, json_bytes(value@)),
{
    push_key(out, key);
    push_json_bytes(out, value);
    assert(final(out)@ =~= old(out)@ + member(key@, json_bytes(value@)));
}

fn push_request_head(out: &mut Vec<char>, r: &BootstrapPollRequest)
    ensures
        final(out)@ == old(out)@ + request_head(*r),
{
    let ghost o = old(out)@;
    let empty: [u8; 0] = [];
    push_member_string(out, "device_id", &r.device_id);
    out.push(',');
    push_member_string(out, "message_id", &r.message_id);
    out.push(',');
    push_member_bytes(out, "proof_signature", &empty);
    out.push(',');
    push_member_string(out, "protocol", &r.protocol);
    out.push(',');
    push_member_string(out, "receipt_id", &r.receipt_id);
    assert(empty@ =~= Seq::<u8>::empty());
    assert(out@ =~= o + request_head(*r));
}

fn push_request_tail(out: &mut Vec<char>, r: &BootstrapPollRequest)
    ensures
        final(out)@ == old(out)@ + request_tail(*r),
{
    let ghost o = old(out)@;
    push_member_string(out, "recipient_role", r.recipient_role.as_str());
    out.push(',');
    push_member_string(out, "sender_role", r.sender_role.as_str());
    out.push(',');
    push_member_string(out, "suite", &r.suite);
    out.push(',');
    push_member_bytes(out, "tls_spki_sha256", &r.tls_spki_sha256);
    out.push(',');
    push_member_bytes(out, "transcript_digest", &r.transcript_digest);
    assert(out@ =~= o + request_tail(*r));
}

fn push_request_object(out: &mut Vec<char>, r: &BootstrapPollRequest)
    ensures
        final(out)@ == old(out)@ + request_object(*r),
{
    let ghost o = old(out)@;
    out.push('{');
    push_request_head(out, r);
    out.push(',');
    push_request_tail(out, r);
    out.push('}');
    reveal(request_object);
    assert(out@ =~= o + request_object(*r));
}

/// The exact bytes a phone signs for `request`: its canonical JSON text
/// without the proof signature, under the request domain and route.
pub fn request_signing_bytes(request: &BootstrapPollRequest) -> (r: DeliveryResult<Vec<u8>>)
    ensures
        r matches Ok(b) && b@ == encode_utf8(request_signing_text(*request)),
{
    let mut out: Vec<char> = Vec::new();
    out.push('{');
    push_member_string(&mut out, "domain", POLL_REQUEST_DOMAIN);
    out.push(',');
    push_key(&mut out, "request");
    push_request_object(&mut out, request);
    out.push(',');
    push_member_string(&mut out, "route", BOOTSTRAP_DELIVERY_ROUTE);
    out.push('}');
    assert(out@ =~= request_signing_text(*request));
    Ok(utf8_bytes(&out))
}

fn push_disposition(out: &mut Vec<char>, d: &BootstrapPollDisposition)
    ensures
        final(out)@ == old(out)@ + disposition_object(*d),
{
    let ghost o = old(out)@;
    out.push('{');
    match d {
        BootstrapPollDisposition::Pending { retry_after_ms } => {
            push_key(out, "retry_after_ms");
            push_decimal(out, *retry_after_ms);
            out.push(',');
            push_member_string(out, "status", "pending");
        },
        BootstrapPollDisposition::Ready {
            exact_bootstrap_envelope,
            exact_bootstrap_envelope_sha256,
        } => {
            push_member_bytes(out, "exact_bootstrap_envelope", exact_bootstrap_envelope);
            out.push(',');
            push_member_bytes(
                out,
                "exact_bootstrap_envelope_sha256",
                exact_bootstrap_envelope_sha256,
            );
            out.push(',');
            push_member_string(out, "status", "ready");
        },
        BootstrapPollDisposition::Rejected { reason } => {
            push_member_string(out, "reason", reason.as_str());
            out.push(',');
            push_member_string(out, "status", "rejected");
        },
    }
    out.push('}');
    assert(out@ =~= o + disposition_object(*d));
}

fn push_response_head(out: &mut Vec<char>, r: &BootstrapPollResponse)
    ensures
        final(out)@ == old(out)@ + response_head(*r),
{
    let ghost o = old(out)@;
    let empty: [u8; 0] = [];
    push_member_string(out, "device_id", &r.device_id);
    out.push(',');
    push_key(out, "disposition");
    push_disposition(out, &r.disposition);
    out.push(',');
    push_member_bytes(out, "exact_request_sha256", &r.exact_request_sha256);
    out.push(',');
    push_member_bytes(out, "proof_signature", &empty);
    out.push(',');
    push_member_string(out, "protocol", &r.protocol);
    assert(empty@ =~= Seq::<u8>::empty());
    assert(out@ =~= o + response_head(*r));
}

fn push_response_middle(out: &mut Vec<char>, r: &BootstrapPollResponse)
    ensures
        final(out)@ == old(out)@ + response_middle(*r),
{
    let ghost o = old(out)@;
    push_member_string(out, "receipt_id", &r.receipt_id);
    out.push(',');
    push_member_string(out, "recipient_role", r.recipient_role.as_str());
    out.push(',');
    push_member_string(out, "request_message_id", &r.request_message_id);
    assert(out@ =~= o + response_middle(*r));
}

fn push_response_tail(out: &mut Vec<char>, r: &BootstrapPollResponse)
    ensures
        final(out)@ == old(out)@ + response_tail(*r),
{
    let ghost o = old(out)@;
    push_member_string(out, "sender_role", r.sender_role.as_str());
    out.push(',');
    push_member_string(out, "suite", &r.suite);
    out.push(',');
    push_member_bytes(out, "tls_spki_sha256", &r.tls_spki_sha256);
    out.push(',');
    push_member_bytes(out, "transcript_digest", &r.transcript_digest);
    assert(out@ =~= o + response_tail(*r));
}

fn push_response_object(out: &mut Vec<char>, r: &BootstrapPollResponse)
    ensures
        final(out)@ == old(out)@ + response_object(*r),
{
    let ghost o = old(out)@;
    out.push('{');
    push_response_head(out, r);
    out.push(',');
    push_response_middle(out, r);
    out.push(',');
    push_response_tail(out, r);
    out.push('}');
    reveal(response_object);
    assert(out@ =~= o + response_object(*r));
}

/// The exact bytes the Mac signs for `response`: its canonical JSON text
/// without the proof signature, under the response domain and route.
pub fn response_signing_bytes(response: &BootstrapPollResponse) -> (r: DeliveryResult<Vec<u8>>)
    ensures
        r matches Ok(b) && b@ == encode_utf8(response_signing_text(*response)),
{
    let mut out: Vec<char> = Vec::new();
    out.push('{');
    push_member_string(&mut out, "domain", POLL_RESPONSE_DOMAIN);
    out.push(',');
    push_key(&mut out, "response");
    push_response_object(&mut out, response);
    out.push(',');
    push_member_string(&mut out, "route", BOOTSTRAP_DELIVERY_ROUTE);
    out.push('}');
    assert(out@ =~= response_signing_text(*response));
    Ok(utf8_bytes(&out))
}

// ---------------------------------------------------------------------------
// Authentication of requests and responses
// ---------------------------------------------------------------------------

/// Whether `verifier` accepts the phone's signature over the request's
/// canonical bytes under the binding's iPhone key.
pub open spec fn request_signature_check<V: BootstrapDeliveryVerifier>(
    request: BootstrapPollRequest,
    binding: BootstrapDeliveryBinding,
    verifier: V,
) -> DeliveryResult<()> {
    if verifier.accepts(
        PairingRole::IphoneCompanion,
        binding.iphone_signing_public_key@,
        encode_utf8(request_signing_text(request)),
        request.proof_signature@,
    ) {
        Ok(())
    } else {
        Err(BootstrapDeliveryError::InvalidSignature)
    }
}

/// The verdict on a poll request: the binding, the request's claims and the
/// transport in turn, then the phone's signature.
pub open spec fn request_check<V: BootstrapDeliveryVerifier>(
    request: BootstrapPollRequest,
    binding: BootstrapDeliveryBinding,
    transport: BootstrapDeliveryTransport,
    verifier: V,
) -> DeliveryResult<()> {
    if binding_check(binding) is Err {
        binding_check(binding)
    } else if request_claims_check(request, binding) is Err {
        request_claims_check(request, binding)
    } else if transport_check(transport, binding) is Err {
        transport_check(transport, binding)
    } else {
        request_signature_check(request, binding, verifier)
    }
}

/// Checks a poll request against the authority's binding and the observed
/// transport, then has `verifier` check the phone's signature over the
/// request's canonical bytes under the binding's iPhone key. Every
/// structural check comes first.
pub fn validate_request<V: BootstrapDeliveryVerifier>(
    request: &BootstrapPollRequest,
    binding: &BootstrapDeliveryBinding,
    transport: &BootstrapDeliveryTransport,
    verifier: &V,
) -> (r: DeliveryResult<()>)
    ensures
        r == request_check(*request, *binding, *transport, *verifier),
{
    validate_binding(binding)?;
    validate_request_claims(request, binding)?;
    validate_transport(transport, binding)?;
    let signature = to_signature(&request.proof_signature, "proof_signature")?;
    let message = request_signing_bytes(request)?;
    match verifier.verify_p256_p1363(
        PairingRole::IphoneCompanion,
        &binding.iphone_signing_public_key,
        &message,
        &signature,
    ) {
        Ok(()) => Ok(()),
        Err(()) => Err(BootstrapDeliveryError::InvalidSignature),
    }
}

pub open spec fn response_claims_check(
    response: BootstrapPollResponse,
    request: BootstrapPollRequest,
    binding: BootstrapDeliveryBinding,
    exact_request_sha256: Seq<u8>,
) -> DeliveryResult<()> {
    if request_claims_check(request, binding) is Err {
        request_claims_check(request, binding)
    } else if protocol_and_ids_check(
        response.protocol@,
        response.suite@,
        response.request_message_id@,
        response.receipt_id@,
        response.device_id@,
    ) is Err {
        protocol_and_ids_check(
            response.protocol@,
            response.suite@,
            response.request_message_id@,
            response.receipt_id@,
            response.device_id@,
        )
    } else if response.sender_role != PairingRole::MacAuthority || response.recipient_role
        != PairingRole::IphoneCompanion {
        Err(BootstrapDeliveryError::BindingMismatch("roles"))
    } else if response.request_message_id@ != request.message_id@ || response.receipt_id@
        != binding.receipt_id@ || response.device_id@ != binding.device_id@
        || response.transcript_digest@ != binding.transcript_digest@
        || response.exact_request_sha256@ != exact_request_sha256 {
        Err(BootstrapDeliveryError::BindingMismatch("poll request"))
    } else if response.tls_spki_sha256@ != binding.tls_spki_sha256@ {
        Err(BootstrapDeliveryError::PinMismatch)
    } else {
        match response.disposition {
            BootstrapPollDisposition::Pending { retry_after_ms } => if !(
            MIN_BOOTSTRAP_RETRY_AFTER_MS <= retry_after_ms <= MAX_BOOTSTRAP_RETRY_AFTER_MS) {
                Err(BootstrapDeliveryError::InvalidField("retry_after_ms"))
            } else if response.proof_signature@.len() != 64 {
                Err(BootstrapDeliveryError::InvalidField("proof_signature"))
            } else {
                Ok(())
            },
            BootstrapPollDisposition::Ready {
                exact_bootstrap_envelope,
                exact_bootstrap_envelope_sha256,
            } => if exact_bootstrap_envelope_sha256@ != sha256_spec(exact_bootstrap_envelope@) {
                Err(BootstrapDeliveryError::BindingMismatch("exact bootstrap envelope digest"))
            } else if exact_bootstrap_envelope@.len() > MAX_BOOTSTRAP_ENVELOPE_BYTES {
                Err(BootstrapDeliveryError::PayloadTooLarge)
            } else if response.proof_signature@.len() != 64 {
                Err(BootstrapDeliveryError::InvalidField("proof_signature"))
            } else {
                Ok(())
            },
            BootstrapPollDisposition::Rejected { .. } => if response.proof_signature@.len()
                != 64 {
                Err(BootstrapDeliveryError::InvalidField("proof_signature"))
            } else {
                Ok(())
            },
        }
    }
}

/// Whether `verifier` accepts the Mac's signature over the response's
/// canonical bytes under the binding's Mac pairing key.
pub open spec fn response_signature_check<V: BootstrapDeliveryVerifier>(
    response: BootstrapPollResponse,
    binding: BootstrapDeliveryBinding,
    verifier: V,
) -> DeliveryResult<()> {
    if verifier.accepts(
        PairingRole::MacAuthority,
        binding.mac_pairing_signing_public_key@,
        encode_utf8(response_signing_text(response)),
        response.proof_signature@,
    ) {
        Ok(())
    } else {
        Err(BootstrapDeliveryError::InvalidSignature)
    }
}

/// The verdict on a poll response: its claims against the request, the
/// binding and the request digest, then the Mac's signature.
pub open spec fn response_check<V: BootstrapDeliveryVerifier>(
    response: BootstrapPollResponse,
    request: BootstrapPollRequest,
    binding: BootstrapDeliveryBinding,
    exact_request_sha256: Seq<u8>,
    verifier: V,
) -> DeliveryResult<()> {
    if response_claims_check(response, request, binding, exact_request_sha256) is Err {
        response_claims_check(response, request, binding, exact_request_sha256)
    } else {
        response_signature_check(response, binding, verifier)
    }
}

/// Checks a signed poll response against the exact request it answers and
/// the binding, then has `verifier` check the Mac's signature over the
/// response's canonical bytes under the binding's Mac pairing key.
pub fn validate_response<V: BootstrapDeliveryVerifier>(
    response: &BootstrapPollResponse,
    request: &BootstrapPollRequest,
    binding: &BootstrapDeliveryBinding,
    exact_request_sha256: &[u8; 32],
    verifier: &V,
) -> (r: DeliveryResult<()>)
    ensures
        r == response_check(*response, *request, *binding, exact_request_sha256@, *verifier),
{
    validate_request_claims(request, binding)?;
    validate_protocol_and_ids(
        &response.protocol,
        &response.suite,
        &response.request_message_id,
        &response.receipt_id,
        &response.device_id,
    )?;
    if response.sender_role != PairingRole::MacAuthority || response.recipient_role
        != PairingRole::IphoneCompanion {
        return Err(BootstrapDeliveryError::BindingMismatch("roles"));
    }
    if !str_eq(&response.request_message_id, &request.message_id) || !str_eq(
        &response.receipt_id,
        &binding.receipt_id,
    ) || !str_eq(&response.device_id, &binding.device_id) || !bytes_eq(
        &response.transcript_digest,
        &binding.transcript_digest,
    ) || !bytes_eq(&response.exact_request_sha256, exact_request_sha256) {
        return Err(BootstrapDeliveryError::BindingMismatch("poll request"));
    }
    if !bytes_eq(&response.tls_spki_sha256, &binding.tls_spki_sha256) {
        return Err(BootstrapDeliveryError::PinMismatch);
    }
    match &response.disposition {
        BootstrapPollDisposition::Pending { retry_after_ms } => {
            validate_retry_after(*retry_after_ms)?;
        },
        BootstrapPollDisposition::Ready {
            exact_bootstrap_envelope,
            exact_bootstrap_envelope_sha256,
        } => {
            let digest = sha256(exact_bootstrap_envelope);
            if !bytes_eq(exact_bootstrap_envelope_sha256, &digest) {
                return Err(
                    BootstrapDeliveryError::BindingMismatch("exact bootstrap envelope digest"),
                );
            }
            check_payload_size(exact_bootstrap_envelope, MAX_BOOTSTRAP_ENVELOPE_BYTES)?;
        },
        BootstrapPollDisposition::Rejected { .. } => {},
    }
    let signature = to_signature(&response.proof_signature, "proof_signature")?;
    let message = response_signing_bytes(response)?;
    match verifier.verify_p256_p1363(
        PairingRole::MacAuthority,
        &binding.mac_pairing_signing_public_key,
        &message,
        &signature,
    ) {
        Ok(()) => Ok(()),
        Err(()) => Err(BootstrapDeliveryError::InvalidSignature),
    }
}

// ---------------------------------------------------------------------------
// Signing
// ---------------------------------------------------------------------------

pub open spec fn unsigned_request(
    binding: BootstrapDeliveryBinding,
    message_id: Seq<char>,
    request: BootstrapPollRequest,
) -> bool {
    &&& request.protocol@ == PAIRING_PROTOCOL@
    &&& request.suite@ == PAIRING_SUITE@
    &&& request.message_id@ == message_id
    &&& request.receipt_id@ == binding.receipt_id@
    &&& request.device_id@ == binding.device_id@
    &&& request.transcript_digest@ == binding.transcript_digest@
    &&& request.tls_spki_sha256@ == binding.tls_spki_sha256@
    &&& request.sender_role == PairingRole::IphoneCompanion
    &&& request.recipient_role == PairingRole::MacAuthority
}

fn owned(s: &str) -> (r: String)
    ensures
        r@ == s@,
{
    let c = crate::text::chars_of(s);
    string_from_chars(&c)
}

fn bytes_to_vec(b: &[u8]) -> (r: Vec<u8>)
    ensures
        r@ == b@,
{
    let mut v: Vec<u8> = Vec::new();
    let mut i: usize = 0;
    while i < b.len()
        invariant
            i <= b@.len(),
            v@ == b@.take(i as int),
        decreases b@.len() - i,
    {
        v.push(b[i]);
        i = i + 1;
        assert(b@.take(i as int) =~= b@.take((i - 1) as int).push(b@[i - 1]));
    }
    assert(b@.take(b@.len() as int) =~= b@);
    v
}

/// Builds the phone's poll request for a binding under a fresh UUIDv7
/// message id and signs its canonical bytes with `signer`. The binding and
/// the message id are checked before the signer is asked.
pub fn sign_poll_request<S: IphoneBootstrapPollSigner>(
    binding: &BootstrapDeliveryBinding,
    message_id: String,
    signer: &S,
) -> (r: DeliveryResult<BootstrapPollRequest>)
    ensures
        binding_check(*binding) is Err ==> (r matches Err(e) && binding_check(*binding) == Err::<
            (),
            BootstrapDeliveryError,
        >(e)),
        binding_check(*binding) is Ok && !is_uuid_v7(message_id@) ==> r == Err::<
            BootstrapPollRequest,
            BootstrapDeliveryError,
        >(BootstrapDeliveryError::InvalidIdentifier),
        binding_check(*binding) is Ok && is_uuid_v7(message_id@) ==> (r is Ok || r == Err::<
            BootstrapPollRequest,
            BootstrapDeliveryError,
        >(BootstrapDeliveryError::CryptoUnavailable)),
        r matches Ok(q) ==> unsigned_request(*binding, message_id@, q) && q.proof_signature@.len()
            == 64 && request_claims_check(q, *binding) is Ok && signer.iphone_signed(
            encode_utf8(request_signing_text(q)),
            q.proof_signature@,
        ),
{
    validate_binding(binding)?;
    if !uuid_v7_ok(&message_id) {
        return Err(BootstrapDeliveryError::InvalidIdentifier);
    }
    let mut request = BootstrapPollRequest {
        protocol: owned(PAIRING_PROTOCOL),
        suite: owned(PAIRING_SUITE),
        message_id,
        receipt_id: owned(&binding.receipt_id),
        device_id: owned(&binding.device_id),
        transcript_digest: bytes_to_vec(&binding.transcript_digest),
        tls_spki_sha256: bytes_to_vec(&binding.tls_spki_sha256),
        sender_role: PairingRole::IphoneCompanion,
        recipient_role: PairingRole::MacAuthority,
        proof_signature: Vec::new(),
    };
    let message = request_signing_bytes(&request)?;
    let signature = match signer.sign_iphone_poll(&message) {
        Ok(signature) => signature,
        Err(()) => return Err(BootstrapDeliveryError::CryptoUnavailable),
    };
    let ghost unsigned = request;
    request.proof_signature = bytes_to_vec(&signature);
    proof {
        reveal(request_object);
        assert(request_signing_text(request) == request_signing_text(unsigned));
    }
    Ok(request)
}

/// Builds the Mac's answer to `request` for `binding` and signs its
/// canonical bytes with `signer`.
pub fn signed_response<S: MacBootstrapDeliverySigner>(
    request: &BootstrapPollRequest,
    binding: &BootstrapDeliveryBinding,
    exact_request_sha256: [u8; 32],
    disposition: BootstrapPollDisposition,
    signer: &S,
) -> (r: DeliveryResult<BootstrapPollResponse>)
    ensures
        r is Ok || r == Err::<BootstrapPollResponse, BootstrapDeliveryError>(
            BootstrapDeliveryError::CryptoUnavailable,
        ),
        r matches Ok(resp) ==> {
            &&& resp.protocol@ == PAIRING_PROTOCOL@
            &&& resp.suite@ == PAIRING_SUITE@
            &&& resp.request_message_id@ == request.message_id@
            &&& resp.exact_request_sha256@ == exact_request_sha256@
            &&& resp.receipt_id@ == binding.receipt_id@
            &&& resp.device_id@ == binding.device_id@
            &&& resp.transcript_digest@ == binding.transcript_digest@
            &&& resp.tls_spki_sha256@ == binding.tls_spki_sha256@
            &&& resp.sender_role == PairingRole::MacAuthority
            &&& resp.recipient_role == PairingRole::IphoneCompanion
            &&& resp.disposition == disposition
            &&& resp.proof_signature@.len() == 64
            &&& signer.mac_signed(encode_utf8(response_signing_text(resp)), resp.proof_signature@)
        },
{
    let mut response = BootstrapPollResponse {
        protocol: owned(PAIRING_PROTOCOL),
        suite: owned(PAIRING_SUITE),
        request_message_id: owned(&request.message_id),
        exact_request_sha256: bytes_to_vec(&exact_request_sha256),
        receipt_id: owned(&binding.receipt_id),
        device_id: owned(&binding.device_id),
        transcript_digest: bytes_to_vec(&binding.transcript_digest),
        tls_spki_sha256: bytes_to_vec(&binding.tls_spki_sha256),
        sender_role: PairingRole::MacAuthority,
        recipient_role: PairingRole::IphoneCompanion,
        disposition,
        proof_signature: Vec::new(),
    };
    let message = response_signing_bytes(&response)?;
    let signature = match signer.sign_mac_delivery(&message) {
        Ok(signature) => signature,
        Err(()) => return Err(BootstrapDeliveryError::CryptoUnavailable),
    };
    let ghost unsigned = response;
    response.proof_signature = bytes_to_vec(&signature);
    proof {
        reveal(response_object);
        assert(response_signing_text(response) == response_signing_text(unsigned));
    }
    Ok(response)
}

/// A disposition the phone accepts: a wait within bounds, an envelope that
/// fits and matches its digest, or any terminal reason.
pub open spec fn disposition_ok(d: BootstrapPollDisposition) -> bool {
    match d {
        BootstrapPollDisposition::Pending { retry_after_ms } => MIN_BOOTSTRAP_RETRY_AFTER_MS
            <= retry_after_ms <= MAX_BOOTSTRAP_RETRY_AFTER_MS,
        BootstrapPollDisposition::Ready {
            exact_bootstrap_envelope,
            exact_bootstrap_envelope_sha256,
        } => exact_bootstrap_envelope_sha256@ == sha256_spec(exact_bootstrap_envelope@)
            && exact_bootstrap_envelope@.len() <= MAX_BOOTSTRAP_ENVELOPE_BYTES,
        BootstrapPollDisposition::Rejected { .. } => true,
    }
}

/// The fields of an answer the Mac builds for `request` under `binding`.
pub open spec fn answers(
    response: BootstrapPollResponse,
    request: BootstrapPollRequest,
    binding: BootstrapDeliveryBinding,
    exact_request_sha256: Seq<u8>,
) -> bool {
    &&& response.protocol@ == PAIRING_PROTOCOL@
    &&& response.suite@ == PAIRING_SUITE@
    &&& response.request_message_id@ == request.message_id@
    &&& response.exact_request_sha256@ == exact_request_sha256
    &&& response.receipt_id@ == binding.receipt_id@
    &&& response.device_id@ == binding.device_id@
    &&& response.transcript_digest@ == binding.transcript_digest@
    &&& response.tls_spki_sha256@ == binding.tls_spki_sha256@
    &&& response.sender_role == PairingRole::MacAuthority
    &&& response.recipient_role == PairingRole::IphoneCompanion
    &&& response.proof_signature@.len() == 64
}

/// An answer the Mac builds for an authenticated request, with an
/// acceptable disposition, passes every check the phone makes of it before
/// the signature: an honest answer is never refused as unbound.
pub proof fn lemma_signed_answers_pass_checks(
    response: BootstrapPollResponse,
    request: BootstrapPollRequest,
    binding: BootstrapDeliveryBinding,
    exact_request_sha256: Seq<u8>,
)
    requires
        request_claims_check(request, binding) is Ok,
        answers(response, request, binding, exact_request_sha256),
        disposition_ok(response.disposition),
    ensures
        response_claims_check(response, request, binding, exact_request_sha256) is Ok,
{
}

/// An answer the Mac builds for an authenticated request, with an
/// acceptable disposition and a signature the phone's verifier accepts
/// under the Mac's key, is accepted by the phone's whole check.
pub proof fn lemma_signed_answers_are_accepted<V: BootstrapDeliveryVerifier>(
    response: BootstrapPollResponse,
    request: BootstrapPollRequest,
    binding: BootstrapDeliveryBinding,
    exact_request_sha256: Seq<u8>,
    verifier: V,
)
    requires
        request_claims_check(request, binding) is Ok,
        answers(response, request, binding, exact_request_sha256),
        disposition_ok(response.disposition),
        verifier.accepts(
            PairingRole::MacAuthority,
            binding.mac_pairing_signing_public_key@,
            encode_utf8(response_signing_text(response)),
            response.proof_signature@,
        ),
    ensures
        response_check(response, request, binding, exact_request_sha256, verifier) is Ok,
{
    lemma_signed_answers_pass_checks(response, request, binding, exact_request_sha256);
}

// ---------------------------------------------------------------------------
// The durable coordinator
// ---------------------------------------------------------------------------

/// Answers poll requests from a durable store, with a crypto provider that
/// verifies phone signatures and signs Mac answers.
pub struct BootstrapDeliveryCoordinator<S, C> {
    store: S,
    crypto: C,
}

/// What the coordinator found for an authenticated poll.
#[derive(Debug, Clone, PartialEq, Eq)]
pub enum PollAnswer {
    /// The message id was answered before; this committed pair is
    /// consistent with the request and its exact response must be returned
    /// after the response itself is checked.
    Replay(BootstrapDeliveryReplay),
    /// A freshly signed answer that must be committed before it is returned.
    Fresh(BootstrapPollResponse),
}

/// The outcome of committing a fresh answer.
#[derive(Debug, Clone, PartialEq, Eq)]
pub enum CommitAnswer {
    /// Our record was inserted; its exact response bytes are the answer.
    Committed(BootstrapDeliveryReplay),
    /// A concurrent poll with the same message id won; its committed pair is
    /// consistent with the request and must be returned after its response
    /// is checked.
    Existing(BootstrapDeliveryReplay),
}

/// What to do with an authenticated poll once the store has been asked for
/// a committed pair under its message id.
#[derive(Debug, Clone, PartialEq, Eq)]
pub enum PollPlan {
    /// Return this committed pair again.
    Replay(BootstrapDeliveryReplay),
    /// Sign and commit a fresh answer carrying this disposition.
    Respond(BootstrapPollDisposition),
}

/// Why a resolution cannot be answered: a pending wait outside bounds, or
/// an envelope larger than the protocol allows.
pub open spec fn resolution_error(res: BootstrapDeliveryResolution) -> Option<
    BootstrapDeliveryError,
> {
    match res {
        BootstrapDeliveryResolution::Pending { retry_after_ms } => if MIN_BOOTSTRAP_RETRY_AFTER_MS
            <= retry_after_ms <= MAX_BOOTSTRAP_RETRY_AFTER_MS {
            None
        } else {
            Some(BootstrapDeliveryError::InvalidField("retry_after_ms"))
        },
        BootstrapDeliveryResolution::Ready { exact_bootstrap_envelope } => if exact_bootstrap_envelope@.len()
            > MAX_BOOTSTRAP_ENVELOPE_BYTES {
            Some(BootstrapDeliveryError::PayloadTooLarge)
        } else {
            None
        },
        BootstrapDeliveryResolution::Rejected { .. } => None,
    }
}

/// The disposition an answer carries for the authority's resolution: the
/// same wait, the exact envelope with its SHA-256, or the same terminal
/// reason.
pub open spec fn resolves_to(res: BootstrapDeliveryResolution, d: BootstrapPollDisposition) -> bool {
    match (res, d) {
        (
            BootstrapDeliveryResolution::Pending { retry_after_ms: a },
            BootstrapPollDisposition::Pending { retry_after_ms: b },
        ) => a == b,
        (
            BootstrapDeliveryResolution::Ready { exact_bootstrap_envelope: e },
            BootstrapPollDisposition::Ready { exact_bootstrap_envelope, exact_bootstrap_envelope_sha256 },
        ) => exact_bootstrap_envelope@ == e@ && exact_bootstrap_envelope_sha256@ == sha256_spec(e@),
        (
            BootstrapDeliveryResolution::Rejected { reason: a },
            BootstrapPollDisposition::Rejected { reason: b },
        ) => a == b,
        _ => false,
    }
}

/// Turns the authority's resolution into the disposition an answer carries:
/// a pending wait within bounds, the exact bootstrap envelope with its
/// SHA-256, or the terminal reason.
pub fn resolve_disposition(resolution: &BootstrapDeliveryResolution) -> (r: DeliveryResult<
    BootstrapPollDisposition,
>)
    ensures
        r is Ok <==> resolution_error(*resolution) is None,
        r matches Ok(d) ==> resolves_to(*resolution, d) && disposition_ok(d),
        r matches Err(e) ==> resolution_error(*resolution) == Some(e),
{
    match resolution {
        BootstrapDeliveryResolution::Pending { retry_after_ms } => {
            validate_retry_after(*retry_after_ms)?;
            Ok(BootstrapPollDisposition::Pending { retry_after_ms: *retry_after_ms })
        },
        BootstrapDeliveryResolution::Ready { exact_bootstrap_envelope } => {
            check_payload_size(exact_bootstrap_envelope, MAX_BOOTSTRAP_ENVELOPE_BYTES)?;
            let digest = sha256(exact_bootstrap_envelope);
            Ok(
                BootstrapPollDisposition::Ready {
                    exact_bootstrap_envelope: bytes_to_vec(exact_bootstrap_envelope),
                    exact_bootstrap_envelope_sha256: bytes_to_vec(&digest),
                },
            )
        },
        BootstrapDeliveryResolution::Rejected { reason } => Ok(
            BootstrapPollDisposition::Rejected { reason: *reason },
        ),
    }
}

/// Why an authenticated poll cannot be answered from what the store holds:
/// a committed pair for other request bytes, or a resolution that cannot be
/// answered.
pub open spec fn poll_plan_error(
    request: BootstrapPollRequest,
    snapshot: BootstrapDeliverySnapshot,
    existing: Option<BootstrapDeliveryReplay>,
    exact_request_sha256: Seq<u8>,
) -> Option<BootstrapDeliveryError> {
    match existing {
        Some(x) => if replay_matches(x, request, snapshot.binding, exact_request_sha256) {
            None
        } else {
            Some(BootstrapDeliveryError::ReplayConflict)
        },
        None => resolution_error(snapshot.resolution),
    }
}

/// Decides an authenticated poll from what the store holds: a pair already
/// committed under the message id answers again only when it was committed
/// for this exact request, and otherwise is a conflict; with none, a fresh
/// answer carries the disposition of the receipt's resolution.
pub fn decide_poll_answer(
    request: &BootstrapPollRequest,
    snapshot: &BootstrapDeliverySnapshot,
    existing: Option<BootstrapDeliveryReplay>,
    exact_request_sha256: &[u8; 32],
) -> (r: DeliveryResult<PollPlan>)
    ensures
        match existing {
            Some(x) => if replay_matches(x, *request, snapshot.binding, exact_request_sha256@) {
                r == Ok::<PollPlan, BootstrapDeliveryError>(PollPlan::Replay(x))
            } else {
                r == Err::<PollPlan, BootstrapDeliveryError>(BootstrapDeliveryError::ReplayConflict)
            },
            None => match resolution_error(snapshot.resolution) {
                Some(e) => r == Err::<PollPlan, BootstrapDeliveryError>(e),
                None => r matches Ok(PollPlan::Respond(d)) && resolves_to(snapshot.resolution, d)
                    && disposition_ok(d),
            },
        },
        r is Ok <==> poll_plan_error(*request, *snapshot, existing, exact_request_sha256@) is None,
        r matches Err(e) ==> poll_plan_error(*request, *snapshot, existing, exact_request_sha256@)
            == Some(e),
{
    match existing {
        Some(replay) => {
            validate_replay(&replay, request, &snapshot.binding, exact_request_sha256)?;
            Ok(PollPlan::Replay(replay))
        },
        None => {
            let disposition = resolve_disposition(&snapshot.resolution)?;
            Ok(PollPlan::Respond(disposition))
        },
    }
}

/// The pair committed for a fresh answer: the request's message, receipt
/// and device ids, the binding's pin, the exact request digest, and the
/// exact response bytes with their digest.
pub open spec fn is_replay_record(
    x: BootstrapDeliveryReplay,
    request: BootstrapPollRequest,
    binding: BootstrapDeliveryBinding,
    exact_request_sha256: Seq<u8>,
    exact_response_bytes: Seq<u8>,
) -> bool {
    &&& x.message_id@ == request.message_id@
    &&& x.receipt_id@ == request.receipt_id@
    &&& x.device_id@ == request.device_id@
    &&& x.tls_spki_sha256@ == binding.tls_spki_sha256@
    &&& x.exact_request_sha256@ == exact_request_sha256
    &&& x.exact_response_sha256@ == sha256_spec(exact_response_bytes)
    &&& x.exact_response_bytes@ == exact_response_bytes
}

/// Builds the pair to commit for a fresh answer; a response larger than the
/// protocol allows is refused.
pub fn replay_record(
    request: &BootstrapPollRequest,
    binding: &BootstrapDeliveryBinding,
    exact_request_sha256: &[u8; 32],
    exact_response_bytes: Vec<u8>,
) -> (r: DeliveryResult<BootstrapDeliveryReplay>)
    ensures
        r is Ok <==> exact_response_bytes@.len() <= MAX_BOOTSTRAP_POLL_RESPONSE_BYTES,
        r matches Ok(x) ==> is_replay_record(
            x,
            *request,
            *binding,
            exact_request_sha256@,
            exact_response_bytes@,
        ),
        r matches Err(e) ==> e == BootstrapDeliveryError::PayloadTooLarge,
{
    check_payload_size(&exact_response_bytes, MAX_BOOTSTRAP_POLL_RESPONSE_BYTES)?;
    let response_sha = sha256(&exact_response_bytes);
    Ok(
        BootstrapDeliveryReplay {
            message_id: owned(&request.message_id),
            receipt_id: owned(&request.receipt_id),
            device_id: owned(&request.device_id),
            tls_spki_sha256: binding.tls_spki_sha256,
            exact_request_sha256: *exact_request_sha256,
            exact_response_sha256: response_sha,
            exact_response_bytes,
        },
    )
}

/// Polling twice gives the same bytes: the pair `commit_answer` commits for
/// an authenticated request (`CommitAnswer::Committed`) is, when the store
/// hands it back under the message id, the one `decide_poll_answer` and
/// `answer_poll` replay for a repeat of that exact request, with exactly the
/// committed response bytes; no receipt state changes that.
pub proof fn lemma_committed_pair_answers_its_request(
    x: BootstrapDeliveryReplay,
    request: BootstrapPollRequest,
    binding: BootstrapDeliveryBinding,
    exact_request_sha256: Seq<u8>,
    exact_response_bytes: Seq<u8>,
)
    requires
        request_claims_check(request, binding) is Ok,
        is_replay_record(x, request, binding, exact_request_sha256, exact_response_bytes),
        exact_response_bytes.len() <= MAX_BOOTSTRAP_POLL_RESPONSE_BYTES,
    ensures
        replay_matches(x, request, binding, exact_request_sha256),
        x.exact_response_bytes@ == exact_response_bytes,
        forall|snapshot: BootstrapDeliverySnapshot|
            snapshot.binding == binding ==> #[trigger] poll_plan_error(
                request,
                snapshot,
                Some(x),
                exact_request_sha256,
            ) is None,
{
}

/// The phone's check of the Mac's answer to its exact request bytes: the
/// binding first, then every claim of the response against the request and
/// the SHA-256 of those bytes, and last the Mac's signature.
pub fn verify_poll_response<V: BootstrapDeliveryVerifier>(
    response: &BootstrapPollResponse,
    request: &BootstrapPollRequest,
    exact_request_bytes: &[u8],
    binding: &BootstrapDeliveryBinding,
    verifier: &V,
) -> (r: DeliveryResult<()>)
    ensures
        r == if binding_check(*binding) is Err {
            binding_check(*binding)
        } else {
            response_check(*response, *request, *binding, sha256_spec(exact_request_bytes@), *verifier)
        },
{
    validate_binding(binding)?;
    let exact_request_sha256 = sha256(exact_request_bytes);
    validate_response(response, request, binding, &exact_request_sha256, verifier)
}

/// Where an error of a poll can come from: the store's answer for the
/// receipt, the checks of the request against the receipt's binding and the
/// phone's signature, the store's answer for the message id, the decision on
/// what it holds, or the Mac's signer.
pub open spec fn poll_error_from<S: BootstrapDeliveryStore, C: BootstrapDeliveryVerifier>(
    store: S,
    crypto: C,
    request: BootstrapPollRequest,
    transport: BootstrapDeliveryTransport,
    exact_request_sha256: Seq<u8>,
    e: BootstrapDeliveryError,
) -> bool {
    ||| (e matches BootstrapDeliveryError::Store(reason) && store.delivery_loaded(
        request.receipt_id@,
        Err(reason),
    ))
    ||| (e == BootstrapDeliveryError::ReceiptNotFound && store.delivery_loaded(
        request.receipt_id@,
        Ok(None),
    ))
    ||| exists|snapshot: BootstrapDeliverySnapshot|
        #[trigger] store.delivery_loaded(request.receipt_id@, Ok(Some(snapshot))) && {
            ||| request_check(request, snapshot.binding, transport, crypto) == Err::<
                (),
                BootstrapDeliveryError,
            >(e)
            ||| request_check(request, snapshot.binding, transport, crypto) is Ok && {
                ||| (e matches BootstrapDeliveryError::Store(reason) && store.replay_loaded(
                    request.message_id@,
                    Err(reason),
                ))
                ||| exists|existing: Option<BootstrapDeliveryReplay>|
                    #[trigger] store.replay_loaded(request.message_id@, Ok(existing)) && (
                    poll_plan_error(request, snapshot, existing, exact_request_sha256) == Some(e)
                        || (existing is None && poll_plan_error(
                        request,
                        snapshot,
                        existing,
                        exact_request_sha256,
                    ) is None && e == BootstrapDeliveryError::CryptoUnavailable))
            }
        }
}

/// Where an error of a commit can come from: an oversized response, or the
/// store's answer to committing the pair built for it.
pub open spec fn commit_error_from<S: BootstrapDeliveryStore>(
    store: S,
    request: BootstrapPollRequest,
    binding: BootstrapDeliveryBinding,
    exact_request_sha256: Seq<u8>,
    exact_response_bytes: Seq<u8>,
    e: BootstrapDeliveryError,
) -> bool {
    ||| (exact_response_bytes.len() > MAX_BOOTSTRAP_POLL_RESPONSE_BYTES && e
        == BootstrapDeliveryError::PayloadTooLarge)
    ||| exists|x: BootstrapDeliveryReplay, c: Result<BootstrapReplayCommit, String>|
        is_replay_record(x, request, binding, exact_request_sha256, exact_response_bytes)
            && #[trigger] store.replay_committed(x, c) && {
            ||| (c matches Err(reason) && e == BootstrapDeliveryError::Store(reason))
            ||| (c == Ok::<BootstrapReplayCommit, String>(BootstrapReplayCommit::Conflict) && e
                == BootstrapDeliveryError::ReplayConflict)
            ||| (c matches Ok(BootstrapReplayCommit::Existing(y)) && !replay_matches(
                y,
                request,
                binding,
                exact_request_sha256,
            ) && e == BootstrapDeliveryError::ReplayConflict)
        }
}

impl<S: BootstrapDeliveryStore, C: BootstrapDeliveryVerifier + MacBootstrapDeliverySigner> BootstrapDeliveryCoordinator<S, C> {
    pub closed spec fn parts(self) -> (S, C) {
        (self.store, self.crypto)
    }

    pub fn new(store: S, crypto: C) -> (r: Self)
        ensures
            r.parts() == (store, crypto),
    {
        BootstrapDeliveryCoordinator { store, crypto }
    }

    /// Authenticates a parsed poll against the binding its receipt loads
    /// with, and for a message id not seen before signs a fresh answer bound
    /// to the SHA-256 of the exact request bytes and carrying the receipt's
    /// resolution. A reused message id returns its committed pair only when
    /// it was committed for these exact request bytes. The loaded receipt is
    /// returned with the answer.
    pub fn answer_poll(
        &self,
        request: &BootstrapPollRequest,
        exact_request_bytes: &[u8],
        transport: &BootstrapDeliveryTransport,
    ) -> (r: DeliveryResult<(BootstrapDeliverySnapshot, PollAnswer)>)
        ensures
            r matches Ok((snapshot, answer)) ==> {
                &&& self.parts().0.delivery_loaded(request.receipt_id@, Ok(Some(snapshot)))
                &&& snapshot.binding.receipt_id@ == request.receipt_id@
                &&& request_check(*request, snapshot.binding, *transport, self.parts().1) is Ok
                &&& match answer {
                    PollAnswer::Replay(replay) => self.parts().0.replay_loaded(
                        request.message_id@,
                        Ok(Some(replay)),
                    ) && replay_matches(
                        replay,
                        *request,
                        snapshot.binding,
                        sha256_spec(exact_request_bytes@),
                    ),
                    PollAnswer::Fresh(resp) => self.parts().0.replay_loaded(
                        request.message_id@,
                        Ok(None),
                    ) && answers(resp, *request, snapshot.binding, sha256_spec(exact_request_bytes@))
                        && resolves_to(snapshot.resolution, resp.disposition) && disposition_ok(
                        resp.disposition,
                    ),
                }
            },
            r matches Err(e) ==> poll_error_from(
                self.parts().0,
                self.parts().1,
                *request,
                *transport,
                sha256_spec(exact_request_bytes@),
                e,
            ),
    {
        let snapshot = match self.store.load_delivery(&request.receipt_id) {
            Err(reason) => return Err(BootstrapDeliveryError::Store(reason)),
            Ok(None) => return Err(BootstrapDeliveryError::ReceiptNotFound),
            Ok(Some(snapshot)) => snapshot,
        };
        validate_request(request, &snapshot.binding, transport, &self.crypto)?;
        let exact_request_sha256 = sha256(exact_request_bytes);
        let existing = match self.store.load_replay(&request.message_id) {
            Err(reason) => return Err(BootstrapDeliveryError::Store(reason)),
            Ok(existing) => existing,
        };
        match decide_poll_answer(request, &snapshot, existing, &exact_request_sha256)? {
            PollPlan::Replay(replay) => Ok((snapshot, PollAnswer::Replay(replay))),
            PollPlan::Respond(disposition) => {
                let response = signed_response(
                    request,
                    &snapshot.binding,
                    exact_request_sha256,
                    disposition,
                    &self.crypto,
                )?;
                Ok((snapshot, PollAnswer::Fresh(response)))
            },
        }
    }

    /// Commits the exact bytes of a fresh answer as the pair for the
    /// request's message id. A concurrent winner under the same message id
    /// is returned instead when it was committed for these exact request
    /// bytes; any other winner is a conflict.
    pub fn commit_answer(
        &self,
        request: &BootstrapPollRequest,
        binding: &BootstrapDeliveryBinding,
        exact_request_bytes: &[u8],
        exact_response_bytes: Vec<u8>,
    ) -> (r: DeliveryResult<CommitAnswer>)
        ensures
            exact_response_bytes@.len() > MAX_BOOTSTRAP_POLL_RESPONSE_BYTES ==> r == Err::<
                CommitAnswer,
                BootstrapDeliveryError,
            >(BootstrapDeliveryError::PayloadTooLarge),
            r matches Ok(CommitAnswer::Committed(x)) ==> is_replay_record(
                x,
                *request,
                *binding,
                sha256_spec(exact_request_bytes@),
                exact_response_bytes@,
            ) && self.parts().0.replay_committed(
                x,
                Ok(BootstrapReplayCommit::Inserted),
            ),
            r matches Ok(CommitAnswer::Existing(y)) ==> replay_matches(
                y,
                *request,
                *binding,
                sha256_spec(exact_request_bytes@),
            ) && exists|x: BootstrapDeliveryReplay|
                is_replay_record(
                    x,
                    *request,
                    *binding,
                    sha256_spec(exact_request_bytes@),
                    exact_response_bytes@,
                ) && #[trigger] self.parts().0.replay_committed(
                    x,
                    Ok(BootstrapReplayCommit::Existing(y)),
                ),
            r matches Err(e) ==> commit_error_from(
                self.parts().0,
                *request,
                *binding,
                sha256_spec(exact_request_bytes@),
                exact_response_bytes@,
                e,
            ),
    {
        let exact_request_sha256 = sha256(exact_request_bytes);
        let replay = replay_record(request, binding, &exact_request_sha256, exact_response_bytes)?;
        match self.store.commit_replay(&replay) {
            Err(reason) => Err(BootstrapDeliveryError::Store(reason)),
            Ok(BootstrapReplayCommit::Inserted) => Ok(CommitAnswer::Committed(replay)),
            Ok(BootstrapReplayCommit::Existing(existing)) => {
                validate_replay(&existing, request, binding, &exact_request_sha256)?;
                assert(self.parts().0.replay_committed(
                    replay,
                    Ok(BootstrapReplayCommit::Existing(existing)),
                ));
                Ok(CommitAnswer::Existing(existing))
            },
            Ok(BootstrapReplayCommit::Conflict) => Err(BootstrapDeliveryError::ReplayConflict),
        }
    }

    /// Checks a committed response against the exact request bytes before
    /// those response bytes are returned.
    pub fn check_committed_response(
        &self,
        response: &BootstrapPollResponse,
        request: &BootstrapPollRequest,
        binding: &BootstrapDeliveryBinding,
        exact_request_bytes: &[u8],
    ) -> (r: DeliveryResult<()>)
        ensures
            r == response_check(
                *response,
                *request,
                *binding,
                sha256_spec(exact_request_bytes@),
                self.parts().1,
            ),
    {
        let exact_request_sha256 = sha256(exact_request_bytes);
        validate_response(response, request, binding, &exact_request_sha256, &self.crypto)
    }
}

} // verus!

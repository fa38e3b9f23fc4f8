//! The fixture-only durable state of the direct Mac authority: the inputs and
//! outcomes of every transition, the checks applied to each input, and the
//! decisions each transition takes from the rows it has read.
//!
//! A caller opens one immediate transaction, reads the rows a transition
//! needs, asks the matching decision function below what to do, and performs
//! exactly the writes that the decision names before committing.
use vstd::prelude::*;
use crate::canonical::push_str;
use vstd::string::StringSliceAdditionalSpecFns;
use vstd::utf8::encode_utf8;
use crate::text::{chars_of, is_white_space, is_whitespace, str_eq, bytes_eq};

verus! {

pub const DIRECT_AUTHORITY_SCHEMA_VERSION: u32 = 3;
pub const MAX_INVITATION_LIFETIME_MS: i64 = 300000;
pub const PAIRING_LEDGER_RATE_WINDOW_MS: i64 = 300000;
pub const MAX_FAILED_ATTEMPTS: i64 = 5;
pub const MAX_REPLAY_ROWS: i64 = 128;
pub const MAX_QUARANTINE_ROWS: i64 = 128;
/// Exact response rows are immutable audit evidence. Admission limits count
/// only this retry/rate window, so retained history never locks a device out.
pub const EXACT_RESPONSE_REPLAY_RETENTION_MS: i64 = 300000;
pub const MAX_JSON_BYTES: usize = 1048576;
pub const MAX_RESPONSE_BYTES: usize = 2097152;

#[derive(Debug, Clone, PartialEq, Eq)]
pub enum StoreError {
    Database(String),
    InvalidInput(&'static str),
    FixtureOnly,
    StateUnavailable(&'static str),
    InvitationNotFound,
    InvitationConsumed,
    InvitationExpired,
    ReceiptNotFound,
    UserConfirmationRequired,
    EnrollmentCancelled,
    EnrollmentAlreadyActive,
    DeviceNotFound,
    DeviceRevoked,
    PinMismatch,
    ReplayLimit,
    QuarantineLimit,
    CheckpointMismatch,
    AckMismatch,
}

pub type StoreResult<T> = Result<T, StoreError>;

#[derive(Debug, Clone)]
pub struct NewInvitation {
    pub invitation_id: String,
    pub library_id: String,
    pub authority_generation: u64,
    pub invitation_digest: [u8; 32],
    pub nonce_hash: [u8; 32],
    pub mac_pairing_signing_public_key: [u8; 65],
    pub mac_pairing_hpke_public_key: [u8; 32],
    pub tls_spki_sha256: [u8; 32],
    pub scope_ceiling_json: String,
    pub created_at_ms: i64,
    pub expires_at_ms: i64,
}

#[derive(Debug, Clone, Copy, PartialEq, Eq, Structural)]
pub enum InvitationRegistration {
    Registered,
    ExactReplay,
    Quarantined,
}

#[derive(Debug, Clone, Copy, PartialEq, Eq, Structural)]
pub enum AttemptOutcome {
    Recorded { failed_attempts: u8, attempts_remaining: u8 },
    Cancelled,
    Expired,
}

#[derive(Debug, Clone)]
pub struct ConsumeInvitation {
    pub message_id: String,
    pub invitation_id: String,
    pub request_digest: [u8; 32],
    pub observed_tls_spki_sha256: [u8; 32],
    pub receipt_id: String,
    pub device_id: String,
    pub display_name: String,
    pub app_version: String,
    pub build_version: String,
    pub receipt_json: String,
    pub granted_scopes_json: String,
    pub capabilities_json: String,
    pub client_signing_public_key: [u8; 65],
    pub client_hpke_public_key: [u8; 32],
    pub exact_begin_response_bytes: Vec<u8>,
    pub verification_code: String,
    /// Trusted Mac-authority time, never taken from the ClientHello itself.
    pub authority_now_ms: i64,
}

#[derive(Debug, Clone, PartialEq, Eq)]
pub enum ConsumeOutcome {
    Consumed(Vec<u8>),
    ExactReplay(Vec<u8>),
    Quarantined,
    Expired,
}

#[derive(Debug, Clone)]
pub struct ConfirmEnrollment {
    pub receipt_id: String,
    pub confirmation_digest: [u8; 32],
    pub displayed_verification_code: String,
    pub displayed_scopes_json: String,
    pub approved: bool,
    pub bootstrap_envelope_bytes: Vec<u8>,
    pub bootstrap_envelope_digest: [u8; 32],
    pub exact_bootstrap_response_bytes: Vec<u8>,
    /// Trusted Mac-authority time, not a value supplied by the phone.
    pub authority_now_ms: i64,
}

#[derive(Debug, Clone, PartialEq, Eq)]
pub enum ConfirmOutcome {
    Confirmed(Vec<u8>),
    ExactReplay(Vec<u8>),
    Quarantined,
    Cancelled,
    Expired,
}

#[derive(Debug, Clone)]
pub struct ActivateEnrollment {
    pub message_id: String,
    pub receipt_id: String,
    pub device_id: String,
    pub authority_generation: u64,
    pub request_digest: [u8; 32],
    pub observed_tls_spki_sha256: [u8; 32],
    pub exact_server_finish_bytes: Vec<u8>,
    /// Trusted Mac-authority time; ClientFinish cannot select replay windows.
    pub authority_now_ms: i64,
}

#[derive(Debug, Clone, PartialEq, Eq)]
pub enum ActivateOutcome {
    Activated(Vec<u8>),
    ExactReplay(Vec<u8>),
    Quarantined,
    Expired,
}

#[derive(Debug, Clone, Copy, PartialEq, Eq, Structural)]
pub enum RevokeOutcome {
    Revoked,
    AlreadyRevoked,
}

#[derive(Debug, Clone)]
pub struct FixtureAcceptedChange {
    pub request_id: String,
    pub request_digest: [u8; 32],
    pub exact_response_bytes: Vec<u8>,
    pub library_id: String,
    pub authority_generation: u64,
    pub transaction_id: String,
    pub device_id: String,
    pub device_transaction_counter: u64,
    pub transaction_digest: String,
    pub transaction_json: String,
    pub receipt_json: String,
    /// Trusted wall-clock time supplied by the Mac authority, never copied
    /// from the signed device transaction.
    pub authority_now_ms: i64,
    pub created_at_ms: i64,
    pub expires_at_ms: i64,
}

#[derive(Debug, Clone, PartialEq, Eq)]
pub enum FixtureChangeOutcome {
    Accepted { cursor: u64, exact_response_bytes: Vec<u8> },
    ExactReplay(Vec<u8>),
    Quarantined,
}

#[derive(Debug, Clone)]
pub struct IssueCheckpoint {
    pub library_id: String,
    pub authority_generation: u64,
    pub high_water_cursor: u64,
    pub purge_generation: u64,
    pub key_epoch: u64,
    pub checkpoint_digest: String,
    pub exact_response_bytes: Vec<u8>,
    pub created_at_ms: i64,
}

#[derive(Debug, Clone, PartialEq, Eq)]
pub enum CheckpointOutcome {
    Issued(Vec<u8>),
    ExactReplay(Vec<u8>),
}

#[derive(Debug, Clone)]
pub struct AcknowledgeCheckpoint {
    pub library_id: String,
    pub device_id: String,
    pub authority_generation: u64,
    pub high_water_cursor: u64,
    pub checkpoint_digest: String,
    pub exact_response_bytes: Vec<u8>,
    /// Trusted Mac-authority time, kept outside the signed acknowledgement.
    pub authority_now_ms: i64,
}

#[derive(Debug, Clone, PartialEq, Eq)]
pub enum AckOutcome {
    Recorded(Vec<u8>),
    ExactReplay(Vec<u8>),
}

/// The fixture authority's transition primitives. Every decision it takes is
/// a function of the rows read in the caller's transaction.
pub struct DirectAuthorityStore;

// ---------------------------------------------------------------------------
// Input checks
// ---------------------------------------------------------------------------

/// An ASCII hexadecimal digit of either case.
pub open spec fn is_ascii_hex(c: char) -> bool {
    ('0' <= c && c <= '9') || ('a' <= c && c <= 'f') || ('A' <= c && c <= 'F')
}

pub open spec fn is_uuid_dash(i: int) -> bool {
    i == 8 || i == 13 || i == 18 || i == 23
}

/// UUIDv7 text of either case: 8-4-4-4-12 hexadecimal groups, version nibble
/// 7 and variant nibble 8, 9, a or b.
pub open spec fn is_uuid_v7_text(s: Seq<char>) -> bool {
    &&& s.len() == 36
    &&& s[8] == '-' && s[13] == '-' && s[18] == '-' && s[23] == '-'
    &&& s[14] == '7'
    &&& (s[19] == '8' || s[19] == '9' || s[19] == 'a' || s[19] == 'b' || s[19] == 'A' || s[19]
        == 'B')
    &&& forall|i: int| 0 <= i < 36 && !is_uuid_dash(i) ==> is_ascii_hex(#[trigger] s[i])
}

/// A Unicode control character (general category Cc).
pub open spec fn is_control(c: char) -> bool {
    (c as u32) <= 0x1f || (0x7f <= (c as u32) && (c as u32) <= 0x9f)
}

/// Display text: not only white space, at most `maximum` UTF-8 bytes, and no
/// control character.
pub open spec fn text_ok(s: Seq<char>, byte_len: nat, maximum: nat) -> bool {
    &&& !(forall|i: int| 0 <= i < s.len() ==> is_white_space(#[trigger] s[i]))
    &&& byte_len <= maximum
    &&& forall|i: int| 0 <= i < s.len() ==> !is_control(#[trigger] s[i])
}

/// The byte length `str::len` reports for a text.
pub open spec fn utf8_len(s: Seq<char>) -> nat {
    (encode_utf8(s).len() as usize) as nat
}

/// A lowercase hexadecimal SHA-256 digest.
pub open spec fn is_sha256_hex(s: Seq<char>) -> bool {
    &&& s.len() == 64
    &&& forall|i: int| 0 <= i < 64 ==> is_lower_hex_digit(#[trigger] s[i])
}

pub open spec fn is_lower_hex_digit(c: char) -> bool {
    ('0' <= c && c <= '9') || ('a' <= c && c <= 'f')
}

/// Whether `raw` parses as one JSON document.
pub uninterp spec fn json_parses(raw: Seq<char>) -> bool;

/// Whether two JSON texts that both parse denote the same JSON value.
pub uninterp spec fn json_same_value(left: Seq<char>, right: Seq<char>) -> bool;

/// Parses `raw` with `serde_json::from_str::<serde_json::Value>` and reports
/// whether it succeeded; the claim is only that the answer depends on the
/// text alone.
#[verifier::external_body]
fn json_is_well_formed(raw: &str) -> (r: bool)
    ensures
        r == json_parses(raw@),
{
    serde_json::from_str::<serde_json::Value>(raw).is_ok()
}

/// Parses both texts with `serde_json::from_str::<serde_json::Value>` and
/// compares the values with `serde_json::Value`'s `==`; `None` when either
/// does not parse.
#[verifier::external_body]
fn json_texts_equal(left: &str, right: &str) -> (r: Option<bool>)
    ensures
        match r {
            Some(b) => json_parses(left@) && json_parses(right@) && b == json_same_value(
                left@,
                right@,
            ),
            None => !(json_parses(left@) && json_parses(right@)),
        },
{
    let left = serde_json::from_str::<serde_json::Value>(left);
    let right = serde_json::from_str::<serde_json::Value>(right);
    match (left, right) {
        (Ok(l), Ok(r)) => Some(l == r),
        _ => None,
    }
}

pub fn validate_authority_time(authority_now_ms: i64) -> (r: StoreResult<()>)
    ensures
        r is Ok <==> authority_now_ms >= 0,
        r matches Err(e) ==> e == StoreError::InvalidInput("authority time"),
{
    if authority_now_ms < 0 {
        Err(StoreError::InvalidInput("authority time"))
    } else {
        Ok(())
    }
}

fn is_ascii_hex_exec(c: char) -> (r: bool)
    ensures
        r == is_ascii_hex(c),
{
    ('0' <= c && c <= '9') || ('a' <= c && c <= 'f') || ('A' <= c && c <= 'F')
}

/// Accepts UUIDv7 text of either case and names `field` otherwise.
pub fn validate_uuid_v7(value: &str, field: &'static str) -> (r: StoreResult<()>)
    ensures
        r is Ok <==> is_uuid_v7_text(value@),
        r matches Err(e) ==> e == StoreError::InvalidInput(field),
{
    let c = chars_of(value);
    if c.len() != 36 {
        return Err(StoreError::InvalidInput(field));
    }
    if c[8] != '-' || c[13] != '-' || c[14] != '7' || c[18] != '-' || c[23] != '-' {
        return Err(StoreError::InvalidInput(field));
    }
    let v = c[19];
    if !(v == '8' || v == '9' || v == 'a' || v == 'b' || v == 'A' || v == 'B') {
        return Err(StoreError::InvalidInput(field));
    }
    let mut i: usize = 0;
    while i < 36
        invariant
            c@ == value@,
            c@.len() == 36,
            i <= 36,
            forall|k: int| 0 <= k < i && !is_uuid_dash(k) ==> is_ascii_hex(#[trigger] c@[k]),
        decreases 36 - i,
    {
        if !(i == 8 || i == 13 || i == 18 || i == 23) && !is_ascii_hex_exec(c[i]) {
            return Err(StoreError::InvalidInput(field));
        }
        i = i + 1;
    }
    Ok(())
}

fn is_control_exec(c: char) -> (r: bool)
    ensures
        r == is_control(c),
{
    let v = c as u32;
    v <= 0x1f || (0x7f <= v && v <= 0x9f)
}

/// Accepts display text that is not blank, fits in `maximum` UTF-8 bytes and
/// holds no control character.
pub fn validate_text(value: &str, maximum: usize, field: &'static str) -> (r: StoreResult<()>)
    ensures
        r is Ok <==> text_ok(value@, utf8_len(value@), maximum as nat),
        r matches Err(e) ==> e == StoreError::InvalidInput(field),
{
    let c = chars_of(value);
    let mut blank = true;
    let mut control = false;
    let mut i: usize = 0;
    while i < c.len()
        invariant
            c@ == value@,
            i <= c@.len(),
            blank <==> forall|k: int| 0 <= k < i ==> is_white_space(#[trigger] c@[k]),
            control <==> exists|k: int| 0 <= k < i && is_control(#[trigger] c@[k]),
        decreases c@.len() - i,
    {
        if !is_whitespace(c[i]) {
            blank = false;
        }
        if is_control_exec(c[i]) {
            control = true;
        }
        i = i + 1;
    }
    if blank || value.len() > maximum || control {
        Err(StoreError::InvalidInput(field))
    } else {
        Ok(())
    }
}

/// Accepts a non-empty byte string of at most `maximum` bytes.
pub fn validate_nonempty_bytes(value: &[u8], maximum: usize, field: &'static str) -> (r: StoreResult<
    (),
>)
    ensures
        r is Ok <==> 0 < value@.len() <= maximum,
        r matches Err(e) ==> e == StoreError::InvalidInput(field),
{
    if value.len() == 0 || value.len() > maximum {
        Err(StoreError::InvalidInput(field))
    } else {
        Ok(())
    }
}

/// Accepts exactly 64 lowercase hexadecimal digits.
pub fn validate_sha256_hex(value: &str, field: &'static str) -> (r: StoreResult<()>)
    ensures
        r is Ok <==> is_sha256_hex(value@),
        r matches Err(e) ==> e == StoreError::InvalidInput(field),
{
    let c = chars_of(value);
    if c.len() != 64 {
        return Err(StoreError::InvalidInput(field));
    }
    let mut i: usize = 0;
    while i < 64
        invariant
            c@ == value@,
            c@.len() == 64,
            i <= 64,
            forall|k: int| 0 <= k < i ==> is_lower_hex_digit(#[trigger] c@[k]),
        decreases 64 - i,
    {
        let d = c[i];
        if !(('0' <= d && d <= '9') || ('a' <= d && d <= 'f')) {
            return Err(StoreError::InvalidInput(field));
        }
        i = i + 1;
    }
    Ok(())
}

/// A non-empty JSON document of at most `MAX_JSON_BYTES` UTF-8 bytes.
pub open spec fn json_text_ok(s: Seq<char>) -> bool {
    &&& 0 < (encode_utf8(s).len() as usize) <= MAX_JSON_BYTES
    &&& json_parses(s)
}

/// Accepts a non-empty JSON document of at most `MAX_JSON_BYTES` bytes.
pub fn validate_json(raw: &str, field: &'static str) -> (r: StoreResult<()>)
    ensures
        r is Ok <==> json_text_ok(raw@),
        r matches Err(e) ==> e == StoreError::InvalidInput(field),
{
    if raw.len() == 0 || raw.len() > MAX_JSON_BYTES {
        return Err(StoreError::InvalidInput(field));
    }
    if json_is_well_formed(raw) {
        Ok(())
    } else {
        Err(StoreError::InvalidInput(field))
    }
}

/// Whether two JSON texts denote the same value; an unparsable text is an
/// invalid input.
pub fn json_equal(left: &str, right: &str) -> (r: StoreResult<bool>)
    ensures
        r is Ok <==> json_parses(left@) && json_parses(right@),
        r matches Ok(b) ==> b == json_same_value(left@, right@),
        r matches Err(e) ==> e == StoreError::InvalidInput("json"),
{
    match json_texts_equal(left, right) {
        Some(b) => Ok(b),
        None => Err(StoreError::InvalidInput("json")),
    }
}

pub fn i64_from_u64(value: u64, field: &'static str) -> (r: StoreResult<i64>)
    ensures
        r is Ok <==> value <= i64::MAX,
        r matches Ok(v) ==> v == value,
        r matches Err(e) ==> e == StoreError::InvalidInput(field),
{
    if value <= 9223372036854775807u64 {
        Ok(value as i64)
    } else {
        Err(StoreError::InvalidInput(field))
    }
}

pub fn u64_from_db(value: i64, field: &'static str) -> (r: StoreResult<u64>)
    ensures
        r is Ok <==> value >= 0,
        r matches Ok(v) ==> v == value,
        r matches Err(e) ==> e == StoreError::StateUnavailable(field),
{
    if value >= 0 {
        Ok(value as u64)
    } else {
        Err(StoreError::StateUnavailable(field))
    }
}

pub open spec fn invitation_ok(invitation: NewInvitation, now_ms: i64) -> bool {
    &&& now_ms >= 0
    &&& is_uuid_v7_text(invitation.invitation_id@)
    &&& is_uuid_v7_text(invitation.library_id@)
    &&& json_text_ok(invitation.scope_ceiling_json@)
    &&& invitation.authority_generation != 0
    &&& invitation.created_at_ms <= now_ms
    &&& invitation.expires_at_ms > now_ms
    &&& invitation.expires_at_ms > invitation.created_at_ms
    &&& invitation.expires_at_ms - invitation.created_at_ms <= MAX_INVITATION_LIFETIME_MS
}

/// The check a request fails first, as an input error naming its field.
pub open spec fn failure_result(failure: Option<&'static str>) -> StoreResult<()> {
    match failure {
        Some(field) => Err(StoreError::InvalidInput(field)),
        None => Ok(()),
    }
}

/// The field a new invitation fails first at authority time `now_ms`.
pub open spec fn new_invitation_failure(invitation: NewInvitation, now_ms: i64) -> Option<
    &'static str,
> {
    if now_ms < 0 {
        Some("authority time")
    } else if !is_uuid_v7_text(invitation.invitation_id@) {
        Some("invitation_id")
    } else if !is_uuid_v7_text(invitation.library_id@) {
        Some("library_id")
    } else if !json_text_ok(invitation.scope_ceiling_json@) {
        Some("scope_ceiling_json")
    } else if !invitation_ok(invitation, now_ms) {
        Some("invitation lifetime")
    } else {
        None
    }
}

/// Checks a new invitation at authority time `now_ms`: canonical ids, a JSON
/// scope ceiling, a non-zero generation and a lifetime that has started, has
/// not ended and lasts at most five minutes.
pub fn validate_invitation(invitation: &NewInvitation, now_ms: i64) -> (r: StoreResult<()>)
    ensures
        r is Ok <==> invitation_ok(*invitation, now_ms),
        r == failure_result(new_invitation_failure(*invitation, now_ms)),
{
    validate_authority_time(now_ms)?;
    validate_uuid_v7(&invitation.invitation_id, "invitation_id")?;
    validate_uuid_v7(&invitation.library_id, "library_id")?;
    validate_json(&invitation.scope_ceiling_json, "scope_ceiling_json")?;
    if invitation.authority_generation == 0 || invitation.created_at_ms > now_ms
        || invitation.expires_at_ms <= now_ms || invitation.expires_at_ms
        <= invitation.created_at_ms || invitation.created_at_ms < invitation.expires_at_ms
        - MAX_INVITATION_LIFETIME_MS {
        return Err(StoreError::InvalidInput("invitation lifetime"));
    }
    Ok(())
}

pub open spec fn consume_ok(request: ConsumeInvitation) -> bool {
    &&& request.authority_now_ms >= 0
    &&& is_uuid_v7_text(request.message_id@)
    &&& is_uuid_v7_text(request.invitation_id@)
    &&& is_uuid_v7_text(request.receipt_id@)
    &&& is_uuid_v7_text(request.device_id@)
    &&& text_ok(request.display_name@, utf8_len(request.display_name@), 128)
    &&& text_ok(request.app_version@, utf8_len(request.app_version@), 64)
    &&& text_ok(request.build_version@, utf8_len(request.build_version@), 64)
    &&& text_ok(request.verification_code@, utf8_len(request.verification_code@), 16)
    &&& json_text_ok(request.receipt_json@)
    &&& json_text_ok(request.granted_scopes_json@)
    &&& json_text_ok(request.capabilities_json@)
    &&& 0 < request.exact_begin_response_bytes@.len() <= MAX_RESPONSE_BYTES
}

/// The field that fails first, if any.
pub open spec fn consume_failure(request: ConsumeInvitation) -> Option<&'static str> {
    if request.authority_now_ms < 0 {
        Some("authority time")
    } else if !is_uuid_v7_text(request.message_id@) {
        Some("message_id")
    } else if !is_uuid_v7_text(request.invitation_id@) {
        Some("invitation_id")
    } else if !is_uuid_v7_text(request.receipt_id@) {
        Some("receipt_id")
    } else if !is_uuid_v7_text(request.device_id@) {
        Some("device_id")
    } else if !text_ok(request.display_name@, utf8_len(request.display_name@), 128) {
        Some("display_name")
    } else if !text_ok(request.app_version@, utf8_len(request.app_version@), 64) {
        Some("app_version")
    } else if !text_ok(request.build_version@, utf8_len(request.build_version@), 64) {
        Some("build_version")
    } else if !text_ok(request.verification_code@, utf8_len(request.verification_code@), 16) {
        Some("verification_code")
    } else if !json_text_ok(request.receipt_json@) {
        Some("receipt_json")
    } else if !json_text_ok(request.granted_scopes_json@) {
        Some("granted_scopes_json")
    } else if !json_text_ok(request.capabilities_json@) {
        Some("capabilities_json")
    } else if !(0 < request.exact_begin_response_bytes@.len() <= MAX_RESPONSE_BYTES) {
        Some("exact_begin_response_bytes")
    } else {
        None
    }
}

/// Checks every field of a ClientHello consumption before any row is read.
pub fn validate_consume(request: &ConsumeInvitation) -> (r: StoreResult<()>)
    ensures
        r is Ok <==> consume_ok(*request),
        r == failure_result(consume_failure(*request)),
{
    validate_authority_time(request.authority_now_ms)?;
    validate_uuid_v7(&request.message_id, "message_id")?;
    validate_uuid_v7(&request.invitation_id, "invitation_id")?;
    validate_uuid_v7(&request.receipt_id, "receipt_id")?;
    validate_uuid_v7(&request.device_id, "device_id")?;
    validate_text(&request.display_name, 128, "display_name")?;
    validate_text(&request.app_version, 64, "app_version")?;
    validate_text(&request.build_version, 64, "build_version")?;
    validate_text(&request.verification_code, 16, "verification_code")?;
    validate_json(&request.receipt_json, "receipt_json")?;
    validate_json(&request.granted_scopes_json, "granted_scopes_json")?;
    validate_json(&request.capabilities_json, "capabilities_json")?;
    validate_nonempty_bytes(
        &request.exact_begin_response_bytes,
        MAX_RESPONSE_BYTES,
        "exact_begin_response_bytes",
    )?;
    Ok(())
}

pub open spec fn activation_ok(activation: ActivateEnrollment) -> bool {
    &&& activation.authority_now_ms >= 0
    &&& is_uuid_v7_text(activation.message_id@)
    &&& is_uuid_v7_text(activation.receipt_id@)
    &&& is_uuid_v7_text(activation.device_id@)
    &&& activation.authority_generation != 0
    &&& 0 < activation.exact_server_finish_bytes@.len() <= MAX_RESPONSE_BYTES
}

/// The field that fails first, if any.
pub open spec fn activation_failure(activation: ActivateEnrollment) -> Option<&'static str> {
    if activation.authority_now_ms < 0 {
        Some("authority time")
    } else if !is_uuid_v7_text(activation.message_id@) {
        Some("message_id")
    } else if !is_uuid_v7_text(activation.receipt_id@) {
        Some("receipt_id")
    } else if !is_uuid_v7_text(activation.device_id@) {
        Some("device_id")
    } else if activation.authority_generation == 0 {
        Some("authority_generation")
    } else if !(0 < activation.exact_server_finish_bytes@.len() <= MAX_RESPONSE_BYTES) {
        Some("exact_server_finish_bytes")
    } else {
        None
    }
}

/// Checks every field of a ClientFinish activation before any row is read.
pub fn validate_activation(activation: &ActivateEnrollment) -> (r: StoreResult<()>)
    ensures
        r is Ok <==> activation_ok(*activation),
        r == failure_result(activation_failure(*activation)),
{
    validate_authority_time(activation.authority_now_ms)?;
    validate_uuid_v7(&activation.message_id, "message_id")?;
    validate_uuid_v7(&activation.receipt_id, "receipt_id")?;
    validate_uuid_v7(&activation.device_id, "device_id")?;
    if activation.authority_generation == 0 {
        return Err(StoreError::InvalidInput("authority_generation"));
    }
    validate_nonempty_bytes(
        &activation.exact_server_finish_bytes,
        MAX_RESPONSE_BYTES,
        "exact_server_finish_bytes",
    )?;
    Ok(())
}

pub open spec fn checkpoint_ok(checkpoint: IssueCheckpoint) -> bool {
    &&& checkpoint.created_at_ms >= 0
    &&& is_uuid_v7_text(checkpoint.library_id@)
    &&& is_sha256_hex(checkpoint.checkpoint_digest@)
    &&& checkpoint.authority_generation != 0
    &&& checkpoint.key_epoch != 0
    &&& 0 < checkpoint.exact_response_bytes@.len() <= MAX_RESPONSE_BYTES
}

/// The field that fails first, if any.
pub open spec fn checkpoint_failure(checkpoint: IssueCheckpoint) -> Option<&'static str> {
    if checkpoint.created_at_ms < 0 {
        Some("authority time")
    } else if !is_uuid_v7_text(checkpoint.library_id@) {
        Some("library_id")
    } else if !is_sha256_hex(checkpoint.checkpoint_digest@) {
        Some("checkpoint_digest")
    } else if checkpoint.authority_generation == 0 {
        Some("authority_generation")
    } else if checkpoint.key_epoch == 0 {
        Some("key_epoch")
    } else if !(0 < checkpoint.exact_response_bytes@.len() <= MAX_RESPONSE_BYTES) {
        Some("exact_response_bytes")
    } else {
        None
    }
}

/// Checks a checkpoint to be issued.
pub fn validate_checkpoint(checkpoint: &IssueCheckpoint) -> (r: StoreResult<()>)
    ensures
        r is Ok <==> checkpoint_ok(*checkpoint),
        r == failure_result(checkpoint_failure(*checkpoint)),
{
    validate_authority_time(checkpoint.created_at_ms)?;
    validate_uuid_v7(&checkpoint.library_id, "library_id")?;
    validate_sha256_hex(&checkpoint.checkpoint_digest, "checkpoint_digest")?;
    if checkpoint.authority_generation == 0 {
        return Err(StoreError::InvalidInput("authority_generation"));
    }
    if checkpoint.key_epoch == 0 {
        return Err(StoreError::InvalidInput("key_epoch"));
    }
    validate_nonempty_bytes(
        &checkpoint.exact_response_bytes,
        MAX_RESPONSE_BYTES,
        "exact_response_bytes",
    )?;
    Ok(())
}

pub open spec fn ack_ok(ack: AcknowledgeCheckpoint) -> bool {
    &&& ack.authority_now_ms >= 0
    &&& is_uuid_v7_text(ack.library_id@)
    &&& is_uuid_v7_text(ack.device_id@)
    &&& is_sha256_hex(ack.checkpoint_digest@)
    &&& ack.authority_generation != 0
    &&& 0 < ack.exact_response_bytes@.len() <= MAX_RESPONSE_BYTES
}

/// The field that fails first, if any.
pub open spec fn ack_failure(ack: AcknowledgeCheckpoint) -> Option<&'static str> {
    if ack.authority_now_ms < 0 {
        Some("authority time")
    } else if !is_uuid_v7_text(ack.library_id@) {
        Some("library_id")
    } else if !is_uuid_v7_text(ack.device_id@) {
        Some("device_id")
    } else if !is_sha256_hex(ack.checkpoint_digest@) {
        Some("checkpoint_digest")
    } else if ack.authority_generation == 0 {
        Some("authority_generation")
    } else if !(0 < ack.exact_response_bytes@.len() <= MAX_RESPONSE_BYTES) {
        Some("exact_response_bytes")
    } else {
        None
    }
}

/// Checks a device's checkpoint acknowledgement.
pub fn validate_ack(acknowledgement: &AcknowledgeCheckpoint) -> (r: StoreResult<()>)
    ensures
        r is Ok <==> ack_ok(*acknowledgement),
        r == failure_result(ack_failure(*acknowledgement)),
{
    validate_authority_time(acknowledgement.authority_now_ms)?;
    validate_uuid_v7(&acknowledgement.library_id, "library_id")?;
    validate_uuid_v7(&acknowledgement.device_id, "device_id")?;
    validate_sha256_hex(&acknowledgement.checkpoint_digest, "checkpoint_digest")?;
    if acknowledgement.authority_generation == 0 {
        return Err(StoreError::InvalidInput("authority_generation"));
    }
    validate_nonempty_bytes(
        &acknowledgement.exact_response_bytes,
        MAX_RESPONSE_BYTES,
        "exact_response_bytes",
    )?;
    Ok(())
}

pub open spec fn change_ok(change: FixtureAcceptedChange) -> bool {
    &&& is_uuid_v7_text(change.request_id@)
    &&& is_uuid_v7_text(change.library_id@)
    &&& is_uuid_v7_text(change.transaction_id@)
    &&& is_uuid_v7_text(change.device_id@)
    &&& is_sha256_hex(change.transaction_digest@)
    &&& json_text_ok(change.transaction_json@)
    &&& json_text_ok(change.receipt_json@)
    &&& 0 < change.exact_response_bytes@.len() <= MAX_RESPONSE_BYTES
    &&& change.authority_now_ms >= 0
    &&& change.created_at_ms >= 0
    &&& change.expires_at_ms > change.created_at_ms
    &&& change.authority_generation != 0
}

/// The field that fails first, if any.
pub open spec fn change_failure(change: FixtureAcceptedChange) -> Option<&'static str> {
    if !is_uuid_v7_text(change.request_id@) {
        Some("request_id")
    } else if !is_uuid_v7_text(change.library_id@) {
        Some("library_id")
    } else if !is_uuid_v7_text(change.transaction_id@) {
        Some("transaction_id")
    } else if !is_uuid_v7_text(change.device_id@) {
        Some("device_id")
    } else if !is_sha256_hex(change.transaction_digest@) {
        Some("transaction_digest")
    } else if !json_text_ok(change.transaction_json@) {
        Some("transaction_json")
    } else if !json_text_ok(change.receipt_json@) {
        Some("receipt_json")
    } else if !(0 < change.exact_response_bytes@.len() <= MAX_RESPONSE_BYTES) {
        Some("exact_response_bytes")
    } else if change.authority_now_ms < 0 || change.created_at_ms < 0 || change.expires_at_ms <= change.created_at_ms {
        Some("transaction lifetime")
    } else if change.authority_generation == 0 {
        Some("authority_generation")
    } else {
        None
    }
}

/// Checks an accepted fixture change before any row is read.
pub fn validate_change(change: &FixtureAcceptedChange) -> (r: StoreResult<()>)
    ensures
        r is Ok <==> change_ok(*change),
        r == failure_result(change_failure(*change)),
{
    validate_uuid_v7(&change.request_id, "request_id")?;
    validate_uuid_v7(&change.library_id, "library_id")?;
    validate_uuid_v7(&change.transaction_id, "transaction_id")?;
    validate_uuid_v7(&change.device_id, "device_id")?;
    validate_sha256_hex(&change.transaction_digest, "transaction_digest")?;
    validate_json(&change.transaction_json, "transaction_json")?;
    validate_json(&change.receipt_json, "receipt_json")?;
    validate_nonempty_bytes(&change.exact_response_bytes, MAX_RESPONSE_BYTES, "exact_response_bytes")?;
    if change.authority_now_ms < 0 || change.created_at_ms < 0 || change.expires_at_ms
        <= change.created_at_ms {
        return Err(StoreError::InvalidInput("transaction lifetime"));
    }
    if change.authority_generation == 0 {
        return Err(StoreError::InvalidInput("authority_generation"));
    }
    Ok(())
}

// ---------------------------------------------------------------------------
// Row states and the transitions the schema allows
// ---------------------------------------------------------------------------

#[derive(Debug, Clone, Copy, PartialEq, Eq, Structural)]
pub enum InvitationState {
    Pending,
    Consumed,
    Active,
    Cancelled,
    Expired,
    Revoked,
}

#[derive(Debug, Clone, Copy, PartialEq, Eq, Structural)]
pub enum ReceiptState {
    PendingUserConfirmation,
    PendingFinish,
    Active,
    Cancelled,
    Expired,
    Revoked,
}

pub open spec fn invitation_state_name(s: InvitationState) -> Seq<char> {
    match s {
        InvitationState::Pending => "pending"@,
        InvitationState::Consumed => "consumed"@,
        InvitationState::Active => "active"@,
        InvitationState::Cancelled => "cancelled"@,
        InvitationState::Expired => "expired"@,
        InvitationState::Revoked => "revoked"@,
    }
}

pub open spec fn receipt_state_name(s: ReceiptState) -> Seq<char> {
    match s {
        ReceiptState::PendingUserConfirmation => "pending_user_confirmation"@,
        ReceiptState::PendingFinish => "pending_finish"@,
        ReceiptState::Active => "active"@,
        ReceiptState::Cancelled => "cancelled"@,
        ReceiptState::Expired => "expired"@,
        ReceiptState::Revoked => "revoked"@,
    }
}

/// The invitation state changes that the schema's state guard lets through.
pub open spec fn invitation_transition_allowed(from: InvitationState, to: InvitationState) -> bool {
    ||| from == to
    ||| from == InvitationState::Pending && (to == InvitationState::Consumed || to
        == InvitationState::Cancelled || to == InvitationState::Expired)
    ||| from == InvitationState::Consumed && (to == InvitationState::Active || to
        == InvitationState::Cancelled || to == InvitationState::Expired || to
        == InvitationState::Revoked)
    ||| from == InvitationState::Active && to == InvitationState::Revoked
}

/// The receipt state changes that the schema's state guard lets through.
pub open spec fn receipt_transition_allowed(from: ReceiptState, to: ReceiptState) -> bool {
    ||| from == to
    ||| from == ReceiptState::PendingUserConfirmation && (to == ReceiptState::PendingFinish || to
        == ReceiptState::Cancelled || to == ReceiptState::Expired)
    ||| from == ReceiptState::PendingFinish && (to == ReceiptState::Active || to
        == ReceiptState::Cancelled || to == ReceiptState::Expired || to == ReceiptState::Revoked)
    ||| from == ReceiptState::Active && to == ReceiptState::Revoked
}

impl InvitationState {
    pub fn as_str(self) -> (r: &'static str)
        ensures
            r@ == invitation_state_name(self),
    {
        match self {
            InvitationState::Pending => "pending",
            InvitationState::Consumed => "consumed",
            InvitationState::Active => "active",
            InvitationState::Cancelled => "cancelled",
            InvitationState::Expired => "expired",
            InvitationState::Revoked => "revoked",
        }
    }

    /// Reads a stored invitation state; an unknown label is corrupt state.
    pub fn parse(value: &str) -> (r: StoreResult<Self>)
        ensures
            match r {
                Ok(s) => invitation_state_name(s) == value@,
                Err(e) => e == StoreError::StateUnavailable("unknown invitation state") && forall|
                    s: InvitationState,
                | invitation_state_name(s) != value@,
            },
    {
        if str_eq(value, "pending") {
            Ok(InvitationState::Pending)
        } else if str_eq(value, "consumed") {
            Ok(InvitationState::Consumed)
        } else if str_eq(value, "active") {
            Ok(InvitationState::Active)
        } else if str_eq(value, "cancelled") {
            Ok(InvitationState::Cancelled)
        } else if str_eq(value, "expired") {
            Ok(InvitationState::Expired)
        } else if str_eq(value, "revoked") {
            Ok(InvitationState::Revoked)
        } else {
            assert forall|s: InvitationState| invitation_state_name(s) != value@ by {
                match s {
                    InvitationState::Pending => {},
                    InvitationState::Consumed => {},
                    InvitationState::Active => {},
                    InvitationState::Cancelled => {},
                    InvitationState::Expired => {},
                    InvitationState::Revoked => {},
                }
            }
            Err(StoreError::StateUnavailable("unknown invitation state"))
        }
    }

    /// Whether the schema lets a row in this state move to `next`.
    pub fn can_become(self, next: InvitationState) -> (r: bool)
        ensures
            r == invitation_transition_allowed(self, next),
    {
        match (self, next) {
            (InvitationState::Pending, InvitationState::Pending) => true,
            (InvitationState::Consumed, InvitationState::Consumed) => true,
            (InvitationState::Active, InvitationState::Active) => true,
            (InvitationState::Cancelled, InvitationState::Cancelled) => true,
            (InvitationState::Expired, InvitationState::Expired) => true,
            (InvitationState::Revoked, InvitationState::Revoked) => true,
            (InvitationState::Pending, InvitationState::Consumed) => true,
            (InvitationState::Pending, InvitationState::Cancelled) => true,
            (InvitationState::Pending, InvitationState::Expired) => true,
            (InvitationState::Consumed, InvitationState::Active) => true,
            (InvitationState::Consumed, InvitationState::Cancelled) => true,
            (InvitationState::Consumed, InvitationState::Expired) => true,
            (InvitationState::Consumed, InvitationState::Revoked) => true,
            (InvitationState::Active, InvitationState::Revoked) => true,
            _ => false,
        }
    }
}

impl ReceiptState {
    pub fn as_str(self) -> (r: &'static str)
        ensures
            r@ == receipt_state_name(self),
    {
        match self {
            ReceiptState::PendingUserConfirmation => "pending_user_confirmation",
            ReceiptState::PendingFinish => "pending_finish",
            ReceiptState::Active => "active",
            ReceiptState::Cancelled => "cancelled",
            ReceiptState::Expired => "expired",
            ReceiptState::Revoked => "revoked",
        }
    }

    /// Reads a stored receipt state; an unknown label is corrupt state.
    pub fn parse(value: &str) -> (r: StoreResult<Self>)
        ensures
            match r {
                Ok(s) => receipt_state_name(s) == value@,
                Err(e) => e == StoreError::StateUnavailable("unknown receipt state") && forall|
                    s: ReceiptState,
                | receipt_state_name(s) != value@,
            },
    {
        if str_eq(value, "pending_user_confirmation") {
            Ok(ReceiptState::PendingUserConfirmation)
        } else if str_eq(value, "pending_finish") {
            Ok(ReceiptState::PendingFinish)
        } else if str_eq(value, "active") {
            Ok(ReceiptState::Active)
        } else if str_eq(value, "cancelled") {
            Ok(ReceiptState::Cancelled)
        } else if str_eq(value, "expired") {
            Ok(ReceiptState::Expired)
        } else if str_eq(value, "revoked") {
            Ok(ReceiptState::Revoked)
        } else {
            assert forall|s: ReceiptState| receipt_state_name(s) != value@ by {
                match s {
                    ReceiptState::PendingUserConfirmation => {},
                    ReceiptState::PendingFinish => {},
                    ReceiptState::Active => {},
                    ReceiptState::Cancelled => {},
                    ReceiptState::Expired => {},
                    ReceiptState::Revoked => {},
                }
            }
            Err(StoreError::StateUnavailable("unknown receipt state"))
        }
    }

    /// Whether the schema lets a row in this state move to `next`.
    pub fn can_become(self, next: ReceiptState) -> (r: bool)
        ensures
            r == receipt_transition_allowed(self, next),
    {
        match (self, next) {
            (ReceiptState::PendingUserConfirmation, ReceiptState::PendingUserConfirmation) => true,
            (ReceiptState::PendingFinish, ReceiptState::PendingFinish) => true,
            (ReceiptState::Active, ReceiptState::Active) => true,
            (ReceiptState::Cancelled, ReceiptState::Cancelled) => true,
            (ReceiptState::Expired, ReceiptState::Expired) => true,
            (ReceiptState::Revoked, ReceiptState::Revoked) => true,
            (ReceiptState::PendingUserConfirmation, ReceiptState::PendingFinish) => true,
            (ReceiptState::PendingUserConfirmation, ReceiptState::Cancelled) => true,
            (ReceiptState::PendingUserConfirmation, ReceiptState::Expired) => true,
            (ReceiptState::PendingFinish, ReceiptState::Active) => true,
            (ReceiptState::PendingFinish, ReceiptState::Cancelled) => true,
            (ReceiptState::PendingFinish, ReceiptState::Expired) => true,
            (ReceiptState::PendingFinish, ReceiptState::Revoked) => true,
            (ReceiptState::Active, ReceiptState::Revoked) => true,
            _ => false,
        }
    }
}

// ---------------------------------------------------------------------------
// Rows read inside a transition's transaction
// ---------------------------------------------------------------------------

/// An authority profile joined with its portable library.
#[derive(Debug, Clone)]
pub struct FixtureProfileRow {
    pub environment: String,
    pub library_data_class: String,
    pub readiness_state: String,
    pub authority_generation: i64,
}

/// A committed pairing request and its exact response.
#[derive(Debug, Clone)]
pub struct ReplayRow {
    pub subject_id: String,
    pub digest: Vec<u8>,
    pub pin: Vec<u8>,
    pub response: Vec<u8>,
}

#[derive(Debug, Clone)]
pub struct InvitationRow {
    pub library_id: String,
    pub authority_generation: i64,
    pub pin: Vec<u8>,
    pub expires_at_ms: i64,
    pub failed_attempts: i64,
    pub state: String,
}

#[derive(Debug, Clone)]
pub struct ReceiptRow {
    pub invitation_id: String,
    pub library_id: String,
    pub device_id: String,
    pub display_name: String,
    pub authority_generation: i64,
    pub granted_scopes_json: String,
    pub capabilities_json: String,
    pub signing_key: Vec<u8>,
    pub hpke_key: Vec<u8>,
    pub verification_code: Option<String>,
    pub confirmation_digest: Option<Vec<u8>>,
    pub bootstrap_response: Option<Vec<u8>>,
    pub failed_finish_attempts: i64,
    pub expires_at_ms: i64,
    pub state: String,
}

/// A portable registry device.
#[derive(Debug, Clone)]
pub struct DeviceRow {
    pub library_id: String,
    pub role: String,
    pub enrollment_state: String,
}

pub open spec fn fixture_profile_check(row: Option<FixtureProfileRow>, generation: u64) -> StoreResult<
    (),
> {
    match row {
        None => Err(StoreError::StateUnavailable("fixture authority is not initialized")),
        Some(p) => if p.environment@ != "development"@ || p.library_data_class@
            != "sanitized_fixture"@ {
            Err(StoreError::FixtureOnly)
        } else if p.readiness_state@ != "fixture_ready"@ {
            Err(StoreError::StateUnavailable("fixture authority is not ready"))
        } else if p.authority_generation < 0 {
            Err(StoreError::StateUnavailable("authority_generation"))
        } else if p.authority_generation != generation {
            Err(StoreError::StateUnavailable("authority generation changed"))
        } else {
            Ok(())
        },
    }
}

/// Requires a ready, development, sanitized-fixture profile whose library is
/// still at `authority_generation`.
pub fn require_fixture_profile(row: &Option<FixtureProfileRow>, authority_generation: u64) -> (r:
    StoreResult<()>)
    ensures
        r == fixture_profile_check(*row, authority_generation),
{
    match row {
        None => Err(StoreError::StateUnavailable("fixture authority is not initialized")),
        Some(p) => {
            if !str_eq(&p.environment, "development") || !str_eq(
                &p.library_data_class,
                "sanitized_fixture",
            ) {
                return Err(StoreError::FixtureOnly);
            }
            if !str_eq(&p.readiness_state, "fixture_ready") {
                return Err(StoreError::StateUnavailable("fixture authority is not ready"));
            }
            let generation = u64_from_db(p.authority_generation, "authority_generation")?;
            if generation != authority_generation {
                return Err(StoreError::StateUnavailable("authority generation changed"));
            }
            Ok(())
        },
    }
}

/// The start of the abuse window that ends at `now_ms`.
pub fn rate_window_start(now_ms: i64) -> (r: i64)
    ensures
        r == if now_ms - PAIRING_LEDGER_RATE_WINDOW_MS < i64::MIN {
            i64::MIN as int
        } else {
            now_ms - PAIRING_LEDGER_RATE_WINDOW_MS
        },
{
    if now_ms < i64::MIN + PAIRING_LEDGER_RATE_WINDOW_MS {
        i64::MIN
    } else {
        now_ms - PAIRING_LEDGER_RATE_WINDOW_MS
    }
}

/// Admits one more pairing replay row when fewer than `MAX_REPLAY_ROWS` were
/// written in the current window.
pub fn replay_capacity(recent_rows: i64) -> (r: StoreResult<()>)
    ensures
        r is Ok <==> recent_rows < MAX_REPLAY_ROWS,
        r matches Err(e) ==> e == StoreError::ReplayLimit,
{
    if recent_rows >= MAX_REPLAY_ROWS {
        Err(StoreError::ReplayLimit)
    } else {
        Ok(())
    }
}

/// Admits one more quarantine row when fewer than `MAX_QUARANTINE_ROWS` were
/// written in the current window.
pub fn quarantine_capacity(recent_rows: i64) -> (r: StoreResult<()>)
    ensures
        r is Ok <==> recent_rows < MAX_QUARANTINE_ROWS,
        r matches Err(e) ==> e == StoreError::QuarantineLimit,
{
    if recent_rows >= MAX_QUARANTINE_ROWS {
        Err(StoreError::QuarantineLimit)
    } else {
        Ok(())
    }
}

#[derive(Debug, Clone, Copy, PartialEq, Eq, Structural)]
pub enum ReplayMatch {
    /// The same message id carried byte-identical request bytes.
    Exact,
    /// The message id was reused for different bytes: quarantine it.
    Conflict,
}

/// Compares a committed request with a new one under the same message id.
/// The transport pin must match before anything else is said.
pub fn classify_replay(replay: &ReplayRow, observed_pin: &[u8; 32], request_digest: &[u8; 32]) -> (r:
    StoreResult<ReplayMatch>)
    ensures
        replay.pin@ != observed_pin@ ==> r == Err::<ReplayMatch, StoreError>(StoreError::PinMismatch),
        replay.pin@ == observed_pin@ ==> r == Ok::<ReplayMatch, StoreError>(
            if replay.digest@ == request_digest@ {
                ReplayMatch::Exact
            } else {
                ReplayMatch::Conflict
            },
        ),
{
    if !bytes_eq(&replay.pin, observed_pin) {
        return Err(StoreError::PinMismatch);
    }
    if bytes_eq(&replay.digest, request_digest) {
        Ok(ReplayMatch::Exact)
    } else {
        Ok(ReplayMatch::Conflict)
    }
}

pub open spec fn is_pending_receipt(state: Seq<char>) -> bool {
    state == "pending_user_confirmation"@ || state == "pending_finish"@
}

/// Whether a receipt/invitation pair still authorises replaying ClientHello.
pub open spec fn hello_state_check(receipt: Seq<char>, invitation: Seq<char>) -> StoreResult<()> {
    if (is_pending_receipt(receipt) && invitation == "consumed"@) || (receipt == "active"@
        && invitation == "active"@) {
        Ok(())
    } else if receipt == "revoked"@ || invitation == "revoked"@ {
        Err(StoreError::DeviceRevoked)
    } else if receipt == "cancelled"@ || invitation == "cancelled"@ {
        Err(StoreError::EnrollmentCancelled)
    } else if receipt == "expired"@ || invitation == "expired"@ {
        Err(StoreError::InvitationExpired)
    } else {
        Err(StoreError::StateUnavailable("ClientHello replay state is inconsistent"))
    }
}

pub open spec fn hello_replay_check(
    receipt: Option<ReceiptRow>,
    profile: Option<FixtureProfileRow>,
    invitation: Option<InvitationRow>,
    now_ms: i64,
) -> StoreResult<()> {
    match receipt {
        None => Err(StoreError::ReceiptNotFound),
        Some(rc) => if rc.authority_generation < 0 {
            Err(StoreError::StateUnavailable("authority_generation"))
        } else if fixture_profile_check(profile, rc.authority_generation as u64) is Err {
            fixture_profile_check(profile, rc.authority_generation as u64)
        } else {
            match invitation {
                None => Err(StoreError::StateUnavailable("receipt invitation is missing")),
                Some(inv) => if inv.authority_generation < 0 {
                    Err(StoreError::StateUnavailable("authority_generation"))
                } else if now_ms >= rc.expires_at_ms && is_pending_receipt(rc.state@) {
                    Err(StoreError::InvitationExpired)
                } else {
                    hello_state_check(rc.state@, inv.state@)
                },
            }
        },
    }
}

fn is_pending_receipt_exec(state: &str) -> (r: bool)
    ensures
        r == is_pending_receipt(state@),
{
    str_eq(state, "pending_user_confirmation") || str_eq(state, "pending_finish")
}

/// Whether the receipt a committed ClientHello created still authorises
/// replaying its exact response at `now_ms`.
pub fn hello_replay_authorization(
    receipt: &Option<ReceiptRow>,
    profile: &Option<FixtureProfileRow>,
    invitation: &Option<InvitationRow>,
    now_ms: i64,
) -> (r: StoreResult<()>)
    ensures
        r == hello_replay_check(*receipt, *profile, *invitation, now_ms),
{
    let rc = match receipt {
        None => return Err(StoreError::ReceiptNotFound),
        Some(rc) => rc,
    };
    let generation = u64_from_db(rc.authority_generation, "authority_generation")?;
    require_fixture_profile(profile, generation)?;
    let inv = match invitation {
        None => return Err(StoreError::StateUnavailable("receipt invitation is missing")),
        Some(inv) => inv,
    };
    u64_from_db(inv.authority_generation, "authority_generation")?;
    if now_ms >= rc.expires_at_ms && is_pending_receipt_exec(&rc.state) {
        return Err(StoreError::InvitationExpired);
    }
    let r = &rc.state;
    let i = &inv.state;
    if (is_pending_receipt_exec(r) && str_eq(i, "consumed")) || (str_eq(r, "active") && str_eq(
        i,
        "active",
    )) {
        Ok(())
    } else if str_eq(r, "revoked") || str_eq(i, "revoked") {
        Err(StoreError::DeviceRevoked)
    } else if str_eq(r, "cancelled") || str_eq(i, "cancelled") {
        Err(StoreError::EnrollmentCancelled)
    } else if str_eq(r, "expired") || str_eq(i, "expired") {
        Err(StoreError::InvitationExpired)
    } else {
        Err(StoreError::StateUnavailable("ClientHello replay state is inconsistent"))
    }
}

#[derive(Debug, Clone, PartialEq, Eq)]
pub enum HelloReplayDecision {
    /// Answer with the committed response, byte for byte.
    ExactReplay(Vec<u8>),
    /// The enrollment timed out: expire the receipt and its invitation.
    ExpireReceipt,
    /// The message id was reused for other bytes: quarantine it.
    Quarantine,
}

pub open spec fn hello_replay_decision(
    replay: ReplayRow,
    request: ConsumeInvitation,
    auth: StoreResult<()>,
) -> StoreResult<HelloReplayDecision> {
    if replay.pin@ != request.observed_tls_spki_sha256@ {
        Err(StoreError::PinMismatch)
    } else if replay.digest@ != request.request_digest@ {
        Ok(HelloReplayDecision::Quarantine)
    } else {
        match auth {
            Ok(()) => Ok(HelloReplayDecision::ExactReplay(replay.response)),
            Err(StoreError::InvitationExpired) => Ok(HelloReplayDecision::ExpireReceipt),
            Err(e) => Err(e),
        }
    }
}

/// Decides what a ClientHello whose message id was already committed gets:
/// the committed response when the bytes match and the enrollment still
/// stands, an expiry when it timed out, a quarantine when the bytes differ.
pub fn decide_hello_replay(
    replay: ReplayRow,
    request: &ConsumeInvitation,
    receipt: &Option<ReceiptRow>,
    profile: &Option<FixtureProfileRow>,
    invitation: &Option<InvitationRow>,
) -> (r: StoreResult<HelloReplayDecision>)
    ensures
        r == hello_replay_decision(
            replay,
            *request,
            hello_replay_check(*receipt, *profile, *invitation, request.authority_now_ms),
        ),
{
    match classify_replay(&replay, &request.observed_tls_spki_sha256, &request.request_digest)? {
        ReplayMatch::Conflict => Ok(HelloReplayDecision::Quarantine),
        ReplayMatch::Exact => {
            match hello_replay_authorization(receipt, profile, invitation, request.authority_now_ms) {
                Ok(()) => Ok(HelloReplayDecision::ExactReplay(replay.response)),
                Err(StoreError::InvitationExpired) => Ok(HelloReplayDecision::ExpireReceipt),
                Err(e) => Err(e),
            }
        },
    }
}

// ---------------------------------------------------------------------------
// Failed attempts
// ---------------------------------------------------------------------------

/// The write an attempt decision asks for, guarded in SQL by the pending state
/// the decision was taken in.
#[derive(Debug, Clone, Copy, PartialEq, Eq, Structural)]
pub enum AttemptWrite {
    /// Mark the row expired (a receipt also clears its verification code,
    /// confirmation digest and bootstrap bytes, and expires its invitation).
    Expire,
    /// Store the new failure count.
    Count { failed_attempts: i64 },
    /// Store the capped failure count and cancel (a receipt also clears its
    /// secrets and cancels its invitation).
    Cancel { failed_attempts: i64 },
}

pub open spec fn attempt_step(failed: i64, expired: bool, overflow: &'static str) -> StoreResult<
    (AttemptOutcome, Option<AttemptWrite>),
> {
    if expired {
        Ok((AttemptOutcome::Expired, Some(AttemptWrite::Expire)))
    } else if failed == i64::MAX {
        Err(StoreError::StateUnavailable(overflow))
    } else if failed + 1 >= MAX_FAILED_ATTEMPTS {
        Ok(
            (
                AttemptOutcome::Cancelled,
                Some(
                    AttemptWrite::Cancel {
                        failed_attempts: if failed + 1 <= MAX_FAILED_ATTEMPTS {
                            (failed + 1) as i64
                        } else {
                            MAX_FAILED_ATTEMPTS
                        },
                    },
                ),
            ),
        )
    } else {
        Ok(
            (
                AttemptOutcome::Recorded {
                    failed_attempts: (failed + 1) as u8,
                    attempts_remaining: (MAX_FAILED_ATTEMPTS - (failed + 1)) as u8,
                },
                Some(AttemptWrite::Count { failed_attempts: (failed + 1) as i64 }),
            ),
        )
    }
}

fn count_failure(failed: i64, expired: bool, overflow: &'static str) -> (r: StoreResult<
    (AttemptOutcome, Option<AttemptWrite>),
>)
    ensures
        r == attempt_step(failed, expired, overflow),
{
    if expired {
        return Ok((AttemptOutcome::Expired, Some(AttemptWrite::Expire)));
    }
    if failed == i64::MAX {
        return Err(StoreError::StateUnavailable(overflow));
    }
    let next = failed + 1;
    if next >= MAX_FAILED_ATTEMPTS {
        let capped = if next <= MAX_FAILED_ATTEMPTS {
            next
        } else {
            MAX_FAILED_ATTEMPTS
        };
        Ok((AttemptOutcome::Cancelled, Some(AttemptWrite::Cancel { failed_attempts: capped })))
    } else {
        Ok(
            (
                AttemptOutcome::Recorded {
                    failed_attempts: next as u8,
                    attempts_remaining: (MAX_FAILED_ATTEMPTS as i128 - next as i128) as u8,
                },
                Some(AttemptWrite::Count { failed_attempts: next }),
            ),
        )
    }
}

pub open spec fn invitation_failure(
    row: Option<InvitationRow>,
    profile: Option<FixtureProfileRow>,
    now_ms: i64,
) -> StoreResult<(AttemptOutcome, Option<AttemptWrite>)> {
    match row {
        None => Err(StoreError::InvitationNotFound),
        Some(inv) => if inv.authority_generation < 0 {
            Err(StoreError::StateUnavailable("authority_generation"))
        } else if fixture_profile_check(profile, inv.authority_generation as u64) is Err {
            Err(fixture_profile_check(profile, inv.authority_generation as u64)->Err_0)
        } else if inv.state@ == "cancelled"@ {
            Ok((AttemptOutcome::Cancelled, None))
        } else if inv.state@ == "expired"@ {
            Ok((AttemptOutcome::Expired, None))
        } else if inv.state@ == "revoked"@ {
            Err(StoreError::DeviceRevoked)
        } else if inv.state@ == "consumed"@ || inv.state@ == "active"@ {
            Err(StoreError::InvitationConsumed)
        } else if inv.state@ != "pending"@ {
            Err(StoreError::StateUnavailable("unknown invitation state"))
        } else {
            attempt_step(
                inv.failed_attempts,
                now_ms >= inv.expires_at_ms,
                "invitation attempt overflow",
            )
        },
    }
}

/// Decides what one failed ClientHello does to its invitation: expired and
/// cancelled invitations are reported as they are; a pending one past its
/// expiry expires; otherwise the failure is counted and the fifth cancels.
pub fn decide_invitation_failure(
    invitation_id: &str,
    row: &Option<InvitationRow>,
    profile: &Option<FixtureProfileRow>,
    now_ms: i64,
) -> (r: StoreResult<(AttemptOutcome, Option<AttemptWrite>)>)
    ensures
        !(now_ms >= 0) ==> r == Err::<(AttemptOutcome, Option<AttemptWrite>), StoreError>(
            StoreError::InvalidInput("authority time"),
        ),
        now_ms >= 0 && !is_uuid_v7_text(invitation_id@) ==> r == Err::<
            (AttemptOutcome, Option<AttemptWrite>),
            StoreError,
        >(StoreError::InvalidInput("invitation_id")),
        now_ms >= 0 && is_uuid_v7_text(invitation_id@) ==> r == invitation_failure(
            *row,
            *profile,
            now_ms,
        ),
        // A write only ever moves a pending invitation along an allowed edge.
        r matches Ok((_, Some(w))) ==> row matches Some(inv) && inv.state@ == "pending"@
            && invitation_transition_allowed(InvitationState::Pending, invitation_target(w)),
{
    validate_authority_time(now_ms)?;
    validate_uuid_v7(invitation_id, "invitation_id")?;
    let inv = match row {
        None => return Err(StoreError::InvitationNotFound),
        Some(inv) => inv,
    };
    let generation = u64_from_db(inv.authority_generation, "authority_generation")?;
    require_fixture_profile(profile, generation)?;
    if str_eq(&inv.state, "cancelled") {
        return Ok((AttemptOutcome::Cancelled, None));
    }
    if str_eq(&inv.state, "expired") {
        return Ok((AttemptOutcome::Expired, None));
    }
    if str_eq(&inv.state, "revoked") {
        return Err(StoreError::DeviceRevoked);
    }
    if str_eq(&inv.state, "consumed") || str_eq(&inv.state, "active") {
        return Err(StoreError::InvitationConsumed);
    }
    if !str_eq(&inv.state, "pending") {
        return Err(StoreError::StateUnavailable("unknown invitation state"));
    }
    count_failure(inv.failed_attempts, now_ms >= inv.expires_at_ms, "invitation attempt overflow")
}

/// The invitation state an attempt write leaves behind.
pub open spec fn invitation_target(w: AttemptWrite) -> InvitationState {
    match w {
        AttemptWrite::Expire => InvitationState::Expired,
        AttemptWrite::Count { .. } => InvitationState::Pending,
        AttemptWrite::Cancel { .. } => InvitationState::Cancelled,
    }
}

/// The receipt state an attempt write leaves behind.
pub open spec fn receipt_target(w: AttemptWrite) -> ReceiptState {
    match w {
        AttemptWrite::Expire => ReceiptState::Expired,
        AttemptWrite::Count { .. } => ReceiptState::PendingFinish,
        AttemptWrite::Cancel { .. } => ReceiptState::Cancelled,
    }
}

pub open spec fn finish_failure(
    row: Option<ReceiptRow>,
    profile: Option<FixtureProfileRow>,
    now_ms: i64,
) -> StoreResult<(AttemptOutcome, Option<AttemptWrite>)> {
    match row {
        None => Err(StoreError::ReceiptNotFound),
        Some(rc) => if rc.authority_generation < 0 {
            Err(StoreError::StateUnavailable("authority_generation"))
        } else if fixture_profile_check(profile, rc.authority_generation as u64) is Err {
            Err(fixture_profile_check(profile, rc.authority_generation as u64)->Err_0)
        } else if rc.state@ == "cancelled"@ {
            Ok((AttemptOutcome::Cancelled, None))
        } else if rc.state@ == "expired"@ {
            Ok((AttemptOutcome::Expired, None))
        } else if rc.state@ == "revoked"@ {
            Err(StoreError::DeviceRevoked)
        } else if rc.state@ == "active"@ {
            Err(StoreError::EnrollmentAlreadyActive)
        } else if rc.state@ == "pending_user_confirmation"@ {
            Err(StoreError::UserConfirmationRequired)
        } else if rc.state@ != "pending_finish"@ {
            Err(StoreError::StateUnavailable("unknown receipt state"))
        } else {
            attempt_step(
                rc.failed_finish_attempts,
                now_ms >= rc.expires_at_ms,
                "finish attempt overflow",
            )
        },
    }
}

/// Decides what one failed ClientFinish does to its receipt: only a receipt
/// waiting for ClientFinish counts failures; past its expiry it expires, and
/// the fifth failure cancels it and destroys the pending bootstrap.
pub fn decide_finish_failure(
    receipt_id: &str,
    row: &Option<ReceiptRow>,
    profile: &Option<FixtureProfileRow>,
    now_ms: i64,
) -> (r: StoreResult<(AttemptOutcome, Option<AttemptWrite>)>)
    ensures
        !(now_ms >= 0) ==> r == Err::<(AttemptOutcome, Option<AttemptWrite>), StoreError>(
            StoreError::InvalidInput("authority time"),
        ),
        now_ms >= 0 && !is_uuid_v7_text(receipt_id@) ==> r == Err::<
            (AttemptOutcome, Option<AttemptWrite>),
            StoreError,
        >(StoreError::InvalidInput("receipt_id")),
        now_ms >= 0 && is_uuid_v7_text(receipt_id@) ==> r == finish_failure(*row, *profile, now_ms),
        r matches Ok((_, Some(w))) ==> row matches Some(rc) && rc.state@ == "pending_finish"@
            && receipt_transition_allowed(ReceiptState::PendingFinish, receipt_target(w)) && (!(w is Count)
            ==> invitation_transition_allowed(InvitationState::Consumed, invitation_target(w))),
{
    validate_authority_time(now_ms)?;
    validate_uuid_v7(receipt_id, "receipt_id")?;
    let rc = match row {
        None => return Err(StoreError::ReceiptNotFound),
        Some(rc) => rc,
    };
    let generation = u64_from_db(rc.authority_generation, "authority_generation")?;
    require_fixture_profile(profile, generation)?;
    if str_eq(&rc.state, "cancelled") {
        return Ok((AttemptOutcome::Cancelled, None));
    }
    if str_eq(&rc.state, "expired") {
        return Ok((AttemptOutcome::Expired, None));
    }
    if str_eq(&rc.state, "revoked") {
        return Err(StoreError::DeviceRevoked);
    }
    if str_eq(&rc.state, "active") {
        return Err(StoreError::EnrollmentAlreadyActive);
    }
    if str_eq(&rc.state, "pending_user_confirmation") {
        return Err(StoreError::UserConfirmationRequired);
    }
    if !str_eq(&rc.state, "pending_finish") {
        return Err(StoreError::StateUnavailable("unknown receipt state"));
    }
    count_failure(rc.failed_finish_attempts, now_ms >= rc.expires_at_ms, "finish attempt overflow")
}

/// A failure count that starts within the schema's bounds stays within them,
/// never decreases, and a recorded failure leaves exactly the remaining
/// attempts that add up to the limit.
pub proof fn lemma_attempts_stay_bounded(failed: i64, expired: bool, overflow: &'static str)
    requires
        0 <= failed < MAX_FAILED_ATTEMPTS,
    ensures
        attempt_step(failed, expired, overflow) is Ok,
        match attempt_step(failed, expired, overflow) {
            Ok((AttemptOutcome::Recorded { failed_attempts, attempts_remaining }, Some(w))) => {
                &&& failed_attempts as int + attempts_remaining as int == MAX_FAILED_ATTEMPTS
                &&& failed_attempts as int == failed + 1
                &&& w == AttemptWrite::Count { failed_attempts: (failed + 1) as i64 }
            },
            Ok((AttemptOutcome::Cancelled, Some(w))) => w == AttemptWrite::Cancel {
                failed_attempts: MAX_FAILED_ATTEMPTS,
            },
            Ok((AttemptOutcome::Expired, Some(w))) => w == AttemptWrite::Expire,
            _ => false,
        },
{
}

// ---------------------------------------------------------------------------
// ClientHello consumption
// ---------------------------------------------------------------------------

#[derive(Debug, Clone, Copy, PartialEq, Eq, Structural)]
pub enum ConsumeStep {
    /// The invitation timed out while pending: mark it expired.
    ExpireInvitation,
    /// Create the receipt, mark the invitation consumed and commit the replay.
    Consume,
}

pub open spec fn consume_step(
    invitation: Option<InvitationRow>,
    profile: Option<FixtureProfileRow>,
    request: ConsumeInvitation,
) -> StoreResult<ConsumeStep> {
    match invitation {
        None => Err(StoreError::InvitationNotFound),
        Some(inv) => if inv.authority_generation < 0 {
            Err(StoreError::StateUnavailable("authority_generation"))
        } else if inv.pin@ != request.observed_tls_spki_sha256@ {
            Err(StoreError::PinMismatch)
        } else if fixture_profile_check(profile, inv.authority_generation as u64) is Err {
            Err(fixture_profile_check(profile, inv.authority_generation as u64)->Err_0)
        } else if inv.state@ == "pending"@ && request.authority_now_ms >= inv.expires_at_ms {
            Ok(ConsumeStep::ExpireInvitation)
        } else if inv.state@ == "expired"@ {
            Err(StoreError::InvitationExpired)
        } else if inv.state@ != "pending"@ {
            Err(StoreError::InvitationConsumed)
        } else {
            Ok(ConsumeStep::Consume)
        },
    }
}

/// Decides a first ClientHello for an invitation: the pin must match, the
/// profile must be the ready fixture, and only a pending, unexpired
/// invitation is consumed.
pub fn decide_consume(
    invitation: &Option<InvitationRow>,
    profile: &Option<FixtureProfileRow>,
    request: &ConsumeInvitation,
) -> (r: StoreResult<ConsumeStep>)
    ensures
        r == consume_step(*invitation, *profile, *request),
        r matches Ok(ConsumeStep::Consume) ==> invitation matches Some(inv) && inv.state@
            == "pending"@ && invitation_transition_allowed(
            InvitationState::Pending,
            InvitationState::Consumed,
        ),
{
    let inv = match invitation {
        None => return Err(StoreError::InvitationNotFound),
        Some(inv) => inv,
    };
    let generation = u64_from_db(inv.authority_generation, "authority_generation")?;
    if !bytes_eq(&inv.pin, &request.observed_tls_spki_sha256) {
        return Err(StoreError::PinMismatch);
    }
    require_fixture_profile(profile, generation)?;
    let pending = str_eq(&inv.state, "pending");
    if pending && request.authority_now_ms >= inv.expires_at_ms {
        return Ok(ConsumeStep::ExpireInvitation);
    }
    if str_eq(&inv.state, "expired") {
        return Err(StoreError::InvitationExpired);
    }
    if !pending {
        return Err(StoreError::InvitationConsumed);
    }
    Ok(ConsumeStep::Consume)
}

// ---------------------------------------------------------------------------
// Owner confirmation
// ---------------------------------------------------------------------------

#[derive(Debug, Clone, PartialEq, Eq)]
pub enum ConfirmDecision {
    /// The enrollment timed out: expire the receipt and its invitation.
    Expire,
    /// The confirmation was already committed: answer with its bootstrap.
    ExactReplay(Vec<u8>),
    /// A different confirmation for an already confirmed receipt: quarantine
    /// it against the accepted confirmation digest.
    Quarantine(Vec<u8>),
    /// The owner declined or the displayed values differ: cancel the receipt
    /// (clearing its secrets) and its invitation.
    Cancel,
    /// Store the bootstrap and move the receipt to awaiting ClientFinish.
    Confirm,
}

pub open spec fn option_text_is(value: Option<String>, expected: Seq<char>) -> bool {
    match value {
        Some(v) => v@ == expected,
        None => false,
    }
}

pub open spec fn option_bytes_is(value: Option<Vec<u8>>, expected: Seq<u8>) -> bool {
    match value {
        Some(v) => v@ == expected,
        None => false,
    }
}

pub open spec fn confirm_decision(
    confirmation: ConfirmEnrollment,
    receipt: Option<ReceiptRow>,
    profile: Option<FixtureProfileRow>,
) -> StoreResult<ConfirmDecision> {
    if confirmation.authority_now_ms < 0 {
        Err(StoreError::InvalidInput("authority time"))
    } else if !is_uuid_v7_text(confirmation.receipt_id@) {
        Err(StoreError::InvalidInput("receipt_id"))
    } else if !json_text_ok(confirmation.displayed_scopes_json@) {
        Err(StoreError::InvalidInput("displayed_scopes_json"))
    } else {
        match receipt {
            None => Err(StoreError::ReceiptNotFound),
            Some(rc) => if rc.authority_generation < 0 {
                Err(StoreError::StateUnavailable("authority_generation"))
            } else if fixture_profile_check(profile, rc.authority_generation as u64) is Err {
                Err(fixture_profile_check(profile, rc.authority_generation as u64)->Err_0)
            } else if confirmation.authority_now_ms >= rc.expires_at_ms && is_pending_receipt(
                rc.state@,
            ) {
                Ok(ConfirmDecision::Expire)
            } else if rc.state@ == "pending_finish"@ {
                if !json_parses(rc.granted_scopes_json@) {
                    Err(StoreError::InvalidInput("json"))
                } else if !confirmation.approved || !option_bytes_is(
                    rc.confirmation_digest,
                    confirmation.confirmation_digest@,
                ) || !option_text_is(
                    rc.verification_code,
                    confirmation.displayed_verification_code@,
                ) || !json_same_value(rc.granted_scopes_json@, confirmation.displayed_scopes_json@) {
                    match rc.confirmation_digest {
                        Some(d) => Ok(ConfirmDecision::Quarantine(d)),
                        None => Err(
                            StoreError::StateUnavailable(
                                "pending finish receipt is missing confirmation digest",
                            ),
                        ),
                    }
                } else {
                    match rc.bootstrap_response {
                        Some(b) => Ok(ConfirmDecision::ExactReplay(b)),
                        None => Err(
                            StoreError::StateUnavailable(
                                "pending finish receipt is missing bootstrap response",
                            ),
                        ),
                    }
                }
            } else if rc.state@ == "active"@ {
                Err(StoreError::EnrollmentAlreadyActive)
            } else if rc.state@ == "cancelled"@ || rc.state@ == "revoked"@ {
                Err(StoreError::EnrollmentCancelled)
            } else if rc.state@ == "expired"@ {
                Err(StoreError::InvitationExpired)
            } else if rc.state@ != "pending_user_confirmation"@ {
                Err(StoreError::StateUnavailable("unknown receipt state"))
            } else if !json_parses(rc.granted_scopes_json@) {
                Err(StoreError::InvalidInput("json"))
            } else if !confirmation.approved || !option_text_is(
                rc.verification_code,
                confirmation.displayed_verification_code@,
            ) || !json_same_value(rc.granted_scopes_json@, confirmation.displayed_scopes_json@) {
                Ok(ConfirmDecision::Cancel)
            } else if !(0 < confirmation.bootstrap_envelope_bytes@.len() <= MAX_RESPONSE_BYTES) {
                Err(StoreError::InvalidInput("bootstrap_envelope_bytes"))
            } else if !(0 < confirmation.exact_bootstrap_response_bytes@.len()
                <= MAX_RESPONSE_BYTES) {
                Err(StoreError::InvalidInput("exact_bootstrap_response_bytes"))
            } else {
                Ok(ConfirmDecision::Confirm)
            },
        }
    }
}

fn option_text_matches(value: &Option<String>, expected: &str) -> (r: bool)
    ensures
        r == option_text_is(*value, expected@),
{
    match value {
        Some(v) => str_eq(v, expected),
        None => false,
    }
}

fn option_bytes_matches(value: &Option<Vec<u8>>, expected: &[u8]) -> (r: bool)
    ensures
        r == option_bytes_is(*value, expected@),
{
    match value {
        Some(v) => bytes_eq(v, expected),
        None => false,
    }
}

/// Decides the owner's answer for a receipt: a timed-out receipt expires, a
/// repeated identical confirmation gets the committed bootstrap back, any
/// other confirmation of a confirmed receipt is quarantined, and a first
/// confirmation either cancels (declined, or displayed code or scopes differ)
/// or confirms.
pub fn decide_confirmation(
    confirmation: &ConfirmEnrollment,
    receipt: Option<ReceiptRow>,
    profile: &Option<FixtureProfileRow>,
) -> (r: StoreResult<ConfirmDecision>)
    ensures
        r == confirm_decision(*confirmation, receipt, *profile),
        r matches Ok(ConfirmDecision::Confirm) ==> receipt matches Some(rc) && rc.state@
            == "pending_user_confirmation"@ && confirmation.approved && receipt_transition_allowed(
            ReceiptState::PendingUserConfirmation,
            ReceiptState::PendingFinish,
        ),
        r matches Ok(ConfirmDecision::Cancel) ==> receipt matches Some(rc) && rc.state@
            == "pending_user_confirmation"@ && receipt_transition_allowed(
            ReceiptState::PendingUserConfirmation,
            ReceiptState::Cancelled,
        ) && invitation_transition_allowed(InvitationState::Consumed, InvitationState::Cancelled),
{
    validate_authority_time(confirmation.authority_now_ms)?;
    validate_uuid_v7(&confirmation.receipt_id, "receipt_id")?;
    validate_json(&confirmation.displayed_scopes_json, "displayed_scopes_json")?;
    let rc = match receipt {
        None => return Err(StoreError::ReceiptNotFound),
        Some(rc) => rc,
    };
    let generation = u64_from_db(rc.authority_generation, "authority_generation")?;
    require_fixture_profile(profile, generation)?;
    if confirmation.authority_now_ms >= rc.expires_at_ms && is_pending_receipt_exec(&rc.state) {
        return Ok(ConfirmDecision::Expire);
    }
    if str_eq(&rc.state, "pending_finish") {
        let digest_matches = option_bytes_matches(
            &rc.confirmation_digest,
            &confirmation.confirmation_digest,
        );
        let code_matches = option_text_matches(
            &rc.verification_code,
            &confirmation.displayed_verification_code,
        );
        let scopes_match = json_equal(&rc.granted_scopes_json, &confirmation.displayed_scopes_json)?;
        if !confirmation.approved || !digest_matches || !code_matches || !scopes_match {
            return match rc.confirmation_digest {
                Some(d) => Ok(ConfirmDecision::Quarantine(d)),
                None => Err(
                    StoreError::StateUnavailable(
                        "pending finish receipt is missing confirmation digest",
                    ),
                ),
            };
        }
        return match rc.bootstrap_response {
            Some(b) => Ok(ConfirmDecision::ExactReplay(b)),
            None => Err(
                StoreError::StateUnavailable("pending finish receipt is missing bootstrap response"),
            ),
        };
    }
    if str_eq(&rc.state, "active") {
        return Err(StoreError::EnrollmentAlreadyActive);
    }
    if str_eq(&rc.state, "cancelled") || str_eq(&rc.state, "revoked") {
        return Err(StoreError::EnrollmentCancelled);
    }
    if str_eq(&rc.state, "expired") {
        return Err(StoreError::InvitationExpired);
    }
    if !str_eq(&rc.state, "pending_user_confirmation") {
        return Err(StoreError::StateUnavailable("unknown receipt state"));
    }
    let code_matches = option_text_matches(
        &rc.verification_code,
        &confirmation.displayed_verification_code,
    );
    let scopes_match = json_equal(&rc.granted_scopes_json, &confirmation.displayed_scopes_json)?;
    if !confirmation.approved || !code_matches || !scopes_match {
        return Ok(ConfirmDecision::Cancel);
    }
    validate_nonempty_bytes(
        &confirmation.bootstrap_envelope_bytes,
        MAX_RESPONSE_BYTES,
        "bootstrap_envelope_bytes",
    )?;
    validate_nonempty_bytes(
        &confirmation.exact_bootstrap_response_bytes,
        MAX_RESPONSE_BYTES,
        "exact_bootstrap_response_bytes",
    )?;
    Ok(ConfirmDecision::Confirm)
}

// ---------------------------------------------------------------------------
// ClientFinish activation
// ---------------------------------------------------------------------------

pub open spec fn device_check(device: Option<DeviceRow>, library_id: Seq<char>) -> StoreResult<()> {
    match device {
        None => Err(StoreError::DeviceNotFound),
        Some(d) => if d.library_id@ == library_id && d.role@ == "replica"@ && d.enrollment_state@
            == "active"@ {
            Ok(())
        } else if d.enrollment_state@ == "revoked"@ {
            Err(StoreError::DeviceRevoked)
        } else {
            Err(StoreError::StateUnavailable("ClientFinish replay device state is inconsistent"))
        },
    }
}

pub open spec fn finish_replay_check(
    receipt: Option<ReceiptRow>,
    device_id: Seq<char>,
    profile: Option<FixtureProfileRow>,
    invitation: Option<InvitationRow>,
    device: Option<DeviceRow>,
) -> StoreResult<()> {
    match receipt {
        None => Err(StoreError::ReceiptNotFound),
        Some(rc) => if rc.authority_generation < 0 {
            Err(StoreError::StateUnavailable("authority_generation"))
        } else if rc.device_id@ != device_id {
            Err(StoreError::StateUnavailable("ClientFinish replay device does not match"))
        } else if fixture_profile_check(profile, rc.authority_generation as u64) is Err {
            Err(fixture_profile_check(profile, rc.authority_generation as u64)->Err_0)
        } else {
            match invitation {
                None => Err(StoreError::StateUnavailable("receipt invitation is missing")),
                Some(inv) => if inv.authority_generation < 0 {
                    Err(StoreError::StateUnavailable("authority_generation"))
                } else if rc.state@ == "revoked"@ || inv.state@ == "revoked"@ {
                    Err(StoreError::DeviceRevoked)
                } else if rc.state@ == "cancelled"@ || inv.state@ == "cancelled"@ {
                    Err(StoreError::EnrollmentCancelled)
                } else if rc.state@ == "expired"@ || inv.state@ == "expired"@ {
                    Err(StoreError::InvitationExpired)
                } else if rc.state@ == "active"@ && inv.state@ == "active"@ {
                    device_check(device, rc.library_id@)
                } else {
                    Err(StoreError::StateUnavailable("ClientFinish replay state is inconsistent"))
                },
            }
        },
    }
}

/// Whether an activated enrollment still authorises replaying its
/// ServerFinish to `device_id`.
pub fn finish_replay_authorization(
    receipt: &Option<ReceiptRow>,
    device_id: &str,
    profile: &Option<FixtureProfileRow>,
    invitation: &Option<InvitationRow>,
    device: &Option<DeviceRow>,
) -> (r: StoreResult<()>)
    ensures
        r == finish_replay_check(*receipt, device_id@, *profile, *invitation, *device),
{
    let rc = match receipt {
        None => return Err(StoreError::ReceiptNotFound),
        Some(rc) => rc,
    };
    let generation = u64_from_db(rc.authority_generation, "authority_generation")?;
    if !str_eq(&rc.device_id, device_id) {
        return Err(StoreError::StateUnavailable("ClientFinish replay device does not match"));
    }
    require_fixture_profile(profile, generation)?;
    let inv = match invitation {
        None => return Err(StoreError::StateUnavailable("receipt invitation is missing")),
        Some(inv) => inv,
    };
    u64_from_db(inv.authority_generation, "authority_generation")?;
    let r = &rc.state;
    let i = &inv.state;
    if str_eq(r, "revoked") || str_eq(i, "revoked") {
        return Err(StoreError::DeviceRevoked);
    }
    if str_eq(r, "cancelled") || str_eq(i, "cancelled") {
        return Err(StoreError::EnrollmentCancelled);
    }
    if str_eq(r, "expired") || str_eq(i, "expired") {
        return Err(StoreError::InvitationExpired);
    }
    if !(str_eq(r, "active") && str_eq(i, "active")) {
        return Err(StoreError::StateUnavailable("ClientFinish replay state is inconsistent"));
    }
    match device {
        None => Err(StoreError::DeviceNotFound),
        Some(d) => {
            if str_eq(&d.library_id, &rc.library_id) && str_eq(&d.role, "replica") && str_eq(
                &d.enrollment_state,
                "active",
            ) {
                Ok(())
            } else if str_eq(&d.enrollment_state, "revoked") {
                Err(StoreError::DeviceRevoked)
            } else {
                Err(
                    StoreError::StateUnavailable(
                        "ClientFinish replay device state is inconsistent",
                    ),
                )
            }
        },
    }
}

#[derive(Debug, Clone, PartialEq, Eq)]
pub enum FinishReplayDecision {
    /// Answer with the committed ServerFinish, byte for byte.
    ExactReplay(Vec<u8>),
    /// The message id was reused for other bytes: quarantine it.
    Quarantine,
}

pub open spec fn finish_replay_decision(
    replay: ReplayRow,
    activation: ActivateEnrollment,
    auth: StoreResult<()>,
) -> StoreResult<FinishReplayDecision> {
    if replay.pin@ != activation.observed_tls_spki_sha256@ {
        Err(StoreError::PinMismatch)
    } else if replay.digest@ != activation.request_digest@ {
        Ok(FinishReplayDecision::Quarantine)
    } else if replay.subject_id@ != activation.receipt_id@ {
        Err(StoreError::StateUnavailable("ClientFinish replay subject does not match"))
    } else {
        match auth {
            Ok(()) => Ok(FinishReplayDecision::ExactReplay(replay.response)),
            Err(e) => Err(e),
        }
    }
}

/// Decides what a ClientFinish whose message id was already committed gets:
/// the committed ServerFinish when the bytes and the receipt match and the
/// device is still an active replica, a quarantine when the bytes differ.
pub fn decide_finish_replay(
    replay: ReplayRow,
    activation: &ActivateEnrollment,
    receipt: &Option<ReceiptRow>,
    profile: &Option<FixtureProfileRow>,
    invitation: &Option<InvitationRow>,
    device: &Option<DeviceRow>,
) -> (r: StoreResult<FinishReplayDecision>)
    ensures
        r == finish_replay_decision(
            replay,
            *activation,
            finish_replay_check(*receipt, activation.device_id@, *profile, *invitation, *device),
        ),
{
    match classify_replay(&replay, &activation.observed_tls_spki_sha256, &activation.request_digest)? {
        ReplayMatch::Conflict => Ok(FinishReplayDecision::Quarantine),
        ReplayMatch::Exact => {
            if !str_eq(&replay.subject_id, &activation.receipt_id) {
                return Err(
                    StoreError::StateUnavailable("ClientFinish replay subject does not match"),
                );
            }
            finish_replay_authorization(receipt, &activation.device_id, profile, invitation, device)?;
            Ok(FinishReplayDecision::ExactReplay(replay.response))
        },
    }
}

/// An activation of a confirmed, unexpired receipt whose invitation is
/// consumed under the observed pin, whose fixture profile is ready at the
/// receipt's generation and whose device is not yet registered activates;
/// the row it then commits answers every repetition of it with the same
/// ServerFinish.
pub proof fn lemma_ready_activation_activates_once(
    a: ActivateEnrollment,
    rc: ReceiptRow,
    profile: FixtureProfileRow,
    inv: InvitationRow,
    row: ReplayRow,
)
    requires
        rc.state@ == "pending_finish"@,
        a.authority_now_ms < rc.expires_at_ms,
        rc.bootstrap_response is Some,
        rc.device_id@ == a.device_id@,
        rc.authority_generation >= 0,
        rc.authority_generation == a.authority_generation,
        fixture_profile_check(Some(profile), a.authority_generation) is Ok,
        inv.state@ == "consumed"@,
        inv.authority_generation >= 0,
        inv.pin@ == a.observed_tls_spki_sha256@,
        committed_for_activation(row, a),
    ensures
        activation_step(a, Some(rc), Some(profile), Some(inv), false) == Ok::<bool, StoreError>(
            true,
        ),
        finish_replay_decision(row, a, Ok(())) matches Ok(FinishReplayDecision::ExactReplay(b))
            && b@ == a.exact_server_finish_bytes@,
{
    reveal_strlit("pending_finish");
    reveal_strlit("pending_user_confirmation");
    reveal_strlit("active");
    reveal_strlit("cancelled");
    reveal_strlit("revoked");
    reveal_strlit("expired");
    assert(rc.authority_generation as u64 == a.authority_generation);
    assert(fixture_profile_check(Some(profile), rc.authority_generation as u64) is Ok);
    assert("pending_finish"@.len() == 14);
    assert("pending_user_confirmation"@.len() == 25);
    assert("active"@.len() == 6);
    lemma_repeated_activation_returns_first_answer(row, a, a);
}

/// The replay row an activation commits under its message id: the receipt,
/// the request digest, the observed pin and the exact ServerFinish.
pub open spec fn committed_for_activation(row: ReplayRow, a: ActivateEnrollment) -> bool {
    &&& row.subject_id@ == a.receipt_id@
    &&& row.digest@ == a.request_digest@
    &&& row.pin@ == a.observed_tls_spki_sha256@
    &&& row.response@ == a.exact_server_finish_bytes@
}

/// A ClientFinish repeated under a committed message id, over the same pin
/// and for the same receipt, is answered with the ServerFinish committed for
/// the first one, byte for byte, whatever the repeat would have answered
/// fresh; different request bytes under that message id are quarantined.
pub proof fn lemma_repeated_activation_returns_first_answer(
    row: ReplayRow,
    first: ActivateEnrollment,
    again: ActivateEnrollment,
)
    requires
        committed_for_activation(row, first),
        again.observed_tls_spki_sha256@ == first.observed_tls_spki_sha256@,
        again.receipt_id@ == first.receipt_id@,
    ensures
        again.request_digest@ == first.request_digest@ ==> (finish_replay_decision(
            row,
            again,
            Ok(()),
        ) matches Ok(FinishReplayDecision::ExactReplay(b)) && b@ == first.exact_server_finish_bytes@),
        again.request_digest@ != first.request_digest@ ==> finish_replay_decision(
            row,
            again,
            Ok(()),
        ) == Ok::<FinishReplayDecision, StoreError>(FinishReplayDecision::Quarantine),
{
}

pub open spec fn activation_step(
    activation: ActivateEnrollment,
    receipt: Option<ReceiptRow>,
    profile: Option<FixtureProfileRow>,
    invitation: Option<InvitationRow>,
    device_registered: bool,
) -> StoreResult<bool> {
    match receipt {
        None => Err(StoreError::ReceiptNotFound),
        Some(rc) => if rc.authority_generation < 0 {
            Err(StoreError::StateUnavailable("authority_generation"))
        } else if rc.device_id@ != activation.device_id@ || rc.authority_generation
            != activation.authority_generation {
            Err(StoreError::StateUnavailable("finish binding does not match receipt"))
        } else if fixture_profile_check(profile, rc.authority_generation as u64) is Err {
            Err(fixture_profile_check(profile, rc.authority_generation as u64)->Err_0)
        } else {
            match invitation {
                None => Err(StoreError::StateUnavailable("receipt invitation is missing")),
                Some(inv) => if inv.authority_generation < 0 {
                    Err(StoreError::StateUnavailable("authority_generation"))
                } else if inv.pin@ != activation.observed_tls_spki_sha256@ {
                    Err(StoreError::PinMismatch)
                } else if activation.authority_now_ms >= rc.expires_at_ms && is_pending_receipt(
                    rc.state@,
                ) {
                    Ok(false)
                } else if rc.state@ == "pending_user_confirmation"@ {
                    Err(StoreError::UserConfirmationRequired)
                } else if rc.state@ == "active"@ {
                    Err(StoreError::EnrollmentAlreadyActive)
                } else if rc.state@ == "cancelled"@ || rc.state@ == "revoked"@ {
                    Err(StoreError::EnrollmentCancelled)
                } else if rc.state@ == "expired"@ {
                    Err(StoreError::InvitationExpired)
                } else if rc.state@ != "pending_finish"@ {
                    Err(StoreError::StateUnavailable("unknown receipt state"))
                } else if inv.state@ != "consumed"@ {
                    Err(StoreError::StateUnavailable("pending receipt invitation is not consumed"))
                } else if rc.bootstrap_response is None {
                    Err(
                        StoreError::StateUnavailable(
                            "pending finish receipt is missing bootstrap response",
                        ),
                    )
                } else if device_registered {
                    Err(StoreError::StateUnavailable("device id is already registered"))
                } else {
                    Ok(true)
                },
            }
        },
    }
}

/// Decides a first ClientFinish for a receipt. `Ok(true)` activates it:
/// register the device, record its sync state, mark receipt and invitation
/// active and commit the replay. `Ok(false)` expires a timed-out enrollment.
pub fn decide_activation(
    activation: &ActivateEnrollment,
    receipt: &Option<ReceiptRow>,
    profile: &Option<FixtureProfileRow>,
    invitation: &Option<InvitationRow>,
    device_registered: bool,
) -> (r: StoreResult<bool>)
    ensures
        r == activation_step(*activation, *receipt, *profile, *invitation, device_registered),
        r == Ok::<bool, StoreError>(true) ==> {
            &&& receipt matches Some(rc) && rc.state@ == "pending_finish"@
            &&& invitation matches Some(inv) && inv.state@ == "consumed"@
            &&& receipt_transition_allowed(ReceiptState::PendingFinish, ReceiptState::Active)
            &&& invitation_transition_allowed(InvitationState::Consumed, InvitationState::Active)
        },
{
    let rc = match receipt {
        None => return Err(StoreError::ReceiptNotFound),
        Some(rc) => rc,
    };
    let generation = u64_from_db(rc.authority_generation, "authority_generation")?;
    if !str_eq(&rc.device_id, &activation.device_id) || generation
        != activation.authority_generation {
        return Err(StoreError::StateUnavailable("finish binding does not match receipt"));
    }
    require_fixture_profile(profile, generation)?;
    let inv = match invitation {
        None => return Err(StoreError::StateUnavailable("receipt invitation is missing")),
        Some(inv) => inv,
    };
    u64_from_db(inv.authority_generation, "authority_generation")?;
    if !bytes_eq(&inv.pin, &activation.observed_tls_spki_sha256) {
        return Err(StoreError::PinMismatch);
    }
    if activation.authority_now_ms >= rc.expires_at_ms && is_pending_receipt_exec(&rc.state) {
        return Ok(false);
    }
    if str_eq(&rc.state, "pending_user_confirmation") {
        return Err(StoreError::UserConfirmationRequired);
    }
    if str_eq(&rc.state, "active") {
        return Err(StoreError::EnrollmentAlreadyActive);
    }
    if str_eq(&rc.state, "cancelled") || str_eq(&rc.state, "revoked") {
        return Err(StoreError::EnrollmentCancelled);
    }
    if str_eq(&rc.state, "expired") {
        return Err(StoreError::InvitationExpired);
    }
    if !str_eq(&rc.state, "pending_finish") {
        return Err(StoreError::StateUnavailable("unknown receipt state"));
    }
    if !str_eq(&inv.state, "consumed") {
        return Err(StoreError::StateUnavailable("pending receipt invitation is not consumed"));
    }
    if rc.bootstrap_response.is_none() {
        return Err(
            StoreError::StateUnavailable("pending finish receipt is missing bootstrap response"),
        );
    }
    if device_registered {
        return Err(StoreError::StateUnavailable("device id is already registered"));
    }
    Ok(true)
}

// ---------------------------------------------------------------------------
// Revocation
// ---------------------------------------------------------------------------

pub open spec fn revocation_step(
    device_id: Seq<char>,
    now_ms: i64,
    device_state: Option<String>,
    library_generation: Option<i64>,
    profile: Option<FixtureProfileRow>,
) -> StoreResult<RevokeOutcome> {
    if now_ms < 0 {
        Err(StoreError::InvalidInput("authority time"))
    } else if !is_uuid_v7_text(device_id) {
        Err(StoreError::InvalidInput("device_id"))
    } else {
        match device_state {
            None => Err(StoreError::DeviceNotFound),
            Some(state) => match library_generation {
                None => Err(StoreError::StateUnavailable("portable library is missing")),
                Some(g) => if g < 0 {
                    Err(StoreError::StateUnavailable("authority_generation"))
                } else if fixture_profile_check(profile, g as u64) is Err {
                    Err(fixture_profile_check(profile, g as u64)->Err_0)
                } else if state@ == "revoked"@ {
                    Ok(RevokeOutcome::AlreadyRevoked)
                } else if state@ != "active"@ {
                    Err(StoreError::StateUnavailable("unknown device state"))
                } else {
                    Ok(RevokeOutcome::Revoked)
                },
            },
        }
    }
}

/// Decides a revocation from the replica device's enrollment state.
/// `Revoked` asks the caller to revoke the device, its active receipt and its
/// invitation; a device that is already revoked stays as it is.
pub fn decide_revocation(
    device_id: &str,
    now_ms: i64,
    device_state: &Option<String>,
    library_generation: Option<i64>,
    profile: &Option<FixtureProfileRow>,
) -> (r: StoreResult<RevokeOutcome>)
    ensures
        r == revocation_step(device_id@, now_ms, *device_state, library_generation, *profile),
{
    validate_authority_time(now_ms)?;
    validate_uuid_v7(device_id, "device_id")?;
    let state = match device_state {
        None => return Err(StoreError::DeviceNotFound),
        Some(state) => state,
    };
    let generation = match library_generation {
        None => return Err(StoreError::StateUnavailable("portable library is missing")),
        Some(g) => u64_from_db(g, "authority_generation")?,
    };
    require_fixture_profile(profile, generation)?;
    if str_eq(state, "revoked") {
        return Ok(RevokeOutcome::AlreadyRevoked);
    }
    if !str_eq(state, "active") {
        return Err(StoreError::StateUnavailable("unknown device state"));
    }
    Ok(RevokeOutcome::Revoked)
}

/// An active registry device must have exactly the active receipt that
/// enrolled it.
pub fn require_active_receipt(receipt: Option<(String, String)>) -> (r: StoreResult<
    (String, String),
>)
    ensures
        match receipt {
            Some(p) => r == Ok::<(String, String), StoreError>(p),
            None => r == Err::<(String, String), StoreError>(
                StoreError::StateUnavailable("active registry device has no active receipt"),
            ),
        },
{
    match receipt {
        Some(p) => Ok(p),
        None => Err(StoreError::StateUnavailable("active registry device has no active receipt")),
    }
}

// ---------------------------------------------------------------------------
// Accepted fixture changes
// ---------------------------------------------------------------------------

/// A committed sync request of a device.
#[derive(Debug, Clone)]
pub struct RequestReplayRow {
    pub digest: Vec<u8>,
    pub endpoint: String,
    pub response: Vec<u8>,
}

/// A replica device's registry entry with its transaction counter.
#[derive(Debug, Clone)]
pub struct CounterDeviceRow {
    pub role: String,
    pub enrollment_state: String,
    pub last_transaction_counter: i64,
}

#[derive(Debug, Clone, PartialEq, Eq)]
pub enum ChangeDecision {
    /// The request was already accepted: answer with its committed response.
    ExactReplay(Vec<u8>),
    /// The request id was reused for other bytes: quarantine it against the
    /// accepted digest.
    Quarantine(Vec<u8>),
    /// Advance the library's high-water cursor by one to `cursor`, store the
    /// device's new counter, and commit the transaction, change and request
    /// replay.
    Accept { cursor: u64 },
}

impl ChangeDecision {
    /// What the store answers once the decision is carried out: an accepted
    /// change answers with its new cursor and the change's own response.
    pub fn outcome(self, change: &FixtureAcceptedChange) -> (r: FixtureChangeOutcome)
        ensures
            match self {
                ChangeDecision::ExactReplay(b) => r == FixtureChangeOutcome::ExactReplay(b),
                ChangeDecision::Quarantine(_) => r == FixtureChangeOutcome::Quarantined,
                ChangeDecision::Accept { cursor } => r matches FixtureChangeOutcome::Accepted {
                    cursor: c,
                    exact_response_bytes: b,
                } && c == cursor && b@ == change.exact_response_bytes@,
            },
    {
        match self {
            ChangeDecision::ExactReplay(b) => FixtureChangeOutcome::ExactReplay(b),
            ChangeDecision::Quarantine(_) => FixtureChangeOutcome::Quarantined,
            ChangeDecision::Accept { cursor } => FixtureChangeOutcome::Accepted {
                cursor,
                exact_response_bytes: vstd::slice::slice_to_vec(change.exact_response_bytes.as_slice()),
            },
        }
    }
}

pub open spec fn change_step(
    change: FixtureAcceptedChange,
    profile: Option<FixtureProfileRow>,
    high_water_cursor: i64,
    device: Option<CounterDeviceRow>,
    existing: Option<RequestReplayRow>,
    recent_replays: i64,
) -> StoreResult<ChangeDecision> {
    if !change_ok(change) {
        Err(StoreError::InvalidInput("change"))
    } else if fixture_profile_check(profile, change.authority_generation) is Err {
        Err(fixture_profile_check(profile, change.authority_generation)->Err_0)
    } else {
        match device {
            None => Err(StoreError::DeviceNotFound),
            Some(d) => if d.enrollment_state@ == "revoked"@ {
                Err(StoreError::DeviceRevoked)
            } else if d.role@ != "replica"@ || d.enrollment_state@ != "active"@ {
                Err(StoreError::StateUnavailable("direct change device is not an active replica"))
            } else {
                match existing {
                    Some(x) => if x.digest@ == change.request_digest@ && x.endpoint@
                        == "/sync/v1/push"@ {
                        Ok(ChangeDecision::ExactReplay(x.response))
                    } else {
                        Ok(ChangeDecision::Quarantine(x.digest))
                    },
                    None => if recent_replays >= MAX_REPLAY_ROWS {
                        Err(StoreError::ReplayLimit)
                    } else if d.last_transaction_counter < 0 {
                        Err(StoreError::StateUnavailable("last_transaction_counter"))
                    } else if d.last_transaction_counter + 1 > u64::MAX {
                        Err(StoreError::StateUnavailable("device counter overflow"))
                    } else if d.last_transaction_counter + 1 != change.device_transaction_counter {
                        Err(StoreError::StateUnavailable("device counter is not next"))
                    } else if high_water_cursor == i64::MAX || high_water_cursor + 1 < 0 {
                        Err(StoreError::StateUnavailable("high_water_cursor"))
                    } else {
                        Ok(ChangeDecision::Accept { cursor: (high_water_cursor + 1) as u64 })
                    },
                }
            },
        }
    }
}

/// Decides an accepted fixture change from a device: an identical request
/// replays, a reused request id is quarantined, and a new request is accepted
/// only from an active replica whose counter it advances by exactly one; the
/// accepted change takes the cursor after the library's `high_water_cursor`.
pub fn decide_change(
    change: &FixtureAcceptedChange,
    profile: &Option<FixtureProfileRow>,
    high_water_cursor: i64,
    device: &Option<CounterDeviceRow>,
    existing: Option<RequestReplayRow>,
    recent_replays: i64,
) -> (r: StoreResult<ChangeDecision>)
    ensures
        change_ok(*change) ==> r == change_step(
            *change,
            *profile,
            high_water_cursor,
            *device,
            existing,
            recent_replays,
        ),
        !change_ok(*change) ==> (r matches Err(e) && failure_result(change_failure(*change))
            == Err::<(), StoreError>(e)),
        r matches Ok(ChangeDecision::Accept { cursor }) ==> (device matches Some(d)
            && d.last_transaction_counter + 1 == change.device_transaction_counter) && cursor
            == high_water_cursor + 1,
{
    validate_change(change)?;
    require_fixture_profile(profile, change.authority_generation)?;
    let d = match device {
        None => return Err(StoreError::DeviceNotFound),
        Some(d) => d,
    };
    if str_eq(&d.enrollment_state, "revoked") {
        return Err(StoreError::DeviceRevoked);
    }
    if !str_eq(&d.role, "replica") || !str_eq(&d.enrollment_state, "active") {
        return Err(StoreError::StateUnavailable("direct change device is not an active replica"));
    }
    match existing {
        Some(x) => {
            if bytes_eq(&x.digest, &change.request_digest) && str_eq(&x.endpoint, "/sync/v1/push") {
                Ok(ChangeDecision::ExactReplay(x.response))
            } else {
                Ok(ChangeDecision::Quarantine(x.digest))
            }
        },
        None => {
            replay_capacity(recent_replays)?;
            let last = u64_from_db(d.last_transaction_counter, "last_transaction_counter")?;
            if last == u64::MAX {
                return Err(StoreError::StateUnavailable("device counter overflow"));
            }
            if last + 1 != change.device_transaction_counter {
                return Err(StoreError::StateUnavailable("device counter is not next"));
            }
            if high_water_cursor == i64::MAX {
                return Err(StoreError::StateUnavailable("high_water_cursor"));
            }
            let next = u64_from_db(high_water_cursor + 1, "high_water_cursor")?;
            Ok(ChangeDecision::Accept { cursor: next })
        },
    }
}

// ---------------------------------------------------------------------------
// Checkpoints and acknowledgements
// ---------------------------------------------------------------------------

/// A checkpoint already issued at the requested generation and cursor.
#[derive(Debug, Clone)]
pub struct IssuedCheckpointRow {
    pub checkpoint_digest: String,
    pub response: Vec<u8>,
}

/// The library's current cursor, purge generation and key epoch.
#[derive(Debug, Clone, Copy)]
pub struct LibraryPositionRow {
    pub high_water_cursor: i64,
    pub purge_generation: i64,
    pub key_epoch: i64,
}

pub open spec fn position_matches(checkpoint: IssueCheckpoint, p: LibraryPositionRow) -> bool {
    &&& p.high_water_cursor >= 0 && p.high_water_cursor == checkpoint.high_water_cursor
    &&& p.purge_generation >= 0 && p.purge_generation == checkpoint.purge_generation
    &&& p.key_epoch >= 0 && p.key_epoch == checkpoint.key_epoch
}

/// An identical checkpoint at the same cursor replays its response; a
/// different digest at the same cursor is a mismatch.
pub fn checkpoint_replay(checkpoint: &IssueCheckpoint, existing: Option<IssuedCheckpointRow>) -> (r:
    StoreResult<Option<Vec<u8>>>)
    ensures
        match existing {
            None => r == Ok::<Option<Vec<u8>>, StoreError>(None),
            Some(x) => if x.checkpoint_digest@ == checkpoint.checkpoint_digest@ {
                r == Ok::<Option<Vec<u8>>, StoreError>(Some(x.response))
            } else {
                r == Err::<Option<Vec<u8>>, StoreError>(StoreError::CheckpointMismatch)
            },
        },
{
    match existing {
        None => Ok(None),
        Some(x) => {
            if str_eq(&x.checkpoint_digest, &checkpoint.checkpoint_digest) {
                Ok(Some(x.response))
            } else {
                Err(StoreError::CheckpointMismatch)
            }
        },
    }
}

/// A new checkpoint must name exactly the library's current cursor, purge
/// generation and key epoch.
pub fn checkpoint_matches_library(checkpoint: &IssueCheckpoint, position: LibraryPositionRow) -> (r:
    StoreResult<()>)
    ensures
        (position.high_water_cursor < 0) ==> r == Err::<(), StoreError>(
            StoreError::StateUnavailable("high_water_cursor"),
        ),
        (position.high_water_cursor >= 0 && position.purge_generation < 0) ==> r == Err::<
            (),
            StoreError,
        >(StoreError::StateUnavailable("purge_generation")),
        (position.high_water_cursor >= 0 && position.purge_generation >= 0 && position.key_epoch
            < 0) ==> r == Err::<(), StoreError>(StoreError::StateUnavailable("key_epoch")),
        (position.high_water_cursor >= 0 && position.purge_generation >= 0 && position.key_epoch
            >= 0) ==> (r is Ok <==> position_matches(*checkpoint, position)),
        r matches Err(e) ==> e is StateUnavailable || e is CheckpointMismatch,
{
    let high = u64_from_db(position.high_water_cursor, "high_water_cursor")?;
    let purge = u64_from_db(position.purge_generation, "purge_generation")?;
    let epoch = u64_from_db(position.key_epoch, "key_epoch")?;
    if high != checkpoint.high_water_cursor || purge != checkpoint.purge_generation || epoch
        != checkpoint.key_epoch {
        return Err(StoreError::CheckpointMismatch);
    }
    Ok(())
}

/// A device's stored acknowledgement.
#[derive(Debug, Clone)]
pub struct AcknowledgementRow {
    pub acknowledged_cursor: Option<i64>,
    pub checkpoint_digest: Option<String>,
    pub response: Option<Vec<u8>>,
}

pub open spec fn ack_step(
    ack: AcknowledgeCheckpoint,
    profile: Option<FixtureProfileRow>,
    device_state: Option<String>,
    issued: bool,
    stored: Option<AcknowledgementRow>,
) -> StoreResult<Option<Vec<u8>>> {
    if !ack_ok(ack) {
        Err(StoreError::InvalidInput("acknowledgement"))
    } else if fixture_profile_check(profile, ack.authority_generation) is Err {
        Err(fixture_profile_check(profile, ack.authority_generation)->Err_0)
    } else {
        match device_state {
            None => Err(StoreError::DeviceNotFound),
            Some(s) => if s@ == "revoked"@ {
                Err(StoreError::DeviceRevoked)
            } else if s@ != "active"@ {
                Err(StoreError::StateUnavailable("unknown device state"))
            } else if !issued {
                Err(StoreError::AckMismatch)
            } else {
                match stored {
                    None => Err(
                        StoreError::StateUnavailable("active direct device is missing sync state"),
                    ),
                    Some(row) => match row.acknowledged_cursor {
                        None => Ok(None),
                        Some(c) => if c < 0 {
                            Err(StoreError::StateUnavailable("acknowledged_cursor"))
                        } else if c == ack.high_water_cursor && option_text_is(
                            row.checkpoint_digest,
                            ack.checkpoint_digest@,
                        ) {
                            match row.response {
                                Some(b) => Ok(Some(b)),
                                None => Err(
                                    StoreError::StateUnavailable(
                                        "acknowledgement replay response is missing",
                                    ),
                                ),
                            }
                        } else if ack.high_water_cursor <= c {
                            Err(StoreError::AckMismatch)
                        } else {
                            Ok(None)
                        },
                    },
                }
            },
        }
    }
}

/// Decides a checkpoint acknowledgement. `Ok(Some(bytes))` replays the
/// committed answer to an identical acknowledgement; `Ok(None)` records a new
/// one, which must name an issued checkpoint strictly beyond the device's
/// last acknowledged cursor.
pub fn decide_acknowledgement(
    acknowledgement: &AcknowledgeCheckpoint,
    profile: &Option<FixtureProfileRow>,
    device_state: &Option<String>,
    issued: bool,
    stored: Option<AcknowledgementRow>,
) -> (r: StoreResult<Option<Vec<u8>>>)
    ensures
        ack_ok(*acknowledgement) ==> r == ack_step(
            *acknowledgement,
            *profile,
            *device_state,
            issued,
            stored,
        ),
        !ack_ok(*acknowledgement) ==> (r matches Err(e) && failure_result(
            ack_failure(*acknowledgement),
        ) == Err::<(), StoreError>(e)),
        // A recorded acknowledgement only ever moves the cursor forward.
        r == Ok::<Option<Vec<u8>>, StoreError>(None) ==> (stored matches Some(row) && match row.acknowledged_cursor {
            Some(c) => c < acknowledgement.high_water_cursor,
            None => true,
        }),
{
    validate_ack(acknowledgement)?;
    require_fixture_profile(profile, acknowledgement.authority_generation)?;
    let state = match device_state {
        None => return Err(StoreError::DeviceNotFound),
        Some(s) => s,
    };
    if str_eq(state, "revoked") {
        return Err(StoreError::DeviceRevoked);
    }
    if !str_eq(state, "active") {
        return Err(StoreError::StateUnavailable("unknown device state"));
    }
    if !issued {
        return Err(StoreError::AckMismatch);
    }
    let row = match stored {
        None => return Err(StoreError::StateUnavailable("active direct device is missing sync state")),
        Some(row) => row,
    };
    match row.acknowledged_cursor {
        None => Ok(None),
        Some(c) => {
            let cursor = u64_from_db(c, "acknowledged_cursor")?;
            if cursor == acknowledgement.high_water_cursor && option_text_matches(
                &row.checkpoint_digest,
                &acknowledgement.checkpoint_digest,
            ) {
                return match row.response {
                    Some(b) => Ok(Some(b)),
                    None => Err(
                        StoreError::StateUnavailable("acknowledgement replay response is missing"),
                    ),
                };
            }
            if acknowledgement.high_water_cursor <= cursor {
                return Err(StoreError::AckMismatch);
            }
            Ok(None)
        },
    }
}

// ---------------------------------------------------------------------------
// Profile initialisation and invitation registration
// ---------------------------------------------------------------------------

/// An existing authority profile.
#[derive(Debug, Clone)]
pub struct ProfileRow {
    pub environment: String,
    pub library_data_class: String,
    pub protocol_version: i64,
    pub capabilities_json: String,
}

pub open spec fn generation_is(stored: Option<i64>, generation: u64) -> bool {
    match stored {
        Some(g) => g == generation,
        None => false,
    }
}

/// Decides whether to create the sole fixture profile of a library.
/// `Ok(false)`: an identical fixture profile exists already; `Ok(true)`:
/// create it. Any other existing profile is refused as not a fixture.
pub fn decide_profile_initialization(
    library_id: &str,
    authority_generation: u64,
    capabilities_json: &str,
    now_ms: i64,
    library_generation: Option<i64>,
    existing: &Option<ProfileRow>,
) -> (r: StoreResult<bool>)
    ensures
        r is Ok ==> now_ms >= 0 && is_uuid_v7_text(library_id@) && json_text_ok(capabilities_json@)
            && generation_is(library_generation, authority_generation) && authority_generation != 0,
        r == Ok::<bool, StoreError>(true) ==> existing is None,
        r == Ok::<bool, StoreError>(false) ==> (existing matches Some(p) && p.environment@
            == "development"@ && p.library_data_class@ == "sanitized_fixture"@
            && p.protocol_version == 1 && json_same_value(p.capabilities_json@, capabilities_json@)),
        existing matches Some(p) && !(p.environment@ == "development"@ && p.library_data_class@
            == "sanitized_fixture"@ && p.protocol_version == 1) && now_ms >= 0 && is_uuid_v7_text(
            library_id@,
        ) && json_text_ok(capabilities_json@) && generation_is(library_generation, authority_generation) && authority_generation != 0 ==> r == Err::<bool, StoreError>(StoreError::FixtureOnly),
{
    validate_authority_time(now_ms)?;
    validate_uuid_v7(library_id, "library_id")?;
    validate_json(capabilities_json, "capabilities_json")?;
    let generation = match library_generation {
        None => return Err(StoreError::StateUnavailable("portable library is missing")),
        Some(g) => u64_from_db(g, "authority_generation")?,
    };
    if generation != authority_generation || authority_generation == 0 {
        return Err(StoreError::StateUnavailable("portable authority generation does not match"));
    }
    match existing {
        None => Ok(true),
        Some(p) => {
            if str_eq(&p.environment, "development") && str_eq(
                &p.library_data_class,
                "sanitized_fixture",
            ) && p.protocol_version == 1 {
                if json_equal(&p.capabilities_json, capabilities_json)? {
                    return Ok(false);
                }
            }
            Err(StoreError::FixtureOnly)
        },
    }
}

#[derive(Debug, Clone, PartialEq, Eq)]
pub enum RegistrationDecision {
    /// The same invitation was registered already.
    ExactReplay,
    /// The invitation id was reused for another digest: quarantine it against
    /// the registered digest.
    Quarantine(Vec<u8>),
    /// Insert the invitation as pending.
    Register,
}

/// Decides the registration of a new invitation: the invitation must be
/// valid at `now_ms`, the profile ready, and fewer than `MAX_REPLAY_ROWS`
/// invitations may be live.
pub fn decide_registration(
    invitation: &NewInvitation,
    now_ms: i64,
    profile: &Option<FixtureProfileRow>,
    existing_digest: Option<Vec<u8>>,
    live_invitations: i64,
) -> (r: StoreResult<RegistrationDecision>)
    ensures
        r is Ok ==> invitation_ok(*invitation, now_ms) && fixture_profile_check(
            *profile,
            invitation.authority_generation,
        ) is Ok,
        invitation_ok(*invitation, now_ms) && fixture_profile_check(
            *profile,
            invitation.authority_generation,
        ) is Ok ==> match existing_digest {
            Some(d) => if d@ == invitation.invitation_digest@ {
                r == Ok::<RegistrationDecision, StoreError>(RegistrationDecision::ExactReplay)
            } else {
                r == Ok::<RegistrationDecision, StoreError>(RegistrationDecision::Quarantine(d))
            },
            None => if live_invitations >= MAX_REPLAY_ROWS {
                r == Err::<RegistrationDecision, StoreError>(StoreError::ReplayLimit)
            } else {
                r == Ok::<RegistrationDecision, StoreError>(RegistrationDecision::Register)
            },
        },
{
    validate_authority_time(now_ms)?;
    validate_invitation(invitation, now_ms)?;
    require_fixture_profile(profile, invitation.authority_generation)?;
    match existing_digest {
        Some(d) => {
            if bytes_eq(&d, &invitation.invitation_digest) {
                Ok(RegistrationDecision::ExactReplay)
            } else {
                Ok(RegistrationDecision::Quarantine(d))
            }
        },
        None => {
            if live_invitations >= MAX_REPLAY_ROWS {
                return Err(StoreError::ReplayLimit);
            }
            Ok(RegistrationDecision::Register)
        },
    }
}

// ---------------------------------------------------------------------------
// Schema audit
// ---------------------------------------------------------------------------

/// The tables, triggers and indexes the authority store cannot run
/// without, as (kind, name), in the order they are checked.
pub const REQUIRED_SCHEMA_OBJECTS: [(&'static str, &'static str); 32] = [
    ("table", "direct_authority_profiles"),
    ("table", "direct_pairing_invitations"),
    ("table", "direct_enrollment_receipts"),
    ("table", "direct_pairing_replays"),
    ("table", "direct_pairing_quarantine"),
    ("table", "direct_authority_transactions"),
    ("table", "direct_authority_mutations"),
    ("table", "direct_authority_changes"),
    ("table", "direct_sync_checkpoints"),
    ("table", "direct_device_sync_state"),
    ("table", "direct_request_replays"),
    ("trigger", "direct_invitation_state_guard"),
    ("trigger", "direct_receipt_state_guard"),
    ("trigger", "direct_terminal_transaction_guard"),
    ("trigger", "direct_pairing_replays_no_update"),
    ("trigger", "direct_pairing_replays_no_delete"),
    ("trigger", "direct_pairing_quarantine_no_update"),
    ("trigger", "direct_pairing_quarantine_no_delete"),
    ("trigger", "direct_authority_mutations_no_update"),
    ("trigger", "direct_authority_mutations_no_delete"),
    ("trigger", "direct_authority_changes_no_update"),
    ("trigger", "direct_authority_changes_no_delete"),
    ("trigger", "direct_sync_checkpoints_no_update"),
    ("trigger", "direct_sync_checkpoints_no_delete"),
    ("trigger", "direct_request_replays_no_update"),
    ("trigger", "direct_request_replays_no_delete"),
    ("index", "direct_pairing_invitations_library_state"),
    ("index", "direct_pairing_replays_created"),
    ("index", "direct_pairing_quarantine_created"),
    ("index", "direct_enrollment_receipts_live_device"),
    ("index", "direct_enrollment_receipts_library_state"),
    ("index", "direct_request_replays_created"),
];

/// What an audit of a stored authority database found: how many required
/// schema objects are missing, whether SQLite's foreign key check reported
/// a row, whether any stored JSON column failed `validate_json`, and how many
/// rows break each cross-table invariant.
#[derive(Debug, Clone, Copy, PartialEq, Eq, Structural)]
pub struct SchemaAudit {
    pub missing_objects: u64,
    pub foreign_key_violations: bool,
    pub non_fixture_profiles: i64,
    pub non_development_invitations: i64,
    pub invalid_stored_json: bool,
    pub inconsistent_enrollments: i64,
    pub orphan_consumed_invitations: i64,
    pub noncontiguous_cursors: i64,
    pub unbound_changes: i64,
    pub unbound_transactions: i64,
    pub unbound_checkpoints: i64,
    pub unbound_device_sync_state: i64,
}

/// The verdict on an audited database, the first failed check in order.
pub open spec fn schema_verdict(a: SchemaAudit) -> StoreResult<()> {
    if a.missing_objects != 0 {
        Err(StoreError::StateUnavailable("direct authority schema is incomplete"))
    } else if a.foreign_key_violations {
        Err(StoreError::StateUnavailable("foreign key check failed"))
    } else if a.non_fixture_profiles != 0 || a.non_development_invitations != 0 {
        Err(StoreError::FixtureOnly)
    } else if a.invalid_stored_json {
        Err(StoreError::InvalidInput("stored_json"))
    } else if a.inconsistent_enrollments != 0 {
        Err(StoreError::StateUnavailable("enrollment cross-links are inconsistent"))
    } else if a.orphan_consumed_invitations != 0 {
        Err(StoreError::StateUnavailable("consumed invitation is missing its receipt"))
    } else if a.noncontiguous_cursors != 0 {
        Err(StoreError::StateUnavailable("accepted change cursor is not contiguous"))
    } else if a.unbound_changes != 0 {
        Err(StoreError::StateUnavailable("accepted change binding is inconsistent"))
    } else if a.unbound_transactions != 0 {
        Err(StoreError::StateUnavailable("direct transaction binding is inconsistent"))
    } else if a.unbound_checkpoints != 0 {
        Err(StoreError::StateUnavailable("issued checkpoint binding is inconsistent"))
    } else if a.unbound_device_sync_state != 0 {
        Err(StoreError::StateUnavailable("device sync state binding is inconsistent"))
    } else {
        Ok(())
    }
}

/// Judges an audited authority database: the schema must be complete, the
/// foreign keys hold, only sanitized development fixtures be stored, every
/// stored JSON column be valid, and every cross-table binding be consistent.
pub fn verify_schema_audit(audit: &SchemaAudit) -> (r: StoreResult<()>)
    ensures
        r == schema_verdict(*audit),
{
    if audit.missing_objects != 0 {
        return Err(StoreError::StateUnavailable("direct authority schema is incomplete"));
    }
    if audit.foreign_key_violations {
        return Err(StoreError::StateUnavailable("foreign key check failed"));
    }
    if audit.non_fixture_profiles != 0 || audit.non_development_invitations != 0 {
        return Err(StoreError::FixtureOnly);
    }
    if audit.invalid_stored_json {
        return Err(StoreError::InvalidInput("stored_json"));
    }
    if audit.inconsistent_enrollments != 0 {
        return Err(StoreError::StateUnavailable("enrollment cross-links are inconsistent"));
    }
    if audit.orphan_consumed_invitations != 0 {
        return Err(StoreError::StateUnavailable("consumed invitation is missing its receipt"));
    }
    if audit.noncontiguous_cursors != 0 {
        return Err(StoreError::StateUnavailable("accepted change cursor is not contiguous"));
    }
    if audit.unbound_changes != 0 {
        return Err(StoreError::StateUnavailable("accepted change binding is inconsistent"));
    }
    if audit.unbound_transactions != 0 {
        return Err(StoreError::StateUnavailable("direct transaction binding is inconsistent"));
    }
    if audit.unbound_checkpoints != 0 {
        return Err(StoreError::StateUnavailable("issued checkpoint binding is inconsistent"));
    }
    if audit.unbound_device_sync_state != 0 {
        return Err(StoreError::StateUnavailable("device sync state binding is inconsistent"));
    }
    Ok(())
}

/// How a store error reads to a user.
pub open spec fn store_error_message(e: StoreError) -> Seq<char> {
    match e {
        StoreError::Database(error) => "direct authority database error: "@ + error@,
        StoreError::InvalidInput(field) => "invalid direct authority field: "@ + field@,
        StoreError::FixtureOnly => "direct authority is limited to sanitized development fixtures"@,
        StoreError::StateUnavailable(reason) => "direct authority state unavailable: "@ + reason@,
        StoreError::InvitationNotFound => "direct invitation not found"@,
        StoreError::InvitationConsumed => "direct invitation already consumed"@,
        StoreError::InvitationExpired => "direct invitation expired"@,
        StoreError::ReceiptNotFound => "direct enrollment receipt not found"@,
        StoreError::UserConfirmationRequired => "direct enrollment requires user confirmation"@,
        StoreError::EnrollmentCancelled => "direct enrollment is cancelled"@,
        StoreError::EnrollmentAlreadyActive => "direct enrollment is already active"@,
        StoreError::DeviceNotFound => "direct device not found"@,
        StoreError::DeviceRevoked => "direct device is revoked"@,
        StoreError::PinMismatch => "direct transport pin mismatch"@,
        StoreError::ReplayLimit => "direct replay limit reached"@,
        StoreError::QuarantineLimit => "direct quarantine limit reached"@,
        StoreError::CheckpointMismatch => "direct checkpoint mismatch"@,
        StoreError::AckMismatch => "direct acknowledgement mismatch"@,
    }
}

impl StoreError {
    /// How the error reads to a user.
    pub fn message(&self) -> (r: String)
        ensures
            r@ == store_error_message(*self),
    {
        let mut out: Vec<char> = Vec::new();
        match self {
            StoreError::Database(error) => {
                push_str(&mut out, "direct authority database error: ");
                push_str(&mut out, error);
            },
            StoreError::InvalidInput(field) => {
                push_str(&mut out, "invalid direct authority field: ");
                push_str(&mut out, field);
            },
            StoreError::FixtureOnly => {
                push_str(&mut out, "direct authority is limited to sanitized development fixtures");
            },
            StoreError::StateUnavailable(reason) => {
                push_str(&mut out, "direct authority state unavailable: ");
                push_str(&mut out, reason);
            },
            StoreError::InvitationNotFound => {
                push_str(&mut out, "direct invitation not found");
            },
            StoreError::InvitationConsumed => {
                push_str(&mut out, "direct invitation already consumed");
            },
            StoreError::InvitationExpired => {
                push_str(&mut out, "direct invitation expired");
            },
            StoreError::ReceiptNotFound => {
                push_str(&mut out, "direct enrollment receipt not found");
            },
            StoreError::UserConfirmationRequired => {
                push_str(&mut out, "direct enrollment requires user confirmation");
            },
            StoreError::EnrollmentCancelled => {
                push_str(&mut out, "direct enrollment is cancelled");
            },
            StoreError::EnrollmentAlreadyActive => {
                push_str(&mut out, "direct enrollment is already active");
            },
            StoreError::DeviceNotFound => {
                push_str(&mut out, "direct device not found");
            },
            StoreError::DeviceRevoked => {
                push_str(&mut out, "direct device is revoked");
            },
            StoreError::PinMismatch => {
                push_str(&mut out, "direct transport pin mismatch");
            },
            StoreError::ReplayLimit => {
                push_str(&mut out, "direct replay limit reached");
            },
            StoreError::QuarantineLimit => {
                push_str(&mut out, "direct quarantine limit reached");
            },
            StoreError::CheckpointMismatch => {
                push_str(&mut out, "direct checkpoint mismatch");
            },
            StoreError::AckMismatch => {
                push_str(&mut out, "direct acknowledgement mismatch");
            },
        }
        assert(out@ =~= store_error_message(*self));
        crate::text::string_from_chars(&out)
    }
}

} // verus!

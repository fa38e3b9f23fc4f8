//! The decisions of the fixture-only Mac coordinator for direct iPhone
//! enrollment: how an owner's answer is routed for each receipt state, what a
//! bootstrap poll sees of a receipt, how concurrent delivery commits are
//! settled, and how durable outcomes become coordinator results.
use vstd::prelude::*;
use crate::direct_authority_store::{store_error_message, ConfirmOutcome, StoreError};
use crate::direct_pairing_delivery::{
    delivery_error_message, BootstrapDeliveryError, BootstrapDeliveryReplay, BootstrapDeliveryResolution,
    BootstrapDeliveryTerminal, BootstrapReplayCommit,
};
use crate::text::{bytes_eq, chars_of, str_eq, string_from_chars};

verus! {

pub const BOOTSTRAP_DELIVERY_REPLAY_RATE_WINDOW_MS: i64 = 300000;
pub const MAX_BOOTSTRAP_DELIVERY_REPLAYS_PER_WINDOW: i64 = 128;
/// How long a phone waits between polls while the owner has not answered.
pub const PENDING_POLL_RETRY_MS: u32 = 500;

/// Trusted wall-clock seam. Implementations read authority-local time;
/// request bodies never provide timestamps used for expiry or abuse windows.
pub trait AuthorityClock {
    fn now_ms(&self) -> Result<i64, AuthorityClockError>;
}

/// The trusted authority clock could not be read.
#[derive(Debug, Clone, Copy, PartialEq, Eq, Structural)]
pub struct AuthorityClockError;

impl AuthorityClockError {
    pub fn message(&self) -> (r: &'static str)
        ensures
            r@ == "trusted authority clock is unavailable"@,
    {
        "trusted authority clock is unavailable"
    }
}

/// Public-key and transport bindings owned by the Mac authority; private
/// material stays behind the crypto provider.
#[derive(Debug, Clone, PartialEq, Eq)]
pub struct AuthorityBindings {
    pub authority_signing_public_key: [u8; 65],
    pub mac_pairing_signing_public_key: [u8; 65],
    pub mac_pairing_hpke_public_key: [u8; 32],
    pub tls_spki_sha256: [u8; 32],
}

#[derive(Debug, Clone, PartialEq, Eq)]
pub struct ClientHelloResult {
    pub receipt_id: String,
    pub exact_response_bytes: Vec<u8>,
    pub verification_code: Option<String>,
}

#[derive(Debug, Clone, PartialEq, Eq)]
pub enum OwnerConfirmationResult {
    Bootstrap(Vec<u8>),
    Cancelled,
}

/// The pairing protocol failures the coordinator reports.
#[derive(Debug, Clone, Copy, PartialEq, Eq)]
pub enum PairingError {
    AuthorityChanged,
    BindingMismatch(&'static str),
    CryptoUnavailable,
    DeviceRevoked,
    DowngradeRejected,
    EnrollmentAlreadyActive,
    EnrollmentCancelled,
    FixtureOnly,
    IdReuseQuarantined,
    InvalidIdentifier,
    InvalidSignature,
    InvitationCancelled,
    InvitationConsumed,
    InvitationExpired,
    InvitationNotFound,
    PinMismatch,
    ReceiptExpired,
    ReceiptNotFound,
    ResourceLimit,
    ScopeCeilingExceeded,
    StateUnavailable,
    UnsupportedProtocol,
}

#[derive(Debug, Clone, PartialEq, Eq)]
pub enum CoordinatorError {
    Protocol(PairingError),
    Store(StoreError),
    Database(String),
    Serialization,
    ClockUnavailable,
    BootstrapDelivery(BootstrapDeliveryError),
    StateUnavailable(&'static str),
}

/// How a coordinator error reads to a user. A protocol error's own text
/// belongs to the pairing protocol; the caller supplies it as
/// `protocol_text`.
pub open spec fn coordinator_error_message(e: CoordinatorError, protocol_text: Seq<char>) -> Seq<
    char,
> {
    match e {
        CoordinatorError::Protocol(_) => "direct pairing protocol error: "@ + protocol_text,
        CoordinatorError::Store(s) => "direct pairing store error: "@ + store_error_message(s),
        CoordinatorError::Database(d) => "direct pairing database error: "@ + d@,
        CoordinatorError::Serialization => "direct pairing serialization failed"@,
        CoordinatorError::ClockUnavailable => "direct pairing authority clock failed"@,
        CoordinatorError::BootstrapDelivery(d) => delivery_error_message(d),
        CoordinatorError::StateUnavailable(reason) => "direct pairing state unavailable: "@ + reason@,
    }
}

fn joined(head: &str, tail: &str) -> (r: String)
    ensures
        r@ == head@ + tail@,
{
    let mut out = chars_of(head);
    let mut rest = chars_of(tail);
    out.append(&mut rest);
    string_from_chars(&out)
}

impl CoordinatorError {
    /// How the error reads to a user; `protocol_text` is the text of a
    /// protocol error, which the pairing protocol supplies.
    pub fn message(&self, protocol_text: &str) -> (r: String)
        ensures
            r@ == coordinator_error_message(*self, protocol_text@),
    {
        proof {
            reveal_strlit("");
            assert("direct pairing serialization failed"@ + ""@ =~= "direct pairing serialization failed"@);
            assert("direct pairing authority clock failed"@ + ""@ =~= "direct pairing authority clock failed"@);
        }
        match self {
            CoordinatorError::Protocol(_) => joined("direct pairing protocol error: ", protocol_text),
            CoordinatorError::Store(s) => {
                let m = s.message();
                joined("direct pairing store error: ", m.as_str())
            },
            CoordinatorError::Database(d) => joined("direct pairing database error: ", d.as_str()),
            CoordinatorError::Serialization => joined("direct pairing serialization failed", ""),
            CoordinatorError::ClockUnavailable => joined("direct pairing authority clock failed", ""),
            CoordinatorError::BootstrapDelivery(d) => d.message(),
            CoordinatorError::StateUnavailable(reason) => joined(
                "direct pairing state unavailable: ",
                reason,
            ),
        }
    }
}

/// The coordinator's result for a durable owner-confirmation outcome.
pub fn map_confirmation_outcome(outcome: ConfirmOutcome) -> (r: Result<
    OwnerConfirmationResult,
    CoordinatorError,
>)
    ensures
        match outcome {
            ConfirmOutcome::Confirmed(b) => r == Ok::<OwnerConfirmationResult, CoordinatorError>(
                OwnerConfirmationResult::Bootstrap(b),
            ),
            ConfirmOutcome::ExactReplay(b) => r == Ok::<OwnerConfirmationResult, CoordinatorError>(
                OwnerConfirmationResult::Bootstrap(b),
            ),
            ConfirmOutcome::Cancelled => r == Ok::<OwnerConfirmationResult, CoordinatorError>(
                OwnerConfirmationResult::Cancelled,
            ),
            ConfirmOutcome::Quarantined => r == Err::<OwnerConfirmationResult, CoordinatorError>(
                CoordinatorError::Protocol(PairingError::IdReuseQuarantined),
            ),
            ConfirmOutcome::Expired => r == Err::<OwnerConfirmationResult, CoordinatorError>(
                CoordinatorError::Protocol(PairingError::ReceiptExpired),
            ),
        },
{
    match outcome {
        ConfirmOutcome::Confirmed(response) => Ok(OwnerConfirmationResult::Bootstrap(response)),
        ConfirmOutcome::ExactReplay(response) => Ok(OwnerConfirmationResult::Bootstrap(response)),
        ConfirmOutcome::Cancelled => Ok(OwnerConfirmationResult::Cancelled),
        ConfirmOutcome::Quarantined => Err(
            CoordinatorError::Protocol(PairingError::IdReuseQuarantined),
        ),
        ConfirmOutcome::Expired => Err(CoordinatorError::Protocol(PairingError::ReceiptExpired)),
    }
}

/// How an owner's answer is handled for the receipt's current state.
#[derive(Debug, Clone, Copy, PartialEq, Eq, Structural)]
pub enum OwnerConfirmationPath {
    /// Already active: only the exact approved confirmation may be repeated;
    /// its committed bootstrap is returned.
    ReplayActive,
    /// Awaiting ClientFinish: the store compares the confirmation with the
    /// committed one.
    ReplayPending,
    /// A first answer that declines, or whose displayed code or scopes
    /// differ: the store cancels the enrollment.
    Cancel,
    /// A first approval with matching code and scopes: generate the
    /// bootstrap and commit it.
    Generate,
}

pub open spec fn owner_confirmation_route(
    state: Seq<char>,
    approved: bool,
    code_matches: bool,
    scopes_match: bool,
) -> Result<OwnerConfirmationPath, PairingError> {
    if state == "active"@ {
        if approved {
            Ok(OwnerConfirmationPath::ReplayActive)
        } else {
            Err(PairingError::EnrollmentAlreadyActive)
        }
    } else if state == "revoked"@ {
        Err(PairingError::DeviceRevoked)
    } else if state == "pending_finish"@ {
        Ok(OwnerConfirmationPath::ReplayPending)
    } else if state != "pending_user_confirmation"@ {
        Err(PairingError::EnrollmentCancelled)
    } else if !approved || !code_matches || !scopes_match {
        Ok(OwnerConfirmationPath::Cancel)
    } else {
        Ok(OwnerConfirmationPath::Generate)
    }
}

/// Routes the owner's answer by the receipt's stored state. `code_matches`
/// and `scopes_match` compare what the owner saw with the receipt.
pub fn owner_confirmation_path(
    state: &str,
    approved: bool,
    code_matches: bool,
    scopes_match: bool,
) -> (r: Result<OwnerConfirmationPath, PairingError>)
    ensures
        r == owner_confirmation_route(state@, approved, code_matches, scopes_match),
        r == Ok::<OwnerConfirmationPath, PairingError>(OwnerConfirmationPath::Generate) ==> approved
            && code_matches && scopes_match,
{
    if str_eq(state, "active") {
        if !approved {
            return Err(PairingError::EnrollmentAlreadyActive);
        }
        return Ok(OwnerConfirmationPath::ReplayActive);
    }
    if str_eq(state, "revoked") {
        return Err(PairingError::DeviceRevoked);
    }
    if str_eq(state, "pending_finish") {
        return Ok(OwnerConfirmationPath::ReplayPending);
    }
    if !str_eq(state, "pending_user_confirmation") {
        return Err(PairingError::EnrollmentCancelled);
    }
    if !approved || !code_matches || !scopes_match {
        return Ok(OwnerConfirmationPath::Cancel);
    }
    Ok(OwnerConfirmationPath::Generate)
}

/// A repeated approval of an active enrollment must carry exactly the
/// committed confirmation digest.
pub fn check_active_replay(stored: &Option<[u8; 32]>, calculated: &[u8; 32]) -> (r: Result<
    (),
    PairingError,
>)
    ensures
        r is Ok <==> (stored matches Some(d) && d@ == calculated@),
        r is Err ==> r == Err::<(), PairingError>(PairingError::IdReuseQuarantined),
{
    match stored {
        Some(d) => {
            if bytes_eq(d, calculated) {
                Ok(())
            } else {
                Err(PairingError::IdReuseQuarantined)
            }
        },
        None => Err(PairingError::IdReuseQuarantined),
    }
}

pub open spec fn delivery_resolution_spec(
    state: Seq<char>,
    expires_at_ms: i64,
    now_ms: i64,
    bootstrap_response: Option<Vec<u8>>,
) -> Result<BootstrapDeliveryResolution, CoordinatorError> {
    if state != "active"@ && now_ms >= expires_at_ms {
        Ok(BootstrapDeliveryResolution::Rejected { reason: BootstrapDeliveryTerminal::Expired })
    } else if state == "pending_user_confirmation"@ {
        Ok(BootstrapDeliveryResolution::Pending { retry_after_ms: PENDING_POLL_RETRY_MS })
    } else if state == "pending_finish"@ || state == "active"@ {
        match bootstrap_response {
            Some(b) => Ok(BootstrapDeliveryResolution::Ready { exact_bootstrap_envelope: b }),
            None => Err(CoordinatorError::StateUnavailable("bootstrap response missing")),
        }
    } else if state == "cancelled"@ {
        Ok(BootstrapDeliveryResolution::Rejected { reason: BootstrapDeliveryTerminal::Cancelled })
    } else if state == "expired"@ {
        Ok(BootstrapDeliveryResolution::Rejected { reason: BootstrapDeliveryTerminal::Expired })
    } else if state == "revoked"@ {
        Ok(BootstrapDeliveryResolution::Rejected { reason: BootstrapDeliveryTerminal::Revoked })
    } else {
        Err(CoordinatorError::StateUnavailable("invalid bootstrap delivery receipt state"))
    }
}

/// What a bootstrap poll sees of a receipt at `now_ms`: an enrollment that
/// is not active expires at its deadline; before that the owner's pending
/// decision asks the phone to wait, a confirmed or active enrollment hands
/// over its committed bootstrap, and every other state is terminal.
pub fn delivery_resolution(
    state: &str,
    expires_at_ms: i64,
    now_ms: i64,
    bootstrap_response: Option<Vec<u8>>,
) -> (r: Result<BootstrapDeliveryResolution, CoordinatorError>)
    ensures
        r == delivery_resolution_spec(state@, expires_at_ms, now_ms, bootstrap_response),
{
    if !str_eq(state, "active") && now_ms >= expires_at_ms {
        return Ok(
            BootstrapDeliveryResolution::Rejected { reason: BootstrapDeliveryTerminal::Expired },
        );
    }
    if str_eq(state, "pending_user_confirmation") {
        return Ok(BootstrapDeliveryResolution::Pending { retry_after_ms: PENDING_POLL_RETRY_MS });
    }
    if str_eq(state, "pending_finish") || str_eq(state, "active") {
        return match bootstrap_response {
            Some(b) => Ok(BootstrapDeliveryResolution::Ready { exact_bootstrap_envelope: b }),
            None => Err(CoordinatorError::StateUnavailable("bootstrap response missing")),
        };
    }
    if str_eq(state, "cancelled") {
        return Ok(
            BootstrapDeliveryResolution::Rejected { reason: BootstrapDeliveryTerminal::Cancelled },
        );
    }
    if str_eq(state, "expired") {
        return Ok(
            BootstrapDeliveryResolution::Rejected { reason: BootstrapDeliveryTerminal::Expired },
        );
    }
    if str_eq(state, "revoked") {
        return Ok(
            BootstrapDeliveryResolution::Rejected { reason: BootstrapDeliveryTerminal::Revoked },
        );
    }
    Err(CoordinatorError::StateUnavailable("invalid bootstrap delivery receipt state"))
}

/// Settles a delivery commit against the row already stored under the
/// message id, or admits a new row when fewer than
/// `MAX_BOOTSTRAP_DELIVERY_REPLAYS_PER_WINDOW` were stored for the receipt in
/// the current window. `Ok(None)` means: insert the new row.
pub fn decide_delivery_commit(
    replay: &BootstrapDeliveryReplay,
    existing: Option<BootstrapDeliveryReplay>,
    recent_for_receipt: i64,
) -> (r: Result<Option<BootstrapReplayCommit>, CoordinatorError>)
    ensures
        match existing {
            Some(x) => if x.exact_request_sha256@ == replay.exact_request_sha256@ {
                r == Ok::<Option<BootstrapReplayCommit>, CoordinatorError>(
                    Some(BootstrapReplayCommit::Existing(x)),
                )
            } else {
                r == Ok::<Option<BootstrapReplayCommit>, CoordinatorError>(
                    Some(BootstrapReplayCommit::Conflict),
                )
            },
            None => if recent_for_receipt >= MAX_BOOTSTRAP_DELIVERY_REPLAYS_PER_WINDOW {
                r == Err::<Option<BootstrapReplayCommit>, CoordinatorError>(
                    CoordinatorError::Protocol(PairingError::ResourceLimit),
                )
            } else {
                r == Ok::<Option<BootstrapReplayCommit>, CoordinatorError>(None)
            },
        },
{
    match existing {
        Some(x) => {
            if bytes_eq(&x.exact_request_sha256, &replay.exact_request_sha256) {
                Ok(Some(BootstrapReplayCommit::Existing(x)))
            } else {
                Ok(Some(BootstrapReplayCommit::Conflict))
            }
        },
        None => {
            if recent_for_receipt >= MAX_BOOTSTRAP_DELIVERY_REPLAYS_PER_WINDOW {
                return Err(CoordinatorError::Protocol(PairingError::ResourceLimit));
            }
            Ok(None)
        },
    }
}

/// Copies a stored byte string into a fixed-size array; a wrong length is
/// corrupt state.
pub fn to_array32(value: &[u8]) -> (r: Result<[u8; 32], CoordinatorError>)
    ensures
        r is Ok <==> value@.len() == 32,
        r matches Ok(a) ==> a@ == value@,
        r matches Err(e) ==> e == CoordinatorError::StateUnavailable("stored byte length mismatch"),
{
    if value.len() != 32 {
        return Err(CoordinatorError::StateUnavailable("stored byte length mismatch"));
    }
    Ok(crate::models::to_array32(value))
}

} // verus!

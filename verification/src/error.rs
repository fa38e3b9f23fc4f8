//! Errors of the Apple security boundary and its stable native error codes.
use vstd::prelude::*;
use crate::canonical::push_str;
use crate::text::chars_of;

verus! {

/// Stable native error codes returned by the Apple security boundary.
#[derive(Debug, Clone, Copy, PartialEq, Eq, Structural)]
pub enum NativeErrorCode {
    InvalidArguments,
    PathRejected,
    KeychainFailure,
    PasscodeRequired,
    SecureEnclaveUnavailable,
    EntropyUnavailable,
    FixtureGateRejected,
    IdentityNotFound,
    InvalidIdentityState,
    IdentityCorrupted,
    BootstrapReplayMismatch,
    LegacyBootstrapRequiresDiscard,
    SigningFailed,
    HpkeOpenFailed,
    ProtectedDataUnavailable,
    FileProtectionFailed,
    BackupExclusionFailed,
    UnsupportedPlatform,
    Unknown,
}

/// The wire spelling of every known code, paired with the code it names.
pub open spec fn native_code_table() -> Seq<(Seq<char>, NativeErrorCode)> {
    seq![
        ("invalid_arguments"@, NativeErrorCode::InvalidArguments),
        ("path_rejected"@, NativeErrorCode::PathRejected),
        ("keychain_failure"@, NativeErrorCode::KeychainFailure),
        ("passcode_required"@, NativeErrorCode::PasscodeRequired),
        ("secure_enclave_unavailable"@, NativeErrorCode::SecureEnclaveUnavailable),
        ("entropy_unavailable"@, NativeErrorCode::EntropyUnavailable),
        ("fixture_gate_rejected"@, NativeErrorCode::FixtureGateRejected),
        ("identity_not_found"@, NativeErrorCode::IdentityNotFound),
        ("invalid_identity_state"@, NativeErrorCode::InvalidIdentityState),
        ("identity_corrupted"@, NativeErrorCode::IdentityCorrupted),
        ("bootstrap_replay_mismatch"@, NativeErrorCode::BootstrapReplayMismatch),
        ("legacy_bootstrap_requires_discard"@, NativeErrorCode::LegacyBootstrapRequiresDiscard),
        ("signing_failed"@, NativeErrorCode::SigningFailed),
        ("hpke_open_failed"@, NativeErrorCode::HpkeOpenFailed),
        ("protected_data_unavailable"@, NativeErrorCode::ProtectedDataUnavailable),
        ("file_protection_failed"@, NativeErrorCode::FileProtectionFailed),
        ("backup_exclusion_failed"@, NativeErrorCode::BackupExclusionFailed),
        ("unsupported_platform"@, NativeErrorCode::UnsupportedPlatform),
    ]
}

/// The code a wire spelling denotes: the first table entry spelled `code`,
/// `Unknown` when there is none.
pub open spec fn spec_native_code(code: Seq<char>) -> NativeErrorCode
    decreases 0nat,
{
    spec_native_code_from(code, 0)
}

pub open spec fn spec_native_code_from(code: Seq<char>, i: int) -> NativeErrorCode
    decreases native_code_table().len() - i,
{
    if i < 0 || i >= native_code_table().len() {
        NativeErrorCode::Unknown
    } else if native_code_table()[i].0 == code {
        native_code_table()[i].1
    } else {
        spec_native_code_from(code, i + 1)
    }
}

proof fn lemma_code_found_at(code: Seq<char>, k: int, i: int)
    requires
        0 <= k <= i < native_code_table().len(),
        native_code_table()[i].0 == code,
        forall|m: int| k <= m < i ==> (#[trigger] native_code_table()[m]).0 != code,
    ensures
        spec_native_code_from(code, k) == native_code_table()[i].1,
    decreases i - k,
{
    if k < i {
        lemma_code_found_at(code, k + 1, i);
    }
}

/// The known wire codes are pairwise distinct spellings of pairwise distinct
/// error codes, none of them `Unknown`, and each spelling is read back as the
/// code it names.
pub proof fn lemma_native_codes_are_distinct(i: int, j: int)
    requires
        0 <= i < native_code_table().len(),
        0 <= j < native_code_table().len(),
    ensures
        spec_native_code(native_code_table()[i].0) == native_code_table()[i].1,
        native_code_table()[i].1 != NativeErrorCode::Unknown,
        i != j ==> native_code_table()[i].0 != native_code_table()[j].0
            && native_code_table()[i].1 != native_code_table()[j].1,
{
    reveal_strlit("invalid_arguments");
    reveal_strlit("path_rejected");
    reveal_strlit("keychain_failure");
    reveal_strlit("passcode_required");
    reveal_strlit("secure_enclave_unavailable");
    reveal_strlit("entropy_unavailable");
    reveal_strlit("fixture_gate_rejected");
    reveal_strlit("identity_not_found");
    reveal_strlit("invalid_identity_state");
    reveal_strlit("identity_corrupted");
    reveal_strlit("bootstrap_replay_mismatch");
    reveal_strlit("legacy_bootstrap_requires_discard");
    reveal_strlit("signing_failed");
    reveal_strlit("hpke_open_failed");
    reveal_strlit("protected_data_unavailable");
    reveal_strlit("file_protection_failed");
    reveal_strlit("backup_exclusion_failed");
    reveal_strlit("unsupported_platform");
    assert(native_code_table()[0].0 == "invalid_arguments"@);
    assert(native_code_table()[1].0 == "path_rejected"@);
    assert(native_code_table()[2].0 == "keychain_failure"@);
    assert(native_code_table()[3].0 == "passcode_required"@);
    assert(native_code_table()[4].0 == "secure_enclave_unavailable"@);
    assert(native_code_table()[5].0 == "entropy_unavailable"@);
    assert(native_code_table()[6].0 == "fixture_gate_rejected"@);
    assert(native_code_table()[7].0 == "identity_not_found"@);
    assert(native_code_table()[8].0 == "invalid_identity_state"@);
    assert(native_code_table()[9].0 == "identity_corrupted"@);
    assert(native_code_table()[10].0 == "bootstrap_replay_mismatch"@);
    assert(native_code_table()[11].0 == "legacy_bootstrap_requires_discard"@);
    assert(native_code_table()[12].0 == "signing_failed"@);
    assert(native_code_table()[13].0 == "hpke_open_failed"@);
    assert(native_code_table()[14].0 == "protected_data_unavailable"@);
    assert(native_code_table()[15].0 == "file_protection_failed"@);
    assert(native_code_table()[16].0 == "backup_exclusion_failed"@);
    assert(native_code_table()[17].0 == "unsupported_platform"@);
    // Spellings of equal length differ in some character.
    assert("invalid_arguments"@[0] != "passcode_required"@[0]);
    assert("keychain_failure"@[0] != "hpke_open_failed"@[0]);
    assert("secure_enclave_unavailable"@[0] != "protected_data_unavailable"@[0]);
    assert("identity_not_found"@[9] != "identity_corrupted"@[9]);
    assert("invalid_identity_state"@[0] != "file_protection_failed"@[0]);
    lemma_code_found_at(native_code_table()[i].0, 0, i);
}

impl NativeErrorCode {
    /// Maps a native wire code to its variant; unknown codes fail closed to
    /// `Unknown`.
    pub fn from_code(code: &str) -> (r: Self)
        ensures
            r == spec_native_code(code@),
    {
        let c = chars_of(code);
        let names: [&str; 18] = [
            "invalid_arguments",
            "path_rejected",
            "keychain_failure",
            "passcode_required",
            "secure_enclave_unavailable",
            "entropy_unavailable",
            "fixture_gate_rejected",
            "identity_not_found",
            "invalid_identity_state",
            "identity_corrupted",
            "bootstrap_replay_mismatch",
            "legacy_bootstrap_requires_discard",
            "signing_failed",
            "hpke_open_failed",
            "protected_data_unavailable",
            "file_protection_failed",
            "backup_exclusion_failed",
            "unsupported_platform",
        ];
        let codes: [NativeErrorCode; 18] = [
            NativeErrorCode::InvalidArguments,
            NativeErrorCode::PathRejected,
            NativeErrorCode::KeychainFailure,
            NativeErrorCode::PasscodeRequired,
            NativeErrorCode::SecureEnclaveUnavailable,
            NativeErrorCode::EntropyUnavailable,
            NativeErrorCode::FixtureGateRejected,
            NativeErrorCode::IdentityNotFound,
            NativeErrorCode::InvalidIdentityState,
            NativeErrorCode::IdentityCorrupted,
            NativeErrorCode::BootstrapReplayMismatch,
            NativeErrorCode::LegacyBootstrapRequiresDiscard,
            NativeErrorCode::SigningFailed,
            NativeErrorCode::HpkeOpenFailed,
            NativeErrorCode::ProtectedDataUnavailable,
            NativeErrorCode::FileProtectionFailed,
            NativeErrorCode::BackupExclusionFailed,
            NativeErrorCode::UnsupportedPlatform,
        ];
        assert(forall|k: int| 0 <= k < 18 ==> native_code_table()[k].0 == (#[trigger] names@[k])@
            && native_code_table()[k].1 == codes@[k]);
        let mut i: usize = 0;
        while i < 18
            invariant
                i <= 18,
                c@ == code@,
                forall|k: int| 0 <= k < 18 ==> native_code_table()[k].0 == (#[trigger] names@[k])@
                    && native_code_table()[k].1 == codes@[k],
                spec_native_code(code@) == spec_native_code_from(code@, i as int),
            decreases 18 - i,
        {
            let n = chars_of(names[i]);
            if crate::text::chars_eq(&c, &n) {
                return codes[i];
            }
            i = i + 1;
        }
        NativeErrorCode::Unknown
    }
}

/// Errors of the Apple security boundary.
#[derive(Debug)]
pub enum Error {
    UnsupportedPlatform,
    InvalidNativeResponse(&'static str),
    Native { code: NativeErrorCode, raw_code: Option<String>, message: String },
    SanitizedFixtureCrypto(&'static str),
}

/// The name a code is shown by: its variant's name.
pub open spec fn code_name(code: NativeErrorCode) -> Seq<char> {
    match code {
        NativeErrorCode::InvalidArguments => "InvalidArguments"@,
        NativeErrorCode::PathRejected => "PathRejected"@,
        NativeErrorCode::KeychainFailure => "KeychainFailure"@,
        NativeErrorCode::PasscodeRequired => "PasscodeRequired"@,
        NativeErrorCode::SecureEnclaveUnavailable => "SecureEnclaveUnavailable"@,
        NativeErrorCode::EntropyUnavailable => "EntropyUnavailable"@,
        NativeErrorCode::FixtureGateRejected => "FixtureGateRejected"@,
        NativeErrorCode::IdentityNotFound => "IdentityNotFound"@,
        NativeErrorCode::InvalidIdentityState => "InvalidIdentityState"@,
        NativeErrorCode::IdentityCorrupted => "IdentityCorrupted"@,
        NativeErrorCode::BootstrapReplayMismatch => "BootstrapReplayMismatch"@,
        NativeErrorCode::LegacyBootstrapRequiresDiscard => "LegacyBootstrapRequiresDiscard"@,
        NativeErrorCode::SigningFailed => "SigningFailed"@,
        NativeErrorCode::HpkeOpenFailed => "HpkeOpenFailed"@,
        NativeErrorCode::ProtectedDataUnavailable => "ProtectedDataUnavailable"@,
        NativeErrorCode::FileProtectionFailed => "FileProtectionFailed"@,
        NativeErrorCode::BackupExclusionFailed => "BackupExclusionFailed"@,
        NativeErrorCode::UnsupportedPlatform => "UnsupportedPlatform"@,
        NativeErrorCode::Unknown => "Unknown"@,
    }
}

impl NativeErrorCode {
    /// The variant's name.
    pub fn name(self) -> (r: &'static str)
        ensures
            r@ == code_name(self),
    {
        match self {
            NativeErrorCode::InvalidArguments => "InvalidArguments",
            NativeErrorCode::PathRejected => "PathRejected",
            NativeErrorCode::KeychainFailure => "KeychainFailure",
            NativeErrorCode::PasscodeRequired => "PasscodeRequired",
            NativeErrorCode::SecureEnclaveUnavailable => "SecureEnclaveUnavailable",
            NativeErrorCode::EntropyUnavailable => "EntropyUnavailable",
            NativeErrorCode::FixtureGateRejected => "FixtureGateRejected",
            NativeErrorCode::IdentityNotFound => "IdentityNotFound",
            NativeErrorCode::InvalidIdentityState => "InvalidIdentityState",
            NativeErrorCode::IdentityCorrupted => "IdentityCorrupted",
            NativeErrorCode::BootstrapReplayMismatch => "BootstrapReplayMismatch",
            NativeErrorCode::LegacyBootstrapRequiresDiscard => "LegacyBootstrapRequiresDiscard",
            NativeErrorCode::SigningFailed => "SigningFailed",
            NativeErrorCode::HpkeOpenFailed => "HpkeOpenFailed",
            NativeErrorCode::ProtectedDataUnavailable => "ProtectedDataUnavailable",
            NativeErrorCode::FileProtectionFailed => "FileProtectionFailed",
            NativeErrorCode::BackupExclusionFailed => "BackupExclusionFailed",
            NativeErrorCode::UnsupportedPlatform => "UnsupportedPlatform",
            NativeErrorCode::Unknown => "Unknown",
        }
    }
}

pub const NATIVE_FAILURE_MESSAGE: &'static str = "native Apple security operation failed";

/// How an error reads to a user.
pub open spec fn error_message(e: Error) -> Seq<char> {
    match e {
        Error::UnsupportedPlatform => "Apple security is available only in the iOS runtime"@,
        Error::InvalidNativeResponse(field) => "native Apple security returned invalid "@ + field@,
        Error::Native { code, message, .. } => code_name(code) + ": "@ + message@,
        Error::SanitizedFixtureCrypto(reason) => "sanitized fixture record crypto failed: "@
            + reason@,
    }
}

impl Error {
    /// A native failure reported by the platform bridge: a known wire code
    /// becomes its variant, anything else `Unknown`, and a missing message
    /// a generic one.
    pub fn native(raw_code: Option<String>, message: Option<String>) -> (r: Self)
        ensures
            match r {
                Error::Native { code, raw_code: rc, message: m } => rc == raw_code && code == match raw_code {
                    Some(c) => spec_native_code(c@),
                    None => NativeErrorCode::Unknown,
                } && m@ == match message {
                    Some(t) => t@,
                    None => NATIVE_FAILURE_MESSAGE@,
                },
                _ => false,
            },
    {
        let code = match &raw_code {
            Some(c) => NativeErrorCode::from_code(c),
            None => NativeErrorCode::Unknown,
        };
        let message = match message {
            Some(t) => t,
            None => crate::text::string_from_chars(&chars_of(NATIVE_FAILURE_MESSAGE)),
        };
        Error::Native { code, raw_code, message }
    }

    /// How the error reads to a user.
    pub fn message(&self) -> (r: String)
        ensures
            r@ == error_message(*self),
    {
        let mut out: Vec<char> = Vec::new();
        match self {
            Error::UnsupportedPlatform => {
                push_str(&mut out, "Apple security is available only in the iOS runtime");
            },
            Error::InvalidNativeResponse(field) => {
                push_str(&mut out, "native Apple security returned invalid ");
                push_str(&mut out, field);
            },
            Error::Native { code, message, .. } => {
                push_str(&mut out, code.name());
                push_str(&mut out, ": ");
                push_str(&mut out, message.as_str());
            },
            Error::SanitizedFixtureCrypto(reason) => {
                push_str(&mut out, "sanitized fixture record crypto failed: ");
                push_str(&mut out, reason);
            },
        }
        assert(out@ =~= error_message(*self));
        crate::text::string_from_chars(&out)
    }
}

} // verus!

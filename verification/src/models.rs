//! Public identity, handle and request shapes exchanged with the native
//! Apple security boundary, with the checks applied before any value is used.
use vstd::prelude::*;
use crate::base64_codec::{base64_decode, base64_decode_spec, base64_encode, base64_encode_spec};
use crate::error::Error;
use crate::text::chars_of;
use crate::canonical::{json_string, member, push_json_string, push_key, push_str};
use vstd::string::StringSliceAdditionalSpecFns;

verus! {

pub const MAX_SIGNING_MESSAGE_BYTES: usize = 262144;
pub const MAX_HPKE_FIELD_BYTES: usize = 262144;
pub const P256_PUBLIC_KEY_BYTES: usize = 65;
pub const P256_SIGNATURE_BYTES: usize = 64;
pub const X25519_PUBLIC_KEY_BYTES: usize = 32;
pub const SHA256_BYTES: usize = 32;
pub const FIXTURE_GATE: &'static str = "sanitized-development-fixture-v1";


/// Pairing protocol identifier carried by every bootstrap.
pub const PAIRING_PROTOCOL: &'static str = "noted.direct-pairing.v1";
/// Pairing cryptographic suite identifier.
pub const PAIRING_SUITE: &'static str = "P256-ECDSA-P1363+X25519-HPKE-SHA256+TLS13-SPKI-PIN";
/// The v1 record AEAD suite: per-record HKDF-SHA256 keys, AES-256-GCM, and an
/// inner P-256 record signature.
pub const RECORD_CIPHER_SUITE: &'static str = "noted.record-aead.v1/HKDF-SHA256+AES-256-GCM+P256";
pub const BOOTSTRAP_METADATA_VERSION: u32 = 1;
pub const BOOTSTRAP_SYNC_PROTOCOL_VERSION: u32 = 1;
pub const I64_MAX_AS_U64: u64 = 9223372036854775807;

/// Per record kind reader/writer schema versions granted by a bootstrap.
#[derive(Debug, Clone, Copy, PartialEq, Eq)]
pub struct BootstrapCapabilityV1 {
    pub reader_version: u32,
    pub writer_version: Option<u32>,
}

/// Non-secret facts of an activated library bootstrap.
#[derive(Debug, Clone, PartialEq, Eq)]
pub struct BootstrapMetadataV1 {
    pub version: u32,
    pub protocol: String,
    pub suite: String,
    pub sync_protocol_version: u32,
    pub environment: String,
    pub library_data_class: String,
    pub receipt_id: String,
    pub library_id: String,
    pub device_id: String,
    pub authority_generation: u64,
    pub purge_generation: u64,
    pub key_epoch: u64,
    pub default_scope_id: String,
    pub default_scope_class: String,
    /// Record kinds granted to the device ("note", "category", "folder").
    pub granted_scopes: Vec<String>,
    /// Capability per granted record kind, keyed by the kind's name.
    pub capabilities: Vec<(String, BootstrapCapabilityV1)>,
    pub record_cipher_suite: String,
    pub durable_sync_spki_sha256: [u8; 32],
    pub transcript_digest: [u8; 32],
}

/// The record kind names a bootstrap may grant.
pub open spec fn is_record_kind_name(s: Seq<char>) -> bool {
    s == "note"@ || s == "category"@ || s == "folder"@
}

/// The first capability listed for `kind`, if any.
pub open spec fn capability_for(caps: Seq<(String, BootstrapCapabilityV1)>, kind: Seq<char>) -> Option<
    BootstrapCapabilityV1,
>
    decreases caps.len(),
{
    if caps.len() == 0 {
        None
    } else if caps[0].0@ == kind {
        Some(caps[0].1)
    } else {
        capability_for(caps.drop_first(), kind)
    }
}

/// Some entry of `names` equals `x`.
pub open spec fn names_contain(names: Seq<String>, x: Seq<char>) -> bool {
    exists|j: int| 0 <= j < names.len() && (#[trigger] names[j])@ == x
}

/// Some capability is keyed by `x`.
pub open spec fn capabilities_contain(caps: Seq<(String, BootstrapCapabilityV1)>, x: Seq<char>) -> bool {
    exists|j: int| 0 <= j < caps.len() && (#[trigger] caps[j]).0@ == x
}

/// The scope and capability tables of a fixture bootstrap are well formed:
/// every granted scope is a known record kind granted once, every capability
/// belongs to a granted scope and is listed once, and every granted scope has
/// a capability whose writer version (when present) is readable.
pub open spec fn scopes_and_capabilities_ok(
    scopes: Seq<String>,
    caps: Seq<(String, BootstrapCapabilityV1)>,
) -> bool {
    &&& scopes.len() > 0
    &&& forall|i: int| 0 <= i < scopes.len() ==> is_record_kind_name(#[trigger] scopes[i]@)
    &&& forall|i: int, j: int| 0 <= i < j < scopes.len() ==> scopes[i]@ != scopes[j]@
    &&& forall|i: int, j: int| 0 <= i < j < caps.len() ==> caps[i].0@ != caps[j].0@
    &&& forall|i: int| 0 <= i < caps.len() ==> names_contain(scopes, (#[trigger] caps[i]).0@)
    &&& forall|i: int| 0 <= i < scopes.len() ==> capabilities_contain(caps, (#[trigger] scopes[i])@)
    &&& forall|i: int|
        0 <= i < caps.len() ==> match (#[trigger] caps[i]).1.writer_version {
            Some(w) => w <= caps[i].1.reader_version,
            None => true,
        }
}

/// Every check a bootstrap must pass before its facts bind record crypto:
/// the v1 protocol, suite and sync version, a sanitized development fixture
/// library, UUIDv7 identifiers, positive generations that fit `i64`, the v1
/// record cipher suite and well-formed scopes and capabilities.
pub open spec fn bootstrap_metadata_ok(m: BootstrapMetadataV1) -> bool {
    &&& m.version == BOOTSTRAP_METADATA_VERSION
    &&& m.protocol@ == PAIRING_PROTOCOL@
    &&& m.suite@ == PAIRING_SUITE@
    &&& m.sync_protocol_version == BOOTSTRAP_SYNC_PROTOCOL_VERSION
    &&& m.environment@ == "development"@
    &&& m.library_data_class@ == "sanitized_fixture"@
    &&& is_uuid_v7(m.receipt_id@)
    &&& is_uuid_v7(m.library_id@)
    &&& is_uuid_v7(m.device_id@)
    &&& is_uuid_v7(m.default_scope_id@)
    &&& m.default_scope_class@ == "unknown"@
    &&& 0 < m.authority_generation <= I64_MAX_AS_U64
    &&& m.purge_generation <= I64_MAX_AS_U64
    &&& 0 < m.key_epoch <= I64_MAX_AS_U64
    &&& m.record_cipher_suite@ == RECORD_CIPHER_SUITE@
    &&& scopes_and_capabilities_ok(m.granted_scopes@, m.capabilities@)
}

/// The error the first broken rule of bootstrap metadata is reported with.
pub open spec fn metadata_failure(m: BootstrapMetadataV1) -> Option<Error> {
    if !(m.version == BOOTSTRAP_METADATA_VERSION && m.protocol@ == PAIRING_PROTOCOL@ && m.suite@
        == PAIRING_SUITE@ && m.sync_protocol_version == BOOTSTRAP_SYNC_PROTOCOL_VERSION
        && m.environment@ == "development"@ && m.library_data_class@ == "sanitized_fixture"@
        && m.default_scope_class@ == "unknown"@ && 0 < m.authority_generation <= I64_MAX_AS_U64
        && m.purge_generation <= I64_MAX_AS_U64 && 0 < m.key_epoch <= I64_MAX_AS_U64
        && m.record_cipher_suite@ == RECORD_CIPHER_SUITE@) {
        Some(Error::InvalidNativeResponse("bootstrap metadata"))
    } else if !is_uuid_v7(m.receipt_id@) {
        Some(uuid_v7_error(m.receipt_id@))
    } else if !is_uuid_v7(m.library_id@) {
        Some(uuid_v7_error(m.library_id@))
    } else if !is_uuid_v7(m.device_id@) {
        Some(uuid_v7_error(m.device_id@))
    } else if !is_uuid_v7(m.default_scope_id@) {
        Some(uuid_v7_error(m.default_scope_id@))
    } else if !scopes_and_capabilities_ok(m.granted_scopes@, m.capabilities@) {
        Some(Error::InvalidNativeResponse("bootstrap capabilities"))
    } else {
        None
    }
}

pub type SecurityResult<T> = core::result::Result<T, Error>;

/// A lowercase hexadecimal digit character.
pub open spec fn is_lower_hex(c: char) -> bool {
    ('0' <= c && c <= '9') || ('a' <= c && c <= 'f')
}

/// Whether position `i` of a canonical UUID text holds a dash.
pub open spec fn is_dash_position(i: int) -> bool {
    i == 8 || i == 13 || i == 18 || i == 23
}

/// The canonical lowercase 8-4-4-4-12 UUID text shape of an opaque handle.
pub open spec fn is_opaque_handle(s: Seq<char>) -> bool {
    &&& s.len() == 36
    &&& forall|i: int|
        0 <= i < 36 ==> if is_dash_position(i) {
            s[i] == '-'
        } else {
            is_lower_hex(#[trigger] s[i])
        }
}

/// A canonical lowercase UUID whose version nibble is 7 and whose variant
/// nibble is one of 8, 9, a, b.
pub open spec fn is_uuid_v7(s: Seq<char>) -> bool {
    &&& is_opaque_handle(s)
    &&& s[14] == '7'
    &&& (s[19] == '8' || s[19] == '9' || s[19] == 'a' || s[19] == 'b')
}

fn is_lower_hex_exec(c: char) -> (r: bool)
    ensures
        r == is_lower_hex(c),
{
    ('0' <= c && c <= '9') || ('a' <= c && c <= 'f')
}

fn opaque_handle_ok(value: &str) -> (r: bool)
    ensures
        r == is_opaque_handle(value@),
{
    let c = chars_of(value);
    if c.len() != 36 {
        return false;
    }
    let mut i: usize = 0;
    while i < 36
        invariant
            c@ == value@,
            c@.len() == 36,
            i <= 36,
            forall|k: int|
                0 <= k < i ==> if is_dash_position(k) {
                    c@[k] == '-'
                } else {
                    is_lower_hex(#[trigger] c@[k])
                },
        decreases 36 - i,
    {
        let ok = if i == 8 || i == 13 || i == 18 || i == 23 {
            c[i] == '-'
        } else {
            is_lower_hex_exec(c[i])
        };
        if !ok {
            return false;
        }
        i = i + 1;
    }
    true
}

/// Accepts only the canonical lowercase UUID text shape.
pub fn validate_opaque_handle(value: &str) -> (r: SecurityResult<()>)
    ensures
        r is Ok <==> is_opaque_handle(value@),
        r matches Err(e) ==> e == Error::InvalidNativeResponse("opaque handle"),
{
    if opaque_handle_ok(value) {
        Ok(())
    } else {
        Err(Error::InvalidNativeResponse("opaque handle"))
    }
}

/// The error a text that is not a UUIDv7 is refused with: not even the
/// shape of a handle, or a handle of another UUID version.
pub open spec fn uuid_v7_error(value: Seq<char>) -> Error {
    if is_opaque_handle(value) {
        Error::InvalidNativeResponse("UUIDv7 device ID")
    } else {
        Error::InvalidNativeResponse("opaque handle")
    }
}

/// Accepts only canonical lowercase UUIDv7 text.
pub fn validate_uuid_v7(value: &str) -> (r: SecurityResult<()>)
    ensures
        r is Ok <==> is_uuid_v7(value@),
        r matches Err(e) ==> e == uuid_v7_error(value@),
{
    validate_opaque_handle(value)?;
    let c = chars_of(value);
    let v = c[19];
    if c[14] != '7' || !(v == '8' || v == '9' || v == 'a' || v == 'b') {
        return Err(Error::InvalidNativeResponse("UUIDv7 device ID"));
    }
    Ok(())
}


fn is_record_kind_name_exec(s: &str) -> (r: bool)
    ensures
        r == is_record_kind_name(s@),
{
    crate::text::str_eq(s, "note") || crate::text::str_eq(s, "category") || crate::text::str_eq(
        s,
        "folder",
    )
}

/// Whether some entry of `names` equals `x`.
pub fn contains_name(names: &[String], x: &str) -> (r: bool)
    ensures
        r == names_contain(names@, x@),
{
    let mut j: usize = 0;
    while j < names.len()
        invariant
            j <= names@.len(),
            forall|k: int| 0 <= k < j ==> (#[trigger] names@[k])@ != x@,
        decreases names@.len() - j,
    {
        if crate::text::str_eq(names[j].as_str(), x) {
            return true;
        }
        j = j + 1;
    }
    false
}

fn contains_capability(caps: &[(String, BootstrapCapabilityV1)], x: &str) -> (r: bool)
    ensures
        r == capabilities_contain(caps@, x@),
{
    let mut j: usize = 0;
    while j < caps.len()
        invariant
            j <= caps@.len(),
            forall|k: int| 0 <= k < j ==> (#[trigger] caps@[k]).0@ != x@,
        decreases caps@.len() - j,
    {
        if crate::text::str_eq(caps[j].0.as_str(), x) {
            return true;
        }
        j = j + 1;
    }
    false
}

/// Looks up the first capability listed for `kind`.
pub fn find_capability(caps: &[(String, BootstrapCapabilityV1)], kind: &str) -> (r: Option<
    BootstrapCapabilityV1,
>)
    ensures
        r == capability_for(caps@, kind@),
{
    let mut j: usize = 0;
    assert(caps@.skip(0) =~= caps@);
    while j < caps.len()
        invariant
            j <= caps@.len(),
            capability_for(caps@, kind@) == capability_for(caps@.skip(j as int), kind@),
        decreases caps@.len() - j,
    {
        assert(caps@.skip(j as int).drop_first() =~= caps@.skip(j + 1));
        if crate::text::str_eq(caps[j].0.as_str(), kind) {
            return Some(caps[j].1);
        }
        j = j + 1;
    }
    None
}

fn scopes_and_capabilities_valid(scopes: &[String], caps: &[(String, BootstrapCapabilityV1)]) -> (r:
    bool)
    ensures
        r == scopes_and_capabilities_ok(scopes@, caps@),
{
    if scopes.len() == 0 {
        return false;
    }
    let mut i: usize = 0;
    while i < scopes.len()
        invariant
            i <= scopes@.len(),
            forall|k: int| 0 <= k < i ==> is_record_kind_name(#[trigger] scopes@[k]@),
            forall|k: int, l: int| 0 <= k < l < scopes@.len() && k < i ==> scopes@[k]@ != scopes@[l]@,
            forall|k: int| 0 <= k < i ==> capabilities_contain(caps@, (#[trigger] scopes@[k])@),
        decreases scopes@.len() - i,
    {
        if !is_record_kind_name_exec(scopes[i].as_str()) {
            return false;
        }
        let mut l: usize = i + 1;
        while l < scopes.len()
            invariant
                i < scopes@.len(),
                i + 1 <= l <= scopes@.len(),
                forall|m: int| i < m < l ==> scopes@[i as int]@ != (#[trigger] scopes@[m])@,
            decreases scopes@.len() - l,
        {
            if crate::text::str_eq(scopes[i].as_str(), scopes[l].as_str()) {
                return false;
            }
            l = l + 1;
        }
        if !contains_capability(caps, scopes[i].as_str()) {
            return false;
        }
        i = i + 1;
    }
    let mut i: usize = 0;
    while i < caps.len()
        invariant
            i <= caps@.len(),
            scopes@.len() > 0,
            forall|k: int| 0 <= k < scopes@.len() ==> is_record_kind_name(#[trigger] scopes@[k]@),
            forall|k: int, l: int| 0 <= k < l < scopes@.len() ==> scopes@[k]@ != scopes@[l]@,
            forall|k: int| 0 <= k < scopes@.len() ==> capabilities_contain(caps@, (#[trigger] scopes@[k])@),
            forall|k: int, l: int| 0 <= k < l < caps@.len() && k < i ==> caps@[k].0@ != caps@[l].0@,
            forall|k: int| 0 <= k < i ==> names_contain(scopes@, (#[trigger] caps@[k]).0@),
            forall|k: int|
                0 <= k < i ==> match (#[trigger] caps@[k]).1.writer_version {
                    Some(w) => w <= caps@[k].1.reader_version,
                    None => true,
                },
        decreases caps@.len() - i,
    {
        let mut l: usize = i + 1;
        while l < caps.len()
            invariant
                i < caps@.len(),
                i + 1 <= l <= caps@.len(),
                forall|m: int| i < m < l ==> caps@[i as int].0@ != (#[trigger] caps@[m]).0@,
            decreases caps@.len() - l,
        {
            if crate::text::str_eq(caps[i].0.as_str(), caps[l].0.as_str()) {
                return false;
            }
            l = l + 1;
        }
        if !contains_name(scopes, caps[i].0.as_str()) {
            return false;
        }
        match caps[i].1.writer_version {
            Some(w) => {
                if w > caps[i].1.reader_version {
                    return false;
                }
            },
            None => {},
        }
        i = i + 1;
    }
    true
}

impl BootstrapMetadataV1 {
    /// Accepts exactly the bootstraps `bootstrap_metadata_ok` describes.
    pub fn validate(&self) -> (r: SecurityResult<()>)
        ensures
            r is Ok <==> bootstrap_metadata_ok(*self),
            r matches Err(e) ==> metadata_failure(*self) == Some(e),
    {
        if self.version != BOOTSTRAP_METADATA_VERSION || !crate::text::str_eq(
            self.protocol.as_str(),
            PAIRING_PROTOCOL,
        ) || !crate::text::str_eq(self.suite.as_str(), PAIRING_SUITE)
            || self.sync_protocol_version != BOOTSTRAP_SYNC_PROTOCOL_VERSION
            || !crate::text::str_eq(self.environment.as_str(), "development")
            || !crate::text::str_eq(self.library_data_class.as_str(), "sanitized_fixture")
            || !crate::text::str_eq(self.default_scope_class.as_str(), "unknown")
            || self.authority_generation == 0 || self.authority_generation > I64_MAX_AS_U64
            || self.purge_generation > I64_MAX_AS_U64 || self.key_epoch == 0 || self.key_epoch
            > I64_MAX_AS_U64 || !crate::text::str_eq(
            self.record_cipher_suite.as_str(),
            RECORD_CIPHER_SUITE,
        ) {
            return Err(Error::InvalidNativeResponse("bootstrap metadata"));
        }
        validate_uuid_v7(self.receipt_id.as_str())?;
        validate_uuid_v7(self.library_id.as_str())?;
        validate_uuid_v7(self.device_id.as_str())?;
        validate_uuid_v7(self.default_scope_id.as_str())?;
        if !scopes_and_capabilities_valid(&self.granted_scopes, &self.capabilities) {
            return Err(Error::InvalidNativeResponse("bootstrap capabilities"));
        }
        Ok(())
    }
}

/// Opaque Keychain identity reference; always canonical lowercase UUID text.
#[derive(Debug, Clone, PartialEq, Eq, Hash)]
pub struct IdentityHandle(String);

impl View for IdentityHandle {
    type V = Seq<char>;

    closed spec fn view(&self) -> Seq<char> {
        self.0@
    }
}

impl IdentityHandle {
    pub fn parse(value: String) -> (r: SecurityResult<Self>)
        ensures
            r is Ok <==> is_opaque_handle(value@),
            r matches Ok(h) ==> h@ == value@,
            r matches Err(e) ==> e == Error::InvalidNativeResponse("opaque handle"),
    {
        validate_opaque_handle(value.as_str())?;
        Ok(Self(value))
    }

    pub fn expose_opaque(&self) -> (r: &str)
        ensures
            r@ == self@,
    {
        self.0.as_str()
    }

    pub fn from_opaque(value: &str) -> (r: SecurityResult<Self>)
        ensures
            r is Ok <==> is_opaque_handle(value@),
            r matches Ok(h) ==> h@ == value@,
            r matches Err(e) ==> e == Error::InvalidNativeResponse("opaque handle"),
    {
        Self::parse(value.to_owned())
    }
}

/// Opaque reference to a staged, not yet activated bootstrap.
#[derive(Debug, Clone, PartialEq, Eq, Hash)]
pub struct PendingBootstrapHandle(String);

impl View for PendingBootstrapHandle {
    type V = Seq<char>;

    closed spec fn view(&self) -> Seq<char> {
        self.0@
    }
}

impl PendingBootstrapHandle {
    pub fn parse(value: String) -> (r: SecurityResult<Self>)
        ensures
            r is Ok <==> is_opaque_handle(value@),
            r matches Ok(h) ==> h@ == value@,
            r matches Err(e) ==> e == Error::InvalidNativeResponse("opaque handle"),
    {
        validate_opaque_handle(value.as_str())?;
        Ok(Self(value))
    }

    pub fn expose_opaque(&self) -> (r: &str)
        ensures
            r@ == self@,
    {
        self.0.as_str()
    }

    pub fn from_opaque(value: &str) -> (r: SecurityResult<Self>)
        ensures
            r is Ok <==> is_opaque_handle(value@),
            r matches Ok(h) ==> h@ == value@,
            r matches Err(e) ==> e == Error::InvalidNativeResponse("opaque handle"),
    {
        Self::parse(value.to_owned())
    }
}

#[derive(Debug, Clone, Copy, PartialEq, Eq, Structural)]
pub enum IdentityLifecycle {
    Pending,
    Active,
    Discarded,
}

#[derive(Debug, Clone, Copy, PartialEq, Eq, Structural)]
pub enum SigningKeyBacking {
    SecureEnclave,
    SoftwareFixture,
}

#[derive(Debug, Clone, PartialEq, Eq)]
pub struct PublicIdentity {
    pub handle: IdentityHandle,
    pub device_id: String,
    pub signing_public_key: Vec<u8>,
    pub hpke_public_key: Vec<u8>,
    pub lifecycle: IdentityLifecycle,
    pub signing_key_backing: SigningKeyBacking,
    pub bootstrap_recovery: Option<BootstrapRecovery>,
}

#[derive(Debug, Clone, PartialEq, Eq)]
pub struct BootstrapRecovery {
    pub pending_bootstrap_handle: PendingBootstrapHandle,
    pub receipt_id: String,
    pub envelope_digest: Vec<u8>,
}

#[derive(Debug, Clone, PartialEq, Eq)]
pub struct IdentityInventory {
    pub pending: Vec<PublicIdentity>,
    pub active: Vec<PublicIdentity>,
    pub discarded: Vec<PublicIdentity>,
}

/// Native inventory as it arrives over the bridge, before any check.
#[derive(Debug)]
pub struct IdentityInventoryWire {
    pub pending: Vec<PublicIdentityWire>,
    pub active: Vec<PublicIdentityWire>,
    pub discarded: Vec<PublicIdentityWire>,
}

/// Native public identity as it arrives over the bridge, before any check.
#[derive(Debug)]
pub struct PublicIdentityWire {
    pub handle: String,
    pub device_id: String,
    pub signing_public_key_base64: String,
    pub hpke_public_key_base64: String,
    pub lifecycle: IdentityLifecycle,
    pub signing_key_backing: SigningKeyBacking,
    pub bootstrap_recovery: Option<BootstrapRecoveryWire>,
}

#[derive(Debug)]
pub struct BootstrapRecoveryWire {
    pub pending_bootstrap_handle: String,
    pub receipt_id: String,
    pub envelope_digest_base64: String,
}

/// `text` decodes as base64 to exactly `expected` bytes.
pub open spec fn decodes_exact(text: Seq<char>, expected: nat) -> bool {
    base64_decode_spec(text) matches Some(d) && d.len() == expected
}

/// `text` decodes as base64 to at most `maximum` bytes.
pub open spec fn decodes_bounded(text: Seq<char>, maximum: nat) -> bool {
    base64_decode_spec(text) matches Some(d) && d.len() <= maximum
}

/// The bytes a base64 text decodes to (meaningful where it decodes).
pub open spec fn decoded(text: Seq<char>) -> Seq<u8> {
    base64_decode_spec(text).unwrap()
}

/// Base64-decodes `value`, accepting only exactly `expected` bytes.
pub fn decode_exact(value: &str, expected: usize, field: &'static str) -> (r: SecurityResult<
    Vec<u8>,
>)
    ensures
        r is Ok <==> decodes_exact(value@, expected as nat),
        r matches Ok(d) ==> d@ == decoded(value@),
        r matches Err(e) ==> e == Error::InvalidNativeResponse(field),
{
    let decoded = match base64_decode(value) {
        Some(d) => d,
        None => return Err(Error::InvalidNativeResponse(field)),
    };
    if decoded.len() != expected {
        return Err(Error::InvalidNativeResponse(field));
    }
    Ok(decoded)
}

/// Base64-decodes `value`, accepting at most `maximum` bytes.
pub fn decode_bounded(value: &str, maximum: usize, field: &'static str) -> (r: SecurityResult<
    Vec<u8>,
>)
    ensures
        r is Ok <==> decodes_bounded(value@, maximum as nat),
        r matches Ok(d) ==> d@ == decoded(value@),
        r matches Err(e) ==> e == Error::InvalidNativeResponse(field),
{
    let decoded = match base64_decode(value) {
        Some(d) => d,
        None => return Err(Error::InvalidNativeResponse(field)),
    };
    if decoded.len() > maximum {
        return Err(Error::InvalidNativeResponse(field));
    }
    Ok(decoded)
}

/// Every check a bridged recovery binding must pass.
pub open spec fn recovery_wire_ok(w: BootstrapRecoveryWire) -> bool {
    &&& is_uuid_v7(w.receipt_id@)
    &&& is_opaque_handle(w.pending_bootstrap_handle@)
    &&& decodes_exact(w.envelope_digest_base64@, 32)
}

/// Every check a bridged public identity must pass: a UUIDv7 device id, an
/// uncompressed 65-byte P-256 key (leading 0x04), a 32-byte X25519 key, a
/// canonical handle, and a well-formed recovery binding where one is present.
pub open spec fn identity_wire_ok(w: PublicIdentityWire) -> bool {
    &&& is_uuid_v7(w.device_id@)
    &&& decodes_exact(w.signing_public_key_base64@, 65)
    &&& decoded(w.signing_public_key_base64@)[0] == 0x04
    &&& is_opaque_handle(w.handle@)
    &&& decodes_exact(w.hpke_public_key_base64@, 32)
    &&& match w.bootstrap_recovery {
        Some(rw) => recovery_wire_ok(rw),
        None => true,
    }
}

/// The error the first failed check of a recovery binding is reported with.
pub open spec fn recovery_wire_failure(w: BootstrapRecoveryWire) -> Option<Error> {
    if !is_uuid_v7(w.receipt_id@) {
        Some(uuid_v7_error(w.receipt_id@))
    } else if !is_opaque_handle(w.pending_bootstrap_handle@) {
        Some(Error::InvalidNativeResponse("opaque handle"))
    } else if !decodes_exact(w.envelope_digest_base64@, 32) {
        Some(Error::InvalidNativeResponse("bootstrap envelope digest"))
    } else {
        None
    }
}

/// The error the first failed check of a bridged identity is reported with.
pub open spec fn identity_wire_failure(w: PublicIdentityWire) -> Option<Error> {
    if !is_uuid_v7(w.device_id@) {
        Some(uuid_v7_error(w.device_id@))
    } else if !decodes_exact(w.signing_public_key_base64@, 65) {
        Some(Error::InvalidNativeResponse("P-256 public key"))
    } else if decoded(w.signing_public_key_base64@)[0] != 0x04 {
        Some(Error::InvalidNativeResponse("P-256 public key encoding"))
    } else if !is_opaque_handle(w.handle@) {
        Some(Error::InvalidNativeResponse("opaque handle"))
    } else if !decodes_exact(w.hpke_public_key_base64@, 32) {
        Some(Error::InvalidNativeResponse("X25519 public key"))
    } else {
        match w.bootstrap_recovery {
            Some(rw) => recovery_wire_failure(rw),
            None => None,
        }
    }
}

/// `p` carries exactly the facts of the checked wire value `w`.
pub open spec fn identity_from_wire(p: PublicIdentity, w: PublicIdentityWire) -> bool {
    &&& p.handle@ == w.handle@
    &&& p.device_id@ == w.device_id@
    &&& p.signing_public_key@ == decoded(w.signing_public_key_base64@)
    &&& p.hpke_public_key@ == decoded(w.hpke_public_key_base64@)
    &&& p.lifecycle == w.lifecycle
    &&& p.signing_key_backing == w.signing_key_backing
    &&& match (p.bootstrap_recovery, w.bootstrap_recovery) {
        (Some(r), Some(rw)) => {
            &&& r.pending_bootstrap_handle@ == rw.pending_bootstrap_handle@
            &&& r.receipt_id@ == rw.receipt_id@
            &&& r.envelope_digest@ == decoded(rw.envelope_digest_base64@)
        },
        (None, None) => true,
        _ => false,
    }
}

impl BootstrapRecovery {
    pub fn from_wire(wire: BootstrapRecoveryWire) -> (r: SecurityResult<Self>)
        ensures
            r is Ok <==> recovery_wire_ok(wire),
            r matches Err(e) ==> recovery_wire_failure(wire) == Some(e),
            r matches Ok(b) ==> b.pending_bootstrap_handle@ == wire.pending_bootstrap_handle@
                && b.receipt_id@ == wire.receipt_id@ && b.envelope_digest@ == decoded(
                wire.envelope_digest_base64@,
            ),
    {
        validate_uuid_v7(wire.receipt_id.as_str())?;
        let pending_bootstrap_handle = PendingBootstrapHandle::parse(
            wire.pending_bootstrap_handle,
        )?;
        let envelope_digest = decode_exact(
            wire.envelope_digest_base64.as_str(),
            SHA256_BYTES,
            "bootstrap envelope digest",
        )?;
        Ok(BootstrapRecovery {
            pending_bootstrap_handle,
            receipt_id: wire.receipt_id,
            envelope_digest,
        })
    }
}

impl PublicIdentity {
    /// Checks a bridged identity and keeps only decoded public facts.
    pub fn from_wire(wire: PublicIdentityWire) -> (r: SecurityResult<Self>)
        ensures
            r is Ok <==> identity_wire_ok(wire),
            r matches Ok(p) ==> identity_from_wire(p, wire),
            r matches Err(e) ==> identity_wire_failure(wire) == Some(e),
    {
        validate_uuid_v7(wire.device_id.as_str())?;
        let signing_public_key = decode_exact(
            wire.signing_public_key_base64.as_str(),
            P256_PUBLIC_KEY_BYTES,
            "P-256 public key",
        )?;
        if signing_public_key[0] != 0x04 {
            return Err(Error::InvalidNativeResponse("P-256 public key encoding"));
        }
        let handle = IdentityHandle::parse(wire.handle)?;
        let hpke_public_key = decode_exact(
            wire.hpke_public_key_base64.as_str(),
            X25519_PUBLIC_KEY_BYTES,
            "X25519 public key",
        )?;
        let bootstrap_recovery = match wire.bootstrap_recovery {
            Some(recovery) => Some(BootstrapRecovery::from_wire(recovery)?),
            None => None,
        };
        Ok(Self {
            handle,
            device_id: wire.device_id,
            signing_public_key,
            hpke_public_key,
            lifecycle: wire.lifecycle,
            signing_key_backing: wire.signing_key_backing,
            bootstrap_recovery,
        })
    }
}

/// Checks every identity of a list, in order, stopping at the first failure.
fn identities_from_wire(wires: Vec<PublicIdentityWire>) -> (r: SecurityResult<Vec<PublicIdentity>>)
    ensures
        r is Ok <==> forall|i: int| 0 <= i < wires@.len() ==> identity_wire_ok(#[trigger] wires@[i]),
        r matches Ok(v) ==> v@.len() == wires@.len() && forall|i: int|
            0 <= i < wires@.len() ==> identity_from_wire(#[trigger] v@[i], wires@[i]),
{
    let ghost wires_before = wires@;
    let mut out: Vec<PublicIdentity> = Vec::new();
    for w in it: wires.into_iter()
        invariant
            it.seq() == wires_before,
            out@.len() == it.index(),
            forall|i: int| 0 <= i < out@.len() ==> identity_wire_ok(#[trigger] wires_before[i]),
            forall|i: int| 0 <= i < out@.len() ==> identity_from_wire(#[trigger] out@[i], wires_before[i]),
    {
        let p = PublicIdentity::from_wire(w)?;
        out.push(p);
    }
    Ok(out)
}

impl IdentityInventory {
    pub fn from_wire(wire: IdentityInventoryWire) -> (r: SecurityResult<Self>)
        ensures
            r is Ok <==> (forall|i: int|
                0 <= i < wire.pending@.len() ==> identity_wire_ok(#[trigger] wire.pending@[i]))
                && (forall|i: int|
                0 <= i < wire.active@.len() ==> identity_wire_ok(#[trigger] wire.active@[i]))
                && (forall|i: int|
                0 <= i < wire.discarded@.len() ==> identity_wire_ok(#[trigger] wire.discarded@[i])),
            r matches Ok(inv) ==> inv.pending@.len() == wire.pending@.len() && inv.active@.len()
                == wire.active@.len() && inv.discarded@.len() == wire.discarded@.len() && (forall|
                i: int|
                0 <= i < wire.pending@.len() ==> identity_from_wire(
                    #[trigger] inv.pending@[i],
                    wire.pending@[i],
                )) && (forall|i: int|
                0 <= i < wire.active@.len() ==> identity_from_wire(
                    #[trigger] inv.active@[i],
                    wire.active@[i],
                )) && (forall|i: int|
                0 <= i < wire.discarded@.len() ==> identity_from_wire(
                    #[trigger] inv.discarded@[i],
                    wire.discarded@[i],
                )),
    {
        let pending = identities_from_wire(wire.pending)?;
        let active = identities_from_wire(wire.active)?;
        let discarded = identities_from_wire(wire.discarded)?;
        Ok(Self { pending, active, discarded })
    }
}

/// Native signing request.
#[derive(Debug)]
pub struct SignArgs<'a> {
    pub handle: &'a str,
    pub message_base64: String,
}

impl<'a> SignArgs<'a> {
    pub fn new(handle: &'a IdentityHandle, message: &[u8]) -> (r: SecurityResult<Self>)
        ensures
            r is Ok <==> message@.len() <= MAX_SIGNING_MESSAGE_BYTES,
            r matches Ok(a) ==> a.handle@ == handle@ && a.message_base64@ == base64_encode_spec(
                message@,
            ),
    {
        if message.len() > MAX_SIGNING_MESSAGE_BYTES {
            return Err(Error::InvalidNativeResponse("oversize signing request"));
        }
        Ok(Self { handle: handle.expose_opaque(), message_base64: base64_encode(message) })
    }
}

/// Native signing reply.
#[derive(Debug)]
pub struct SignatureWire {
    pub signature_base64: String,
}

impl SignatureWire {
    pub fn decode(self) -> (r: SecurityResult<Vec<u8>>)
        ensures
            r is Ok <==> decodes_exact(self.signature_base64@, 64),
            r matches Ok(d) ==> d@ == decoded(self.signature_base64@),
    {
        decode_exact(self.signature_base64.as_str(), P256_SIGNATURE_BYTES, "P-256 P1363 signature")
    }
}

/// Native P-256 verification request.
#[derive(Debug)]
pub struct VerifySignatureArgs {
    pub public_key_base64: String,
    pub message_base64: String,
    pub signature_base64: String,
}

/// The shape a P-256 verification request must have.
pub open spec fn verify_request_ok(public_key: Seq<u8>, message: Seq<u8>, signature: Seq<u8>) -> bool {
    &&& public_key.len() == 65
    &&& public_key[0] == 0x04
    &&& signature.len() == 64
    &&& message.len() <= MAX_SIGNING_MESSAGE_BYTES
}

impl VerifySignatureArgs {
    pub fn new(public_key: &[u8], message: &[u8], signature: &[u8]) -> (r: SecurityResult<Self>)
        ensures
            r is Ok <==> verify_request_ok(public_key@, message@, signature@),
            r matches Ok(a) ==> a.public_key_base64@ == base64_encode_spec(public_key@)
                && a.message_base64@ == base64_encode_spec(message@) && a.signature_base64@
                == base64_encode_spec(signature@),
    {
        if public_key.len() != P256_PUBLIC_KEY_BYTES || public_key[0] != 0x04 || signature.len()
            != P256_SIGNATURE_BYTES || message.len() > MAX_SIGNING_MESSAGE_BYTES {
            return Err(Error::InvalidNativeResponse("invalid P-256 verification request"));
        }
        Ok(Self {
            public_key_base64: base64_encode(public_key),
            message_base64: base64_encode(message),
            signature_base64: base64_encode(signature),
        })
    }
}

#[derive(Debug)]
pub struct VerificationWire {
    pub valid: bool,
}

#[derive(Debug)]
pub struct FreshBytesArgs {
    pub length: usize,
}

/// Native reply carrying fresh random bytes.
#[derive(Debug)]
pub struct FreshBytesWire {
    pub bytes_base64: String,
}

impl FreshBytesWire {
    pub fn decode(self, expected: usize) -> (r: SecurityResult<Vec<u8>>)
        ensures
            r is Ok <==> decodes_exact(self.bytes_base64@, expected as nat),
            r matches Ok(d) ==> d@ == decoded(self.bytes_base64@),
    {
        decode_exact(self.bytes_base64.as_str(), expected, "secure random bytes")
    }
}

#[derive(Debug)]
pub struct FreshUuidV7Wire {
    pub value: String,
}

/// Native HPKE open request.
#[derive(Debug)]
pub struct OpenHpkeArgs<'a> {
    pub handle: &'a str,
    pub sender_public_key_base64: String,
    pub info_base64: String,
    pub associated_data_base64: String,
    pub encapsulated_key_base64: String,
    pub ciphertext_base64: String,
    pub exporter_context_base64: String,
}

/// The bounds an HPKE open request must respect.
pub open spec fn open_hpke_request_ok(
    sender_public_key: Seq<u8>,
    info: Seq<u8>,
    associated_data: Seq<u8>,
    encapsulated_key: Seq<u8>,
    ciphertext: Seq<u8>,
    exporter_context: Seq<u8>,
) -> bool {
    &&& sender_public_key.len() == 32
    &&& encapsulated_key.len() == 32
    &&& info.len() <= MAX_HPKE_FIELD_BYTES
    &&& associated_data.len() <= MAX_HPKE_FIELD_BYTES
    &&& 16 <= ciphertext.len() <= MAX_HPKE_FIELD_BYTES
    &&& exporter_context.len() <= MAX_HPKE_FIELD_BYTES
}

impl<'a> OpenHpkeArgs<'a> {
    pub fn new(
        handle: &'a IdentityHandle,
        sender_public_key: &[u8],
        info: &[u8],
        associated_data: &[u8],
        encapsulated_key: &[u8],
        ciphertext: &[u8],
        exporter_context: &[u8],
    ) -> (r: SecurityResult<Self>)
        ensures
            r is Ok <==> open_hpke_request_ok(
                sender_public_key@,
                info@,
                associated_data@,
                encapsulated_key@,
                ciphertext@,
                exporter_context@,
            ),
            r matches Ok(a) ==> a.handle@ == handle@ && a.sender_public_key_base64@
                == base64_encode_spec(sender_public_key@) && a.info_base64@ == base64_encode_spec(
                info@,
            ) && a.associated_data_base64@ == base64_encode_spec(associated_data@)
                && a.encapsulated_key_base64@ == base64_encode_spec(encapsulated_key@)
                && a.ciphertext_base64@ == base64_encode_spec(ciphertext@)
                && a.exporter_context_base64@ == base64_encode_spec(exporter_context@),
    {
        if sender_public_key.len() != X25519_PUBLIC_KEY_BYTES || encapsulated_key.len()
            != X25519_PUBLIC_KEY_BYTES || info.len() > MAX_HPKE_FIELD_BYTES
            || associated_data.len() > MAX_HPKE_FIELD_BYTES || ciphertext.len()
            > MAX_HPKE_FIELD_BYTES || ciphertext.len() < 16 || exporter_context.len()
            > MAX_HPKE_FIELD_BYTES {
            return Err(Error::InvalidNativeResponse("invalid HPKE request"));
        }
        Ok(Self {
            handle: handle.expose_opaque(),
            sender_public_key_base64: base64_encode(sender_public_key),
            info_base64: base64_encode(info),
            associated_data_base64: base64_encode(associated_data),
            encapsulated_key_base64: base64_encode(encapsulated_key),
            ciphertext_base64: base64_encode(ciphertext),
            exporter_context_base64: base64_encode(exporter_context),
        })
    }
}

/// Native HPKE open reply.
#[derive(Debug)]
pub struct OpenHpkeWire {
    pub plaintext_base64: String,
    pub exporter_secret_base64: String,
}

#[derive(Debug, Clone, PartialEq, Eq)]
pub struct OpenedHpke {
    pub plaintext: Vec<u8>,
    pub exporter_secret: [u8; 32],
}

/// Copies exactly 32 bytes into an array.
pub fn to_array32(bytes: &[u8]) -> (r: [u8; 32])
    requires
        bytes@.len() == 32,
    ensures
        r@ == bytes@,
{
    let mut out = [0u8; 32];
    let mut i: usize = 0;
    while i < 32
        invariant
            bytes@.len() == 32,
            i <= 32,
            forall|k: int| 0 <= k < i ==> out@[k] == bytes@[k],
        decreases 32 - i,
    {
        out[i] = bytes[i];
        i = i + 1;
    }
    assert(out@ =~= bytes@);
    out
}

impl OpenedHpke {
    pub fn from_wire(wire: OpenHpkeWire) -> (r: SecurityResult<Self>)
        ensures
            r is Ok <==> decodes_bounded(wire.plaintext_base64@, MAX_HPKE_FIELD_BYTES as nat)
                && decodes_exact(wire.exporter_secret_base64@, 32),
            r matches Ok(o) ==> o.plaintext@ == decoded(wire.plaintext_base64@)
                && o.exporter_secret@ == decoded(wire.exporter_secret_base64@),
    {
        let plaintext = decode_bounded(
            wire.plaintext_base64.as_str(),
            MAX_HPKE_FIELD_BYTES,
            "HPKE plaintext",
        )?;
        let exporter = decode_exact(
            wire.exporter_secret_base64.as_str(),
            SHA256_BYTES,
            "HPKE exporter secret",
        )?;
        let exporter_secret = to_array32(&exporter);
        Ok(Self { plaintext, exporter_secret })
    }
}

/// Native request that stages an authenticated bootstrap.
#[derive(Debug)]
pub struct StageBootstrapArgs<'a> {
    pub handle: &'a str,
    pub sender_public_key_base64: String,
    pub info_base64: String,
    pub associated_data_base64: String,
    pub encapsulated_key_base64: String,
    pub ciphertext_base64: String,
    pub receipt_id: &'a str,
    pub envelope_digest_base64: String,
}

/// The bounds a staged-bootstrap request must respect.
pub open spec fn stage_request_ok(
    sender_public_key: Seq<u8>,
    info: Seq<u8>,
    associated_data: Seq<u8>,
    encapsulated_key: Seq<u8>,
    ciphertext: Seq<u8>,
    receipt_id_bytes: nat,
    envelope_digest: Seq<u8>,
) -> bool {
    &&& sender_public_key.len() == 32
    &&& encapsulated_key.len() == 32
    &&& envelope_digest.len() == 32
    &&& 1 <= receipt_id_bytes <= 128
    &&& info.len() <= MAX_HPKE_FIELD_BYTES
    &&& associated_data.len() <= MAX_HPKE_FIELD_BYTES
    &&& 16 <= ciphertext.len() <= MAX_HPKE_FIELD_BYTES
}

impl<'a> StageBootstrapArgs<'a> {
    pub fn new(
        handle: &'a IdentityHandle,
        sender_public_key: &[u8],
        info: &[u8],
        associated_data: &[u8],
        encapsulated_key: &[u8],
        ciphertext: &[u8],
        receipt_id: &'a str,
        envelope_digest: &[u8],
    ) -> (r: SecurityResult<Self>)
        ensures
            r is Ok <==> stage_request_ok(
                sender_public_key@,
                info@,
                associated_data@,
                encapsulated_key@,
                ciphertext@,
                (receipt_id.spec_bytes().len() as usize) as nat,
                envelope_digest@,
            ),
            r matches Ok(a) ==> a.handle@ == handle@ && a.receipt_id@ == receipt_id@
                && a.sender_public_key_base64@ == base64_encode_spec(sender_public_key@)
                && a.info_base64@ == base64_encode_spec(info@) && a.associated_data_base64@
                == base64_encode_spec(associated_data@) && a.encapsulated_key_base64@
                == base64_encode_spec(encapsulated_key@) && a.ciphertext_base64@
                == base64_encode_spec(ciphertext@) && a.envelope_digest_base64@
                == base64_encode_spec(envelope_digest@),
    {
        if sender_public_key.len() != X25519_PUBLIC_KEY_BYTES || encapsulated_key.len()
            != X25519_PUBLIC_KEY_BYTES || envelope_digest.len() != SHA256_BYTES
            || receipt_id.len() == 0 || receipt_id.len() > 128 || info.len()
            > MAX_HPKE_FIELD_BYTES || associated_data.len() > MAX_HPKE_FIELD_BYTES
            || ciphertext.len() > MAX_HPKE_FIELD_BYTES || ciphertext.len() < 16 {
            return Err(Error::InvalidNativeResponse("invalid staged-bootstrap request"));
        }
        Ok(Self {
            handle: handle.expose_opaque(),
            sender_public_key_base64: base64_encode(sender_public_key),
            info_base64: base64_encode(info),
            associated_data_base64: base64_encode(associated_data),
            encapsulated_key_base64: base64_encode(encapsulated_key),
            ciphertext_base64: base64_encode(ciphertext),
            receipt_id,
            envelope_digest_base64: base64_encode(envelope_digest),
        })
    }
}

#[derive(Debug)]
pub struct StageBootstrapWire {
    pub pending_bootstrap_handle: String,
}

#[derive(Debug)]
pub struct BootstrapTransitionArgs<'a> {
    pub identity_handle: &'a str,
    pub pending_bootstrap_handle: &'a str,
    pub receipt_id: &'a str,
}

#[derive(Debug)]
pub struct PrepareIdentityArgs<'a> {
    pub device_id: &'a str,
    pub fixture_gate: Option<&'a str>,
}

/// The JSON object the native boundary receives to prepare an identity:
/// the replica device id under `deviceId`, and the fixture gate or `null`
/// under `fixtureGate`.
pub open spec fn prepare_identity_json(device_id: Seq<char>, fixture_gate: Option<Seq<char>>) -> Seq<
    char,
> {
    seq!['{'] + member("deviceId"@, json_string(device_id)) + seq![','] + member(
        "fixtureGate"@,
        match fixture_gate {
            Some(g) => json_string(g),
            None => "null"@,
        },
    ) + seq!['}']
}

impl<'a> PrepareIdentityArgs<'a> {
    /// The request as the JSON text the native boundary receives.
    pub fn to_json(&self) -> (r: String)
        ensures
            r@ == prepare_identity_json(
                self.device_id@,
                match self.fixture_gate {
                    Some(g) => Some(g@),
                    None => None,
                },
            ),
    {
        let mut out: Vec<char> = Vec::new();
        out.push('{');
        push_key(&mut out, "deviceId");
        push_json_string(&mut out, self.device_id);
        out.push(',');
        push_key(&mut out, "fixtureGate");
        match self.fixture_gate {
            Some(g) => push_json_string(&mut out, g),
            None => push_str(&mut out, "null"),
        }
        out.push('}');
        assert(out@ =~= prepare_identity_json(
            self.device_id@,
            match self.fixture_gate {
                Some(g) => Some(g@),
                None => None,
            },
        ));
        crate::text::string_from_chars(&out)
    }
}

#[derive(Debug)]
pub struct IdentityArgs<'a> {
    pub handle: &'a str,
}

#[derive(Debug, Clone, Copy, PartialEq, Eq, Structural)]
pub enum ProtectedDataState {
    Available,
    Unavailable,
}

#[derive(Debug, Clone, PartialEq, Eq)]
pub struct ProtectedDataEvent {
    pub state: ProtectedDataState,
    pub observed_at_ms: i64,
}

/// Native request that hardens the store files.
#[derive(Debug)]
pub struct HardenStoreArgs {
    pub database_path: String,
    pub recovery_paths: Vec<String>,
}

/// A Unix path is absolute when it starts at the root (`Path::is_absolute`).
pub open spec fn is_absolute_path(path: Seq<char>) -> bool {
    path.len() > 0 && path[0] == '/'
}

/// Accepts only an absolute store path, returned as an owned string.
pub fn absolute_utf8(path: &str) -> (r: SecurityResult<String>)
    ensures
        r is Ok <==> is_absolute_path(path@),
        r matches Ok(s) ==> s@ == path@,
{
    let c = chars_of(path);
    if c.len() == 0 || c[0] != '/' {
        return Err(Error::InvalidNativeResponse("non-absolute store path"));
    }
    Ok(path.to_owned())
}

impl HardenStoreArgs {
    /// Paths are given as UTF-8 text; a caller holding a non-UTF-8 path
    /// rejects it before this point.
    pub fn new(database_path: &str, recovery_paths: &[String]) -> (r: SecurityResult<Self>)
        ensures
            r is Ok <==> is_absolute_path(database_path@) && forall|i: int|
                0 <= i < recovery_paths@.len() ==> is_absolute_path(#[trigger] recovery_paths@[i]@),
            r matches Ok(a) ==> a.database_path@ == database_path@ && a.recovery_paths@.len()
                == recovery_paths@.len() && forall|i: int|
                0 <= i < recovery_paths@.len() ==> (#[trigger] a.recovery_paths@[i])@
                    == recovery_paths@[i]@,
    {
        let database_path = absolute_utf8(database_path)?;
        let mut out: Vec<String> = Vec::new();
        let mut i: usize = 0;
        while i < recovery_paths.len()
            invariant
                i <= recovery_paths@.len(),
                out@.len() == i,
                forall|k: int| 0 <= k < i ==> is_absolute_path(#[trigger] recovery_paths@[k]@),
                forall|k: int| 0 <= k < i ==> (#[trigger] out@[k])@ == recovery_paths@[k]@,
            decreases recovery_paths@.len() - i,
        {
            let p = absolute_utf8(recovery_paths[i].as_str())?;
            out.push(p);
            i = i + 1;
        }
        Ok(Self { database_path, recovery_paths: out })
    }
}

/// Native report on the store's file protection.
#[derive(Debug, Clone, PartialEq, Eq)]
pub struct StoreProtectionReport {
    pub protection_class: String,
    pub hardened_paths: Vec<String>,
    pub inherited_pending_paths: Vec<String>,
    pub violations: Vec<String>,
}

impl StoreProtectionReport {
    /// Compliant only under complete file protection, with no violation and
    /// no path still inheriting a weaker class.
    pub fn is_compliant(&self) -> (r: bool)
        ensures
            r == (self.protection_class@ == "NSFileProtectionComplete"@ && self.violations@.len()
                == 0 && self.inherited_pending_paths@.len() == 0),
    {
        crate::text::str_eq(self.protection_class.as_str(), "NSFileProtectionComplete")
            && self.violations.len() == 0 && self.inherited_pending_paths.len() == 0
    }
}

/// The opt-in value of the fixture profile.
pub fn fixture_gate() -> (r: &'static str)
    ensures
        r@ == FIXTURE_GATE@,
{
    FIXTURE_GATE
}

} // verus!

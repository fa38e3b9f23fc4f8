//! The v1 record-crypto contract: strict public context, canonical
//! length-prefixed encodings for HKDF info, AEAD data and digests, and the
//! fixed binary container stored as a mutation's ciphertext.
use vstd::prelude::*;
use vstd::utf8::encode_utf8;
use vstd::string::StringSliceAdditionalSpecFns;
use crate::base64_codec::{base64_decode, base64_encode, base64_encode_spec};
use crate::digest::{sha256, sha256_spec};
use crate::error::Error;
use crate::models::{
    bootstrap_metadata_ok, capability_for, decoded, find_capability, is_uuid_v7, names_contain,
    to_array32, uuid_v7_error, validate_uuid_v7, BootstrapMetadataV1, IdentityHandle, SecurityResult,
    I64_MAX_AS_U64, P256_PUBLIC_KEY_BYTES, P256_SIGNATURE_BYTES, RECORD_CIPHER_SUITE, SHA256_BYTES,
};
use crate::text::{bytes_eq, str_eq};

verus! {

pub const RECORD_CRYPTO_CONTEXT_VERSION: u32 = 1;
pub const RECORD_NONCE_BYTES: usize = 12;
pub const RECORD_TAG_BYTES: usize = 16;
pub const MAX_RECORD_CIPHERTEXT_CONTAINER_BYTES: usize = 524288;
/// `NRC1` magic + u32 version + u32 ciphertext length + nonce + two SHA-256
/// digests + the fixed-width inner P-256 signature.
pub const RECORD_CIPHERTEXT_V1_FIXED_OVERHEAD: usize = 152;
pub const MAX_RECORD_CIPHERTEXT_BYTES: usize = 524136;
pub const MAX_RECORD_PLAINTEXT_BYTES: usize = 524120;
pub const RECORD_HKDF_SALT_DOMAIN: &'static str = "noted.record-aead.v1/hkdf-salt";

#[derive(Debug, Clone, Copy, PartialEq, Eq, PartialOrd, Ord, Structural)]
pub enum RecordKindV1 {
    Note,
    Category,
    Folder,
}

pub open spec fn kind_name(k: RecordKindV1) -> Seq<char> {
    match k {
        RecordKindV1::Note => "note"@,
        RecordKindV1::Category => "category"@,
        RecordKindV1::Folder => "folder"@,
    }
}

impl RecordKindV1 {
    pub fn as_str(self) -> (r: &'static str)
        ensures
            r@ == kind_name(self),
    {
        match self {
            RecordKindV1::Note => "note",
            RecordKindV1::Category => "category",
            RecordKindV1::Folder => "folder",
        }
    }
}

#[derive(Debug, Clone, Copy, PartialEq, Eq, Structural)]
pub enum RecordCryptoOperationV1 {
    Create,
    Update,
    Delete,
}

pub open spec fn operation_name(o: RecordCryptoOperationV1) -> Seq<char> {
    match o {
        RecordCryptoOperationV1::Create => "create"@,
        RecordCryptoOperationV1::Update => "update"@,
        RecordCryptoOperationV1::Delete => "delete"@,
    }
}

impl RecordCryptoOperationV1 {
    pub fn as_str(self) -> (r: &'static str)
        ensures
            r@ == operation_name(self),
    {
        match self {
            RecordCryptoOperationV1::Create => "create",
            RecordCryptoOperationV1::Update => "update",
            RecordCryptoOperationV1::Delete => "delete",
        }
    }
}

/// Public v1 record-crypto facts shared by the Mac authority and iPhone.
///
/// No key handle or key byte is present. Every field is included in both the
/// HKDF info and AEAD associated data so a ciphertext cannot be rebound to a
/// different record, revision, mutation, generation, epoch, or operation.
#[derive(Debug, Clone, PartialEq, Eq)]
pub struct RecordCryptoContextV1 {
    pub version: u32,
    pub cipher_suite: String,
    pub library_id: String,
    pub record_id: String,
    pub record_kind: RecordKindV1,
    pub schema_version: u32,
    pub base_revision: u64,
    pub base_version_id: Option<String>,
    pub proposed_revision: u64,
    pub version_id: String,
    pub mutation_id: String,
    pub authority_generation: u64,
    pub purge_generation: u64,
    pub key_epoch: u64,
    pub operation: RecordCryptoOperationV1,
}

/// The revision facts agree with the operation: a create starts a record
/// (revision 0, no base version), an update or delete continues one.
pub open spec fn revision_matches_operation(c: RecordCryptoContextV1) -> bool {
    match c.operation {
        RecordCryptoOperationV1::Create => c.base_revision == 0 && c.base_version_id is None,
        _ => c.base_revision > 0 && c.base_version_id is Some,
    }
}

/// The library, record, version, mutation and base version identifiers are
/// pairwise different.
pub open spec fn identifiers_distinct(c: RecordCryptoContextV1) -> bool {
    &&& c.library_id@ != c.record_id@
    &&& c.library_id@ != c.version_id@
    &&& c.library_id@ != c.mutation_id@
    &&& c.record_id@ != c.version_id@
    &&& c.record_id@ != c.mutation_id@
    &&& c.version_id@ != c.mutation_id@
    &&& match c.base_version_id {
        Some(b) => b@ != c.library_id@ && b@ != c.record_id@ && b@ != c.version_id@ && b@
            != c.mutation_id@,
        None => true,
    }
}

/// Every rule a v1 record-crypto context obeys.
pub open spec fn context_ok(c: RecordCryptoContextV1) -> bool {
    &&& c.version == RECORD_CRYPTO_CONTEXT_VERSION
    &&& c.cipher_suite@ == RECORD_CIPHER_SUITE@
    &&& c.schema_version == 1
    &&& 0 < c.authority_generation <= I64_MAX_AS_U64
    &&& c.purge_generation <= I64_MAX_AS_U64
    &&& 0 < c.key_epoch <= I64_MAX_AS_U64
    &&& c.base_revision <= I64_MAX_AS_U64
    &&& c.proposed_revision <= I64_MAX_AS_U64
    &&& c.proposed_revision == c.base_revision + 1
    &&& is_uuid_v7(c.library_id@)
    &&& is_uuid_v7(c.record_id@)
    &&& is_uuid_v7(c.version_id@)
    &&& is_uuid_v7(c.mutation_id@)
    &&& match c.base_version_id {
        Some(b) => is_uuid_v7(b@),
        None => true,
    }
    &&& revision_matches_operation(c)
    &&& identifiers_distinct(c)
}

/// The context binds to the bootstrap that grants its key: same library,
/// generations and epoch, same cipher suite, a granted record kind, and a
/// capability that reads and writes exactly this schema version.
pub open spec fn bound_to_bootstrap(c: RecordCryptoContextV1, m: BootstrapMetadataV1) -> bool {
    &&& c.library_id@ == m.library_id@
    &&& c.authority_generation == m.authority_generation
    &&& c.purge_generation == m.purge_generation
    &&& c.key_epoch == m.key_epoch
    &&& c.cipher_suite@ == m.record_cipher_suite@
    &&& names_contain(m.granted_scopes@, kind_name(c.record_kind))
    &&& match capability_for(m.capabilities@, kind_name(c.record_kind)) {
        Some(cap) => cap.reader_version >= c.schema_version && cap.writer_version == Some(
            c.schema_version,
        ),
        None => false,
    }
}

fn distinct_ids(c: &RecordCryptoContextV1) -> (r: bool)
    ensures
        r == identifiers_distinct(*c),
{
    if str_eq(c.library_id.as_str(), c.record_id.as_str()) || str_eq(
        c.library_id.as_str(),
        c.version_id.as_str(),
    ) || str_eq(c.library_id.as_str(), c.mutation_id.as_str()) || str_eq(
        c.record_id.as_str(),
        c.version_id.as_str(),
    ) || str_eq(c.record_id.as_str(), c.mutation_id.as_str()) || str_eq(
        c.version_id.as_str(),
        c.mutation_id.as_str(),
    ) {
        return false;
    }
    match &c.base_version_id {
        Some(b) => !(str_eq(b.as_str(), c.library_id.as_str()) || str_eq(
            b.as_str(),
            c.record_id.as_str(),
        ) || str_eq(b.as_str(), c.version_id.as_str()) || str_eq(
            b.as_str(),
            c.mutation_id.as_str(),
        )),
        None => true,
    }
}

/// The error the first broken rule of a context is reported with.
pub open spec fn context_failure(c: RecordCryptoContextV1) -> Option<Error> {
    if !(c.version == RECORD_CRYPTO_CONTEXT_VERSION && c.cipher_suite@ == RECORD_CIPHER_SUITE@
        && c.schema_version == 1 && 0 < c.authority_generation <= I64_MAX_AS_U64
        && c.purge_generation <= I64_MAX_AS_U64 && 0 < c.key_epoch <= I64_MAX_AS_U64
        && c.base_revision <= I64_MAX_AS_U64 && c.proposed_revision <= I64_MAX_AS_U64
        && c.proposed_revision == c.base_revision + 1) {
        Some(Error::InvalidNativeResponse("record crypto context"))
    } else if !is_uuid_v7(c.library_id@) {
        Some(uuid_v7_error(c.library_id@))
    } else if !is_uuid_v7(c.record_id@) {
        Some(uuid_v7_error(c.record_id@))
    } else if !is_uuid_v7(c.version_id@) {
        Some(uuid_v7_error(c.version_id@))
    } else if !is_uuid_v7(c.mutation_id@) {
        Some(uuid_v7_error(c.mutation_id@))
    } else if c.base_version_id matches Some(b) && !is_uuid_v7(b@) {
        Some(uuid_v7_error(c.base_version_id->0@))
    } else if !revision_matches_operation(c) {
        Some(Error::InvalidNativeResponse("record crypto revision operation"))
    } else if !identifiers_distinct(c) {
        Some(Error::InvalidNativeResponse("record crypto identifiers"))
    } else {
        None
    }
}

impl RecordCryptoContextV1 {
    pub fn validate(&self) -> (r: SecurityResult<()>)
        ensures
            r is Ok <==> context_ok(*self),
            r matches Err(e) ==> context_failure(*self) == Some(e),
    {
        if self.version != RECORD_CRYPTO_CONTEXT_VERSION || !str_eq(
            self.cipher_suite.as_str(),
            RECORD_CIPHER_SUITE,
        ) || self.schema_version != 1 || self.authority_generation == 0 || self.key_epoch == 0
            || self.authority_generation > I64_MAX_AS_U64 || self.purge_generation
            > I64_MAX_AS_U64 || self.key_epoch > I64_MAX_AS_U64 || self.base_revision
            > I64_MAX_AS_U64 || self.proposed_revision > I64_MAX_AS_U64 || self.base_revision
            + 1 != self.proposed_revision {
            return Err(Error::InvalidNativeResponse("record crypto context"));
        }
        validate_uuid_v7(self.library_id.as_str())?;
        validate_uuid_v7(self.record_id.as_str())?;
        validate_uuid_v7(self.version_id.as_str())?;
        validate_uuid_v7(self.mutation_id.as_str())?;
        match &self.base_version_id {
            Some(b) => validate_uuid_v7(b.as_str())?,
            None => {},
        }
        let initial = self.base_revision == 0 && self.base_version_id.is_none();
        let continuation = self.base_revision > 0 && self.base_version_id.is_some();
        let matches = match self.operation {
            RecordCryptoOperationV1::Create => initial,
            RecordCryptoOperationV1::Update => continuation,
            RecordCryptoOperationV1::Delete => continuation,
        };
        if !matches {
            return Err(Error::InvalidNativeResponse("record crypto revision operation"));
        }
        if !distinct_ids(self) {
            return Err(Error::InvalidNativeResponse("record crypto identifiers"));
        }
        Ok(())
    }

    pub fn validate_against_bootstrap(&self, metadata: &BootstrapMetadataV1) -> (r: SecurityResult<
        (),
    >)
        ensures
            r is Ok <==> context_ok(*self) && bootstrap_metadata_ok(*metadata)
                && bound_to_bootstrap(*self, *metadata),
            r matches Err(e) ==> e == if !context_ok(*self) {
                context_failure(*self)->Some_0
            } else if !bootstrap_metadata_ok(*metadata) {
                crate::models::metadata_failure(*metadata)->Some_0
            } else {
                Error::InvalidNativeResponse("record crypto bootstrap binding")
            },
    {
        self.validate()?;
        metadata.validate()?;
        let kind = self.record_kind.as_str();
        let capability = find_capability(&metadata.capabilities, kind);
        let capability_ok = match capability {
            Some(cap) => !(cap.reader_version < self.schema_version || cap.writer_version != Some(
                self.schema_version,
            )),
            None => false,
        };
        if !str_eq(self.library_id.as_str(), metadata.library_id.as_str())
            || self.authority_generation != metadata.authority_generation
            || self.purge_generation != metadata.purge_generation || self.key_epoch
            != metadata.key_epoch || !str_eq(
            self.cipher_suite.as_str(),
            metadata.record_cipher_suite.as_str(),
        ) || !crate::models::contains_name(&metadata.granted_scopes, kind) || !capability_ok {
            return Err(Error::InvalidNativeResponse("record crypto bootstrap binding"));
        }
        Ok(())
    }
}

// ---------------------------------------------------------------------------
// Canonical length-prefixed encoding
// ---------------------------------------------------------------------------

/// Big-endian bytes of a `u32`.
pub open spec fn be32(x: u32) -> Seq<u8> {
    seq![(x >> 24u32) as u8, (x >> 16u32) as u8, (x >> 8u32) as u8, x as u8]
}

/// Big-endian bytes of a `u64`.
pub open spec fn be64(x: u64) -> Seq<u8> {
    seq![
        (x >> 56u64) as u8,
        (x >> 48u64) as u8,
        (x >> 40u64) as u8,
        (x >> 32u64) as u8,
        (x >> 24u64) as u8,
        (x >> 16u64) as u8,
        (x >> 8u64) as u8,
        x as u8,
    ]
}

/// The `u32` whose big-endian bytes are `b0 b1 b2 b3`.
pub open spec fn from_be32(b0: u8, b1: u8, b2: u8, b3: u8) -> u32 {
    ((b0 as u32) << 24u32) | ((b1 as u32) << 16u32) | ((b2 as u32) << 8u32) | (b3 as u32)
}

pub proof fn lemma_be32_roundtrip(x: u32)
    ensures
        from_be32(be32(x)[0], be32(x)[1], be32(x)[2], be32(x)[3]) == x,
{
    assert(((((x >> 24u32) as u8) as u32) << 24u32) | ((((x >> 16u32) as u8) as u32) << 16u32)
        | ((((x >> 8u32) as u8) as u32) << 8u32) | ((x as u8) as u32) == x) by (bit_vector);
}

/// One labelled field: u32 label length, label, u64 value length, value.
pub open spec fn field(label: Seq<u8>, value: Seq<u8>) -> Seq<u8> {
    be32(label.len() as u32) + label + be64(value.len() as u64) + value
}

/// The UTF-8 bytes of a text.
pub open spec fn utf8(s: Seq<char>) -> Seq<u8> {
    encode_utf8(s)
}

/// A labelled text field.
pub open spec fn text_field(label: Seq<char>, value: Seq<char>) -> Seq<u8> {
    field(utf8(label), utf8(value))
}

/// A labelled `u64` field.
pub open spec fn u64_field(label: Seq<char>, value: u64) -> Seq<u8> {
    field(utf8(label), be64(value))
}

/// The canonical encoding of a record-crypto context: every public fact, in a
/// fixed order, each as a labelled length-prefixed field after the domain.
#[verifier::opaque]
pub open spec fn canonical_context(c: RecordCryptoContextV1) -> Seq<u8> {
    let head = text_field("domain"@, "noted.record-aead.v1/context"@) + u64_field(
        "version"@,
        c.version as u64,
    ) + text_field("cipher_suite"@, c.cipher_suite@) + text_field("library_id"@, c.library_id@)
        + text_field("record_id"@, c.record_id@) + text_field(
        "record_kind"@,
        kind_name(c.record_kind),
    ) + u64_field("schema_version"@, c.schema_version as u64) + u64_field(
        "base_revision"@,
        c.base_revision,
    );
    let base = match c.base_version_id {
        Some(b) => text_field("base_version_present"@, "true"@) + text_field(
            "base_version_id"@,
            b@,
        ),
        None => text_field("base_version_present"@, "false"@),
    };
    head + base + u64_field("proposed_revision"@, c.proposed_revision) + text_field(
        "version_id"@,
        c.version_id@,
    ) + text_field("mutation_id"@, c.mutation_id@) + u64_field(
        "authority_generation"@,
        c.authority_generation,
    ) + u64_field("purge_generation"@, c.purge_generation) + u64_field("key_epoch"@, c.key_epoch)
        + text_field("operation"@, operation_name(c.operation))
}

/// A domain-separated list of labelled byte fields.
pub open spec fn components(domain: Seq<char>, fields: Seq<(Seq<char>, Seq<u8>)>) -> Seq<u8>
    decreases fields.len(),
{
    if fields.len() == 0 {
        text_field("domain"@, domain)
    } else {
        components(domain, fields.drop_last()) + field(utf8(fields.last().0), fields.last().1)
    }
}

pub open spec fn hkdf_info(c: RecordCryptoContextV1) -> Seq<u8> {
    components("noted.record-aead.v1/hkdf-info"@, seq![("context"@, canonical_context(c))])
}

pub open spec fn associated_data(c: RecordCryptoContextV1) -> Seq<u8> {
    components("noted.record-aead.v1/aad"@, seq![("context"@, canonical_context(c))])
}

pub open spec fn envelope_input(c: RecordCryptoContextV1, nonce: Seq<u8>, ciphertext: Seq<u8>) -> Seq<
    u8,
> {
    components(
        "noted.record-aead.v1/envelope"@,
        seq![("context"@, canonical_context(c)), ("nonce"@, nonce), ("ciphertext"@, ciphertext)],
    )
}

pub open spec fn signature_input(envelope_digest: Seq<u8>) -> Seq<u8> {
    components("noted.record-aead.v1/signature"@, seq![("envelope_digest"@, envelope_digest)])
}


proof fn lemma_components_one(domain: Seq<char>, label: Seq<char>, value: Seq<u8>)
    ensures
        components(domain, seq![(label, value)]) == text_field("domain"@, domain) + field(
            utf8(label),
            value,
        ),
{
    let f = seq![(label, value)];
    assert(f.drop_last() =~= Seq::<(Seq<char>, Seq<u8>)>::empty());
    assert(components(domain, f.drop_last()) == text_field("domain"@, domain));
    assert(f.last() == (label, value));
}

proof fn lemma_components_three(
    domain: Seq<char>,
    l1: Seq<char>,
    v1: Seq<u8>,
    l2: Seq<char>,
    v2: Seq<u8>,
    l3: Seq<char>,
    v3: Seq<u8>,
)
    ensures
        components(domain, seq![(l1, v1), (l2, v2), (l3, v3)]) == text_field("domain"@, domain)
            + field(utf8(l1), v1) + field(utf8(l2), v2) + field(utf8(l3), v3),
{
    let f = seq![(l1, v1), (l2, v2), (l3, v3)];
    let g = seq![(l1, v1), (l2, v2)];
    let h = seq![(l1, v1)];
    assert(f.drop_last() =~= g);
    assert(g.drop_last() =~= h);
    lemma_components_one(domain, l1, v1);
    assert(components(domain, g) == components(domain, h) + field(utf8(l2), v2));
    assert(components(domain, f) == components(domain, g) + field(utf8(l3), v3));
}

proof fn lemma_utf8_len_bound(s: Seq<char>)
    ensures
        encode_utf8(s).len() <= 4 * s.len(),
    decreases s.len(),
{
    if s.len() > 0 {
        lemma_utf8_len_bound(s.drop_first());
    }
}

proof fn lemma_be64_injective(a: u64, b: u64)
    requires
        be64(a) == be64(b),
    ensures
        a == b,
{
    assert(be64(a)[0] == be64(b)[0] && be64(a)[1] == be64(b)[1] && be64(a)[2] == be64(b)[2]
        && be64(a)[3] == be64(b)[3] && be64(a)[4] == be64(b)[4] && be64(a)[5] == be64(b)[5]
        && be64(a)[6] == be64(b)[6] && be64(a)[7] == be64(b)[7]);
    assert(a == b) by (bit_vector)
        requires
            (a >> 56u64) as u8 == (b >> 56u64) as u8,
            (a >> 48u64) as u8 == (b >> 48u64) as u8,
            (a >> 40u64) as u8 == (b >> 40u64) as u8,
            (a >> 32u64) as u8 == (b >> 32u64) as u8,
            (a >> 24u64) as u8 == (b >> 24u64) as u8,
            (a >> 16u64) as u8 == (b >> 16u64) as u8,
            (a >> 8u64) as u8 == (b >> 8u64) as u8,
            a as u8 == b as u8,
    ;
}

/// A labelled field, followed by anything, determines both its value and
/// what follows it: the length prefix says where the value ends.
proof fn lemma_field_prefix(label: Seq<u8>, v1: Seq<u8>, r1: Seq<u8>, v2: Seq<u8>, r2: Seq<u8>)
    requires
        field(label, v1) + r1 == field(label, v2) + r2,
        v1.len() <= u64::MAX,
        v2.len() <= u64::MAX,
    ensures
        v1 == v2,
        r1 == r2,
{
    let a = field(label, v1) + r1;
    let b = field(label, v2) + r2;
    let p: int = 4 + label.len() as int;
    assert(a.subrange(p, p + 8) =~= be64(v1.len() as u64));
    assert(b.subrange(p, p + 8) =~= be64(v2.len() as u64));
    lemma_be64_injective(v1.len() as u64, v2.len() as u64);
    let n: int = v1.len() as int;
    assert(a.subrange(p + 8, p + 8 + n) =~= v1);
    assert(b.subrange(p + 8, p + 8 + n) =~= v2);
    assert(a.subrange(p + 8 + n, a.len() as int) =~= r1);
    assert(b.subrange(p + 8 + n, b.len() as int) =~= r2);
}

/// Domain separation of the per-record key: the HKDF info of one context is
/// never the associated data of any context, and equal HKDF infos come only
/// from equal canonical contexts.
pub proof fn lemma_hkdf_info_is_domain_separated(c1: RecordCryptoContextV1, c2: RecordCryptoContextV1)
    requires
        canonical_context(c1).len() <= u64::MAX,
        canonical_context(c2).len() <= u64::MAX,
    ensures
        hkdf_info(c1) != associated_data(c2),
        hkdf_info(c1) == hkdf_info(c2) ==> canonical_context(c1) == canonical_context(c2),
{
    let d1 = "noted.record-aead.v1/hkdf-info"@;
    let d2 = "noted.record-aead.v1/aad"@;
    reveal_strlit("noted.record-aead.v1/hkdf-info");
    reveal_strlit("noted.record-aead.v1/aad");
    lemma_utf8_len_bound(d1);
    lemma_utf8_len_bound(d2);
    lemma_components_one(d1, "context"@, canonical_context(c1));
    lemma_components_one(d1, "context"@, canonical_context(c2));
    lemma_components_one(d2, "context"@, canonical_context(c2));
    let f1 = field(utf8("context"@), canonical_context(c1));
    let f2 = field(utf8("context"@), canonical_context(c2));
    if hkdf_info(c1) == associated_data(c2) {
        lemma_field_prefix(utf8("domain"@), utf8(d1), f1, utf8(d2), f2);
        vstd::utf8::encode_utf8_decode_utf8(d1);
        vstd::utf8::encode_utf8_decode_utf8(d2);
        assert(d1.len() != d2.len());
    }
    if hkdf_info(c1) == hkdf_info(c2) {
        lemma_field_prefix(utf8("domain"@), utf8(d1), f1, utf8(d1), f2);
        assert(f1 + Seq::<u8>::empty() =~= f1);
        assert(f2 + Seq::<u8>::empty() =~= f2);
        lemma_field_prefix(
            utf8("context"@),
            canonical_context(c1),
            Seq::<u8>::empty(),
            canonical_context(c2),
            Seq::<u8>::empty(),
        );
    }
}

/// Labelled fields, each as `field` encodes it, one after another.
pub open spec fn fields_bytes(fs: Seq<(Seq<u8>, Seq<u8>)>) -> Seq<u8>
    decreases fs.len(),
{
    if fs.len() == 0 {
        seq![]
    } else {
        fields_bytes(fs.drop_last()) + field(fs.last().0, fs.last().1)
    }
}

proof fn lemma_fields_bytes_first(fs: Seq<(Seq<u8>, Seq<u8>)>)
    requires
        fs.len() > 0,
    ensures
        fields_bytes(fs) == field(fs[0].0, fs[0].1) + fields_bytes(fs.drop_first()),
    decreases fs.len(),
{
    if fs.len() == 1 {
        assert(fs.drop_last() =~= Seq::<(Seq<u8>, Seq<u8>)>::empty());
        assert(fs.drop_first() =~= Seq::<(Seq<u8>, Seq<u8>)>::empty());
        assert(fields_bytes(fs) =~= field(fs[0].0, fs[0].1) + fields_bytes(fs.drop_first()));
    } else {
        lemma_fields_bytes_first(fs.drop_last());
        assert(fs.drop_last().drop_first() =~= fs.drop_first().drop_last());
        assert(fs.drop_first().last() == fs.last());
        assert(fields_bytes(fs) =~= field(fs[0].0, fs[0].1) + fields_bytes(fs.drop_first()));
    }
}

/// Runs of fields with the same labels, each followed by anything, agree
/// field by field and in what follows when their bytes agree.
proof fn lemma_fields_prefix(
    a: Seq<(Seq<u8>, Seq<u8>)>,
    ra: Seq<u8>,
    b: Seq<(Seq<u8>, Seq<u8>)>,
    rb: Seq<u8>,
)
    requires
        fields_bytes(a) + ra == fields_bytes(b) + rb,
        (fields_bytes(a) + ra).len() <= u64::MAX,
        a.len() == b.len(),
        forall|i: int| 0 <= i < a.len() ==> (#[trigger] a[i]).0 == b[i].0,
    ensures
        forall|i: int| 0 <= i < a.len() ==> (#[trigger] a[i]).1 == b[i].1,
        ra == rb,
    decreases a.len(),
{
    if a.len() > 0 {
        let ta = fields_bytes(a.drop_first()) + ra;
        let tb = fields_bytes(b.drop_first()) + rb;
        lemma_fields_bytes_first(a);
        lemma_fields_bytes_first(b);
        assert(fields_bytes(a) + ra =~= field(a[0].0, a[0].1) + ta);
        assert(fields_bytes(b) + rb =~= field(b[0].0, b[0].1) + tb);
        lemma_field_prefix(a[0].0, a[0].1, ta, b[0].1, tb);
        assert forall|i: int| 0 <= i < a.drop_first().len() implies (
        #[trigger] a.drop_first()[i]).0 == b.drop_first()[i].0 by {
            assert(a.drop_first()[i] == a[i + 1]);
            assert(b.drop_first()[i] == b[i + 1]);
        }
        lemma_fields_prefix(a.drop_first(), ra, b.drop_first(), rb);
        assert forall|i: int| 0 <= i < a.len() implies (#[trigger] a[i]).1 == b[i].1 by {
            if i > 0 {
                assert(a.drop_first()[i - 1] == a[i]);
                assert(b.drop_first()[i - 1] == b[i]);
            }
        }
    }
}

/// The fields of a canonical context before its base version.
pub open spec fn context_head_fields(c: RecordCryptoContextV1) -> Seq<(Seq<u8>, Seq<u8>)> {
    seq![
        (utf8("domain"@), utf8("noted.record-aead.v1/context"@)),
        (utf8("version"@), be64(c.version as u64)),
        (utf8("cipher_suite"@), utf8(c.cipher_suite@)),
        (utf8("library_id"@), utf8(c.library_id@)),
        (utf8("record_id"@), utf8(c.record_id@)),
        (utf8("record_kind"@), utf8(kind_name(c.record_kind))),
        (utf8("schema_version"@), be64(c.schema_version as u64)),
        (utf8("base_revision"@), be64(c.base_revision)),
    ]
}

/// The fields of a canonical context after its base version.
pub open spec fn context_tail_fields(c: RecordCryptoContextV1) -> Seq<(Seq<u8>, Seq<u8>)> {
    seq![
        (utf8("proposed_revision"@), be64(c.proposed_revision)),
        (utf8("version_id"@), utf8(c.version_id@)),
        (utf8("mutation_id"@), utf8(c.mutation_id@)),
        (utf8("authority_generation"@), be64(c.authority_generation)),
        (utf8("purge_generation"@), be64(c.purge_generation)),
        (utf8("key_epoch"@), be64(c.key_epoch)),
        (utf8("operation"@), utf8(operation_name(c.operation))),
    ]
}

proof fn lemma_context_head_bytes(c: RecordCryptoContextV1)
    ensures
        fields_bytes(context_head_fields(c)) == text_field("domain"@, "noted.record-aead.v1/context"@) + u64_field("version"@, c.version as u64) + text_field("cipher_suite"@, c.cipher_suite@) + text_field("library_id"@, c.library_id@) + text_field("record_id"@, c.record_id@) + text_field("record_kind"@, kind_name(c.record_kind)) + u64_field("schema_version"@, c.schema_version as u64) + u64_field("base_revision"@, c.base_revision),
{
    let f = context_head_fields(c);
    assert(f.take(0) =~= Seq::<(Seq<u8>, Seq<u8>)>::empty());
    assert(f.take(1).drop_last() =~= f.take(0));
    assert(fields_bytes(f.take(0)) == Seq::<u8>::empty());
    assert(f.take(1).last() == f[0]);
    assert(fields_bytes(f.take(1)) == Seq::<u8>::empty() + text_field("domain"@, "noted.record-aead.v1/context"@));
    assert(Seq::<u8>::empty() + text_field("domain"@, "noted.record-aead.v1/context"@) =~= text_field("domain"@, "noted.record-aead.v1/context"@));
    assert(f.take(2).drop_last() =~= f.take(1));
    assert(fields_bytes(f.take(2)) == text_field("domain"@, "noted.record-aead.v1/context"@) + u64_field("version"@, c.version as u64));
    assert(f.take(3).drop_last() =~= f.take(2));
    assert(fields_bytes(f.take(3)) == text_field("domain"@, "noted.record-aead.v1/context"@) + u64_field("version"@, c.version as u64) + text_field("cipher_suite"@, c.cipher_suite@));
    assert(f.take(4).drop_last() =~= f.take(3));
    assert(fields_bytes(f.take(4)) == text_field("domain"@, "noted.record-aead.v1/context"@) + u64_field("version"@, c.version as u64) + text_field("cipher_suite"@, c.cipher_suite@) + text_field("library_id"@, c.library_id@));
    assert(f.take(5).drop_last() =~= f.take(4));
    assert(fields_bytes(f.take(5)) == text_field("domain"@, "noted.record-aead.v1/context"@) + u64_field("version"@, c.version as u64) + text_field("cipher_suite"@, c.cipher_suite@) + text_field("library_id"@, c.library_id@) + text_field("record_id"@, c.record_id@));
    assert(f.take(6).drop_last() =~= f.take(5));
    assert(fields_bytes(f.take(6)) == text_field("domain"@, "noted.record-aead.v1/context"@) + u64_field("version"@, c.version as u64) + text_field("cipher_suite"@, c.cipher_suite@) + text_field("library_id"@, c.library_id@) + text_field("record_id"@, c.record_id@) + text_field("record_kind"@, kind_name(c.record_kind)));
    assert(f.take(7).drop_last() =~= f.take(6));
    assert(fields_bytes(f.take(7)) == text_field("domain"@, "noted.record-aead.v1/context"@) + u64_field("version"@, c.version as u64) + text_field("cipher_suite"@, c.cipher_suite@) + text_field("library_id"@, c.library_id@) + text_field("record_id"@, c.record_id@) + text_field("record_kind"@, kind_name(c.record_kind)) + u64_field("schema_version"@, c.schema_version as u64));
    assert(f.drop_last() =~= f.take(7));
    assert(fields_bytes(f) == text_field("domain"@, "noted.record-aead.v1/context"@) + u64_field("version"@, c.version as u64) + text_field("cipher_suite"@, c.cipher_suite@) + text_field("library_id"@, c.library_id@) + text_field("record_id"@, c.record_id@) + text_field("record_kind"@, kind_name(c.record_kind)) + u64_field("schema_version"@, c.schema_version as u64) + u64_field("base_revision"@, c.base_revision));
    assert(seq![] + text_field("domain"@, "noted.record-aead.v1/context"@) =~= text_field("domain"@, "noted.record-aead.v1/context"@));
}

/// `x` followed by labelled fields, each as `field` encodes it.
pub open spec fn fields_after(x: Seq<u8>, fs: Seq<(Seq<u8>, Seq<u8>)>) -> Seq<u8>
    decreases fs.len(),
{
    if fs.len() == 0 {
        x
    } else {
        fields_after(x, fs.drop_last()) + field(fs.last().0, fs.last().1)
    }
}

proof fn lemma_fields_after(x: Seq<u8>, fs: Seq<(Seq<u8>, Seq<u8>)>)
    ensures
        fields_after(x, fs) == x + fields_bytes(fs),
    decreases fs.len(),
{
    if fs.len() == 0 {
        assert(x + fields_bytes(fs) =~= x);
    } else {
        lemma_fields_after(x, fs.drop_last());
        vstd::seq_lib::lemma_concat_associative(
            x,
            fields_bytes(fs.drop_last()),
            field(fs.last().0, fs.last().1),
        );
    }
}

proof fn lemma_context_tail_after(c: RecordCryptoContextV1, x: Seq<u8>)
    ensures
        fields_after(x, context_tail_fields(c)) == x + u64_field("proposed_revision"@, c.proposed_revision) + text_field("version_id"@, c.version_id@) + text_field("mutation_id"@, c.mutation_id@) + u64_field("authority_generation"@, c.authority_generation) + u64_field("purge_generation"@, c.purge_generation) + u64_field("key_epoch"@, c.key_epoch) + text_field("operation"@, operation_name(c.operation)),
{
    let f = context_tail_fields(c);
    assert(f.take(0) =~= Seq::<(Seq<u8>, Seq<u8>)>::empty());
    assert(f.take(1).drop_last() =~= f.take(0));
    assert(fields_after(x, f.take(0)) == x);
    assert(f.take(1).last() == f[0]);
    assert(fields_after(x, f.take(1)) == x + u64_field("proposed_revision"@, c.proposed_revision));
    assert(f.take(2).drop_last() =~= f.take(1));
    assert(fields_after(x, f.take(2)) == x + u64_field("proposed_revision"@, c.proposed_revision) + text_field("version_id"@, c.version_id@));
    assert(f.take(3).drop_last() =~= f.take(2));
    assert(fields_after(x, f.take(3)) == x + u64_field("proposed_revision"@, c.proposed_revision) + text_field("version_id"@, c.version_id@) + text_field("mutation_id"@, c.mutation_id@));
    assert(f.take(4).drop_last() =~= f.take(3));
    assert(fields_after(x, f.take(4)) == x + u64_field("proposed_revision"@, c.proposed_revision) + text_field("version_id"@, c.version_id@) + text_field("mutation_id"@, c.mutation_id@) + u64_field("authority_generation"@, c.authority_generation));
    assert(f.take(5).drop_last() =~= f.take(4));
    assert(fields_after(x, f.take(5)) == x + u64_field("proposed_revision"@, c.proposed_revision) + text_field("version_id"@, c.version_id@) + text_field("mutation_id"@, c.mutation_id@) + u64_field("authority_generation"@, c.authority_generation) + u64_field("purge_generation"@, c.purge_generation));
    assert(f.take(6).drop_last() =~= f.take(5));
    assert(fields_after(x, f.take(6)) == x + u64_field("proposed_revision"@, c.proposed_revision) + text_field("version_id"@, c.version_id@) + text_field("mutation_id"@, c.mutation_id@) + u64_field("authority_generation"@, c.authority_generation) + u64_field("purge_generation"@, c.purge_generation) + u64_field("key_epoch"@, c.key_epoch));
    assert(f.drop_last() =~= f.take(6));
    assert(fields_after(x, f) == x + u64_field("proposed_revision"@, c.proposed_revision) + text_field("version_id"@, c.version_id@) + text_field("mutation_id"@, c.mutation_id@) + u64_field("authority_generation"@, c.authority_generation) + u64_field("purge_generation"@, c.purge_generation) + u64_field("key_epoch"@, c.key_epoch) + text_field("operation"@, operation_name(c.operation)));
}

/// The bytes of a context's base version: whether there is one, and which.
pub open spec fn context_base_bytes(c: RecordCryptoContextV1) -> Seq<u8> {
    match c.base_version_id {
        Some(b) => text_field("base_version_present"@, "true"@) + text_field("base_version_id"@, b@),
        None => text_field("base_version_present"@, "false"@),
    }
}

proof fn lemma_context_layout(c: RecordCryptoContextV1)
    ensures
        canonical_context(c) == fields_bytes(context_head_fields(c)) + (context_base_bytes(c)
            + fields_bytes(context_tail_fields(c))),
{
    reveal(canonical_context);
    lemma_context_head_bytes(c);
    let hb = fields_bytes(context_head_fields(c)) + context_base_bytes(c);
    lemma_context_tail_after(c, hb);
    lemma_fields_after(hb, context_tail_fields(c));
    vstd::seq_lib::lemma_concat_associative(
        fields_bytes(context_head_fields(c)),
        context_base_bytes(c),
        fields_bytes(context_tail_fields(c)),
    );
}

/// Two contexts carry the same public facts.
pub open spec fn same_context_facts(a: RecordCryptoContextV1, b: RecordCryptoContextV1) -> bool {
    &&& a.version == b.version
    &&& a.cipher_suite@ == b.cipher_suite@
    &&& a.library_id@ == b.library_id@
    &&& a.record_id@ == b.record_id@
    &&& a.record_kind == b.record_kind
    &&& a.schema_version == b.schema_version
    &&& a.base_revision == b.base_revision
    &&& match (a.base_version_id, b.base_version_id) {
        (Some(x), Some(y)) => x@ == y@,
        (None, None) => true,
        _ => false,
    }
    &&& a.proposed_revision == b.proposed_revision
    &&& a.version_id@ == b.version_id@
    &&& a.mutation_id@ == b.mutation_id@
    &&& a.authority_generation == b.authority_generation
    &&& a.purge_generation == b.purge_generation
    &&& a.key_epoch == b.key_epoch
    &&& a.operation == b.operation
}

proof fn lemma_utf8_injective(x: Seq<char>, y: Seq<char>)
    requires
        utf8(x) == utf8(y),
    ensures
        x == y,
{
    vstd::utf8::encode_utf8_decode_utf8(x);
    vstd::utf8::encode_utf8_decode_utf8(y);
}

proof fn lemma_head_facts(a: RecordCryptoContextV1, b: RecordCryptoContextV1, ra: Seq<u8>, rb: Seq<u8>)
    requires
        fields_bytes(context_head_fields(a)) + ra == fields_bytes(context_head_fields(b)) + rb,
        (fields_bytes(context_head_fields(a)) + ra).len() <= u64::MAX,
    ensures
        ra == rb,
        a.version == b.version,
        a.cipher_suite@ == b.cipher_suite@,
        a.library_id@ == b.library_id@,
        a.record_id@ == b.record_id@,
        a.record_kind == b.record_kind,
        a.schema_version == b.schema_version,
        a.base_revision == b.base_revision,
{
    let ha = context_head_fields(a);
    let hb = context_head_fields(b);
    lemma_fields_prefix(ha, ra, hb, rb);
    assert(ha[1].1 == hb[1].1 && ha[2].1 == hb[2].1 && ha[3].1 == hb[3].1 && ha[4].1 == hb[4].1
        && ha[5].1 == hb[5].1 && ha[6].1 == hb[6].1 && ha[7].1 == hb[7].1);
    lemma_be64_injective(a.version as u64, b.version as u64);
    lemma_utf8_injective(a.cipher_suite@, b.cipher_suite@);
    lemma_utf8_injective(a.library_id@, b.library_id@);
    lemma_utf8_injective(a.record_id@, b.record_id@);
    lemma_utf8_injective(kind_name(a.record_kind), kind_name(b.record_kind));
    reveal_strlit("note");
    reveal_strlit("category");
    reveal_strlit("folder");
    lemma_be64_injective(a.schema_version as u64, b.schema_version as u64);
    lemma_be64_injective(a.base_revision, b.base_revision);
}

proof fn lemma_base_facts(a: RecordCryptoContextV1, b: RecordCryptoContextV1)
    requires
        context_base_bytes(a) + fields_bytes(context_tail_fields(a)) == context_base_bytes(b)
            + fields_bytes(context_tail_fields(b)),
        (context_base_bytes(a) + fields_bytes(context_tail_fields(a))).len() <= u64::MAX,
    ensures
        fields_bytes(context_tail_fields(a)) == fields_bytes(context_tail_fields(b)),
        match (a.base_version_id, b.base_version_id) {
            (Some(x), Some(y)) => x@ == y@,
            (None, None) => true,
            _ => false,
        },
{
    let ta = fields_bytes(context_tail_fields(a));
    let tb = fields_bytes(context_tail_fields(b));
    let present = utf8("base_version_present"@);
    let pa: Seq<char> = if a.base_version_id is Some {
        "true"@
    } else {
        "false"@
    };
    let pb: Seq<char> = if b.base_version_id is Some {
        "true"@
    } else {
        "false"@
    };
    let qa = match a.base_version_id {
        Some(x) => text_field("base_version_id"@, x@) + ta,
        None => ta,
    };
    let qb = match b.base_version_id {
        Some(x) => text_field("base_version_id"@, x@) + tb,
        None => tb,
    };
    assert(context_base_bytes(a) + ta =~= field(present, utf8(pa)) + qa);
    assert(context_base_bytes(b) + tb =~= field(present, utf8(pb)) + qb);
    lemma_field_prefix(present, utf8(pa), qa, utf8(pb), qb);
    lemma_utf8_injective(pa, pb);
    reveal_strlit("true");
    reveal_strlit("false");
    match (a.base_version_id, b.base_version_id) {
        (Some(x), Some(y)) => {
            lemma_field_prefix(utf8("base_version_id"@), utf8(x@), ta, utf8(y@), tb);
            lemma_utf8_injective(x@, y@);
        },
        (None, None) => {},
        _ => {
            assert(pa.len() != pb.len());
        },
    }
}

proof fn lemma_tail_facts(a: RecordCryptoContextV1, b: RecordCryptoContextV1)
    requires
        fields_bytes(context_tail_fields(a)) == fields_bytes(context_tail_fields(b)),
        fields_bytes(context_tail_fields(a)).len() <= u64::MAX,
    ensures
        a.proposed_revision == b.proposed_revision,
        a.version_id@ == b.version_id@,
        a.mutation_id@ == b.mutation_id@,
        a.authority_generation == b.authority_generation,
        a.purge_generation == b.purge_generation,
        a.key_epoch == b.key_epoch,
        a.operation == b.operation,
{
    let ta = context_tail_fields(a);
    let tb = context_tail_fields(b);
    assert(fields_bytes(ta) + Seq::<u8>::empty() =~= fields_bytes(ta));
    assert(fields_bytes(tb) + Seq::<u8>::empty() =~= fields_bytes(tb));
    lemma_fields_prefix(ta, Seq::<u8>::empty(), tb, Seq::<u8>::empty());
    assert(ta[0].1 == tb[0].1 && ta[1].1 == tb[1].1 && ta[2].1 == tb[2].1 && ta[3].1 == tb[3].1
        && ta[4].1 == tb[4].1 && ta[5].1 == tb[5].1 && ta[6].1 == tb[6].1);
    lemma_be64_injective(a.proposed_revision, b.proposed_revision);
    lemma_utf8_injective(a.version_id@, b.version_id@);
    lemma_utf8_injective(a.mutation_id@, b.mutation_id@);
    lemma_be64_injective(a.authority_generation, b.authority_generation);
    lemma_be64_injective(a.purge_generation, b.purge_generation);
    lemma_be64_injective(a.key_epoch, b.key_epoch);
    lemma_utf8_injective(operation_name(a.operation), operation_name(b.operation));
    reveal_strlit("create");
    reveal_strlit("update");
    reveal_strlit("delete");
}

/// The canonical context is injective: two contexts with the same encoding
/// agree on every public fact, so a ciphertext bound to one context cannot
/// be rebound to a different record, revision, mutation, generation, epoch
/// or operation.
pub proof fn lemma_canonical_context_injective(a: RecordCryptoContextV1, b: RecordCryptoContextV1)
    requires
        canonical_context(a) == canonical_context(b),
        canonical_context(a).len() <= u64::MAX,
    ensures
        same_context_facts(a, b),
{
    lemma_context_layout(a);
    lemma_context_layout(b);
    let ra = context_base_bytes(a) + fields_bytes(context_tail_fields(a));
    let rb = context_base_bytes(b) + fields_bytes(context_tail_fields(b));
    lemma_head_facts(a, b, ra, rb);
    lemma_base_facts(a, b);
    lemma_tail_facts(a, b);
}

proof fn lemma_ascii_utf8_len(s: Seq<char>)
    requires
        forall|k: int| 0 <= k < s.len() ==> (#[trigger] s[k] as u32) < 0x80,
    ensures
        encode_utf8(s).len() == s.len(),
    decreases s.len(),
{
    if s.len() > 0 {
        assert((s[0] as u32) < 0x80);
        assert forall|k: int| 0 <= k < s.drop_first().len() implies (#[trigger] s.drop_first()[k]
            as u32) < 0x80 by {
            assert(s.drop_first()[k] == s[k + 1]);
        }
        lemma_ascii_utf8_len(s.drop_first());
    }
}

/// The canonical context opens with its domain, framed as every field is:
/// the 6-byte label `domain` and the 28-byte domain text, each after its
/// big-endian length. Two contexts have the same canonical encoding exactly
/// when they carry the same public facts, presence of a base version
/// included.
pub proof fn lemma_canonical_context_law(c1: RecordCryptoContextV1, c2: RecordCryptoContextV1)
    requires
        canonical_context(c1).len() <= u64::MAX,
        canonical_context(c2).len() <= u64::MAX,
    ensures
        canonical_context(c1).take(
            text_field("domain"@, "noted.record-aead.v1/context"@).len() as int,
        ) == text_field("domain"@, "noted.record-aead.v1/context"@),
        utf8("domain"@).len() == 6,
        utf8("noted.record-aead.v1/context"@).len() == 28,
        canonical_context(c1) == canonical_context(c2) <==> same_context_facts(c1, c2),
{
    reveal_strlit("domain");
    reveal_strlit("noted.record-aead.v1/context");
    lemma_ascii_utf8_len("domain"@);
    lemma_ascii_utf8_len("noted.record-aead.v1/context"@);
    lemma_context_layout(c1);
    lemma_context_head_bytes(c1);
    let d = text_field("domain"@, "noted.record-aead.v1/context"@);
    assert(canonical_context(c1).take(d.len() as int) =~= d);
    if canonical_context(c1) == canonical_context(c2) {
        lemma_canonical_context_injective(c1, c2);
    }
    if same_context_facts(c1, c2) {
        reveal(canonical_context);
        assert(kind_name(c1.record_kind) == kind_name(c2.record_kind));
        assert(canonical_context(c1) =~= canonical_context(c2));
    }
}

/// The associated data of a context frames its domain and its canonical
/// context as labelled fields (labels `domain` and `context` of 6 and 7
/// bytes, a 24-byte domain), and is never the HKDF info of the same context.
pub proof fn lemma_associated_data_law(c: RecordCryptoContextV1)
    requires
        canonical_context(c).len() <= u64::MAX,
    ensures
        associated_data(c) == text_field("domain"@, "noted.record-aead.v1/aad"@) + field(
            utf8("context"@),
            canonical_context(c),
        ),
        utf8("domain"@).len() == 6,
        utf8("context"@).len() == 7,
        utf8("noted.record-aead.v1/aad"@).len() == 24,
        associated_data(c) != hkdf_info(c),
{
    reveal_strlit("domain");
    reveal_strlit("context");
    reveal_strlit("noted.record-aead.v1/aad");
    lemma_ascii_utf8_len("domain"@);
    lemma_ascii_utf8_len("context"@);
    lemma_ascii_utf8_len("noted.record-aead.v1/aad"@);
    lemma_components_one("noted.record-aead.v1/aad"@, "context"@, canonical_context(c));
    lemma_hkdf_info_is_domain_separated(c, c);
}

/// Appends `value`'s bytes to `out`.
fn append_bytes(out: &mut Vec<u8>, value: &[u8])
    ensures
        final(out)@ == old(out)@ + value@,
{
    let mut i: usize = 0;
    while i < value.len()
        invariant
            i <= value@.len(),
            out@ == old(out)@ + value@.take(i as int),
        decreases value@.len() - i,
    {
        out.push(value[i]);
        i = i + 1;
        assert(out@ =~= old(out)@ + value@.take(i as int));
    }
    assert(value@.take(value@.len() as int) =~= value@);
}

fn append_be32(out: &mut Vec<u8>, x: u32)
    ensures
        final(out)@ == old(out)@ + be32(x),
{
    out.push((x >> 24u32) as u8);
    out.push((x >> 16u32) as u8);
    out.push((x >> 8u32) as u8);
    out.push(x as u8);
    assert(out@ =~= old(out)@ + be32(x));
}

fn append_be64(out: &mut Vec<u8>, x: u64)
    ensures
        final(out)@ == old(out)@ + be64(x),
{
    out.push((x >> 56u64) as u8);
    out.push((x >> 48u64) as u8);
    out.push((x >> 40u64) as u8);
    out.push((x >> 32u64) as u8);
    out.push((x >> 24u64) as u8);
    out.push((x >> 16u64) as u8);
    out.push((x >> 8u64) as u8);
    out.push(x as u8);
    assert(out@ =~= old(out)@ + be64(x));
}

/// Appends one labelled field.
fn put_bytes(out: &mut Vec<u8>, label: &str, value: &[u8])
    ensures
        final(out)@ == old(out)@ + field(utf8(label@), value@),
{
    let l = label.as_bytes();
    append_be32(out, l.len() as u32);
    append_bytes(out, l);
    append_be64(out, value.len() as u64);
    append_bytes(out, value);
    assert(out@ =~= old(out)@ + field(utf8(label@), value@));
}

fn put_text(out: &mut Vec<u8>, label: &str, value: &str)
    ensures
        final(out)@ == old(out)@ + text_field(label@, value@),
{
    put_bytes(out, label, value.as_bytes());
}

fn put_u64(out: &mut Vec<u8>, label: &str, value: u64)
    ensures
        final(out)@ == old(out)@ + u64_field(label@, value),
{
    let mut b: Vec<u8> = Vec::new();
    append_be64(&mut b, value);
    assert(b@ =~= be64(value));
    put_bytes(out, label, &b);
}

/// The canonical context encoding; fails exactly when the context is invalid.
pub fn canonical_record_crypto_context(context: &RecordCryptoContextV1) -> (r: SecurityResult<
    Vec<u8>,
>)
    ensures
        r is Ok <==> context_ok(*context),
        r matches Ok(b) ==> b@ == canonical_context(*context),
        r matches Err(e) ==> context_failure(*context) == Some(e),
{
    context.validate()?;
    let c = context;
    reveal(canonical_context);
    let mut out: Vec<u8> = Vec::new();
    put_text(&mut out, "domain", "noted.record-aead.v1/context");
    assert(out@ =~= text_field("domain"@, "noted.record-aead.v1/context"@));
    put_u64(&mut out, "version", c.version as u64);
    put_text(&mut out, "cipher_suite", c.cipher_suite.as_str());
    put_text(&mut out, "library_id", c.library_id.as_str());
    put_text(&mut out, "record_id", c.record_id.as_str());
    put_text(&mut out, "record_kind", c.record_kind.as_str());
    put_u64(&mut out, "schema_version", c.schema_version as u64);
    put_u64(&mut out, "base_revision", c.base_revision);
    let ghost head = out@;
    match &c.base_version_id {
        Some(b) => {
            put_text(&mut out, "base_version_present", "true");
            put_text(&mut out, "base_version_id", b.as_str());
            assert(out@ =~= head + (text_field("base_version_present"@, "true"@) + text_field(
                "base_version_id"@,
                b@,
            )));
        },
        None => {
            put_text(&mut out, "base_version_present", "false");
        },
    }
    put_u64(&mut out, "proposed_revision", c.proposed_revision);
    put_text(&mut out, "version_id", c.version_id.as_str());
    put_text(&mut out, "mutation_id", c.mutation_id.as_str());
    put_u64(&mut out, "authority_generation", c.authority_generation);
    put_u64(&mut out, "purge_generation", c.purge_generation);
    put_u64(&mut out, "key_epoch", c.key_epoch);
    put_text(&mut out, "operation", c.operation.as_str());
    Ok(out)
}

/// A one-field component encoding.
fn components1(domain: &str, label: &str, value: &[u8]) -> (r: Vec<u8>)
    ensures
        r@ == components(domain@, seq![(label@, value@)]),
{
    let mut out: Vec<u8> = Vec::new();
    put_text(&mut out, "domain", domain);
    put_bytes(&mut out, label, value);
    proof {
        lemma_components_one(domain@, label@, value@);
        assert(out@ =~= components(domain@, seq![(label@, value@)]));
    }
    out
}

/// HKDF info for the per-record key.
pub fn record_hkdf_info(context: &RecordCryptoContextV1) -> (r: SecurityResult<Vec<u8>>)
    ensures
        r is Ok <==> context_ok(*context),
        r matches Ok(b) ==> b@ == hkdf_info(*context),
        r matches Err(e) ==> context_failure(*context) == Some(e),
{
    let canonical = canonical_record_crypto_context(context)?;
    Ok(components1("noted.record-aead.v1/hkdf-info", "context", &canonical))
}

/// AEAD associated data for the record.
pub fn record_associated_data(context: &RecordCryptoContextV1) -> (r: SecurityResult<Vec<u8>>)
    ensures
        r is Ok <==> context_ok(*context),
        r matches Ok(b) ==> b@ == associated_data(*context),
        r matches Err(e) ==> context_failure(*context) == Some(e),
{
    let canonical = canonical_record_crypto_context(context)?;
    Ok(components1("noted.record-aead.v1/aad", "context", &canonical))
}

/// Fixed public salt for the v1 per-record HKDF.
pub fn record_hkdf_salt() -> (r: [u8; 32])
    ensures
        r@ == sha256_spec(utf8(RECORD_HKDF_SALT_DOMAIN@)),
{
    sha256(RECORD_HKDF_SALT_DOMAIN.as_bytes())
}

/// SHA-256 of the canonical context.
pub fn record_context_digest(context: &RecordCryptoContextV1) -> (r: SecurityResult<[u8; 32]>)
    ensures
        r is Ok <==> context_ok(*context),
        r matches Ok(d) ==> d@ == sha256_spec(canonical_context(*context)),
        r matches Err(e) ==> context_failure(*context) == Some(e),
{
    let canonical = canonical_record_crypto_context(context)?;
    Ok(sha256(&canonical))
}

/// The nonce and ciphertext lengths a v1 record may have.
pub open spec fn sealed_bounds_ok(nonce: Seq<u8>, ciphertext: Seq<u8>) -> bool {
    nonce.len() == RECORD_NONCE_BYTES && RECORD_TAG_BYTES <= ciphertext.len()
        <= MAX_RECORD_CIPHERTEXT_BYTES
}

/// SHA-256 over the context, nonce and ciphertext.
pub fn record_envelope_digest(context: &RecordCryptoContextV1, nonce: &[u8], ciphertext: &[u8]) -> (r:
    SecurityResult<[u8; 32]>)
    ensures
        r is Ok <==> sealed_bounds_ok(nonce@, ciphertext@) && context_ok(*context),
        r matches Ok(d) ==> d@ == sha256_spec(envelope_input(*context, nonce@, ciphertext@)),
        r matches Err(e) ==> if sealed_bounds_ok(nonce@, ciphertext@) {
            context_failure(*context) == Some(e)
        } else {
            e == Error::InvalidNativeResponse("record ciphertext bounds")
        },
{
    if nonce.len() != RECORD_NONCE_BYTES || ciphertext.len() < RECORD_TAG_BYTES || ciphertext.len()
        > MAX_RECORD_CIPHERTEXT_BYTES {
        return Err(Error::InvalidNativeResponse("record ciphertext bounds"));
    }
    let canonical = canonical_record_crypto_context(context)?;
    let mut out: Vec<u8> = Vec::new();
    put_text(&mut out, "domain", "noted.record-aead.v1/envelope");
    put_bytes(&mut out, "context", &canonical);
    put_bytes(&mut out, "nonce", nonce);
    put_bytes(&mut out, "ciphertext", ciphertext);
    proof {
        lemma_components_three(
            "noted.record-aead.v1/envelope"@,
            "context"@,
            canonical@,
            "nonce"@,
            nonce@,
            "ciphertext"@,
            ciphertext@,
        );
        assert(out@ =~= components(
            "noted.record-aead.v1/envelope"@,
            seq![("context"@, canonical@), ("nonce"@, nonce@), ("ciphertext"@, ciphertext@)],
        ));
    }
    Ok(sha256(&out))
}

/// The 32-byte message the inner record signature covers.
pub fn record_signature_message(envelope_digest: &[u8; 32]) -> (r: [u8; 32])
    ensures
        r@ == sha256_spec(signature_input(envelope_digest@)),
{
    let input = components1(
        "noted.record-aead.v1/signature",
        "envelope_digest",
        envelope_digest.as_slice(),
    );
    sha256(&input)
}

// ---------------------------------------------------------------------------
// Sealed records and their fixed binary container
// ---------------------------------------------------------------------------

#[derive(Debug, Clone, PartialEq, Eq)]
pub struct RecordCiphertextV1 {
    pub version: u32,
    pub cipher_suite: String,
    pub nonce: Vec<u8>,
    /// AES-GCM ciphertext followed by its 16-byte authentication tag.
    pub ciphertext: Vec<u8>,
    pub context_digest: [u8; 32],
    pub envelope_digest: [u8; 32],
    /// Inner P-256 ECDSA signature in fixed-width IEEE P1363 form over
    /// [`record_signature_message`].
    pub record_signature: Vec<u8>,
}

/// The public content of a sealed record.
pub struct SealedView {
    pub version: u32,
    pub cipher_suite: Seq<char>,
    pub nonce: Seq<u8>,
    pub ciphertext: Seq<u8>,
    pub context_digest: Seq<u8>,
    pub envelope_digest: Seq<u8>,
    pub record_signature: Seq<u8>,
}

impl View for RecordCiphertextV1 {
    type V = SealedView;

    open spec fn view(&self) -> SealedView {
        SealedView {
            version: self.version,
            cipher_suite: self.cipher_suite@,
            nonce: self.nonce@,
            ciphertext: self.ciphertext@,
            context_digest: self.context_digest@,
            envelope_digest: self.envelope_digest@,
            record_signature: self.record_signature@,
        }
    }
}

/// A sealed record is well formed and recomputes every public binding of
/// its context: both digests are exactly those of this context, nonce and
/// ciphertext.
pub open spec fn sealed_ok(v: SealedView, c: RecordCryptoContextV1) -> bool {
    &&& context_ok(c)
    &&& v.version == RECORD_CRYPTO_CONTEXT_VERSION
    &&& v.cipher_suite == RECORD_CIPHER_SUITE@
    &&& sealed_bounds_ok(v.nonce, v.ciphertext)
    &&& v.record_signature.len() == P256_SIGNATURE_BYTES
    &&& v.context_digest == sha256_spec(canonical_context(c))
    &&& v.envelope_digest == sha256_spec(envelope_input(c, v.nonce, v.ciphertext))
}

impl RecordCiphertextV1 {
    pub fn validate_for(&self, context: &RecordCryptoContextV1) -> (r: SecurityResult<()>)
        ensures
            r is Ok <==> sealed_ok(self@, *context),
            r matches Err(e) ==> e == match context_failure(*context) {
                Some(f) => f,
                None => Error::InvalidNativeResponse("record ciphertext"),
            },
    {
        context.validate()?;
        if self.version != RECORD_CRYPTO_CONTEXT_VERSION || !str_eq(
            self.cipher_suite.as_str(),
            RECORD_CIPHER_SUITE,
        ) || self.nonce.len() != RECORD_NONCE_BYTES || self.ciphertext.len() < RECORD_TAG_BYTES
            || self.ciphertext.len() > MAX_RECORD_CIPHERTEXT_BYTES || self.record_signature.len()
            != P256_SIGNATURE_BYTES {
            return Err(Error::InvalidNativeResponse("record ciphertext"));
        }
        let context_digest = record_context_digest(context)?;
        let envelope_digest = record_envelope_digest(context, &self.nonce, &self.ciphertext)?;
        if !bytes_eq(self.context_digest.as_slice(), context_digest.as_slice()) || !bytes_eq(
            self.envelope_digest.as_slice(),
            envelope_digest.as_slice(),
        ) {
            return Err(Error::InvalidNativeResponse("record ciphertext"));
        }
        Ok(())
    }
}

/// Maximum plaintext that fits in `remaining_transaction_bytes` after the
/// public record container and AES-GCM tag.
pub open spec fn max_plaintext_spec(remaining: int) -> Option<int> {
    let minimum = RECORD_CIPHERTEXT_V1_FIXED_OVERHEAD + RECORD_TAG_BYTES;
    if remaining < minimum {
        None
    } else if remaining - minimum < MAX_RECORD_PLAINTEXT_BYTES {
        Some(remaining - minimum)
    } else {
        Some(MAX_RECORD_PLAINTEXT_BYTES as int)
    }
}

/// Maximum plaintext that fits in `remaining_transaction_bytes` after the
/// public record container and AES-GCM tag. Callers with multiple mutations
/// must decrement their remaining aggregate budget after each encoded blob.
pub fn max_plaintext_for_transaction(remaining_transaction_bytes: usize) -> (r: Option<usize>)
    ensures
        match (r, max_plaintext_spec(remaining_transaction_bytes as int)) {
            (Some(a), Some(b)) => a as int == b,
            (None, None) => true,
            _ => false,
        },
{
    let minimum = RECORD_CIPHERTEXT_V1_FIXED_OVERHEAD + RECORD_TAG_BYTES;
    if remaining_transaction_bytes < minimum {
        return None;
    }
    let available = remaining_transaction_bytes - minimum;
    if available < MAX_RECORD_PLAINTEXT_BYTES {
        Some(available)
    } else {
        Some(MAX_RECORD_PLAINTEXT_BYTES)
    }
}

/// The four magic bytes `NRC1` that open every v1 container.
pub open spec fn container_magic() -> Seq<u8> {
    seq![0x4eu8, 0x52u8, 0x43u8, 0x31u8]
}

/// The v1 container: magic, version, ciphertext length, nonce, context
/// digest, envelope digest, record signature, then the ciphertext.
pub open spec fn container_encoding(v: SealedView) -> Seq<u8> {
    container_magic() + be32(v.version) + be32(v.ciphertext.len() as u32) + v.nonce
        + v.context_digest + v.envelope_digest + v.record_signature + v.ciphertext
}

/// The container has the outer shape of a v1 record: bounded total length,
/// the magic, and a declared ciphertext length that is in bounds and
/// consumes the input exactly.
pub open spec fn container_shape_ok(e: Seq<u8>) -> bool {
    &&& RECORD_CIPHERTEXT_V1_FIXED_OVERHEAD + RECORD_TAG_BYTES <= e.len()
        <= MAX_RECORD_CIPHERTEXT_CONTAINER_BYTES
    &&& e.subrange(0, 4) == container_magic()
    &&& RECORD_TAG_BYTES <= from_be32(e[8], e[9], e[10], e[11]) <= MAX_RECORD_CIPHERTEXT_BYTES
    &&& e.len() == RECORD_CIPHERTEXT_V1_FIXED_OVERHEAD + from_be32(e[8], e[9], e[10], e[11])
}

/// The record a well-shaped container holds.
pub open spec fn container_fields(e: Seq<u8>) -> SealedView {
    SealedView {
        version: from_be32(e[4], e[5], e[6], e[7]),
        cipher_suite: RECORD_CIPHER_SUITE@,
        nonce: e.subrange(12, 24),
        context_digest: e.subrange(24, 56),
        envelope_digest: e.subrange(56, 88),
        record_signature: e.subrange(88, 152),
        ciphertext: e.subrange(152, e.len() as int),
    }
}

/// Decoding a container that encodes a well-formed sealed record yields
/// exactly that record: the codec is a strict inverse on valid values.
pub proof fn lemma_container_roundtrip(v: SealedView, c: RecordCryptoContextV1)
    requires
        sealed_ok(v, c),
        v.context_digest.len() == 32,
        v.envelope_digest.len() == 32,
    ensures
        container_shape_ok(container_encoding(v)),
        container_fields(container_encoding(v)) == v,
        sealed_ok(container_fields(container_encoding(v)), c),
{
    let e = container_encoding(v);
    let n = v.ciphertext.len();
    lemma_be32_roundtrip(n as u32);
    lemma_be32_roundtrip(v.version);
    assert(e.len() == 152 + n);
    assert(e.subrange(0, 4) =~= container_magic());
    assert(e[8] == be32(n as u32)[0]);
    assert(e[9] == be32(n as u32)[1]);
    assert(e[10] == be32(n as u32)[2]);
    assert(e[11] == be32(n as u32)[3]);
    assert(e[4] == be32(v.version)[0]);
    assert(e[5] == be32(v.version)[1]);
    assert(e[6] == be32(v.version)[2]);
    assert(e[7] == be32(v.version)[3]);
    assert(e.subrange(12, 24) =~= v.nonce);
    assert(e.subrange(24, 56) =~= v.context_digest);
    assert(e.subrange(56, 88) =~= v.envelope_digest);
    assert(e.subrange(88, 152) =~= v.record_signature);
    assert(e.subrange(152, e.len() as int) =~= v.ciphertext);
    assert(container_fields(e) =~= v);
}

proof fn lemma_be32_of_bytes(b0: u8, b1: u8, b2: u8, b3: u8)
    ensures
        be32(from_be32(b0, b1, b2, b3)) == seq![b0, b1, b2, b3],
{
    let x = from_be32(b0, b1, b2, b3);
    assert((x >> 24u32) as u8 == b0 && (x >> 16u32) as u8 == b1 && (x >> 8u32) as u8 == b2
        && x as u8 == b3) by (bit_vector)
        requires
            x == ((b0 as u32) << 24u32) | ((b1 as u32) << 16u32) | ((b2 as u32) << 8u32) | (
            b3 as u32),
    ;
    assert(be32(x) =~= seq![b0, b1, b2, b3]);
}

/// Encoding the record that a well-shaped container holds gives back exactly
/// the container's bytes: decoding keeps every byte.
pub proof fn lemma_container_decode_encode(e: Seq<u8>)
    requires
        container_shape_ok(e),
    ensures
        container_encoding(container_fields(e)) == e,
{
    let v = container_fields(e);
    lemma_be32_of_bytes(e[4], e[5], e[6], e[7]);
    lemma_be32_of_bytes(e[8], e[9], e[10], e[11]);
    assert(v.ciphertext.len() == from_be32(e[8], e[9], e[10], e[11]));
    assert(e.subrange(0, 4) =~= container_magic());
    assert(container_encoding(v) =~= e);
}

/// Deterministic public wire form stored as a mutation's ciphertext.
pub fn encode_record_ciphertext_v1(value: &RecordCiphertextV1, context: &RecordCryptoContextV1) -> (r:
    SecurityResult<Vec<u8>>)
    ensures
        r is Ok <==> sealed_ok(value@, *context),
        r matches Ok(b) ==> b@ == container_encoding(value@) && b@.len()
            == RECORD_CIPHERTEXT_V1_FIXED_OVERHEAD + value.ciphertext@.len(),
{
    value.validate_for(context)?;
    let ciphertext_len = value.ciphertext.len() as u32;
    let mut encoded: Vec<u8> = Vec::new();
    encoded.push(0x4eu8);
    encoded.push(0x52u8);
    encoded.push(0x43u8);
    encoded.push(0x31u8);
    assert(encoded@ =~= container_magic());
    append_be32(&mut encoded, value.version);
    append_be32(&mut encoded, ciphertext_len);
    append_bytes(&mut encoded, &value.nonce);
    append_bytes(&mut encoded, value.context_digest.as_slice());
    append_bytes(&mut encoded, value.envelope_digest.as_slice());
    append_bytes(&mut encoded, &value.record_signature);
    append_bytes(&mut encoded, &value.ciphertext);
    assert(encoded@ =~= container_encoding(value@));
    Ok(encoded)
}

/// Strict inverse of [`encode_record_ciphertext_v1`]. Declared length must
/// consume the input exactly; truncated values and trailing bytes fail closed.
pub fn decode_record_ciphertext_v1(encoded: &[u8], context: &RecordCryptoContextV1) -> (r:
    SecurityResult<RecordCiphertextV1>)
    ensures
        r is Ok <==> context_ok(*context) && container_shape_ok(encoded@) && sealed_ok(
            container_fields(encoded@),
            *context,
        ),
        r matches Ok(v) ==> v@ == container_fields(encoded@),
        r matches Err(e) ==> e == if !context_ok(*context) {
            context_failure(*context)->Some_0
        } else if !(RECORD_CIPHERTEXT_V1_FIXED_OVERHEAD + RECORD_TAG_BYTES <= encoded@.len()
            <= MAX_RECORD_CIPHERTEXT_CONTAINER_BYTES && encoded@.subrange(0, 4)
            == container_magic()) {
            Error::InvalidNativeResponse("record ciphertext encoding")
        } else if !container_shape_ok(encoded@) {
            Error::InvalidNativeResponse("record ciphertext length")
        } else {
            Error::InvalidNativeResponse("record ciphertext")
        },
{
    context.validate()?;
    if encoded.len() < RECORD_CIPHERTEXT_V1_FIXED_OVERHEAD + RECORD_TAG_BYTES || encoded.len()
        > MAX_RECORD_CIPHERTEXT_CONTAINER_BYTES || encoded[0] != 0x4eu8 || encoded[1] != 0x52u8
        || encoded[2] != 0x43u8 || encoded[3] != 0x31u8 {
        proof {
            if encoded@.len() >= 4 && encoded@.subrange(0, 4) == container_magic() {
                assert(encoded@[0] == encoded@.subrange(0, 4)[0]);
                assert(encoded@[1] == encoded@.subrange(0, 4)[1]);
                assert(encoded@[2] == encoded@.subrange(0, 4)[2]);
                assert(encoded@[3] == encoded@.subrange(0, 4)[3]);
            }
        }
        return Err(Error::InvalidNativeResponse("record ciphertext encoding"));
    }
    assert(encoded@.subrange(0, 4) =~= container_magic());
    let version = ((encoded[4] as u32) << 24u32) | ((encoded[5] as u32) << 16u32) | ((
    encoded[6] as u32) << 8u32) | (encoded[7] as u32);
    let declared = ((encoded[8] as u32) << 24u32) | ((encoded[9] as u32) << 16u32) | ((
    encoded[10] as u32) << 8u32) | (encoded[11] as u32);
    let ciphertext_len = declared as usize;
    if ciphertext_len < RECORD_TAG_BYTES || ciphertext_len > MAX_RECORD_CIPHERTEXT_BYTES
        || encoded.len() != RECORD_CIPHERTEXT_V1_FIXED_OVERHEAD + ciphertext_len {
        return Err(Error::InvalidNativeResponse("record ciphertext length"));
    }
    let nonce = crate::text::slice_range(encoded, 12, 24);
    let context_digest = to_array32(&crate::text::slice_range(encoded, 24, 56));
    let envelope_digest = to_array32(&crate::text::slice_range(encoded, 56, 88));
    let record_signature = crate::text::slice_range(encoded, 88, 152);
    let ciphertext = crate::text::slice_range(encoded, 152, encoded.len());
    let value = RecordCiphertextV1 {
        version,
        cipher_suite: RECORD_CIPHER_SUITE.to_owned(),
        nonce,
        ciphertext,
        context_digest,
        envelope_digest,
        record_signature,
    };
    assert(value@ =~= container_fields(encoded@));
    value.validate_for(context)?;
    Ok(value)
}

#[derive(Debug, Clone, PartialEq, Eq)]
pub struct OpenedRecordV1 {
    pub plaintext: Vec<u8>,
    pub context_digest: [u8; 32],
    pub envelope_digest: [u8; 32],
}

// ---------------------------------------------------------------------------
// Requests to and replies from the native boundary
// ---------------------------------------------------------------------------

/// Native request that seals one record.
#[derive(Debug)]
pub struct SealRecordArgs<'a> {
    pub identity_handle: &'a str,
    pub context: &'a RecordCryptoContextV1,
    pub plaintext_base64: String,
}

impl<'a> SealRecordArgs<'a> {
    pub fn new(identity: &'a IdentityHandle, context: &'a RecordCryptoContextV1, plaintext: &[u8]) -> (r:
        SecurityResult<Self>)
        ensures
            r is Ok <==> context_ok(*context) && plaintext@.len() <= MAX_RECORD_PLAINTEXT_BYTES,
            r matches Ok(a) ==> a.identity_handle@ == identity@ && a.context == context
                && a.plaintext_base64@ == base64_encode_spec(plaintext@),
    {
        context.validate()?;
        if plaintext.len() > MAX_RECORD_PLAINTEXT_BYTES {
            return Err(Error::InvalidNativeResponse("record plaintext bounds"));
        }
        Ok(Self {
            identity_handle: identity.expose_opaque(),
            context,
            plaintext_base64: base64_encode(plaintext),
        })
    }
}

/// A sealed record as the native boundary exchanges it: base64 fields.
#[derive(Debug, Clone)]
pub struct RecordCiphertextBridge {
    pub version: u32,
    pub cipher_suite: String,
    pub nonce_base64: String,
    pub ciphertext_base64: String,
    pub context_digest_base64: String,
    pub envelope_digest_base64: String,
    pub record_signature_base64: String,
}

/// Native request that opens one record.
#[derive(Debug)]
pub struct OpenRecordArgs<'a> {
    pub identity_handle: &'a str,
    pub context: &'a RecordCryptoContextV1,
    pub sealed: RecordCiphertextBridge,
    pub signer_public_key_base64: String,
}

impl<'a> OpenRecordArgs<'a> {
    pub fn new(
        identity: &'a IdentityHandle,
        context: &'a RecordCryptoContextV1,
        sealed: &RecordCiphertextV1,
        signer_public_key: &[u8],
    ) -> (r: SecurityResult<Self>)
        ensures
            r is Ok <==> sealed_ok(sealed@, *context) && signer_public_key@.len()
                == P256_PUBLIC_KEY_BYTES && signer_public_key@[0] == 0x04,
            r matches Ok(a) ==> a.identity_handle@ == identity@ && a.context == context
                && bridge_of(a.sealed, sealed@) && a.signer_public_key_base64@
                == base64_encode_spec(signer_public_key@),
    {
        sealed.validate_for(context)?;
        if signer_public_key.len() != P256_PUBLIC_KEY_BYTES || signer_public_key[0] != 0x04 {
            return Err(Error::InvalidNativeResponse("record signer public key"));
        }
        Ok(Self {
            identity_handle: identity.expose_opaque(),
            context,
            sealed: RecordCiphertextBridge::from_public(sealed),
            signer_public_key_base64: base64_encode(&signer_public_key),
        })
    }
}

/// `b` is the base64 bridge form of the sealed record `v`.
pub open spec fn bridge_of(b: RecordCiphertextBridge, v: SealedView) -> bool {
    &&& b.version == v.version
    &&& b.cipher_suite@ == v.cipher_suite
    &&& b.nonce_base64@ == base64_encode_spec(v.nonce)
    &&& b.ciphertext_base64@ == base64_encode_spec(v.ciphertext)
    &&& b.context_digest_base64@ == base64_encode_spec(v.context_digest)
    &&& b.envelope_digest_base64@ == base64_encode_spec(v.envelope_digest)
    &&& b.record_signature_base64@ == base64_encode_spec(v.record_signature)
}

/// The text is short enough for at most `maximum` bytes and decodes to a
/// byte count in `[minimum, maximum]`.
pub open spec fn decodes_within(text: Seq<char>, minimum: nat, maximum: nat) -> bool {
    &&& (encode_utf8(text).len() as usize) as int <= (maximum + 2) / 3 * 4 + 4
    &&& crate::base64_codec::base64_decode_spec(text) matches Some(d) && minimum <= d.len()
        <= maximum
}

/// Base64-decodes a bounded field, rejecting over-long text before decoding.
pub fn decode_bounded_exact(value: &str, minimum: usize, maximum: usize, field: &'static str) -> (r:
    SecurityResult<Vec<u8>>)
    requires
        maximum <= MAX_RECORD_CIPHERTEXT_CONTAINER_BYTES,
    ensures
        r is Ok <==> decodes_within(value@, minimum as nat, maximum as nat),
        r matches Ok(d) ==> d@ == decoded(value@),
        r matches Err(e) ==> e == Error::InvalidNativeResponse(field),
{
    if value.len() > (maximum + 2) / 3 * 4 + 4 {
        return Err(Error::InvalidNativeResponse(field));
    }
    let decoded = match base64_decode(value) {
        Some(d) => d,
        None => return Err(Error::InvalidNativeResponse(field)),
    };
    if decoded.len() < minimum || decoded.len() > maximum {
        return Err(Error::InvalidNativeResponse(field));
    }
    Ok(decoded)
}

/// Base64-decodes a 32-byte digest.
pub fn decode_array(value: &str, field: &'static str) -> (r: SecurityResult<[u8; 32]>)
    ensures
        r is Ok <==> decodes_within(value@, 32, 32),
        r matches Ok(d) ==> d@ == decoded(value@),
        r matches Err(e) ==> e == Error::InvalidNativeResponse(field),
{
    let decoded = decode_bounded_exact(value, SHA256_BYTES, SHA256_BYTES, field)?;
    Ok(to_array32(&decoded))
}

/// Every field of a bridged sealed record decodes within its bounds.
pub open spec fn bridge_decodes(b: RecordCiphertextBridge) -> bool {
    &&& decodes_within(b.nonce_base64@, 12, 12)
    &&& decodes_within(b.ciphertext_base64@, 16, MAX_RECORD_CIPHERTEXT_BYTES as nat)
    &&& decodes_within(b.context_digest_base64@, 32, 32)
    &&& decodes_within(b.envelope_digest_base64@, 32, 32)
    &&& decodes_within(b.record_signature_base64@, 64, 64)
}

/// The sealed record a bridged value denotes once decoded.
pub open spec fn bridge_fields(b: RecordCiphertextBridge) -> SealedView {
    SealedView {
        version: b.version,
        cipher_suite: b.cipher_suite@,
        nonce: decoded(b.nonce_base64@),
        ciphertext: decoded(b.ciphertext_base64@),
        context_digest: decoded(b.context_digest_base64@),
        envelope_digest: decoded(b.envelope_digest_base64@),
        record_signature: decoded(b.record_signature_base64@),
    }
}

impl RecordCiphertextBridge {
    pub fn from_public(value: &RecordCiphertextV1) -> (r: Self)
        ensures
            bridge_of(r, value@),
    {
        Self {
            version: value.version,
            cipher_suite: value.cipher_suite.clone(),
            nonce_base64: base64_encode(&value.nonce),
            ciphertext_base64: base64_encode(&value.ciphertext),
            context_digest_base64: base64_encode(value.context_digest.as_slice()),
            envelope_digest_base64: base64_encode(value.envelope_digest.as_slice()),
            record_signature_base64: base64_encode(&value.record_signature),
        }
    }

    /// Decodes a native sealed record and accepts it only when it binds to
    /// `context`.
    pub fn into_public(self, context: &RecordCryptoContextV1) -> (r: SecurityResult<
        RecordCiphertextV1,
    >)
        ensures
            r is Ok <==> bridge_decodes(self) && sealed_ok(bridge_fields(self), *context),
            r matches Ok(v) ==> v@ == bridge_fields(self),
            r matches Err(e) ==> e == bridge_failure(self, *context),
    {
        let nonce = decode_bounded_exact(
            self.nonce_base64.as_str(),
            RECORD_NONCE_BYTES,
            RECORD_NONCE_BYTES,
            "record nonce",
        )?;
        let ciphertext = decode_bounded_exact(
            self.ciphertext_base64.as_str(),
            RECORD_TAG_BYTES,
            MAX_RECORD_CIPHERTEXT_BYTES,
            "record ciphertext",
        )?;
        let context_digest = decode_array(
            self.context_digest_base64.as_str(),
            "record context digest",
        )?;
        let envelope_digest = decode_array(
            self.envelope_digest_base64.as_str(),
            "record envelope digest",
        )?;
        let record_signature = decode_bounded_exact(
            self.record_signature_base64.as_str(),
            P256_SIGNATURE_BYTES,
            P256_SIGNATURE_BYTES,
            "record signature",
        )?;
        let value = RecordCiphertextV1 {
            version: self.version,
            cipher_suite: self.cipher_suite,
            nonce,
            ciphertext,
            context_digest,
            envelope_digest,
            record_signature,
        };
        value.validate_for(context)?;
        Ok(value)
    }
}

/// The error a native sealed record is refused with: its first field that
/// does not decode within bounds, else why it does not bind to `context`.
pub open spec fn bridge_failure(b: RecordCiphertextBridge, c: RecordCryptoContextV1) -> Error {
    if !decodes_within(b.nonce_base64@, 12, 12) {
        Error::InvalidNativeResponse("record nonce")
    } else if !decodes_within(b.ciphertext_base64@, 16, MAX_RECORD_CIPHERTEXT_BYTES as nat) {
        Error::InvalidNativeResponse("record ciphertext")
    } else if !decodes_within(b.context_digest_base64@, 32, 32) {
        Error::InvalidNativeResponse("record context digest")
    } else if !decodes_within(b.envelope_digest_base64@, 32, 32) {
        Error::InvalidNativeResponse("record envelope digest")
    } else if !decodes_within(b.record_signature_base64@, 64, 64) {
        Error::InvalidNativeResponse("record signature")
    } else {
        match context_failure(c) {
            Some(f) => f,
            None => Error::InvalidNativeResponse("record ciphertext"),
        }
    }
}

/// The error a native opened record is refused with.
pub open spec fn opened_failure(
    b: OpenedRecordBridge,
    c: RecordCryptoContextV1,
    sealed: SealedView,
) -> Error {
    if !sealed_ok(sealed, c) {
        match context_failure(c) {
            Some(f) => f,
            None => Error::InvalidNativeResponse("record ciphertext"),
        }
    } else if !decodes_within(b.plaintext_base64@, 0, MAX_RECORD_PLAINTEXT_BYTES as nat) {
        Error::InvalidNativeResponse("record plaintext")
    } else if !decodes_within(b.context_digest_base64@, 32, 32) {
        Error::InvalidNativeResponse("record context digest")
    } else if !decodes_within(b.envelope_digest_base64@, 32, 32) {
        Error::InvalidNativeResponse("record envelope digest")
    } else {
        Error::InvalidNativeResponse("opened record binding")
    }
}

/// An opened record as the native boundary returns it: base64 fields.
#[derive(Debug)]
pub struct OpenedRecordBridge {
    pub plaintext_base64: String,
    pub context_digest_base64: String,
    pub envelope_digest_base64: String,
}

impl OpenedRecordBridge {
    /// Accepts a native plaintext only for a record that binds to `context`
    /// and only when the native side reports that record's own digests.
    pub fn into_public(self, context: &RecordCryptoContextV1, sealed: &RecordCiphertextV1) -> (r:
        SecurityResult<OpenedRecordV1>)
        ensures
            r is Ok <==> sealed_ok(sealed@, *context) && decodes_within(
                self.plaintext_base64@,
                0,
                MAX_RECORD_PLAINTEXT_BYTES as nat,
            ) && decodes_within(self.context_digest_base64@, 32, 32) && decodes_within(
                self.envelope_digest_base64@,
                32,
                32,
            ) && decoded(self.context_digest_base64@) == sealed.context_digest@ && decoded(
                self.envelope_digest_base64@,
            ) == sealed.envelope_digest@,
            r matches Ok(o) ==> o.plaintext@ == decoded(self.plaintext_base64@) && o.context_digest@
                == sealed.context_digest@ && o.envelope_digest@ == sealed.envelope_digest@,
            r matches Err(e) ==> e == opened_failure(self, *context, sealed@),
    {
        sealed.validate_for(context)?;
        let plaintext = decode_bounded_exact(
            self.plaintext_base64.as_str(),
            0,
            MAX_RECORD_PLAINTEXT_BYTES,
            "record plaintext",
        )?;
        let context_digest = decode_array(
            self.context_digest_base64.as_str(),
            "record context digest",
        )?;
        let envelope_digest = decode_array(
            self.envelope_digest_base64.as_str(),
            "record envelope digest",
        )?;
        if !bytes_eq(context_digest.as_slice(), sealed.context_digest.as_slice()) || !bytes_eq(
            envelope_digest.as_slice(),
            sealed.envelope_digest.as_slice(),
        ) {
            return Err(Error::InvalidNativeResponse("opened record binding"));
        }
        Ok(OpenedRecordV1 { plaintext, context_digest, envelope_digest })
    }
}

} // verus!

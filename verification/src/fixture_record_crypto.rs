//! Rust-only custody of the record keys of sanitized development fixtures.
//!
//! A record is sealed with AES-256-GCM under a key derived by HKDF-SHA256
//! from the library key and the record's canonical context, bound to that
//! context as associated data, and its envelope digest is signed with the
//! custody's P-256 key. Opening checks the context, the public bindings, the
//! writer's signature and the authentication tag before any plaintext is
//! returned.
use vstd::prelude::*;
use aes_gcm::aead::{Aead, KeyInit};
use p256::ecdsa::signature::{Signer, Verifier};
use crate::digest::sha256_spec;
use crate::error::Error;
use crate::models::{
    bootstrap_metadata_ok, BootstrapMetadataV1, SecurityResult, MAX_SIGNING_MESSAGE_BYTES,
    P256_PUBLIC_KEY_BYTES, P256_SIGNATURE_BYTES,
};
use crate::record_crypto::{
    associated_data, bound_to_bootstrap, canonical_context, context_ok, envelope_input, hkdf_info,
    record_associated_data, record_context_digest, record_envelope_digest, record_hkdf_info,
    record_hkdf_salt, record_signature_message, sealed_ok, signature_input, utf8,
    OpenedRecordV1, RecordCiphertextV1, RecordCryptoContextV1, SealedView,
    MAX_RECORD_PLAINTEXT_BYTES, RECORD_CRYPTO_CONTEXT_VERSION, RECORD_HKDF_SALT_DOMAIN,
    RECORD_NONCE_BYTES, RECORD_TAG_BYTES,
};

verus! {

// ---------------------------------------------------------------------------
// The cryptographic primitives
// ---------------------------------------------------------------------------

/// The uncompressed SEC1 public key of a P-256 secret scalar, `None` for bytes
/// that are not a valid scalar.
pub uninterp spec fn p256_public_key_of(secret: Seq<u8>) -> Option<Seq<u8>>;

/// The deterministic (RFC 6979) P-256 ECDSA signature, in IEEE P1363 form,
/// of a message under a secret scalar; `None` where signing fails.
pub uninterp spec fn p256_signature_of(secret: Seq<u8>, message: Seq<u8>) -> Option<Seq<u8>>;

/// What checking a P1363 signature over a message under a SEC1 public key
/// finds.
#[derive(Debug, Clone, Copy, PartialEq, Eq, Structural)]
pub enum P256Verdict {
    /// The public key is not a point of the curve.
    KeyRejected,
    /// The signature is not two valid scalars.
    SignatureRejected,
    /// Whether the signature is valid.
    Checked(bool),
}

pub uninterp spec fn p256_verdict(public_key: Seq<u8>, message: Seq<u8>, signature: Seq<u8>) -> P256Verdict;

/// AES-256-GCM ciphertext followed by its 16-byte tag.
pub uninterp spec fn aes256_gcm_sealed(key: Seq<u8>, nonce: Seq<u8>, aad: Seq<u8>, plaintext: Seq<u8>) -> Seq<u8>;

/// AES-256-GCM decryption of a ciphertext with its tag, `None` when the tag
/// does not authenticate it.
pub uninterp spec fn aes256_gcm_opened(key: Seq<u8>, nonce: Seq<u8>, aad: Seq<u8>, ciphertext: Seq<u8>) -> Option<Seq<u8>>;

/// The 32-byte HKDF-SHA256 output for a salt, input key material and info.
pub uninterp spec fn hkdf_sha256_32(salt: Seq<u8>, ikm: Seq<u8>, info: Seq<u8>) -> Seq<u8>;

/// AES-GCM's limit on plaintext and associated data, in bytes.
pub const AES_GCM_MAX_INPUT: u64 = 0x10_0000_0000;

/// Calls `p256::ecdsa::SigningKey::from_slice` and encodes the verifying key
/// as an uncompressed SEC1 point. The contract claims that the result is
/// determined by the secret, and that an uncompressed point starts with the
/// tag byte 0x04.
#[verifier::external_body]
fn p256_public_key(secret: &[u8; 32]) -> (r: Option<[u8; 65]>)
    ensures
        match r {
            Some(k) => p256_public_key_of(secret@) == Some(k@) && k@[0] == 0x04,
            None => p256_public_key_of(secret@) is None,
        },
{
    let signing = match p256::ecdsa::SigningKey::from_slice(&secret[..]) {
        Ok(signing) => signing,
        Err(_) => return None,
    };
    signing.verifying_key().to_encoded_point(false).as_bytes().try_into().ok()
}

/// Calls `Signer::try_sign` of `p256::ecdsa::SigningKey` (deterministic,
/// RFC 6979) and returns the fixed-width signature bytes. The contract
/// claims that the result is determined by the secret and the message, and
/// that a signature it makes is accepted under the secret's own public key.
#[verifier::external_body]
fn p256_sign(secret: &[u8; 32], message: &[u8]) -> (r: Option<[u8; 64]>)
    ensures
        match r {
            Some(s) => p256_signature_of(secret@, message@) == Some(s@) && match p256_public_key_of(
                secret@,
            ) {
                Some(pk) => p256_verdict(pk, message@, s@) == P256Verdict::Checked(true),
                None => true,
            },
            None => p256_signature_of(secret@, message@) is None,
        },
{
    let signing = match p256::ecdsa::SigningKey::from_slice(&secret[..]) {
        Ok(signing) => signing,
        Err(_) => return None,
    };
    let signature: p256::ecdsa::Signature = match signing.try_sign(message) {
        Ok(signature) => signature,
        Err(_) => return None,
    };
    signature.to_bytes().as_slice().try_into().ok()
}

/// Decodes a SEC1 public key (`VerifyingKey::from_sec1_bytes`) and a P1363
/// signature (`Signature::from_slice`) and calls `Verifier::verify`. The
/// contract claims only that the verdict is determined by the three byte
/// strings.
#[verifier::external_body]
fn p256_verify(public_key: &[u8], message: &[u8], signature: &[u8]) -> (r: P256Verdict)
    ensures
        r == p256_verdict(public_key@, message@, signature@),
{
    let key = match p256::ecdsa::VerifyingKey::from_sec1_bytes(public_key) {
        Ok(key) => key,
        Err(_) => return P256Verdict::KeyRejected,
    };
    let signature = match p256::ecdsa::Signature::from_slice(signature) {
        Ok(signature) => signature,
        Err(_) => return P256Verdict::SignatureRejected,
    };
    P256Verdict::Checked(key.verify(message, &signature).is_ok())
}

/// Calls `Aead::encrypt` of `aes_gcm::Aes256Gcm`. The contract claims what
/// the crate's source shows: it fails only for inputs above 2^36 bytes, the
/// output is the ciphertext followed by a 16-byte tag, and decrypting that
/// output with the same key, nonce and associated data gives the plaintext
/// back.
#[verifier::external_body]
fn aes256_gcm_encrypt(key: &[u8; 32], nonce: &[u8; 12], aad: &[u8], plaintext: &[u8]) -> (r:
    Option<Vec<u8>>)
    ensures
        match r {
            Some(c) => plaintext@.len() <= AES_GCM_MAX_INPUT && aad@.len() <= AES_GCM_MAX_INPUT
                && c@ == aes256_gcm_sealed(key@, nonce@, aad@, plaintext@) && c@.len()
                == plaintext@.len() + 16 && aes256_gcm_opened(key@, nonce@, aad@, c@) == Some(
                plaintext@,
            ),
            None => plaintext@.len() > AES_GCM_MAX_INPUT || aad@.len() > AES_GCM_MAX_INPUT,
        },
{
    let cipher = aes_gcm::Aes256Gcm::new(aes_gcm::Key::<aes_gcm::Aes256Gcm>::from_slice(key));
    cipher.encrypt(
        aes_gcm::Nonce::from_slice(nonce),
        aes_gcm::aead::Payload { msg: plaintext, aad },
    ).ok()
}

/// Calls `Aead::decrypt` of `aes_gcm::Aes256Gcm`. The contract claims only
/// that the outcome is determined by the key, nonce, associated data and
/// ciphertext.
#[verifier::external_body]
fn aes256_gcm_decrypt(key: &[u8; 32], nonce: &[u8], aad: &[u8], ciphertext: &[u8]) -> (r: Option<
    Vec<u8>,
>)
    requires
        nonce@.len() == 12,
    ensures
        match r {
            Some(p) => aes256_gcm_opened(key@, nonce@, aad@, ciphertext@) == Some(p@),
            None => aes256_gcm_opened(key@, nonce@, aad@, ciphertext@) is None,
        },
{
    let cipher = aes_gcm::Aes256Gcm::new(aes_gcm::Key::<aes_gcm::Aes256Gcm>::from_slice(key));
    cipher.decrypt(
        aes_gcm::Nonce::from_slice(nonce),
        aes_gcm::aead::Payload { msg: ciphertext, aad },
    ).ok()
}

/// Calls `hkdf::Hkdf::<Sha256>::new(Some(salt), ikm).expand(info, ..)` for 32
/// output bytes. The contract claims that the key is determined by the
/// three inputs, and that expansion succeeds, as the crate's source shows for
/// any output of at most 255 hash lengths.
#[verifier::external_body]
fn hkdf_sha256_expand(salt: &[u8], ikm: &[u8; 32], info: &[u8]) -> (r: Option<[u8; 32]>)
    ensures
        match r {
            Some(k) => k@ == hkdf_sha256_32(salt@, ikm@, info@),
            None => false,
        },
{
    let mut okm = [0u8; 32];
    match hkdf::Hkdf::<sha2::Sha256>::new(Some(salt), &ikm[..]).expand(info, &mut okm) {
        Ok(()) => Some(okm),
        Err(_) => None,
    }
}

/// Fills a nonce from the operating system's entropy source
/// (`getrandom::fill`); `None` when no entropy is available. Nothing is
/// claimed of the bytes.
#[verifier::external_body]
fn fresh_nonce() -> (r: Option<[u8; 12]>) {
    let mut nonce = [0u8; 12];
    match getrandom::fill(&mut nonce) {
        Ok(()) => Some(nonce),
        Err(_) => None,
    }
}

// ---------------------------------------------------------------------------
// The custody
// ---------------------------------------------------------------------------

/// Custody of a sanitized development fixture's library key and signing key.
/// It exposes only its public signing key and the sealing, opening and
/// signing operations.
pub struct SanitizedFixtureRecordCrypto {
    metadata: BootstrapMetadataV1,
    signing_public_key: [u8; 65],
    library_key: [u8; 32],
    signing_key: [u8; 32],
}

pub open spec fn all_zero32(b: Seq<u8>) -> bool {
    forall|i: int| 0 <= i < b.len() ==> #[trigger] b[i] == 0
}

/// The record key of a context: HKDF-SHA256 of the library key, salted with
/// the hash of the salt domain, for the context's HKDF info.
pub open spec fn record_key(library_key: Seq<u8>, c: RecordCryptoContextV1) -> Seq<u8> {
    hkdf_sha256_32(sha256_spec(utf8(RECORD_HKDF_SALT_DOMAIN@)), library_key, hkdf_info(c))
}

/// A context may use the custody's keys when the bootstrap is a sanitized
/// development fixture and the context is well formed and bound to it.
pub open spec fn key_use_ok(m: BootstrapMetadataV1, c: RecordCryptoContextV1) -> bool {
    bootstrap_metadata_ok(m) && context_ok(c) && bound_to_bootstrap(c, m)
}

impl SanitizedFixtureRecordCrypto {
    pub closed spec fn meta(&self) -> BootstrapMetadataV1 {
        self.metadata
    }

    pub closed spec fn public_key(&self) -> Seq<u8> {
        self.signing_public_key@
    }

    pub closed spec fn library_secret(&self) -> Seq<u8> {
        self.library_key@
    }

    pub closed spec fn signing_secret(&self) -> Seq<u8> {
        self.signing_key@
    }

    /// The public key is the signing key's own uncompressed point.
    #[verifier::type_invariant]
    pub closed spec fn wf(&self) -> bool {
        &&& p256_public_key_of(self.signing_key@) == Some(self.signing_public_key@)
        &&& self.signing_public_key@[0] == 0x04
    }

    /// The sealed form of `plaintext` under `context` and `nonce`, when
    /// sealing succeeds.
    pub open spec fn sealed_record(
        &self,
        c: RecordCryptoContextV1,
        plaintext: Seq<u8>,
        nonce: Seq<u8>,
    ) -> Option<SealedView> {
        if !key_use_ok(self.meta(), c) || plaintext.len() > MAX_RECORD_PLAINTEXT_BYTES
            || associated_data(c).len() > AES_GCM_MAX_INPUT {
            None
        } else {
            let ciphertext = aes256_gcm_sealed(
                record_key(self.library_secret(), c),
                nonce,
                associated_data(c),
                plaintext,
            );
            let envelope_digest = sha256_spec(envelope_input(c, nonce, ciphertext));
            match p256_signature_of(
                self.signing_secret(),
                sha256_spec(signature_input(envelope_digest)),
            ) {
                Some(signature) => Some(
                    SealedView {
                        version: RECORD_CRYPTO_CONTEXT_VERSION,
                        cipher_suite: self.meta().record_cipher_suite@,
                        nonce,
                        ciphertext,
                        context_digest: sha256_spec(canonical_context(c)),
                        envelope_digest,
                        record_signature: signature,
                    },
                ),
                None => None,
            }
        }
    }

    /// The plaintext a sealed record opens to under `context` for a writer's
    /// public key, when every check passes.
    pub open spec fn opened_record(
        &self,
        c: RecordCryptoContextV1,
        v: SealedView,
        writer: Seq<u8>,
    ) -> Option<Seq<u8>> {
        if !key_use_ok(self.meta(), c) || !sealed_ok(v, c) {
            None
        } else if writer.len() != P256_PUBLIC_KEY_BYTES || writer[0] != 0x04
            || v.record_signature.len() != P256_SIGNATURE_BYTES {
            None
        } else if p256_verdict(
            writer,
            sha256_spec(signature_input(v.envelope_digest)),
            v.record_signature,
        ) != P256Verdict::Checked(true) {
            None
        } else {
            match aes256_gcm_opened(
                record_key(self.library_secret(), c),
                v.nonce,
                associated_data(c),
                v.ciphertext,
            ) {
                Some(p) => if p.len() <= MAX_RECORD_PLAINTEXT_BYTES {
                    Some(p)
                } else {
                    None
                },
                None => None,
            }
        }
    }

    /// Takes custody of a validated fixture bootstrap, a non-zero library key
    /// and a valid P-256 signing key.
    pub fn new(metadata: BootstrapMetadataV1, library_key: [u8; 32], signing_key: [u8; 32]) -> (r:
        SecurityResult<Self>)
        ensures
            r is Ok <==> bootstrap_metadata_ok(metadata) && !all_zero32(library_key@)
                && p256_public_key_of(signing_key@) is Some,
            r matches Ok(p) ==> p.wf() && p.meta() == metadata && p.library_secret() == library_key@
                && p.signing_secret() == signing_key@,
            bootstrap_metadata_ok(metadata) && all_zero32(library_key@) ==> (r matches Err(e)
                && e == Error::SanitizedFixtureCrypto("invalid library key")),
            bootstrap_metadata_ok(metadata) && !all_zero32(library_key@) && p256_public_key_of(
                signing_key@,
            ) is None ==> (r matches Err(e) && e == Error::SanitizedFixtureCrypto(
                "invalid signing key",
            )),
    {
        metadata.validate()?;
        let mut zero = true;
        let mut i: usize = 0;
        while i < 32
            invariant
                i <= 32,
                zero <==> forall|k: int| 0 <= k < i ==> library_key@[k] == 0,
            decreases 32 - i,
        {
            if library_key[i] != 0 {
                zero = false;
            }
            i = i + 1;
        }
        if zero {
            return Err(Error::SanitizedFixtureCrypto("invalid library key"));
        }
        let signing_public_key = match p256_public_key(&signing_key) {
            Some(k) => k,
            None => return Err(Error::SanitizedFixtureCrypto("invalid signing key")),
        };
        Ok(SanitizedFixtureRecordCrypto { metadata, signing_public_key, library_key, signing_key })
    }

    /// The validated, non-secret bootstrap facts bound to this custody.
    pub fn bootstrap_metadata(&self) -> (r: &BootstrapMetadataV1)
        ensures
            *r == self.meta(),
    {
        &self.metadata
    }

    /// The custody's uncompressed P-256 public signing key.
    pub fn signing_public_key(&self) -> (r: [u8; 65])
        ensures
            r@ == self.public_key(),
    {
        self.signing_public_key
    }

    fn validate_key_use(&self, context: &RecordCryptoContextV1) -> (r: SecurityResult<()>)
        ensures
            r is Ok <==> key_use_ok(self.meta(), *context),
    {
        self.metadata.validate()?;
        context.validate_against_bootstrap(&self.metadata)
    }

    fn derive_record_key(&self, context: &RecordCryptoContextV1) -> (r: SecurityResult<[u8; 32]>)
        requires
            context_ok(*context),
        ensures
            r matches Ok(k) && k@ == record_key(self.library_secret(), *context),
    {
        let salt = record_hkdf_salt();
        let info = match record_hkdf_info(context) {
            Ok(info) => info,
            Err(e) => return Err(e),
        };
        match hkdf_sha256_expand(&salt, &self.library_key, &info) {
            Some(key) => Ok(key),
            None => Err(Error::SanitizedFixtureCrypto("record key derivation failed")),
        }
    }

    /// Signs a message of at most `MAX_SIGNING_MESSAGE_BYTES` bytes with the
    /// custody's key, as a fixed-width P1363 signature.
    pub fn sign_p256_p1363(&self, message: &[u8]) -> (r: SecurityResult<[u8; 64]>)
        ensures
            !bootstrap_metadata_ok(self.meta()) ==> r is Err,
            bootstrap_metadata_ok(self.meta()) && message@.len() > MAX_SIGNING_MESSAGE_BYTES ==> (r matches Err(
                e,
            ) && e == Error::SanitizedFixtureCrypto("signing message exceeds limit")),
            bootstrap_metadata_ok(self.meta()) && message@.len() <= MAX_SIGNING_MESSAGE_BYTES ==> match (
                r,
                p256_signature_of(self.signing_secret(), message@),
            ) {
                (Ok(s), Some(t)) => s@ == t,
                (Err(e), None) => e == Error::SanitizedFixtureCrypto("invalid signing key"),
                _ => false,
            },
    {
        self.metadata.validate()?;
        if message.len() > MAX_SIGNING_MESSAGE_BYTES {
            return Err(Error::SanitizedFixtureCrypto("signing message exceeds limit"));
        }
        match p256_sign(&self.signing_key, message) {
            Some(signature) => Ok(signature),
            None => Err(Error::SanitizedFixtureCrypto("invalid signing key")),
        }
    }

    /// Checks a P1363 signature over a message of at most
    /// `MAX_SIGNING_MESSAGE_BYTES` bytes under an uncompressed SEC1 public key.
    pub fn verify_p256_p1363(public_key: &[u8], message: &[u8], signature: &[u8]) -> (r:
        SecurityResult<bool>)
        ensures
            !(public_key@.len() == P256_PUBLIC_KEY_BYTES && public_key@[0] == 0x04
                && signature@.len() == P256_SIGNATURE_BYTES && message@.len()
                <= MAX_SIGNING_MESSAGE_BYTES) ==> (r matches Err(e) && e
                == Error::SanitizedFixtureCrypto("invalid P-256 verification request")),
            public_key@.len() == P256_PUBLIC_KEY_BYTES && public_key@[0] == 0x04
                && signature@.len() == P256_SIGNATURE_BYTES && message@.len()
                <= MAX_SIGNING_MESSAGE_BYTES ==> match p256_verdict(
                public_key@,
                message@,
                signature@,
            ) {
                P256Verdict::KeyRejected => r matches Err(e) && e == Error::SanitizedFixtureCrypto(
                    "invalid P-256 public key",
                ),
                P256Verdict::SignatureRejected => r matches Err(e) && e
                    == Error::SanitizedFixtureCrypto("invalid P-256 signature encoding"),
                P256Verdict::Checked(valid) => r == Ok::<bool, Error>(valid),
            },
            r == Ok::<bool, Error>(true) ==> public_key@.len() == P256_PUBLIC_KEY_BYTES
                && public_key@[0] == 0x04 && signature@.len() == P256_SIGNATURE_BYTES
                && message@.len() <= MAX_SIGNING_MESSAGE_BYTES && p256_verdict(
                public_key@,
                message@,
                signature@,
            ) == P256Verdict::Checked(true),
    {
        if public_key.len() != P256_PUBLIC_KEY_BYTES || public_key[0] != 0x04 || signature.len()
            != P256_SIGNATURE_BYTES || message.len() > MAX_SIGNING_MESSAGE_BYTES {
            return Err(Error::SanitizedFixtureCrypto("invalid P-256 verification request"));
        }
        match p256_verify(public_key, message, signature) {
            P256Verdict::KeyRejected => Err(Error::SanitizedFixtureCrypto("invalid P-256 public key")),
            P256Verdict::SignatureRejected => Err(
                Error::SanitizedFixtureCrypto("invalid P-256 signature encoding"),
            ),
            P256Verdict::Checked(valid) => Ok(valid),
        }
    }

    /// Seals `plaintext` under `context` with a fresh nonce from the
    /// operating system.
    pub fn seal_record(&self, context: &RecordCryptoContextV1, plaintext: &[u8]) -> (r:
        SecurityResult<RecordCiphertextV1>)
        ensures
            r matches Ok(s) ==> self.sealed_record(*context, plaintext@, s.nonce@) == Some(s@),
            r matches Ok(s) ==> self.opened_record(*context, s@, self.public_key()) == Some(
                plaintext@,
            ),
            !key_use_ok(self.meta(), *context) || plaintext@.len() > MAX_RECORD_PLAINTEXT_BYTES
                || associated_data(*context).len() > AES_GCM_MAX_INPUT ==> r is Err,
            key_use_ok(self.meta(), *context) && plaintext@.len() > MAX_RECORD_PLAINTEXT_BYTES ==> (r matches Err(
                e,
            ) && (e == Error::SanitizedFixtureCrypto("record plaintext exceeds limit") || e
                == Error::SanitizedFixtureCrypto("OS entropy unavailable"))),
    {
        let nonce = match fresh_nonce() {
            Some(nonce) => nonce,
            None => return Err(Error::SanitizedFixtureCrypto("OS entropy unavailable")),
        };
        self.seal_record_with_nonce(context, plaintext, nonce)
    }

    /// Seals `plaintext` under `context` with the given nonce: encrypts it
    /// under the context's record key with the context as associated data,
    /// binds the context and envelope digests, and signs the envelope.
    pub fn seal_record_with_nonce(
        &self,
        context: &RecordCryptoContextV1,
        plaintext: &[u8],
        nonce: [u8; 12],
    ) -> (r: SecurityResult<RecordCiphertextV1>)
        ensures
            match self.sealed_record(*context, plaintext@, nonce@) {
                Some(v) => r matches Ok(s) && s@ == v,
                None => r is Err,
            },
            key_use_ok(self.meta(), *context) && plaintext@.len() > MAX_RECORD_PLAINTEXT_BYTES ==> (r matches Err(
                e,
            ) && e == Error::SanitizedFixtureCrypto("record plaintext exceeds limit")),
            r matches Ok(s) ==> self.opened_record(*context, s@, self.public_key()) == Some(
                plaintext@,
            ),
    {
        proof {
            use_type_invariant(self);
        }
        self.validate_key_use(context)?;
        if plaintext.len() > MAX_RECORD_PLAINTEXT_BYTES {
            return Err(Error::SanitizedFixtureCrypto("record plaintext exceeds limit"));
        }
        let key = self.derive_record_key(context)?;
        let aad = record_associated_data(context)?;
        let ciphertext = match aes256_gcm_encrypt(&key, &nonce, &aad, plaintext) {
            Some(c) => c,
            None => return Err(Error::SanitizedFixtureCrypto("record encryption failed")),
        };
        let context_digest = record_context_digest(context)?;
        let envelope_digest = record_envelope_digest(context, &nonce, &ciphertext)?;
        let message = record_signature_message(&envelope_digest);
        let signature = match p256_sign(&self.signing_key, &message) {
            Some(s) => s,
            None => return Err(Error::SanitizedFixtureCrypto("invalid signing key")),
        };
        let sealed = RecordCiphertextV1 {
            version: RECORD_CRYPTO_CONTEXT_VERSION,
            cipher_suite: crate::text::string_from_chars(
                &crate::text::chars_of(&self.metadata.record_cipher_suite),
            ),
            nonce: nonce_to_vec(&nonce),
            ciphertext,
            context_digest,
            envelope_digest,
            record_signature: signature_to_vec(&signature),
        };
        sealed.validate_for(context)?;
        Ok(sealed)
    }

    /// Opens a sealed record under `context`: the context must be bound to
    /// the custody's bootstrap, the record recompute its bindings, the
    /// writer's key have signed its envelope, and the tag authenticate it.
    pub fn open_record(
        &self,
        context: &RecordCryptoContextV1,
        sealed: &RecordCiphertextV1,
        authority_authenticated_writer_public_key: &[u8],
    ) -> (r: SecurityResult<OpenedRecordV1>)
        ensures
            match self.opened_record(
                *context,
                sealed@,
                authority_authenticated_writer_public_key@,
            ) {
                Some(p) => r matches Ok(o) && o.plaintext@ == p && o.context_digest
                    == sealed.context_digest && o.envelope_digest == sealed.envelope_digest,
                None => r is Err,
            },
    {
        self.validate_key_use(context)?;
        sealed.validate_for(context)?;
        let message = record_signature_message(&sealed.envelope_digest);
        let valid = match Self::verify_p256_p1363(
            authority_authenticated_writer_public_key,
            &message,
            &sealed.record_signature,
        ) {
            Ok(valid) => valid,
            Err(_) => return Err(Error::SanitizedFixtureCrypto("record signature invalid")),
        };
        if !valid {
            return Err(Error::SanitizedFixtureCrypto("record signature invalid"));
        }
        let key = self.derive_record_key(context)?;
        let aad = record_associated_data(context)?;
        let plaintext = match aes256_gcm_decrypt(&key, &sealed.nonce, &aad, &sealed.ciphertext) {
            Some(p) => p,
            None => return Err(Error::SanitizedFixtureCrypto("record authentication failed")),
        };
        if plaintext.len() > MAX_RECORD_PLAINTEXT_BYTES {
            return Err(Error::SanitizedFixtureCrypto("record plaintext exceeds limit"));
        }
        Ok(
            OpenedRecordV1 {
                plaintext,
                context_digest: sealed.context_digest,
                envelope_digest: sealed.envelope_digest,
            },
        )
    }
}

fn nonce_to_vec(nonce: &[u8; 12]) -> (r: Vec<u8>)
    ensures
        r@ == nonce@,
{
    let mut out: Vec<u8> = Vec::new();
    let mut i: usize = 0;
    while i < 12
        invariant
            i <= 12,
            out@ == nonce@.take(i as int),
        decreases 12 - i,
    {
        out.push(nonce[i]);
        i = i + 1;
        assert(out@ =~= nonce@.take(i as int));
    }
    assert(nonce@.take(12) =~= nonce@);
    out
}

fn signature_to_vec(signature: &[u8; 64]) -> (r: Vec<u8>)
    ensures
        r@ == signature@,
{
    let mut out: Vec<u8> = Vec::new();
    let mut i: usize = 0;
    while i < 64
        invariant
            i <= 64,
            out@ == signature@.take(i as int),
        decreases 64 - i,
    {
        out.push(signature[i]);
        i = i + 1;
        assert(out@ =~= signature@.take(i as int));
    }
    assert(signature@.take(64) =~= signature@);
    out
}

} // verus!

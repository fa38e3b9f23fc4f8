//! SHA-256 from the `sha2` crate, and lowercase hex rendering.
use vstd::prelude::*;
use sha2::Digest;

verus! {

/// The SHA-256 digest of a byte sequence, as computed by `sha2::Sha256`.
pub uninterp spec fn sha256_spec(data: Seq<u8>) -> Seq<u8>;

/// Calls `sha2::Sha256::digest`. The contract claims only that the 32-byte
/// result is the SHA-256 digest of exactly the bytes passed in; the digest
/// algorithm itself is not restated here.
#[verifier::external_body]
pub(crate) fn sha256(data: &[u8]) -> (d: [u8; 32])
    ensures
        d@ == sha256_spec(data@),
{
    sha2::Sha256::digest(data).into()
}

/// A lowercase hexadecimal digit for a value below 16.
pub open spec fn hex_digit(v: u8) -> char {
    if v < 10 {
        ((v + 48) as u8) as char
    } else {
        ((v + 87) as u8) as char
    }
}

/// Two lowercase hex digits per byte (`format!("{b:02x}")` for each byte).
pub open spec fn hex_lower(data: Seq<u8>) -> Seq<char>
    decreases data.len(),
{
    if data.len() == 0 {
        seq![]
    } else {
        hex_lower(data.drop_last()).push(hex_digit(data.last() / 16)).push(
            hex_digit(data.last() % 16),
        )
    }
}

fn hex_digit_exec(v: u8) -> (c: char)
    requires
        v < 16,
    ensures
        c == hex_digit(v),
{
    if v < 10 {
        (v + 48) as char
    } else {
        (v + 87) as char
    }
}

/// Lowercase hex rendering of a byte sequence.
pub fn to_hex_lower(data: &[u8]) -> (s: Vec<char>)
    ensures
        s@ == hex_lower(data@),
        s@.len() == 2 * data@.len(),
{
    let mut s: Vec<char> = Vec::new();
    let mut i: usize = 0;
    while i < data.len()
        invariant
            i <= data@.len(),
            s@ == hex_lower(data@.take(i as int)),
            s@.len() == 2 * i,
        decreases data@.len() - i,
    {
        let b = data[i];
        s.push(hex_digit_exec(b / 16));
        s.push(hex_digit_exec(b % 16));
        assert(data@.take(i + 1).drop_last() =~= data@.take(i as int));
        i = i + 1;
    }
    assert(data@.take(data@.len() as int) =~= data@);
    s
}

/// SHA-256 of `data` as 64 lowercase hex characters.
pub fn sha256_hex(data: &[u8]) -> (s: Vec<char>)
    ensures
        s@ == hex_lower(sha256_spec(data@)),
{
    let d = sha256(data);
    to_hex_lower(&d)
}

} // verus!

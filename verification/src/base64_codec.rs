//! Standard-alphabet, padded base64 from the `base64` crate.
use vstd::prelude::*;
use base64::Engine;

verus! {

/// What `base64::engine::general_purpose::STANDARD.decode` returns for a
/// text: the decoded bytes, or `None` where the crate reports an error.
pub uninterp spec fn base64_decode_spec(text: Seq<char>) -> Option<Seq<u8>>;

/// The character of a six-bit value in the standard alphabet.
pub open spec fn base64_char(v: int) -> char {
    if v < 26 {
        (65 + v) as char
    } else if v < 52 {
        (97 + v - 26) as char
    } else if v < 62 {
        (48 + v - 52) as char
    } else if v == 62 {
        '+'
    } else {
        '/'
    }
}

/// Standard padded base64: each group of three bytes as four characters of
/// six bits each, a last group of one or two bytes padded with `=`.
pub open spec fn base64_encode_spec(data: Seq<u8>) -> Seq<char>
    decreases data.len(),
{
    if data.len() == 0 {
        seq![]
    } else if data.len() == 1 {
        let a = data[0] as int;
        seq![base64_char(a / 4), base64_char((a % 4) * 16), '=', '=']
    } else if data.len() == 2 {
        let a = data[0] as int;
        let b = data[1] as int;
        seq![base64_char(a / 4), base64_char((a % 4) * 16 + b / 16), base64_char((b % 16) * 4), '=']
    } else {
        let a = data[0] as int;
        let b = data[1] as int;
        let c = data[2] as int;
        seq![
            base64_char(a / 4),
            base64_char((a % 4) * 16 + b / 16),
            base64_char((b % 16) * 4 + c / 64),
            base64_char(c % 64),
        ] + base64_encode_spec(data.skip(3))
    }
}

/// Calls `STANDARD.decode`. The contract claims only that the result is
/// determined by the text passed in; which texts decode, and to what, is the
/// crate's own and is not restated.
#[verifier::external_body]
pub(crate) fn base64_decode(text: &str) -> (r: Option<Vec<u8>>)
    ensures
        match r {
            Some(v) => base64_decode_spec(text@) == Some(v@),
            None => base64_decode_spec(text@) is None,
        },
{
    base64::engine::general_purpose::STANDARD.decode(text).ok()
}

/// Calls `STANDARD.encode`. The contract claims that the text is the
/// standard padded base64 of the bytes, as `base64_encode_spec` states it.
#[verifier::external_body]
pub(crate) fn base64_encode(data: &[u8]) -> (r: String)
    ensures
        r@ == base64_encode_spec(data@),
{
    base64::engine::general_purpose::STANDARD.encode(data)
}

} // verus!

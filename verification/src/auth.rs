//! The two authorization headers of the service: the one that carries the
//! access code when a token is asked for, and the one that carries the token
//! afterwards.

use vstd::prelude::*;
use vstd::string::{StringExecFns, StringSliceAdditionalSpecFns};

verus! {

/// Where a token is asked for.
pub const TOKEN_URL: &'static str = "https://api.cinode.com/token";

/// The standard Base64 text of `data`, with padding, as the `base64` crate
/// writes it.
pub uninterp spec fn base64_of(data: Seq<u8>) -> Seq<char>;

/// The length of the Base64 text of `len` bytes: four characters for every
/// three bytes, the last group padded.
pub open spec fn base64_len(len: nat) -> nat {
    if len % 3 == 0 {
        len / 3 * 4
    } else {
        len / 3 * 4 + 4
    }
}

/// `base64::encode` writes the bytes in the standard alphabet with padding.
/// The text depends on the bytes alone. The call stops the program where the
/// length of the text does not fit the machine's word, so such input is
/// left out.
#[verifier::external_body]
fn base64_text(data: &[u8]) -> (text: String)
    requires
        base64_len(data@.len()) <= usize::MAX,
    ensures
        text@ == base64_of(data@),
{
    base64::encode(data)
}

/// The header value that presents an access code: the word `Basic`, a blank
/// and the Base64 text of the code's UTF-8 bytes.
pub open spec fn basic_of(access: Seq<char>) -> Seq<char> {
    "Basic "@ + base64_of(vstd::utf8::encode_utf8(access))
}

/// The header value that presents an access code, given the code in Base64.
pub fn basic_header(encoded: &str) -> (header: String)
    ensures
        header@ == "Basic "@ + encoded@,
{
    let mut header = String::from_str("Basic ");
    header.append(encoded);
    header
}

/// The header value that presents an access code, or none for a code so
/// long that its Base64 text could not be held.
pub fn basic_credentials(access: &str) -> (header: Option<String>)
    ensures
        header.deep_view() == if base64_len(access.spec_bytes().len()) <= usize::MAX {
            Some(basic_of(access@))
        } else {
            None
        },
{
    let bytes = access.as_bytes();
    let len = bytes.len();
    let most = if len % 3 == 0 {
        usize::MAX / 4
    } else {
        (usize::MAX - 4) / 4
    };
    if len / 3 > most {
        return None;
    }
    let encoded = base64_text(bytes);
    Some(basic_header(encoded.as_str()))
}

/// The header value that presents a token: the word `Bearer`, a blank and
/// the token.
pub fn bearer_credentials(token: &str) -> (header: String)
    ensures
        header@ == "Bearer "@ + token@,
{
    let mut header = String::from_str("Bearer ");
    header.append(token);
    header
}

} // verus!

use vstd::prelude::*;
use crate::numfmt::hex_chars;
use vstd::utf8::encode_utf8;
use crate::numfmt::bytes_to_hex;

verus! {

/// The SHA-256 digest of a byte string. The digest takes pages to
/// state, so it is only named here; `sha256` below computes it.
pub uninterp spec fn sha256_of(bytes: Seq<u8>) -> Seq<u8>;

/// Relies on sha2's `Sha256::digest`: the 32-byte SHA-256 digest of
/// the input, a function of the input bytes alone.
#[verifier::external_body]
pub(crate) fn sha256(bytes: &[u8]) -> (r: Vec<u8>)
    ensures
        r@ == sha256_of(bytes@),
        r@.len() == 32,
{
    <sha2::Sha256 as sha2::Digest>::digest(bytes).to_vec()
}

/// The lowercase hexadecimal SHA-256 digest of a character string's
/// UTF-8 bytes, as the blocks of the hash chains record it.
pub open spec fn sha256_hex_of(s: Seq<char>) -> Seq<char> {
    hex_chars(sha256_of(encode_utf8(s)))
}

/// Hashes a string and renders the digest in hexadecimal: 64 digits.
pub fn sha256_hex(s: &str) -> (r: String)
    ensures
        r@ == sha256_hex_of(s@),
        r@.len() == 64,
{
    let digest = sha256(s.as_bytes());
    bytes_to_hex(&digest)
}

} // verus!

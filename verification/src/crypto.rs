use vstd::prelude::*;
use crate::errors::LedgerError;
use crate::numfmt::dec_chars;

verus! {

// The error types of ring, declared so that the trusted wrappers can
// return them and verified code can map them to the library's errors.
#[verifier::external_type_specification]
#[verifier::external_body]
pub struct ExKeyRejected(ring::error::KeyRejected);

#[verifier::external_type_specification]
#[verifier::external_body]
pub struct ExUnspecified(ring::error::Unspecified);

/// Whether `ring::signature::Ed25519KeyPair::from_pkcs8` accepts a
/// byte string as a PKCS#8 v2 Ed25519 document. Acceptance depends on
/// the bytes alone.
pub uninterp spec fn pkcs8_parses(key_bytes: Seq<u8>) -> bool;

/// The public key that ring derives from an accepted PKCS#8 document.
pub uninterp spec fn public_key_of(key_bytes: Seq<u8>) -> Seq<u8>;

/// The signature that ring's deterministic Ed25519 signing computes
/// for a message's UTF-8 bytes under an accepted PKCS#8 document.
pub uninterp spec fn signature_of(key_bytes: Seq<u8>, message: Seq<char>) -> Seq<u8>;

/// Whether ring's Ed25519 verification accepts `signature` over
/// `message`'s UTF-8 bytes under `public_key`.
pub uninterp spec fn sig_valid(public_key: Seq<u8>, message: Seq<char>, signature: Seq<u8>) -> bool;

/// Relies on `Ed25519KeyPair::generate_pkcs8` with a `SystemRandom`
/// source: on success the returned document is a PKCS#8 v2 document of
/// the kind `from_pkcs8` documents that it accepts.
#[verifier::external_body]
fn ring_generate_pkcs8() -> (r: Result<Vec<u8>, ring::error::Unspecified>)
    ensures
        r is Ok ==> pkcs8_parses(r->Ok_0@),
{
    let rng = ring::rand::SystemRandom::new();
    match ring::signature::Ed25519KeyPair::generate_pkcs8(&rng) {
        Ok(document) => Ok(document.as_ref().to_vec()),
        Err(e) => Err(e),
    }
}

/// Relies on `Ed25519KeyPair::from_pkcs8` and `KeyPair::public_key`:
/// parsing succeeds exactly when the bytes are an accepted document,
/// and the public key is a function of the document alone, 32 bytes
/// long.
#[verifier::external_body]
fn ring_public_key(key_bytes: &Vec<u8>) -> (r: Result<Vec<u8>, ring::error::KeyRejected>)
    ensures
        r is Ok <==> pkcs8_parses(key_bytes@),
        r is Ok ==> r->Ok_0@ == public_key_of(key_bytes@),
        r is Ok ==> r->Ok_0@.len() == 32,
{
    match ring::signature::Ed25519KeyPair::from_pkcs8(key_bytes) {
        Ok(key_pair) => Ok(<ring::signature::Ed25519KeyPair as ring::signature::KeyPair>::public_key(&key_pair).as_ref().to_vec()),
        Err(e) => Err(e),
    }
}

/// Relies on `Ed25519KeyPair::from_pkcs8` and `Ed25519KeyPair::sign`:
/// Ed25519 signing is deterministic (RFC 8032), so the signature is a
/// function of the document and the message, 64 bytes long, and a
/// signature so produced verifies under the document's own public key.
#[verifier::external_body]
fn ring_sign(key_bytes: &Vec<u8>, message: &str) -> (r: Result<
    Vec<u8>,
    ring::error::KeyRejected,
>)
    ensures
        r is Ok <==> pkcs8_parses(key_bytes@),
        r is Ok ==> r->Ok_0@ == signature_of(key_bytes@, message@),
        r is Ok ==> r->Ok_0@.len() == 64,
        r is Ok ==> sig_valid(public_key_of(key_bytes@), message@, signature_of(key_bytes@, message@)),
{
    match ring::signature::Ed25519KeyPair::from_pkcs8(key_bytes) {
        Ok(key_pair) => Ok(key_pair.sign(message.as_bytes()).as_ref().to_vec()),
        Err(e) => Err(e),
    }
}

/// Relies on `UnparsedPublicKey::verify` with the `ED25519` algorithm:
/// acceptance is a function of key, message and signature alone.
#[verifier::external_body]
fn ring_verify(public_key: &Vec<u8>, message: &str, signature: &Vec<u8>) -> (r: Result<
    (),
    ring::error::Unspecified,
>)
    ensures
        r is Ok <==> sig_valid(public_key@, message@, signature@),
{
    let key = ring::signature::UnparsedPublicKey::new(&ring::signature::ED25519, public_key);
    key.verify(message.as_bytes(), signature)
}

/// A user's signing material: a PKCS#8 v2 Ed25519 document, or empty
/// bytes for a user restored from a snapshot, who can no longer sign.
#[derive(Debug, Clone)]
pub struct KeyPairWrapper {
    pub pkcs8_bytes: Vec<u8>,
}

impl KeyPairWrapper {
    /// Generates a fresh Ed25519 key pair.
    pub fn generate() -> (r: Result<KeyPairWrapper, LedgerError>)
        ensures
            r is Ok ==> pkcs8_parses(r->Ok_0.pkcs8_bytes@),
            r is Err ==> r->Err_0 == LedgerError::CryptoInitError,
    {
        match ring_generate_pkcs8() {
            Ok(key_bytes) => Ok(KeyPairWrapper { pkcs8_bytes: key_bytes }),
            Err(_) => Err(LedgerError::CryptoInitError),
        }
    }

    /// An empty wrapper, holding no signing material: signing fails.
    pub fn missing() -> (r: KeyPairWrapper)
        ensures
            r.pkcs8_bytes@ == Seq::<u8>::empty(),
    {
        KeyPairWrapper { pkcs8_bytes: Vec::new() }
    }

    /// Returns the public key bound to the stored material.
    pub fn public_key(&self) -> (r: Result<Vec<u8>, LedgerError>)
        ensures
            r is Ok <==> pkcs8_parses(self.pkcs8_bytes@),
            r is Ok ==> r->Ok_0@ == public_key_of(self.pkcs8_bytes@),
            r is Ok ==> r->Ok_0@.len() == 32,
            r is Err ==> r->Err_0 == LedgerError::CryptoInitError,
    {
        match ring_public_key(&self.pkcs8_bytes) {
            Ok(public_key) => Ok(public_key),
            Err(_) => Err(LedgerError::CryptoInitError),
        }
    }

    /// Signs a message with the stored material.
    pub fn sign(&self, message: &str) -> (r: Result<Vec<u8>, LedgerError>)
        ensures
            r is Ok <==> pkcs8_parses(self.pkcs8_bytes@),
            r is Ok ==> r->Ok_0@ == signature_of(self.pkcs8_bytes@, message@),
            r is Ok ==> r->Ok_0@.len() == 64,
            r is Ok ==> sig_valid(
                public_key_of(self.pkcs8_bytes@),
                message@,
                signature_of(self.pkcs8_bytes@, message@),
            ),
            r is Err ==> r->Err_0 == LedgerError::SignError,
    {
        match ring_sign(&self.pkcs8_bytes, message) {
            Ok(signature) => Ok(signature),
            Err(_) => Err(LedgerError::SignError),
        }
    }

    /// Verifies a detached signature over a message under a public key.
    pub fn verify(public_key: &Vec<u8>, message: &str, signature: &Vec<u8>) -> (r: Result<
        (),
        LedgerError,
    >)
        ensures
            r is Ok <==> sig_valid(public_key@, message@, signature@),
            r is Err ==> r->Err_0 == LedgerError::BadSignature,
    {
        match ring_verify(public_key, message, signature) {
            Ok(()) => Ok(()),
            Err(_) => Err(LedgerError::BadSignature),
        }
    }
}

/// The canonical message that every transaction signature covers:
/// `id:sender:receiver:amount:timestamp` with decimal integers.
pub open spec fn canonical_msg(
    id: Seq<char>,
    sender: Seq<char>,
    receiver: Seq<char>,
    amount: u64,
    timestamp: u64,
) -> Seq<char> {
    id + ":"@ + sender + ":"@ + receiver + ":"@ + dec_chars(amount as nat) + ":"@ + dec_chars(
        timestamp as nat,
    )
}

/// Builds the canonical message for a transaction's signature.
pub fn canonical_message(
    id: &str,
    sender: &str,
    receiver: &str,
    amount: u64,
    timestamp: u64,
) -> (m: String)
    ensures
        m@ == canonical_msg(id@, sender@, receiver@, amount, timestamp),
{
    let mut m = String::new();
    m.append(id);
    m.append(":");
    m.append(sender);
    m.append(":");
    m.append(receiver);
    m.append(":");
    let amount_text = crate::numfmt::u64_to_string(amount);
    m.append(amount_text.as_str());
    m.append(":");
    let timestamp_text = crate::numfmt::u64_to_string(timestamp);
    m.append(timestamp_text.as_str());
    proof {
        assert(m@ =~= canonical_msg(id@, sender@, receiver@, amount, timestamp));
    }
    m
}

} // verus!

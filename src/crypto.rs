//! The cryptographic primitives that the library calls into: HMAC-SHA256 and
//! the operating system's random source from ring, and the Argon2 passphrase
//! policy from oxide-auth.
use vstd::prelude::*;
use vstd::utf8::encode_utf8;
use ring::rand::SecureRandom;
use oxide_auth::primitives::registrar::PasswordPolicy;

verus! {

/// Length in bytes of an HMAC-SHA256 tag.
pub const TAG_LEN: usize = 32;

/// Keys and messages are kept below this many bytes: SHA-256 counts its input
/// in bits with a 64-bit counter, and ring panics beyond it.
pub const HMAC_INPUT_LIMIT: u64 = 0x1000_0000_0000_0000;

/// The HMAC-SHA256 tag of `msg` under `key`.
pub uninterp spec fn hmac_sha256(key: Seq<u8>, msg: Seq<u8>) -> [u8; 32];

/// Argon2 takes passphrases and associated data of at most this many bytes.
pub const ARGON2_MAX_LEN: u64 = 0xFFFF_FFFF;

/// Whether the Argon2 policy accepts `passphrase` for `client_id` against the
/// stored encoding `stored`.
pub uninterp spec fn argon2_accepts(client_id: Seq<char>, passphrase: Seq<u8>, stored: Seq<u8>) -> bool;

/// Relies on ring::hmac::sign with HMAC_SHA256: the tag is a function of key
/// and message, 32 bytes long.
#[verifier::external_body]
pub(crate) fn hmac_sign(key: &[u8], msg: &[u8]) -> (r: Vec<u8>)
    requires
        key@.len() < HMAC_INPUT_LIMIT,
        msg@.len() < HMAC_INPUT_LIMIT,
    ensures
        r@ == hmac_sha256(key@, msg@)@,
{
    let k = ring::hmac::Key::new(ring::hmac::HMAC_SHA256, key);
    ring::hmac::sign(&k, msg).as_ref().to_vec()
}

/// Relies on ring::hmac::verify with HMAC_SHA256: it recomputes the tag of the
/// message and compares it with the given one in constant time.
#[verifier::external_body]
pub(crate) fn hmac_verify(key: &[u8], msg: &[u8], tag: &[u8]) -> (r: bool)
    requires
        key@.len() < HMAC_INPUT_LIMIT,
        msg@.len() < HMAC_INPUT_LIMIT,
    ensures
        r == (tag@ == hmac_sha256(key@, msg@)@),
{
    let k = ring::hmac::Key::new(ring::hmac::HMAC_SHA256, key);
    ring::hmac::verify(&k, msg, tag).is_ok()
}

/// Relies on ring::rand::SystemRandom::fill: `n` bytes from the operating
/// system's secure random source, or nothing when that source fails.
#[verifier::external_body]
pub(crate) fn random_bytes(n: usize) -> (r: Option<Vec<u8>>)
    ensures
        r matches Some(v) ==> v@.len() == n,
{
    let mut v = vec![0u8; n];
    match ring::rand::SystemRandom::new().fill(&mut v) {
        Ok(()) => Some(v),
        Err(_) => None,
    }
}

/// Relies on oxide_auth's Argon2 password policy (`store`): the passphrase is
/// hashed with a fresh random salt, bound to the client id, and the policy's
/// `check` accepts that passphrase against what it stored.
#[verifier::external_body]
pub(crate) fn argon2_store(client_id: &str, passphrase: &[u8]) -> (r: Vec<u8>)
    requires
        encode_utf8(client_id@).len() <= ARGON2_MAX_LEN,
        passphrase@.len() <= ARGON2_MAX_LEN,
    ensures
        argon2_accepts(client_id@, passphrase@, r@),
{
    oxide_auth::primitives::registrar::Argon2::default().store(client_id, passphrase)
}

/// Relies on oxide_auth's Argon2 password policy (`check`): whether the
/// passphrase verifies against the stored encoding for this client id, compared
/// in constant time; a stored value that is no Argon2 encoding is refused.
#[verifier::external_body]
pub(crate) fn argon2_check(client_id: &str, passphrase: &[u8], stored: &[u8]) -> (r: bool)
    ensures
        r == argon2_accepts(client_id@, passphrase@, stored@),
{
    oxide_auth::primitives::registrar::Argon2::default().check(client_id, passphrase, stored).is_ok()
}

} // verus!

//! Hashing and checking passwords, comparing secrets and drawing salts.
//! The cryptography itself is ring's; this module states what is relied
//! on.

use vstd::prelude::*;
use vstd::utf8::encode_utf8;

verus! {

/// The number of bytes in a stored password hash.
pub const OUTPUT_LEN: usize = 32;

/// The number of bytes in a freshly drawn salt.
pub const SALT_LEN: usize = 64;

/// The key that PBKDF2 with HMAC-SHA256 derives: `len` bytes from a secret, a
/// salt and an iteration count.
pub uninterp spec fn pbkdf2_hmac_sha256(secret: Seq<u8>, salt: Seq<u8>, iterations: u32, len: nat) -> Seq<u8>;

/// The longest secret or salt handed to the key derivation. The digest under
/// it counts its input in bits in 64 bits; this bound stays well below that.
pub open spec fn max_input_len() -> int {
    0x1000_0000_0000_0000
}

/// The longest key asked of the key derivation.
pub open spec fn max_output_len() -> int {
    0xFFFF_FFFF
}

/// The inputs on which the key derivation is defined.
pub open spec fn derivable(secret: Seq<u8>, salt: Seq<u8>, iterations: u32, len: nat) -> bool {
    &&& iterations != 0
    &&& secret.len() <= max_input_len()
    &&& salt.len() <= max_input_len()
    &&& len <= max_output_len()
}

/// Whether `previous` is what the key derivation gives for these inputs.
/// An empty `previous` never is.
pub open spec fn derives_to(secret: Seq<u8>, salt: Seq<u8>, iterations: u32, previous: Seq<u8>) -> bool {
    previous.len() > 0 && pbkdf2_hmac_sha256(secret, salt, iterations, previous.len()) == previous
}

/// `ring::pbkdf2::derive` with `PBKDF2_HMAC_SHA256`, on a zeroed buffer of
/// `len` bytes. The contract names the derived key and gives its length;
/// the inputs on which ring panics are left out.
#[verifier::external_body]
fn pbkdf2_derive(secret: &[u8], salt: &[u8], iterations: u32, len: usize) -> (out: Vec<u8>)
    requires
        derivable(secret@, salt@, iterations, len as nat),
    ensures
        out@ == pbkdf2_hmac_sha256(secret@, salt@, iterations, len as nat),
        out@.len() == len,
{
    let mut out = vec![0u8; len];
    let rounds = core::num::NonZeroU32::new(iterations).unwrap();
    ring::pbkdf2::derive(ring::pbkdf2::PBKDF2_HMAC_SHA256, rounds, salt, secret, &mut out);
    out
}

/// `ring::pbkdf2::verify` with `PBKDF2_HMAC_SHA256`: derives as many bytes
/// as `previous` has and compares them with it, refusing an empty
/// `previous`.
#[verifier::external_body]
fn pbkdf2_verify(secret: &[u8], salt: &[u8], previous: &[u8], iterations: u32) -> (ok: bool)
    requires
        derivable(secret@, salt@, iterations, previous@.len()),
    ensures
        ok == derives_to(secret@, salt@, iterations, previous@),
{
    let rounds = core::num::NonZeroU32::new(iterations).unwrap();
    ring::pbkdf2::verify(ring::pbkdf2::PBKDF2_HMAC_SHA256, rounds, salt, secret, previous).is_ok()
}

/// `ring::constant_time::verify_slices_are_equal`: whether two byte slices
/// have the same length and the same bytes.
#[allow(deprecated)]
#[verifier::external_body]
fn slices_are_equal(a: &[u8], b: &[u8]) -> (r: bool)
    ensures
        r == (a@ == b@),
{
    ring::constant_time::verify_slices_are_equal(a, b).is_ok()
}

/// `ring::rand::SystemRandom::fill` on a zeroed buffer of `len` bytes. The
/// bytes come from the operating system, so only their number is known.
/// Aborts if the operating system cannot supply them.
#[verifier::external_body]
fn random_bytes(len: usize) -> (out: Vec<u8>)
    ensures
        out@.len() == len,
{
    let mut out = vec![0u8; len];
    ring::rand::SecureRandom::fill(&ring::rand::SystemRandom::new(), &mut out)
        .expect("Error generating random values");
    out
}

/// Derives the hash that is stored for a password. The hash is accepted
/// for the secret, salt and iteration count that it was derived from.
pub fn hash_password(secret: &[u8], salt: &[u8], iterations: u32) -> (hash: Vec<u8>)
    requires
        derivable(secret@, salt@, iterations, OUTPUT_LEN as nat),
    ensures
        hash@ == pbkdf2_hmac_sha256(secret@, salt@, iterations, OUTPUT_LEN as nat),
        hash@.len() == OUTPUT_LEN,
        derives_to(secret@, salt@, iterations, hash@),
{
    pbkdf2_derive(secret, salt, iterations, OUTPUT_LEN)
}

/// Checks a secret against a stored hash without leaking where they differ.
pub fn verify_password_hash(secret: &[u8], salt: &[u8], previous: &[u8], iterations: u32) -> (ok: bool)
    requires
        derivable(secret@, salt@, iterations, previous@.len()),
    ensures
        ok == derives_to(secret@, salt@, iterations, previous@),
{
    pbkdf2_verify(secret, salt, previous, iterations)
}

/// Draws a fresh salt.
pub fn get_random_64() -> (salt: Vec<u8>)
    ensures
        salt@.len() == SALT_LEN,
{
    random_bytes(SALT_LEN)
}

/// Compares two texts in time that does not depend on where they differ.
pub fn ct_eq(a: &str, b: &str) -> (r: bool)
    ensures
        r == (a@ == b@),
{
    let r = slices_are_equal(a.as_bytes(), b.as_bytes());
    proof {
        vstd::utf8::encode_utf8_decode_utf8(a@);
        vstd::utf8::encode_utf8_decode_utf8(b@);
    }
    r
}

} // verus!

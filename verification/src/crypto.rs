//! The cryptographic primitives the library relies on: BLAKE3 (`blake3`),
//! ChaCha20-Poly1305 (`chacha20poly1305`), Ed25519 (`ed25519-dalek`) and fresh
//! nonces (`rand`). Each is reached through one small trusted item; the results
//! that take pages to define are given names, and only the facts that the
//! crates' sources show are stated about them.

use vstd::prelude::*;
use chacha20poly1305::aead::{Aead, KeyInit};
use ed25519_dalek::{Signer, SigningKey, VerifyingKey, Signature};

verus! {

/// The 32-byte BLAKE3 digest of `data`.
pub uninterp spec fn spec_blake3(data: Seq<u8>) -> Seq<u8>;

/// ChaCha20-Poly1305 (no associated data): the ciphertext followed by its tag.
pub uninterp spec fn spec_aead_seal(key: Seq<u8>, nonce: Seq<u8>, plaintext: Seq<u8>) -> Seq<u8>;

/// ChaCha20-Poly1305 (no associated data): the plaintext, or `None` when the tag
/// does not authenticate the ciphertext.
pub uninterp spec fn spec_aead_open(key: Seq<u8>, nonce: Seq<u8>, ciphertext: Seq<u8>) -> Option<
    Seq<u8>,
>;

/// The Ed25519 public key (compressed point) of a 32-byte secret seed.
pub uninterp spec fn spec_ed25519_public(seed: Seq<u8>) -> Seq<u8>;

/// The Ed25519 signature of `message` under the key with secret seed `seed`.
pub uninterp spec fn spec_ed25519_sign(seed: Seq<u8>, message: Seq<u8>) -> Seq<u8>;

/// Whether 32 bytes decompress to an Ed25519 public key.
pub uninterp spec fn spec_ed25519_key_valid(public_key: Seq<u8>) -> bool;

/// Whether `signature` is a valid Ed25519 signature of `message` under
/// `public_key`, by the strict rules of `VerifyingKey::verify_strict`.
pub uninterp spec fn spec_ed25519_verify_strict(
    public_key: Seq<u8>,
    message: Seq<u8>,
    signature: Seq<u8>,
) -> bool;

/// The largest plaintext (exclusive bound, in 64-byte blocks) that the
/// ChaCha20-Poly1305 implementation accepts.
pub open spec fn aead_length_ok(len: nat) -> bool {
    len / 64 < 0xFFFF_FFFF
}

/// `blake3::hash`: the BLAKE3 digest of `data`. A `blake3::Hasher` fed several
/// slices in turn gives the digest of their concatenation, so callers hash the
/// concatenation directly.
#[verifier::external_body]
pub(crate) fn blake3_hash(data: &[u8]) -> (digest: [u8; 32])
    ensures
        digest@ == spec_blake3(data@),
{
    *blake3::hash(data).as_bytes()
}

/// `ChaCha20Poly1305::encrypt` with a 32-byte key and 12-byte nonce. Its source
/// appends a 16-byte tag to the keystream-encrypted plaintext, and `decrypt`
/// recomputes the same tag over the same bytes before undoing the keystream, so
/// opening what was sealed with the same key and nonce gives the plaintext back.
/// It fails only when the plaintext reaches 2^32 - 1 blocks of 64 bytes, which
/// `requires` excludes.
#[verifier::external_body]
pub(crate) fn aead_seal(key: &[u8; 32], nonce: &[u8; 12], plaintext: &[u8]) -> (ciphertext: Vec<u8>)
    requires
        aead_length_ok(plaintext@.len()),
    ensures
        ciphertext@ == spec_aead_seal(key@, nonce@, plaintext@),
        ciphertext@.len() == plaintext@.len() + 16,
        spec_aead_open(key@, nonce@, ciphertext@) == Some(plaintext@),
{
    chacha20poly1305::ChaCha20Poly1305::new(key.into()).encrypt(nonce.into(), plaintext).unwrap()
}

/// `ChaCha20Poly1305::decrypt` with a 32-byte key and 12-byte nonce: the
/// plaintext when the tag authenticates the ciphertext, `None` otherwise.
#[verifier::external_body]
pub(crate) fn aead_open(key: &[u8; 32], nonce: &[u8; 12], ciphertext: &[u8]) -> (plaintext: Option<
    Vec<u8>,
>)
    ensures
        plaintext matches Some(p) ==> spec_aead_open(key@, nonce@, ciphertext@) == Some(p@),
        plaintext is None ==> spec_aead_open(key@, nonce@, ciphertext@) is None,
{
    chacha20poly1305::ChaCha20Poly1305::new(key.into()).decrypt(nonce.into(), ciphertext).ok()
}

/// `SigningKey::from_bytes(seed).verifying_key()`: the compressed public key.
#[verifier::external_body]
pub(crate) fn ed25519_public_key(seed: &[u8; 32]) -> (public_key: [u8; 32])
    ensures
        public_key@ == spec_ed25519_public(seed@),
{
    SigningKey::from_bytes(seed).verifying_key().to_bytes()
}

/// `SigningKey::from_bytes(seed).sign(message)`: the 64-byte signature.
#[verifier::external_body]
pub(crate) fn ed25519_sign(seed: &[u8; 32], message: &[u8]) -> (signature: [u8; 64])
    ensures
        signature@ == spec_ed25519_sign(seed@, message@),
{
    SigningKey::from_bytes(seed).sign(message).to_bytes()
}

/// `VerifyingKey::from_bytes`: whether the bytes are a valid public key.
#[verifier::external_body]
pub(crate) fn ed25519_key_valid(public_key: &[u8; 32]) -> (valid: bool)
    ensures
        valid == spec_ed25519_key_valid(public_key@),
{
    VerifyingKey::from_bytes(public_key).is_ok()
}

/// `VerifyingKey::verify_strict`: whether the signature checks out. A key that
/// does not decompress verifies nothing.
#[verifier::external_body]
pub(crate) fn ed25519_verify_strict(public_key: &[u8; 32], message: &[u8], signature: &[u8; 64]) -> (ok:
    bool)
    ensures
        ok == spec_ed25519_verify_strict(public_key@, message@, signature@),
        !spec_ed25519_key_valid(public_key@) ==> !ok,
{
    match VerifyingKey::from_bytes(public_key) {
        Ok(vk) => vk.verify_strict(message, &Signature::from_bytes(signature)).is_ok(),
        Err(_) => false,
    }
}

/// `rand::random`: twelve fresh random bytes (nothing is known of their value).
#[verifier::external_body]
pub(crate) fn random_nonce() -> [u8; 12] {
    rand::random::<[u8; 12]>()
}

/// `rand::RngCore::fill_bytes` on the thread-local generator: overwrites `buf`
/// with fresh random bytes (nothing is known of their value; the length stays).
#[verifier::external_body]
fn fill_random(buf: &mut Vec<u8>)
    ensures
        final(buf)@.len() == old(buf)@.len(),
{
    rand::RngCore::fill_bytes(&mut rand::thread_rng(), buf.as_mut_slice());
}

/// `n` fresh random bytes.
pub fn random_bytes(n: usize) -> (r: Vec<u8>)
    ensures
        r@.len() == n,
{
    let mut buf: Vec<u8> = Vec::new();
    let mut i: usize = 0;
    while i < n
        invariant
            i <= n,
            buf@.len() == i,
        decreases n - i,
    {
        buf.push(0u8);
        i = i + 1;
    }
    fill_random(&mut buf);
    buf
}

/// Whether `s` is the hyphenated text of a version-4 UUID: 36 characters, with
/// hyphens at positions 8, 13, 18 and 23 and the version digit `4` at 14.
pub open spec fn is_uuid_v4_text(s: Seq<char>) -> bool {
    &&& s.len() == 36
    &&& s[8] == '-' && s[13] == '-' && s[18] == '-' && s[23] == '-'
    &&& s[14] == '4'
}

/// `uuid::Uuid::new_v4`, written with `to_string` (lower-case hyphenated form):
/// a fresh random message id. The source fixes the version bits to 4 and the
/// `Display` impl writes the 8-4-4-4-12 hyphenated form.
#[verifier::external_body]
pub(crate) fn new_message_id() -> (r: String)
    ensures
        is_uuid_v4_text(r@),
{
    uuid::Uuid::new_v4().to_string()
}

} // verus!

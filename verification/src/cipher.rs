//! At-rest encryption of history content: ChaCha20-Poly1305 under a 32-byte
//! local key; each ciphertext is a fresh 12-byte nonce followed by the sealed
//! bytes.

use vstd::prelude::*;
use crate::crypto::{aead_length_ok, aead_open, aead_seal, random_nonce, spec_aead_open, spec_aead_seal};

verus! {

/// Length of the nonce that starts every ciphertext.
pub const NONCE_LEN: usize = 12;

/// Length of the authentication tag.
pub const TAG_LEN: usize = 16;

/// Why a key or a ciphertext was refused.
#[derive(Clone, Copy, Debug, PartialEq, Eq, Structural)]
pub enum CipherError {
    /// The stored content key is not 32 bytes long.
    BadKeyLength,
    /// The data is shorter than a nonce and a tag.
    CiphertextTooShort,
    /// The tag does not authenticate the data under this key.
    DecryptFailed,
}

impl CipherError {
    /// The message the application shows for this error.
    pub fn message(&self) -> (s: &'static str)
        ensures
            *self == CipherError::BadKeyLength ==> s@ == "内容加密密钥长度异常"@,
            *self == CipherError::CiphertextTooShort ==> s@ == "密文长度异常"@,
            *self == CipherError::DecryptFailed ==> s@ == "内容解密失败"@,
    {
        match self {
            CipherError::BadKeyLength => "内容加密密钥长度异常",
            CipherError::CiphertextTooShort => "密文长度异常",
            CipherError::DecryptFailed => "内容解密失败",
        }
    }
}

/// The local content cipher.
pub struct LocalCipher {
    key: [u8; 32],
}

/// What decrypting `data` under `key` gives: `None` when it is too short or
/// fails to authenticate.
pub open spec fn spec_decrypt(key: Seq<u8>, data: Seq<u8>) -> Option<Seq<u8>> {
    if data.len() < 28 {
        None
    } else {
        spec_aead_open(key, data.take(12), data.skip(12))
    }
}

impl LocalCipher {
    /// The key this cipher encrypts with.
    pub closed spec fn key(&self) -> Seq<u8> {
        self.key@
    }

    /// A cipher for the given key bytes; refused unless they are exactly 32 bytes.
    pub fn from_key(key: &[u8]) -> (r: Result<LocalCipher, CipherError>)
        ensures
            r is Ok <==> key@.len() == 32,
            r matches Ok(c) ==> c.key() == key@,
            r matches Err(e) ==> e == CipherError::BadKeyLength,
    {
        if key.len() != 32 {
            return Err(CipherError::BadKeyLength);
        }
        let mut k = [0u8; 32];
        let mut i: usize = 0;
        while i < 32
            invariant
                key@.len() == 32,
                i <= 32,
                forall|j: int| 0 <= j < i ==> k@[j] == key@[j],
            decreases 32 - i,
        {
            k[i] = key[i];
            i = i + 1;
        }
        assert(k@ =~= key@);
        Ok(LocalCipher { key: k })
    }

    /// Encrypts `plaintext` under a fresh random nonce: the result is the nonce
    /// followed by the ChaCha20-Poly1305 ciphertext and tag, and it decrypts to
    /// `plaintext` under this cipher's key.
    pub fn encrypt(&self, plaintext: &[u8]) -> (out: Vec<u8>)
        requires
            aead_length_ok(plaintext@.len()),
        ensures
            out@.len() == plaintext@.len() + 28,
            out@.skip(12) == spec_aead_seal(self.key(), out@.take(12), plaintext@),
            spec_decrypt(self.key(), out@) == Some(plaintext@),
    {
        let nonce = random_nonce();
        let sealed = aead_seal(&self.key, &nonce, plaintext);
        let mut out: Vec<u8> = crate::bytes::to_vec(&nonce);
        crate::bytes::append_bytes(&mut out, &sealed);
        assert(out@.take(12) =~= nonce@);
        assert(out@.skip(12) =~= sealed@);
        out
    }

    /// Decrypts data made by [`LocalCipher::encrypt`].
    pub fn decrypt(&self, data: &[u8]) -> (r: Result<Vec<u8>, CipherError>)
        ensures
            r matches Ok(p) ==> spec_decrypt(self.key(), data@) == Some(p@),
            r is Err <==> spec_decrypt(self.key(), data@) is None,
            r == Err::<Vec<u8>, CipherError>(CipherError::CiphertextTooShort) <==> data@.len() < 28,
            r == Err::<Vec<u8>, CipherError>(CipherError::DecryptFailed) <==> data@.len() >= 28 && spec_decrypt(
                self.key(),
                data@,
            ) is None,
    {
        if data.len() < NONCE_LEN + TAG_LEN {
            return Err(CipherError::CiphertextTooShort);
        }
        let mut nonce = [0u8; 12];
        let mut i: usize = 0;
        while i < 12
            invariant
                data@.len() >= 28,
                i <= 12,
                forall|j: int| 0 <= j < i ==> nonce@[j] == data@[j],
            decreases 12 - i,
        {
            nonce[i] = data[i];
            i = i + 1;
        }
        assert(nonce@ =~= data@.take(12));
        let body = vstd::slice::slice_subrange(data, NONCE_LEN, data.len());
        assert(body@ =~= data@.skip(12));
        match aead_open(&self.key, &nonce, body) {
            Some(p) => Ok(p),
            None => Err(CipherError::DecryptFailed),
        }
    }
}

} // verus!

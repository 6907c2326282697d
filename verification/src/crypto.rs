//! Encryption of stored secrets (forge tokens, webhook secrets, deploy
//! keys): AES-256-GCM with a fresh random nonce stored in front of the
//! ciphertext.
use vstd::prelude::*;
use vstd::string::*;
use vstd::utf8::encode_utf8;

use crate::codec::{
    aes256gcm_decrypt, aes256gcm_encrypt, aes256gcm_open_spec, aes256gcm_seal_spec,
    aes_gcm_max_plaintext, random_bytes, string_from_utf8, utf8_decode_spec,
};

verus! {

/// The length of the nonce stored in front of every ciphertext.
pub const NONCE_LEN: usize = 12;

/// The length of an AES-256 key.
pub const KEY_LEN: usize = 32;

/// Why a secret could not be encrypted or decrypted.
#[derive(Debug, Clone, Copy, PartialEq, Eq, Structural)]
pub enum CryptoError {
    /// The configured key is not 32 bytes long.
    InvalidKeyLength,
    /// The system random generator failed to give a nonce.
    NonceUnavailable,
    /// The plaintext is longer than AES-GCM encrypts.
    PayloadTooLarge,
    /// The stored value is shorter than a nonce.
    PayloadTooShort,
    /// The ciphertext does not verify under the key.
    DecryptionFailed,
    /// The decrypted bytes are not UTF-8.
    InvalidUtf8,
}

/// Encrypts and decrypts secrets under one AES-256 key.
pub struct CryptoEngine {
    key: Vec<u8>,
}

impl View for CryptoEngine {
    type V = Seq<u8>;

    closed spec fn view(&self) -> Seq<u8> {
        self.key@
    }
}

/// `packed` is a nonce followed by the encryption of the UTF-8 bytes of
/// `payload` under `key` and that nonce, and decrypts back to them.
pub open spec fn sealed_for(key: Seq<u8>, packed: Seq<u8>, payload: Seq<char>) -> bool {
    &&& packed.len() >= NONCE_LEN
    &&& packed.skip(NONCE_LEN as int) == aes256gcm_seal_spec(
        key,
        packed.take(NONCE_LEN as int),
        encode_utf8(payload),
    )
    &&& aes256gcm_open_spec(key, packed.take(NONCE_LEN as int), packed.skip(NONCE_LEN as int))
        == Some(encode_utf8(payload))
}

/// What decrypting a stored value gives: the nonce is the first 12 bytes,
/// the rest must verify under the key and decrypt to UTF-8.
pub open spec fn decrypt_spec(key: Seq<u8>, packed: Seq<u8>) -> Result<Seq<char>, CryptoError> {
    if packed.len() < NONCE_LEN {
        Err(CryptoError::PayloadTooShort)
    } else {
        match aes256gcm_open_spec(
            key,
            packed.take(NONCE_LEN as int),
            packed.skip(NONCE_LEN as int),
        ) {
            None => Err(CryptoError::DecryptionFailed),
            Some(bytes) => match utf8_decode_spec(bytes) {
                None => Err(CryptoError::InvalidUtf8),
                Some(s) => Ok(s),
            },
        }
    }
}

impl CryptoEngine {
    /// The engine for `encryption_key`, which must be 32 bytes long.
    pub fn new(encryption_key: Vec<u8>) -> (r: Result<Self, CryptoError>)
        ensures
            encryption_key@.len() == KEY_LEN <==> r is Ok,
            r matches Ok(e) ==> e@ == encryption_key@,
            r matches Err(e) ==> e == CryptoError::InvalidKeyLength,
    {
        if encryption_key.len() != KEY_LEN {
            return Err(CryptoError::InvalidKeyLength);
        }
        Ok(CryptoEngine { key: encryption_key })
    }

    #[verifier::type_invariant]
    spec fn key_is_aes256(&self) -> bool {
        self.key@.len() == KEY_LEN
    }

    /// Encrypts `payload` under `nonce`: the nonce followed by the
    /// ciphertext and tag; a payload longer than AES-GCM allows is refused.
    pub fn seal(&self, nonce: &[u8], payload: &str) -> (r: Result<Vec<u8>, CryptoError>)
        requires
            nonce@.len() == NONCE_LEN,
        ensures
            r is Ok <==> encode_utf8(payload@).len() <= aes_gcm_max_plaintext(),
            r matches Ok(packed) ==> sealed_for(self@, packed@, payload@) && packed@.take(
                NONCE_LEN as int,
            ) == nonce@,
            r matches Ok(packed) ==> packed@.len() == NONCE_LEN + encode_utf8(payload@).len() + 16,
            r matches Err(e) ==> e == CryptoError::PayloadTooLarge,
    {
        proof {
            use_type_invariant(self);
        }
        let bytes = payload.as_bytes();
        let ciphertext = match aes256gcm_encrypt(self.key.as_slice(), nonce, bytes) {
            Some(c) => c,
            None => return Err(CryptoError::PayloadTooLarge),
        };
        let mut packed: Vec<u8> = Vec::new();
        let mut j: usize = 0;
        while j < nonce.len()
            invariant
                j <= nonce.len(),
                packed@ == nonce@.take(j as int),
            decreases nonce.len() - j,
        {
            packed.push(nonce[j]);
            assert(nonce@.take(j + 1) =~= nonce@.take(j as int).push(nonce@[j as int]));
            j = j + 1;
        }
        assert(nonce@.take(nonce.len() as int) =~= nonce@);
        let ghost nonce_seq = packed@;
        let mut i: usize = 0;
        while i < ciphertext.len()
            invariant
                i <= ciphertext.len(),
                packed@ == nonce_seq + ciphertext@.take(i as int),
                nonce_seq == nonce@,
                nonce_seq.len() == NONCE_LEN,
            decreases ciphertext.len() - i,
        {
            packed.push(ciphertext[i]);
            assert(ciphertext@.take(i + 1) =~= ciphertext@.take(i as int).push(ciphertext@[i as int]));
            i = i + 1;
        }
        assert(ciphertext@.take(ciphertext.len() as int) =~= ciphertext@);
        assert(packed@.take(NONCE_LEN as int) =~= nonce_seq);
        assert(packed@.skip(NONCE_LEN as int) =~= ciphertext@);
        Ok(packed)
    }

    /// Encrypts `payload` under a fresh random nonce: the result is the
    /// nonce followed by the ciphertext and tag (see [`CryptoEngine::seal`]).
    pub fn encrypt(&self, payload: &str) -> (r: Result<Vec<u8>, CryptoError>)
        ensures
            r matches Ok(packed) ==> sealed_for(self@, packed@, payload@),
            r matches Ok(packed) ==> packed@.len() == NONCE_LEN + encode_utf8(payload@).len() + 16,
            r matches Err(e) ==> (e == CryptoError::NonceUnavailable || (e
                == CryptoError::PayloadTooLarge && encode_utf8(payload@).len()
                > aes_gcm_max_plaintext())),
            encode_utf8(payload@).len() > aes_gcm_max_plaintext() ==> r is Err,
    {
        let nonce = match random_bytes(NONCE_LEN) {
            Some(n) => n,
            None => return Err(CryptoError::NonceUnavailable),
        };
        self.seal(nonce.as_slice(), payload)
    }

    /// Decrypts a value that [`CryptoEngine::encrypt`] produced.
    pub fn decrypt(&self, packed: &[u8]) -> (r: Result<String, CryptoError>)
        ensures
            match r {
                Ok(s) => decrypt_spec(self@, packed@) == Ok::<Seq<char>, CryptoError>(s@),
                Err(e) => decrypt_spec(self@, packed@) == Err::<Seq<char>, CryptoError>(e),
            },
    {
        proof {
            use_type_invariant(self);
        }
        if packed.len() < NONCE_LEN {
            return Err(CryptoError::PayloadTooShort);
        }
        let (nonce, ciphertext) = packed.split_at(NONCE_LEN);
        assert(nonce@ =~= packed@.take(NONCE_LEN as int));
        assert(ciphertext@ =~= packed@.skip(NONCE_LEN as int));
        let bytes = match aes256gcm_decrypt(self.key.as_slice(), nonce, ciphertext) {
            Some(b) => b,
            None => return Err(CryptoError::DecryptionFailed),
        };
        match string_from_utf8(bytes) {
            Some(s) => Ok(s),
            None => Err(CryptoError::InvalidUtf8),
        }
    }
}

/// Decryption gives back what encryption was given: a value that
/// [`CryptoEngine::encrypt`] produced from `payload` under `key` decrypts
/// to `payload`.
pub proof fn lemma_decrypt_reverses_encrypt(key: Seq<u8>, packed: Seq<u8>, payload: Seq<char>)
    requires
        sealed_for(key, packed, payload),
    ensures
        decrypt_spec(key, packed) == Ok::<Seq<char>, CryptoError>(payload),
{
    vstd::utf8::encode_utf8_valid_utf8(payload);
    vstd::utf8::encode_utf8_decode_utf8(payload);
}

} // verus!

use vstd::prelude::*;
use vstd::utf8::{decode_utf8, encode_utf8, valid_utf8};

use aes_gcm::aead::{Aead, KeyInit};
use base64::Engine;
use rand::RngCore;

verus! {

broadcast use vstd::utf8::encode_utf8_valid_utf8, vstd::utf8::encode_utf8_decode_utf8;

/// AES-256-GCM key used to encrypt stored OAuth tokens.
pub type AesKey = [u8; 32];

/// Length of the random nonce put in front of every ciphertext.
pub open spec fn nonce_len() -> int {
    12
}

/// Length of the authentication tag AES-GCM appends.
pub open spec fn tag_len() -> int {
    16
}

/// Longest plaintext AES-GCM accepts, in bytes.
pub open spec fn max_plaintext_len() -> int {
    0x10_0000_0000
}

// ---------------------------------------------------------------------------
// Outside types
// ---------------------------------------------------------------------------

#[verifier::external_type_specification]
#[verifier::external_body]
pub struct ExAeadError(aes_gcm::aead::Error);

#[verifier::external_type_specification]
#[verifier::external_body]
pub struct ExDecodeError(base64::DecodeError);

#[verifier::external_type_specification]
#[verifier::external_body]
pub struct ExFromUtf8Error(std::string::FromUtf8Error);

// ---------------------------------------------------------------------------
// Base64
// ---------------------------------------------------------------------------

/// The base64 symbol for a 6-bit value: `A-Z a-z 0-9` followed by `-_` in
/// the URL-safe alphabet and `+/` in the standard one.
pub open spec fn b64_symbol(v: int, url_safe: bool) -> char {
    if v < 26 {
        (65 + v) as char
    } else if v < 52 {
        (97 + v - 26) as char
    } else if v < 62 {
        (48 + v - 52) as char
    } else if v == 62 {
        if url_safe {
            '-'
        } else {
            '+'
        }
    } else {
        if url_safe {
            '_'
        } else {
            '/'
        }
    }
}

/// Base64 encoding of `b`: each 3 bytes become 4 symbols; a final group of
/// 1 or 2 bytes becomes 2 or 3 symbols, followed by `=` padding to 4 when
/// `pad` is set.
pub open spec fn base64_spec(b: Seq<u8>, url_safe: bool, pad: bool) -> Seq<char>
    decreases b.len(),
{
    if b.len() == 0 {
        Seq::empty()
    } else if b.len() == 1 {
        seq![b64_symbol((b[0] as int) / 4, url_safe), b64_symbol(((b[0] as int) % 4) * 16, url_safe)] + if pad {
            seq!['=', '=']
        } else {
            Seq::empty()
        }
    } else if b.len() == 2 {
        seq![
            b64_symbol((b[0] as int) / 4, url_safe),
            b64_symbol(((b[0] as int) % 4) * 16 + (b[1] as int) / 16, url_safe),
            b64_symbol(((b[1] as int) % 16) * 4, url_safe),
        ] + if pad {
            seq!['=']
        } else {
            Seq::empty()
        }
    } else {
        seq![
            b64_symbol((b[0] as int) / 4, url_safe),
            b64_symbol(((b[0] as int) % 4) * 16 + (b[1] as int) / 16, url_safe),
            b64_symbol(((b[1] as int) % 16) * 4 + (b[2] as int) / 64, url_safe),
            b64_symbol((b[2] as int) % 64, url_safe),
        ] + base64_spec(b.skip(3), url_safe, pad)
    }
}

/// Unpadded base64 is never shorter than its input, and empty only for
/// empty input.
pub proof fn lemma_base64_unpadded_len(b: Seq<u8>, url_safe: bool)
    ensures
        base64_spec(b, url_safe, false).len() >= b.len(),
        b.len() > 0 ==> base64_spec(b, url_safe, false).len() > 0,
    decreases b.len(),
{
    if b.len() >= 3 {
        lemma_base64_unpadded_len(b.skip(3), url_safe);
    }
}

/// What `URL_SAFE_NO_PAD.decode` returns for a string: the bytes it encodes,
/// or `None` when it is not canonical unpadded URL-safe base64.
pub uninterp spec fn spec_b64url_decode(s: Seq<char>) -> Option<Seq<u8>>;

/// Encodes bytes as unpadded URL-safe base64 through
/// `base64::engine::general_purpose::URL_SAFE_NO_PAD.encode`. Claimed: the
/// standard encoding, and that decoding it with the same engine gives the
/// bytes back.
#[verifier::external_body]
pub(crate) fn b64url_encode(bytes: &[u8]) -> (r: String)
    ensures
        r@ == base64_spec(bytes@, true, false),
        spec_b64url_decode(r@) == Some(bytes@),
{
    base64::engine::general_purpose::URL_SAFE_NO_PAD.encode(bytes)
}

/// Decodes unpadded URL-safe base64 through
/// `base64::engine::general_purpose::URL_SAFE_NO_PAD.decode`. Claimed: the
/// result is `spec_b64url_decode` of the input, the error exactly when that
/// is `None`; and, as the engine refuses padding and non-zero trailing bits,
/// what it accepts is exactly the encoding of the bytes it returns.
#[verifier::external_body]
pub(crate) fn b64url_decode(s: &str) -> (r: Result<Vec<u8>, base64::DecodeError>)
    ensures
        match r {
            Ok(v) => spec_b64url_decode(s@) == Some(v@),
            Err(_) => spec_b64url_decode(s@) is None,
        },
        r matches Ok(v) ==> s@ == base64_spec(v@, true, false),
{
    base64::engine::general_purpose::URL_SAFE_NO_PAD.decode(s)
}

/// Encodes bytes as padded standard base64 through
/// `base64::engine::general_purpose::STANDARD.encode`. Claimed: the standard
/// encoding with `+/` and `=` padding.
#[verifier::external_body]
pub(crate) fn b64_standard_encode(bytes: &[u8]) -> (r: String)
    ensures
        r@ == base64_spec(bytes@, false, true),
{
    base64::engine::general_purpose::STANDARD.encode(bytes)
}

// ---------------------------------------------------------------------------
// Randomness, AES-GCM, UTF-8
// ---------------------------------------------------------------------------

/// Fills a buffer with random bytes from the operating system through
/// `rand::rngs::OsRng::fill_bytes`. Claimed: only that the length is kept;
/// the bytes are chance.
#[verifier::external_body]
pub(crate) fn fill_random(buf: &mut [u8])
    ensures
        final(buf)@.len() == old(buf)@.len(),
{
    rand::rngs::OsRng.fill_bytes(buf)
}

/// What `Aes256Gcm::encrypt` returns: ciphertext followed by the tag.
pub uninterp spec fn spec_aes256gcm_seal(key: Seq<u8>, nonce: Seq<u8>, plaintext: Seq<u8>) -> Seq<
    u8,
>;

/// What `Aes256Gcm::decrypt` returns: the plaintext when the tag checks out.
pub uninterp spec fn spec_aes256gcm_open(key: Seq<u8>, nonce: Seq<u8>, ciphertext: Seq<u8>) -> Option<
    Seq<u8>,
>;

/// Encrypts through `aes_gcm::Aes256Gcm::encrypt` (no associated data).
/// Claimed: it fails exactly for plaintexts over 2^36 bytes; otherwise the
/// result is `spec_aes256gcm_seal`, 16 bytes longer than the plaintext, and
/// decrypting it with the same key and nonce gives the plaintext back.
#[verifier::external_body]
pub(crate) fn aes256gcm_encrypt(key: &AesKey, nonce: &[u8], plaintext: &[u8]) -> (r: Result<
    Vec<u8>,
    aes_gcm::aead::Error,
>)
    requires
        nonce@.len() == nonce_len(),
    ensures
        r is Ok <==> plaintext@.len() <= max_plaintext_len(),
        r matches Ok(c) ==> c@ == spec_aes256gcm_seal(key@, nonce@, plaintext@),
        r matches Ok(c) ==> c@.len() == plaintext@.len() + tag_len(),
        r matches Ok(c) ==> spec_aes256gcm_open(key@, nonce@, c@) == Some(plaintext@),
{
    let cipher = aes_gcm::Aes256Gcm::new(aes_gcm::Key::<aes_gcm::Aes256Gcm>::from_slice(key));
    cipher.encrypt(aes_gcm::Nonce::from_slice(nonce), plaintext)
}

/// Decrypts through `aes_gcm::Aes256Gcm::decrypt` (no associated data).
/// Claimed: the result is `spec_aes256gcm_open`, the error exactly when that
/// is `None`.
#[verifier::external_body]
pub(crate) fn aes256gcm_decrypt(key: &AesKey, nonce: &[u8], ciphertext: &[u8]) -> (r: Result<
    Vec<u8>,
    aes_gcm::aead::Error,
>)
    requires
        nonce@.len() == nonce_len(),
    ensures
        match r {
            Ok(p) => spec_aes256gcm_open(key@, nonce@, ciphertext@) == Some(p@),
            Err(_) => spec_aes256gcm_open(key@, nonce@, ciphertext@) is None,
        },
{
    let cipher = aes_gcm::Aes256Gcm::new(aes_gcm::Key::<aes_gcm::Aes256Gcm>::from_slice(key));
    cipher.decrypt(aes_gcm::Nonce::from_slice(nonce), ciphertext)
}

/// Reads bytes as UTF-8 through `String::from_utf8`. Claimed: it succeeds
/// exactly on valid UTF-8, with the decoded characters.
#[verifier::external_body]
pub(crate) fn string_from_utf8(bytes: Vec<u8>) -> (r: Result<String, std::string::FromUtf8Error>)
    ensures
        r is Ok <==> valid_utf8(bytes@),
        r matches Ok(s) ==> s@ == decode_utf8(bytes@),
{
    String::from_utf8(bytes)
}

// ---------------------------------------------------------------------------
// Tokens and keys
// ---------------------------------------------------------------------------

/// Number of random bytes behind a token of `length` characters:
/// `ceil(3 * length / 4)`, at least 16.
pub open spec fn token_bytes(length: int) -> int {
    let n = (3 * length + 3) / 4;
    if n < 16 {
        16
    } else {
        n
    }
}

/// A random URL-safe token: unpadded base64 of `token_bytes(length)` random
/// bytes from the operating system.
pub fn generate_token(length: usize) -> (r: String)
    requires
        3 * length <= usize::MAX,
    ensures
        exists|b: Seq<u8>| b.len() == token_bytes(length as int) && r@ == base64_spec(b, true, false),
        r@.len() > 0,
{
    let tripled = length * 3;
    let mut needed: usize = tripled / 4;
    if tripled % 4 != 0 {
        needed = needed + 1;
    }
    if needed < 16 {
        needed = 16;
    }
    assert(needed == token_bytes(length as int));
    let mut buf: Vec<u8> = vec![0u8; needed];
    fill_random(buf.as_mut_slice());
    let r = b64url_encode(buf.as_slice());
    proof {
        lemma_base64_unpadded_len(buf@, true);
    }
    r
}

/// The key an arbitrary byte string folds into: byte `i` is XORed into key
/// byte `i % 32`, starting from all zeros.
pub open spec fn xor_fold(bytes: Seq<u8>) -> Seq<u8>
    decreases bytes.len(),
{
    if bytes.len() == 0 {
        Seq::new(32, |i: int| 0u8)
    } else {
        let k = xor_fold(bytes.drop_last());
        let j = (bytes.len() - 1) % 32;
        k.update(j, k[j] ^ bytes.last())
    }
}

proof fn lemma_xor_fold_len(bytes: Seq<u8>)
    ensures
        xor_fold(bytes).len() == 32,
    decreases bytes.len(),
{
    if bytes.len() > 0 {
        lemma_xor_fold_len(bytes.drop_last());
    }
}

/// Why a key could not be made or a token could not be encrypted or read.
#[derive(Debug)]
pub enum CryptoError {
    /// The secret is shorter than 32 bytes.
    KeyTooShort,
    /// AES-GCM refused the plaintext.
    Encryption(aes_gcm::aead::Error),
    /// The payload is not unpadded URL-safe base64.
    InvalidPayload(base64::DecodeError),
    /// The payload holds no ciphertext after the nonce.
    PayloadTooShort,
    /// The tag did not verify: wrong key or tampered payload.
    Decryption(aes_gcm::aead::Error),
    /// The plaintext is not UTF-8.
    InvalidUtf8(std::string::FromUtf8Error),
}

/// Derives a stable 32-byte AES key from a configured secret; secrets
/// shorter than 32 bytes are rejected.
pub fn derive_key_from_secret(secret: &str) -> (r: Result<AesKey, CryptoError>)
    ensures
        encode_utf8(secret@).len() < 32 ==> r is Err,
        r is Err ==> r matches Err(CryptoError::KeyTooShort),
        encode_utf8(secret@).len() >= 32 ==> (r matches Ok(k) && k@ == xor_fold(encode_utf8(secret@))),
{
    let bytes = secret.as_bytes();
    if bytes.len() < 32 {
        return Err(CryptoError::KeyTooShort);
    }
    let mut key: [u8; 32] = [0u8; 32];
    let mut i: usize = 0;
    proof {
        assert(bytes@.take(0) =~= Seq::<u8>::empty());
        assert(key@ =~= xor_fold(Seq::<u8>::empty()));
    }
    while i < bytes.len()
        invariant
            i <= bytes@.len(),
            key@ == xor_fold(bytes@.take(i as int)),
        decreases bytes@.len() - i,
    {
        proof {
            lemma_xor_fold_len(bytes@.take(i as int));
            assert(bytes@.take(i + 1).drop_last() =~= bytes@.take(i as int));
        }
        let j = i % 32;
        let b = bytes[i];
        key[j] = key[j] ^ b;
        i = i + 1;
    }
    proof {
        assert(bytes@.take(bytes@.len() as int) =~= bytes@);
    }
    Ok(key)
}

/// Every character takes at least one byte in UTF-8.
pub proof fn lemma_utf8_len_at_least_chars(s: Seq<char>)
    ensures
        encode_utf8(s).len() >= s.len(),
    decreases s.len(),
{
    if s.len() > 0 {
        lemma_utf8_len_at_least_chars(s.drop_first());
    }
}

/// What decrypting an encoded payload gives.
pub enum Decrypted {
    Plain(Seq<char>),
    InvalidPayload,
    TooShort,
    Failed,
    InvalidUtf8,
}

/// The meaning of an encrypted payload: unpadded URL-safe base64 of a
/// 12-byte nonce followed by the AES-GCM ciphertext of UTF-8 text.
pub open spec fn decrypt_spec(key: Seq<u8>, encoded: Seq<char>) -> Decrypted {
    match spec_b64url_decode(encoded) {
        None => Decrypted::InvalidPayload,
        Some(data) => if data.len() <= nonce_len() {
            Decrypted::TooShort
        } else {
            match spec_aes256gcm_open(key, data.take(nonce_len()), data.skip(nonce_len())) {
                None => Decrypted::Failed,
                Some(p) => if valid_utf8(p) {
                    Decrypted::Plain(decode_utf8(p))
                } else {
                    Decrypted::InvalidUtf8
                },
            }
        },
    }
}

/// Encrypts text with AES-256-GCM under a fresh random nonce. The result is
/// `base64url(nonce || ciphertext)` and decrypts back to the text.
pub fn encrypt(key: &AesKey, plaintext: &str) -> (r: Result<String, CryptoError>)
    ensures
        r is Ok <==> encode_utf8(plaintext@).len() <= max_plaintext_len(),
        r is Err ==> r matches Err(CryptoError::Encryption(_)),
        r matches Ok(s) ==> exists|nonce: Seq<u8>|
            #![trigger spec_aes256gcm_seal(key@, nonce, encode_utf8(plaintext@))]
            nonce.len() == nonce_len() && s@ == base64_spec(
                nonce + spec_aes256gcm_seal(key@, nonce, encode_utf8(plaintext@)),
                true,
                false,
            ),
        r matches Ok(s) ==> decrypt_spec(key@, s@) == Decrypted::Plain(plaintext@),
        r matches Ok(s) ==> s@ != plaintext@,
{
    let mut nonce: Vec<u8> = vec![0u8; 12];
    fill_random(nonce.as_mut_slice());
    let pt = plaintext.as_bytes();
    let ct = match aes256gcm_encrypt(key, nonce.as_slice(), pt) {
        Ok(c) => c,
        Err(e) => return Err(CryptoError::Encryption(e)),
    };
    let mut out: Vec<u8> = Vec::new();
    let mut i: usize = 0;
    while i < 12
        invariant
            i <= 12,
            nonce@.len() == 12,
            out@ =~= nonce@.take(i as int),
        decreases 12 - i,
    {
        out.push(nonce[i]);
        i = i + 1;
    }
    let mut j: usize = 0;
    while j < ct.len()
        invariant
            j <= ct@.len(),
            nonce@.len() == 12,
            out@ =~= nonce@ + ct@.take(j as int),
        decreases ct@.len() - j,
    {
        out.push(ct[j]);
        j = j + 1;
    }
    proof {
        assert(ct@.take(ct@.len() as int) =~= ct@);
        assert(out@.take(12) =~= nonce@);
        assert(out@.skip(12) =~= ct@);
    }
    let s = b64url_encode(out.as_slice());
    proof {
        lemma_base64_unpadded_len(out@, true);
        lemma_utf8_len_at_least_chars(plaintext@);
    }
    Ok(s)
}

/// Decrypts a payload produced by `encrypt`.
pub fn decrypt(key: &AesKey, encoded: &str) -> (r: Result<String, CryptoError>)
    ensures
        match (r, decrypt_spec(key@, encoded@)) {
            (Ok(s), Decrypted::Plain(p)) => s@ == p,
            (Err(CryptoError::InvalidPayload(_)), Decrypted::InvalidPayload) => true,
            (Err(CryptoError::PayloadTooShort), Decrypted::TooShort) => true,
            (Err(CryptoError::Decryption(_)), Decrypted::Failed) => true,
            (Err(CryptoError::InvalidUtf8(_)), Decrypted::InvalidUtf8) => true,
            _ => false,
        },
{
    let data = match b64url_decode(encoded) {
        Ok(d) => d,
        Err(e) => return Err(CryptoError::InvalidPayload(e)),
    };
    if data.len() <= 12 {
        return Err(CryptoError::PayloadTooShort);
    }
    let mut nonce: Vec<u8> = Vec::new();
    let mut ct: Vec<u8> = Vec::new();
    let mut i: usize = 0;
    while i < data.len()
        invariant
            i <= data@.len(),
            data@.len() > 12,
            i <= 12 ==> nonce@ =~= data@.take(i as int) && ct@.len() == 0,
            i > 12 ==> nonce@ =~= data@.take(12) && ct@ =~= data@.subrange(12, i as int),
        decreases data@.len() - i,
    {
        if i < 12 {
            nonce.push(data[i]);
        } else {
            ct.push(data[i]);
        }
        i = i + 1;
    }
    assert(ct@ =~= data@.skip(12));
    let plain = match aes256gcm_decrypt(key, nonce.as_slice(), ct.as_slice()) {
        Ok(p) => p,
        Err(e) => return Err(CryptoError::Decryption(e)),
    };
    match string_from_utf8(plain) {
        Ok(s) => Ok(s),
        Err(e) => Err(CryptoError::InvalidUtf8(e)),
    }
}

} // verus!

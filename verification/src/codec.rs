//! Calls into the encoding and hashing crates, each with the contract that
//! the rest of the library relies on.
use vstd::prelude::*;
use vstd::string::*;
use vstd::utf8::encode_utf8;
use vstd::arithmetic::power2::pow2;

use aes_gcm::aead::{Aead, KeyInit};
use hmac::Mac;
use rand::TryRng;
use sha2::Digest;

verus! {

// ---------------------------------------------------------------------
// Hexadecimal
// ---------------------------------------------------------------------

/// Why a hexadecimal string was refused.
#[derive(Debug, Clone, Copy, PartialEq, Eq, Structural)]
pub enum HexError {
    /// An odd number of digits.
    OddLength,
    /// A length that does not match the expected number of bytes.
    InvalidStringLength,
    /// A character that is not a hexadecimal digit, and where it stands.
    InvalidHexCharacter { c: char, index: usize },
}

/// `b` is one of `0-9`, `a-f`, `A-F`.
pub open spec fn is_hex_digit(b: u8) -> bool {
    (0x30 <= b <= 0x39) || (0x41 <= b <= 0x46) || (0x61 <= b <= 0x66)
}

/// The value of a hexadecimal digit.
pub open spec fn hex_value(b: u8) -> nat {
    if b <= 0x39 {
        (b - 0x30) as nat
    } else if b <= 0x46 {
        (b - 0x41 + 10) as nat
    } else {
        (b - 0x61 + 10) as nat
    }
}

/// `i` is the first position of `data` that holds no hexadecimal digit.
pub open spec fn first_non_hex(data: Seq<u8>, i: int) -> bool {
    0 <= i < data.len() && !is_hex_digit(data[i]) && forall|j: int|
        0 <= j < i ==> is_hex_digit(#[trigger] data[j])
}

/// Decoding `data` as exactly `n` bytes written as pairs of hexadecimal
/// digits, high digit first.
pub open spec fn hex_decode_spec(data: Seq<u8>, n: nat) -> Result<Seq<u8>, HexError> {
    if data.len() % 2 != 0 {
        Err(HexError::OddLength)
    } else if data.len() / 2 != n {
        Err(HexError::InvalidStringLength)
    } else if exists|i: int| first_non_hex(data, i) {
        let i = choose|i: int| first_non_hex(data, i);
        Err(HexError::InvalidHexCharacter { c: data[i] as char, index: i as usize })
    } else {
        Ok(
            Seq::new(
                n,
                |i: int| (hex_value(data[2 * i]) * 16 + hex_value(data[2 * i + 1])) as u8,
            ),
        )
    }
}

/// `hex::decode_to_slice` into a buffer of `n` bytes: it refuses an odd
/// number of digits, then a length other than `2 * n`, then reports the
/// first character (in order) that is not a hexadecimal digit; otherwise it
/// decodes each pair of digits into one byte, high digit first.
#[verifier::external_body]
pub(crate) fn hex_decode_exact(data: &[u8], n: usize) -> (r: Result<Vec<u8>, HexError>)
    ensures
        match r {
            Ok(v) => hex_decode_spec(data@, n as nat) == Ok::<Seq<u8>, HexError>(v@),
            Err(e) => hex_decode_spec(data@, n as nat) == Err::<Seq<u8>, HexError>(e),
        },
{
    let mut out = vec![0u8; n];
    match hex::decode_to_slice(data, &mut out) {
        Ok(()) => Ok(out),
        Err(hex::FromHexError::OddLength) => Err(HexError::OddLength),
        Err(hex::FromHexError::InvalidStringLength) => Err(HexError::InvalidStringLength),
        Err(hex::FromHexError::InvalidHexCharacter { c, index }) => Err(
            HexError::InvalidHexCharacter { c, index },
        ),
    }
}

/// The text `hex::FromHexError::InvalidHexCharacter { c, index }` is
/// displayed with: `Invalid character`, the character in its debug form,
/// `at position` and the position.
pub uninterp spec fn hex_char_error_text_spec(c: char, index: usize) -> Seq<char>;

/// The text a hexadecimal error is displayed with.
pub open spec fn hex_error_text_spec(e: HexError) -> Seq<char> {
    match e {
        HexError::OddLength => "Odd number of digits"@,
        HexError::InvalidStringLength => "Invalid string length"@,
        HexError::InvalidHexCharacter { c, index } => hex_char_error_text_spec(c, index),
    }
}

/// `hex::FromHexError`'s `Display`, on the error converted one for one.
#[verifier::external_body]
pub(crate) fn hex_error_text(e: HexError) -> (t: String)
    ensures
        match e {
            HexError::OddLength => t@ == "Odd number of digits"@,
            HexError::InvalidStringLength => t@ == "Invalid string length"@,
            HexError::InvalidHexCharacter { c, index } => t@ == hex_char_error_text_spec(c, index),
        },
{
    let e = match e {
        HexError::OddLength => hex::FromHexError::OddLength,
        HexError::InvalidStringLength => hex::FromHexError::InvalidStringLength,
        HexError::InvalidHexCharacter { c, index } => hex::FromHexError::InvalidHexCharacter { c, index },
    };
    e.to_string()
}

/// The lower-case hexadecimal digit of value `d` (below sixteen).
pub open spec fn lower_hex_digit(d: nat) -> char {
    if d < 10 {
        ((d + 0x30) as u8) as char
    } else {
        ((d - 10 + 0x61) as u8) as char
    }
}

/// The upper-case hexadecimal digit of value `d` (below sixteen).
pub open spec fn upper_hex_digit(d: nat) -> char {
    if d < 10 {
        ((d + 0x30) as u8) as char
    } else {
        ((d - 10 + 0x41) as u8) as char
    }
}

/// Each byte written as two lower-case hexadecimal digits, high digit
/// first.
pub open spec fn hex_lower_spec(data: Seq<u8>) -> Seq<char> {
    Seq::new(
        2 * data.len(),
        |i: int|
            if i % 2 == 0 {
                lower_hex_digit((data[i / 2] / 16) as nat)
            } else {
                lower_hex_digit((data[i / 2] % 16) as nat)
            },
    )
}

/// `hex::encode`: each byte as two lower-case hexadecimal digits.
#[verifier::external_body]
pub(crate) fn hex_encode(data: &[u8]) -> (s: String)
    ensures
        s@ == hex_lower_spec(data@),
{
    hex::encode(data)
}

/// A lower-case hexadecimal digit is a hexadecimal digit, is ASCII, and
/// reads back as its value.
proof fn lemma_lower_hex_digit(d: nat)
    requires
        d < 16,
    ensures
        lower_hex_digit(d) <= '\u{7f}',
        is_hex_digit(lower_hex_digit(d) as u8),
        hex_value(lower_hex_digit(d) as u8) == d,
{
}

/// Hexadecimal text written by [`hex_encode`] is ASCII: its bytes are
/// its characters.
proof fn lemma_hex_lower_ascii(data: Seq<u8>)
    ensures
        vstd::utf8::is_ascii_chars(hex_lower_spec(data)),
        encode_utf8(hex_lower_spec(data)).len() == 2 * data.len(),
        forall|i: int|
            0 <= i < 2 * data.len() ==> #[trigger] encode_utf8(hex_lower_spec(data))[i]
                == hex_lower_spec(data)[i] as u8,
{
    let h = hex_lower_spec(data);
    assert forall|i: int| 0 <= i < h.len() implies '\0' <= #[trigger] h[i] <= '\u{7f}' by {
        lemma_lower_hex_digit((data[i / 2] / 16) as nat);
        lemma_lower_hex_digit((data[i / 2] % 16) as nat);
    }
    vstd::utf8::is_ascii_chars_encode_utf8(h);
}

/// Reading back what [`hex_encode`] wrote, as the bytes of the text, gives
/// the encoded bytes.
pub proof fn lemma_hex_roundtrip(data: Seq<u8>)
    ensures
        hex_decode_spec(encode_utf8(hex_lower_spec(data)), data.len()) == Ok::<Seq<u8>, HexError>(
            data,
        ),
{
    let h = hex_lower_spec(data);
    let b = encode_utf8(h);
    lemma_hex_lower_ascii(data);
    assert(b.len() % 2 == 0 && b.len() / 2 == data.len());
    assert forall|i: int| 0 <= i < b.len() implies is_hex_digit(#[trigger] b[i]) by {
        lemma_lower_hex_digit((data[i / 2] / 16) as nat);
        lemma_lower_hex_digit((data[i / 2] % 16) as nat);
    }
    assert(!exists|i: int| first_non_hex(b, i));
    let decoded = Seq::new(
        data.len(),
        |i: int| (hex_value(b[2 * i]) * 16 + hex_value(b[2 * i + 1])) as u8,
    );
    assert forall|i: int| 0 <= i < data.len() implies #[trigger] decoded[i] == data[i] by {
        lemma_lower_hex_digit((data[i] / 16) as nat);
        lemma_lower_hex_digit((data[i] % 16) as nat);
        assert((2 * i) / 2 == i);
        assert((2 * i + 1) / 2 == i);
        assert((2 * i) % 2 == 0);
        assert((2 * i + 1) % 2 == 1);
        assert(b[2 * i] == h[2 * i] as u8);
        assert(b[2 * i + 1] == h[2 * i + 1] as u8);
    }
    assert(decoded =~= data);
}

// ---------------------------------------------------------------------
// Hashes and message authentication
// ---------------------------------------------------------------------

/// The HMAC-SHA256 tag of `msg` under `key` (32 bytes).
pub uninterp spec fn hmac_sha256_spec(key: Seq<u8>, msg: Seq<u8>) -> Seq<u8>;

/// `hmac::Hmac::<Sha256>` keyed with `key` (any key length is accepted),
/// fed `msg`, then `verify_slice(tag)`: true exactly when `tag` is the
/// tag of `msg` under `key`; a tag of another length than 32 bytes never
/// verifies.
#[verifier::external_body]
pub(crate) fn hmac_sha256_verify(key: &[u8], msg: &[u8], tag: &[u8]) -> (ok: bool)
    ensures
        ok == (tag@ == hmac_sha256_spec(key@, msg@)),
        ok ==> tag@.len() == 32,
{
    let mut mac = <hmac::Hmac<sha2::Sha256> as hmac::KeyInit>::new_from_slice(key).expect(
        "HMAC accepts keys of any length",
    );
    mac.update(msg);
    mac.verify_slice(tag).is_ok()
}

/// The SHA-256 digest of `data` (32 bytes).
pub uninterp spec fn sha256_spec(data: Seq<u8>) -> Seq<u8>;

/// `sha2::Sha256::digest`: the digest of `data`, 32 bytes long.
#[verifier::external_body]
pub(crate) fn sha256(data: &[u8]) -> (d: Vec<u8>)
    ensures
        d@ == sha256_spec(data@),
        d@.len() == 32,
{
    sha2::Sha256::digest(data).to_vec()
}

// ---------------------------------------------------------------------
// Percent-encoding
// ---------------------------------------------------------------------

/// A byte that percent-encoding leaves as it is: an ASCII letter or digit,
/// or one of `-`, `.`, `_`, `~`.
pub open spec fn is_url_safe(b: u8) -> bool {
    (0x30 <= b <= 0x39) || (0x41 <= b <= 0x5a) || (0x61 <= b <= 0x7a) || b == 0x2d || b == 0x2e
        || b == 0x5f || b == 0x7e
}

/// Percent-encoding of a byte string: safe bytes as they are, every other
/// byte as `%` and two upper-case hexadecimal digits.
pub open spec fn url_encode_bytes(bytes: Seq<u8>) -> Seq<char>
    decreases bytes.len(),
{
    if bytes.len() == 0 {
        seq![]
    } else {
        let b = bytes[0];
        let head = if is_url_safe(b) {
            seq![b as char]
        } else {
            seq!['%', upper_hex_digit((b / 16) as nat), upper_hex_digit((b % 16) as nat)]
        };
        head + url_encode_bytes(bytes.drop_first())
    }
}

/// Percent-encoding of the UTF-8 bytes of a string.
pub open spec fn url_encode_spec(s: Seq<char>) -> Seq<char> {
    url_encode_bytes(encode_utf8(s))
}

/// Bytes that are all safe are percent-encoded as themselves.
proof fn lemma_url_encode_safe_bytes(bytes: Seq<u8>)
    requires
        forall|i: int| 0 <= i < bytes.len() ==> is_url_safe(#[trigger] bytes[i]),
    ensures
        url_encode_bytes(bytes) == Seq::new(bytes.len(), |i: int| bytes[i] as char),
    decreases bytes.len(),
{
    if bytes.len() > 0 {
        let rest = bytes.drop_first();
        assert forall|i: int| 0 <= i < rest.len() implies is_url_safe(#[trigger] rest[i]) by {
            assert(rest[i] == bytes[i + 1]);
        }
        lemma_url_encode_safe_bytes(rest);
        assert(url_encode_bytes(bytes) =~= Seq::new(bytes.len(), |i: int| bytes[i] as char));
    }
}

/// The hyphenated form of an identifier is left as it is by
/// percent-encoding: it holds only hexadecimal digits and hyphens.
pub proof fn lemma_url_encode_uuid(x: u128)
    ensures
        url_encode_spec(uuid_hyphenated(x)) == uuid_hyphenated(x),
{
    let h = uuid_hyphenated(x);
    assert forall|i: int| 0 <= i < h.len() implies '\0' <= #[trigger] h[i] <= '\u{7f}' && is_url_safe(
        h[i] as u8,
    ) by {
        if !(i == 8 || i == 13 || i == 18 || i == 23) {
            lemma_lower_hex_digit(nibble(x, i - hyphens_before(i)));
        }
    }
    vstd::utf8::is_ascii_chars_encode_utf8(h);
    let b = encode_utf8(h);
    assert forall|i: int| 0 <= i < b.len() implies is_url_safe(#[trigger] b[i]) by {
        assert(b[i] == h[i] as u8);
    }
    lemma_url_encode_safe_bytes(b);
    assert(url_encode_bytes(b) =~= h);
}

/// `urlencoding::encode`: percent-encodes every UTF-8 byte of `s` except
/// ASCII letters, digits, `-`, `.`, `_` and `~`, with upper-case digits.
#[verifier::external_body]
pub(crate) fn url_encode(s: &str) -> (r: String)
    ensures
        r@ == url_encode_spec(s@),
{
    urlencoding::encode(s).into_owned()
}

// ---------------------------------------------------------------------
// Identifiers
// ---------------------------------------------------------------------

/// Hex digit `k` (0 to 31, most significant first) of a 128-bit value.
pub open spec fn nibble(x: u128, k: int) -> nat {
    ((x as nat / pow2((4 * (31 - k)) as nat)) % 16) as nat
}

/// The number of hyphens before position `i` of a hyphenated identifier.
pub open spec fn hyphens_before(i: int) -> int {
    (if i > 8 { 1int } else { 0int }) + (if i > 13 { 1int } else { 0int }) + (if i > 18 { 1int } else { 0int }) + (
    if i > 23 { 1int } else { 0int })
}

/// The hyphenated lower-case form of an identifier: 32 hexadecimal digits,
/// most significant first, in groups of 8, 4, 4, 4 and 12.
pub open spec fn uuid_hyphenated(x: u128) -> Seq<char> {
    Seq::new(
        36,
        |i: int|
            if i == 8 || i == 13 || i == 18 || i == 23 {
                '-'
            } else {
                lower_hex_digit(nibble(x, i - hyphens_before(i)))
            },
    )
}

/// `uuid::Uuid::from_u128(x).to_string()`: the hyphenated lower-case form.
#[verifier::external_body]
pub(crate) fn uuid_to_string(x: u128) -> (s: String)
    ensures
        s@ == uuid_hyphenated(x),
{
    uuid::Uuid::from_u128(x).to_string()
}

/// What `uuid::Uuid::parse_str` reads from a string, if it reads one.
pub uninterp spec fn uuid_parse_spec(s: Seq<char>) -> Option<u128>;

/// `uuid::Uuid::parse_str`: the identifier written in `s`, if `s` is one;
/// the hyphenated lower-case form of any identifier is read back as it.
#[verifier::external_body]
pub(crate) fn uuid_parse(s: &str) -> (r: Option<u128>)
    ensures
        r == uuid_parse_spec(s@),
        forall|x: u128| s@ == uuid_hyphenated(x) ==> r == Some(x),
{
    match uuid::Uuid::parse_str(s) {
        Ok(u) => Some(u.as_u128()),
        Err(_) => None,
    }
}

/// Whether `oauth2::url::Url::parse` accepts the string.
pub uninterp spec fn parses_as_url(s: Seq<char>) -> bool;

/// `oauth2::url::Url::parse(s).is_ok()`.
#[verifier::external_body]
pub(crate) fn url_parses(s: &str) -> (ok: bool)
    ensures
        ok == parses_as_url(s@),
{
    oauth2::url::Url::parse(s).is_ok()
}

// ---------------------------------------------------------------------
// Randomness and encryption
// ---------------------------------------------------------------------

/// The authorization address that `oauth2` builds: the parsed
/// authorization endpoint with the query pairs `response_type=code`,
/// `client_id`, `state` and `redirect_uri` appended, form-encoded.
pub uninterp spec fn oauth2_authorize_url_spec(
    auth_url: Seq<char>,
    client_id: Seq<char>,
    redirect_url: Seq<char>,
    state: Seq<char>,
) -> Seq<char>;

/// `oauth2::basic::BasicClient` with the client id, `AuthUrl::new` and
/// `RedirectUrl::new` set, then `authorize_url` with `state` and `url()`:
/// the authorization address, or nothing when one of the two endpoints
/// does not parse (both are parsed by `Url::parse`).
#[verifier::external_body]
pub(crate) fn oauth2_authorize_url(auth_url: &str, client_id: &str, redirect_url: &str, state: &str) -> (r:
    Option<String>)
    ensures
        r is Some <==> (parses_as_url(auth_url@) && parses_as_url(redirect_url@)),
        r matches Some(u) ==> u@ == oauth2_authorize_url_spec(
            auth_url@,
            client_id@,
            redirect_url@,
            state@,
        ),
{
    let auth = oauth2::AuthUrl::new(auth_url.to_string()).ok()?;
    let redirect = oauth2::RedirectUrl::new(redirect_url.to_string()).ok()?;
    let client = oauth2::basic::BasicClient::new(oauth2::ClientId::new(client_id.to_string()))
        .set_auth_uri(auth).set_redirect_uri(redirect);
    let (url, _) = client.authorize_url(|| oauth2::CsrfToken::new(state.to_string())).url();
    Some(url.to_string())
}

// ---------------------------------------------------------------------
// SSH keys
// ---------------------------------------------------------------------

/// The OpenSSH private key (LF line endings) and the OpenSSH public key of
/// the Ed25519 key pair expanded from a 32-byte seed, if both encode.
pub uninterp spec fn ed25519_openssh_spec(seed: Seq<u8>) -> Option<(Seq<char>, Seq<char>)>;

/// `ssh_key::private::Ed25519Keypair::from_seed` made a
/// `ssh_key::PrivateKey`, then `to_openssh(LineEnding::LF)` and
/// `public_key().to_openssh()`: the two forms of the key pair of `seed`,
/// nothing when either encoding fails.
#[verifier::external_body]
pub(crate) fn ed25519_openssh(seed: &[u8]) -> (r: Option<(String, String)>)
    requires
        seed@.len() == 32,
    ensures
        match r {
            Some((private, public)) => ed25519_openssh_spec(seed@) == Some((private@, public@)),
            None => ed25519_openssh_spec(seed@) is None,
        },
{
    let mut bytes = [0u8; 32];
    bytes.copy_from_slice(seed);
    let key = ssh_key::PrivateKey::from(ssh_key::private::Ed25519Keypair::from_seed(&bytes));
    let private = key.to_openssh(ssh_key::LineEnding::LF).ok()?;
    let public = key.public_key().to_openssh().ok()?;
    Some((private.to_string(), public))
}

// ---------------------------------------------------------------------
// Randomness
// ---------------------------------------------------------------------

/// `rand::rngs::SysRng::try_fill_bytes` on `n` bytes: `n` random bytes, or
/// nothing when the system generator fails. What the bytes are is left
/// unsaid: they come from the operating system.
#[verifier::external_body]
pub(crate) fn random_bytes(n: usize) -> (r: Option<Vec<u8>>)
    ensures
        r matches Some(v) ==> v@.len() == n,
{
    let mut buf = vec![0u8; n];
    match rand::rngs::SysRng.try_fill_bytes(&mut buf) {
        Ok(()) => Some(buf),
        Err(_) => None,
    }
}

/// The largest plaintext (in bytes) that AES-GCM encrypts.
pub open spec fn aes_gcm_max_plaintext() -> nat {
    68719476704
}

/// The AES-256-GCM ciphertext and tag of `pt` under `key` and `nonce`.
pub uninterp spec fn aes256gcm_seal_spec(key: Seq<u8>, nonce: Seq<u8>, pt: Seq<u8>) -> Seq<u8>;

/// What AES-256-GCM decryption of `ct` under `key` and `nonce` gives: the
/// plaintext, or nothing when the tag does not verify.
pub uninterp spec fn aes256gcm_open_spec(key: Seq<u8>, nonce: Seq<u8>, ct: Seq<u8>) -> Option<Seq<u8>>;

/// `aes_gcm::Aes256Gcm::encrypt` with no associated data: refuses a
/// plaintext longer than 2^36 - 32 bytes, and otherwise returns the
/// ciphertext followed by the 16-byte tag, which decryption under the same
/// key and nonce turns back into the plaintext (the AEAD round trip that
/// the crate documents).
#[verifier::external_body]
pub(crate) fn aes256gcm_encrypt(key: &[u8], nonce: &[u8], pt: &[u8]) -> (r: Option<Vec<u8>>)
    requires
        key@.len() == 32,
        nonce@.len() == 12,
    ensures
        pt@.len() <= aes_gcm_max_plaintext() <==> r is Some,
        r matches Some(c) ==> c@ == aes256gcm_seal_spec(key@, nonce@, pt@) && c@.len() == pt@.len()
            + 16,
        r matches Some(c) ==> aes256gcm_open_spec(key@, nonce@, c@) == Some(pt@),
{
    let cipher = aes_gcm::Aes256Gcm::new_from_slice(key).expect("a 32-byte key");
    let nonce = aes_gcm::Nonce::<aes_gcm::aead::consts::U12>::try_from(nonce).expect("a 12-byte nonce");
    cipher.encrypt(&nonce, pt).ok()
}

/// `aes_gcm::Aes256Gcm::decrypt` with no associated data: the plaintext
/// when the tag verifies, nothing otherwise.
#[verifier::external_body]
pub(crate) fn aes256gcm_decrypt(key: &[u8], nonce: &[u8], ct: &[u8]) -> (r: Option<Vec<u8>>)
    requires
        key@.len() == 32,
        nonce@.len() == 12,
    ensures
        match r {
            Some(p) => aes256gcm_open_spec(key@, nonce@, ct@) == Some(p@),
            None => aes256gcm_open_spec(key@, nonce@, ct@) is None,
        },
{
    let cipher = aes_gcm::Aes256Gcm::new_from_slice(key).expect("a 32-byte key");
    let nonce = aes_gcm::Nonce::<aes_gcm::aead::consts::U12>::try_from(nonce).expect("a 12-byte nonce");
    cipher.decrypt(&nonce, ct).ok()
}

/// What `String::from_utf8` reads from a byte string, if it is UTF-8.
pub open spec fn utf8_decode_spec(bytes: Seq<u8>) -> Option<Seq<char>> {
    if vstd::utf8::valid_utf8(bytes) {
        Some(vstd::utf8::decode_utf8(bytes))
    } else {
        None
    }
}

/// `String::from_utf8`: the string whose UTF-8 encoding is `bytes`, when
/// `bytes` is valid UTF-8.
#[verifier::external_body]
pub(crate) fn string_from_utf8(bytes: Vec<u8>) -> (r: Option<String>)
    ensures
        match r {
            Some(s) => utf8_decode_spec(bytes@) == Some(s@),
            None => utf8_decode_spec(bytes@) is None,
        },
{
    String::from_utf8(bytes).ok()
}

} // verus!

//! Trusted bindings to the outside cryptography and codec crates.
//!
//! Each executable function here is an `external_body` wrapper around one
//! outside call; its contract states what that call's source and
//! documentation promise, over uninterpreted names for results (a digest, a
//! MAC, a base64 text) whose full definition would be an algorithm of its
//! own. Everything that uses these wrappers is verified against these
//! contracts.

use vstd::prelude::*;

use ring::rand::SecureRandom;

verus! {

/// The bytes that URL-safe base64 decoding yields for a text, `None` where
/// the text is not valid padded base64 of the URL-safe alphabet.
pub uninterp spec fn b64url_dec(s: Seq<char>) -> Option<Seq<u8>>;

/// The padded URL-safe base64 text of a byte string.
pub uninterp spec fn b64url_enc(b: Seq<u8>) -> Seq<char>;

/// The bytes that standard-alphabet base64 decoding yields for a text,
/// `None` where the text is not valid padded base64 of that alphabet.
pub uninterp spec fn b64_dec(s: Seq<char>) -> Option<Seq<u8>>;

/// The text is short enough for the decoders: its UTF-8 byte length stays
/// below the outside crate's own decode length assertion. Stated over the
/// same cast that `str::len` is specified with, so the executable length
/// check decides it.
pub open spec fn b64_len_ok(s: Seq<char>) -> bool {
    vstd::utf8::encode_utf8(s).len() as usize <= usize::MAX / 8
}

/// The SHA-256 digest of a byte string.
pub uninterp spec fn sha256_of(b: Seq<u8>) -> Seq<u8>;

/// The HMAC-SHA256 tag of a byte string under a key.
pub uninterp spec fn hmac_sha256_of(key: Seq<u8>, data: Seq<u8>) -> Seq<u8>;

/// The name/value pairs that URL-encoded form parsing yields for a body.
pub uninterp spec fn form_fields_of(b: Seq<u8>) -> Seq<(Seq<char>, Seq<char>)>;

/// Relies on `data_encoding::BASE64URL.encode` (RFC 4648 section 5,
/// padded): the text is ASCII of the documented `encode_len` length,
/// depends on the input bytes alone, and the crate documents that decoding
/// restores them. The bound keeps the input below the crate's own encode
/// length assertion.
#[verifier::external_body]
pub(crate) fn b64url_encode(b: &Vec<u8>) -> (r: String)
    requires
        b@.len() <= usize::MAX / 512,
    ensures
        r@ == b64url_enc(b@),
        b64url_dec(r@) == Some(b@),
        r@.len() == ((b@.len() + 2) / 3) * 4,
        vstd::utf8::is_ascii_chars(r@),
{
    data_encoding::BASE64URL.encode(b.as_slice())
}

/// Relies on `data_encoding::BASE64URL.decode`: it returns bytes exactly
/// on texts in the padded URL-safe alphabet, as a function of the text
/// alone. The bound keeps the input below the crate's own decode length
/// assertion.
#[verifier::external_body]
pub(crate) fn b64url_decode(s: &str) -> (r: Option<Vec<u8>>)
    requires
        b64_len_ok(s@),
    ensures
        r matches Some(v) ==> b64url_dec(s@) == Some(v@),
        r is None ==> b64url_dec(s@) is None,
{
    data_encoding::BASE64URL.decode(s.as_bytes()).ok()
}

/// Relies on `data_encoding::BASE64.decode`: it returns bytes exactly on
/// texts in the padded standard alphabet, as a function of the text alone.
/// The bound keeps the input below the crate's own decode length
/// assertion.
#[verifier::external_body]
pub(crate) fn b64_decode(s: &str) -> (r: Option<Vec<u8>>)
    requires
        b64_len_ok(s@),
    ensures
        r matches Some(v) ==> b64_dec(s@) == Some(v@),
        r is None ==> b64_dec(s@) is None,
{
    data_encoding::BASE64.decode(s.as_bytes()).ok()
}

/// Relies on `ring::digest::digest` with `SHA256`: a 32-byte digest that is
/// a function of the data alone.
#[verifier::external_body]
pub(crate) fn sha256(data: &Vec<u8>) -> (r: Vec<u8>)
    requires
        data@.len() < 0x1000000000000000,
    ensures
        r@ == sha256_of(data@),
        r@.len() == 32,
{
    ring::digest::digest(&ring::digest::SHA256, data.as_slice()).as_ref().to_vec()
}

/// Relies on `ring::hmac::sign` with `HMAC_SHA256`: a 32-byte tag that is a
/// function of the key and the data alone.
#[verifier::external_body]
pub(crate) fn hmac_sign(key: &[u8], data: &Vec<u8>) -> (r: Vec<u8>)
    requires
        data@.len() < 0x1000000000000000,
    ensures
        r@ == hmac_sha256_of(key@, data@),
        r@.len() == 32,
{
    let k = ring::hmac::Key::new(ring::hmac::HMAC_SHA256, key);
    ring::hmac::sign(&k, data.as_slice()).as_ref().to_vec()
}

/// Relies on `ring::hmac::verify` with `HMAC_SHA256`: it recomputes the tag
/// over the data and compares in constant time, succeeding exactly when the
/// presented tag is the HMAC of the data under the key.
#[verifier::external_body]
pub(crate) fn hmac_verify(key: &[u8], data: &Vec<u8>, tag: &Vec<u8>) -> (r: bool)
    requires
        data@.len() < 0x1000000000000000,
    ensures
        r == (tag@ == hmac_sha256_of(key@, data@)),
{
    let k = ring::hmac::Key::new(ring::hmac::HMAC_SHA256, key);
    ring::hmac::verify(&k, data.as_slice(), tag.as_slice()).is_ok()
}

/// Relies on `ring::constant_time::verify_slices_are_equal`: it succeeds
/// exactly when the two byte strings are equal, comparing through
/// `CRYPTO_memcmp` rather than with an early-exit byte loop. The function
/// is deprecated upstream; only the stated functional behaviour is relied
/// on here.
#[verifier::external_body]
pub(crate) fn ct_eq(a: &Vec<u8>, b: &Vec<u8>) -> (r: bool)
    ensures
        r == (a@ == b@),
{
    ring::constant_time::verify_slices_are_equal(a.as_slice(), b.as_slice()).is_ok()
}

/// Relies on `ring::rand::SystemRandom::fill`: on success the buffer holds
/// 32 bytes from the system's secure random source; `None` reports that the
/// source is unavailable. Nothing is assumed about the bytes themselves.
#[verifier::external_body]
pub(crate) fn random_32() -> (r: Option<Vec<u8>>)
    ensures
        r matches Some(v) ==> v@.len() == 32,
{
    let mut buf = vec![0u8; 32];
    let rng = ring::rand::SystemRandom::new();
    match rng.fill(&mut buf) {
        Ok(()) => Some(buf),
        Err(_) => None,
    }
}

/// Relies on `std::time::SystemTime::now`: seconds since the Unix epoch by
/// the system clock. Nothing is assumed about the value. A clock reading
/// before the epoch is unusable and aborts the process: treating it as some
/// early instant would let every expired token verify again.
#[verifier::external_body]
pub fn now() -> (r: u64) {
    std::time::SystemTime::now().duration_since(std::time::UNIX_EPOCH).expect(
        "Invalid system time",
    ).as_secs()
}

/// Relies on `url::form_urlencoded::parse`: the decoded name/value pairs are
/// a function of the body bytes alone, in body order.
#[verifier::external_body]
pub(crate) fn parse_form(body: &Vec<u8>) -> (r: Vec<(String, String)>)
    ensures
        r@.len() == form_fields_of(body@).len(),
        forall|i: int|
            0 <= i < r@.len() ==> (#[trigger] r@[i]).0@ == form_fields_of(body@)[i].0 && r@[i].1@
                == form_fields_of(body@)[i].1,
{
    url::form_urlencoded::parse(body.as_slice()).into_owned().collect()
}

} // verus!

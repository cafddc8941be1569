//! The session token: a fixed-layout signed credential.
//!
//! A token is 32 random bytes, an 8-byte big-endian expiry timestamp and a
//! 32-byte HMAC-SHA256 tag over the first two fields, 72 bytes in all,
//! carried as base64 text. Creation signs, verification recomputes the tag
//! and checks expiry; encoding and decoding are proved to round-trip.

use vstd::prelude::*;

use crate::crypto::{
    b64_len_ok, b64url_dec, b64url_decode, b64url_enc, b64url_encode, hmac_sha256_of, hmac_sign,
    hmac_verify, now, random_32,
};
use crate::wire::{
    append_bytes, decode_u64_be, encode_u64_be, lemma_u64_be_round_trip, sub_bytes, u64_be_bytes,
    u64_from_be_bytes,
};

verus! {

/// Why a token text failed to parse, or a token could not be minted.
#[derive(Clone, Copy, Debug, PartialEq, Eq, Structural)]
pub enum TokenError {
    /// The text is not valid base64 for the chosen alphabet.
    InvalidEncoding,
    /// The decoded bytes are not exactly the serialized token size.
    InvalidSize,
    /// The system's secure random source failed; no token can be minted.
    RandomSourceUnavailable,
}

/// A self-contained signed credential: nonce, expiry and MAC.
#[derive(Clone, Debug, PartialEq)]
pub struct Token {
    /// 32 bytes of secure randomness.
    pub random: Vec<u8>,
    /// Absolute Unix timestamp in seconds after which the token is expired.
    pub validity: u64,
    /// HMAC-SHA256 over `random` followed by the big-endian expiry bytes.
    pub signature: Vec<u8>,
}

impl Token {
    /// The two fixed-size byte fields have their exact widths.
    pub open spec fn wf(self) -> bool {
        self.random@.len() == 32 && self.signature@.len() == 32
    }

    /// The bytes covered by the signature: nonce, then big-endian expiry.
    pub open spec fn signed_data(self) -> Seq<u8> {
        self.random@ + u64_be_bytes(self.validity)
    }

    /// The serialized form: signed data followed by the signature.
    pub open spec fn token_bytes(self) -> Seq<u8> {
        self.random@ + u64_be_bytes(self.validity) + self.signature@
    }

    /// The signature is the HMAC of the signed data under `secret`.
    pub open spec fn authentic(self, secret: Seq<u8>) -> bool {
        self.signature@ == hmac_sha256_of(secret, self.signed_data())
    }

    /// Authentic under `secret` and not yet expired at time `at`.
    pub open spec fn valid_at(self, secret: Seq<u8>, at: u64) -> bool {
        self.authentic(secret) && self.validity > at
    }
}

/// The expiry of a token minted at `start` with a window of `hours`,
/// saturating at the largest representable timestamp.
pub open spec fn expiry_at(start: u64, hours: u64) -> u64 {
    if start + hours * 3600 > u64::MAX {
        u64::MAX
    } else {
        (start + hours * 3600) as u64
    }
}

/// Concatenates the nonce and the big-endian expiry bytes for signing.
pub fn prepare_data(random: &Vec<u8>, validity_be: &Vec<u8>) -> (r: Vec<u8>)
    requires
        random@.len() == 32,
        validity_be@.len() == 8,
    ensures
        r@ == random@ + validity_be@,
{
    let mut r: Vec<u8> = Vec::new();
    append_bytes(&mut r, random);
    append_bytes(&mut r, validity_be);
    proof {
        assert(r@ =~= random@ + validity_be@);
    }
    r
}

impl Token {
    /// Assembles and signs a token from its nonce and expiry timestamp.
    pub fn issue(random: Vec<u8>, validity: u64, secret: &[u8]) -> (t: Token)
        requires
            random@.len() == 32,
        ensures
            t.wf(),
            t.random@ == random@,
            t.validity == validity,
            t.authentic(secret@),
    {
        let vb = encode_u64_be(validity);
        let data = prepare_data(&random, &vb);
        let signature = hmac_sign(secret, &data);
        Token { random, validity, signature }
    }

    /// Mints a fresh token whose expiry lies `token_validity_hours` hours
    /// from the present, signed under `secret`. Fails exactly when the
    /// secure random source is unavailable.
    pub fn new(token_validity_hours: u64, secret: &[u8]) -> (r: Result<Token, TokenError>)
        ensures
            r matches Ok(t) ==> t.wf() && t.authentic(secret@) && (exists|start: u64|
                t.validity == expiry_at(start, token_validity_hours)),
            r matches Err(e) ==> e == TokenError::RandomSourceUnavailable,
    {
        match random_32() {
            None => Err(TokenError::RandomSourceUnavailable),
            Some(random) => {
                let start = now();
                let validity = compute_expiry(start, token_validity_hours);
                let t = Token::issue(random, validity, secret);
                proof {
                    assert(t.validity == expiry_at(start, token_validity_hours));
                }
                Ok(t)
            },
        }
    }

    /// Signature check followed by the expiry check against the time `at`.
    pub fn is_valid_at(&self, secret: &[u8], at: u64) -> (r: bool)
        requires
            self.wf(),
        ensures
            r == self.valid_at(secret@, at),
    {
        let vb = encode_u64_be(self.validity);
        let data = prepare_data(&self.random, &vb);
        if !hmac_verify(secret, &data, &self.signature) {
            return false;
        }
        self.validity > at
    }

    /// Verification against the present clock: true only for a token that
    /// is authentically signed under `secret`, and exactly the result of
    /// `valid_at` for the moment the clock read.
    pub fn is_valid(&self, secret: &[u8]) -> (r: bool)
        requires
            self.wf(),
        ensures
            r ==> self.authentic(secret@),
            exists|at: u64| r == self.valid_at(secret@, at),
    {
        let at = now();
        let r = self.is_valid_at(secret, at);
        proof {
            assert(r == self.valid_at(secret@, at));
        }
        r
    }

    /// The expiry timestamp.
    pub fn validity(&self) -> (r: u64)
        ensures
            r == self.validity,
    {
        self.validity
    }

    /// Serializes the token and encodes it as URL- and cookie-safe base64
    /// text: 96 characters for the 72 serialized bytes.
    pub fn encode(&self) -> (r: String)
        requires
            self.wf(),
        ensures
            r@ == b64url_enc(self.token_bytes()),
            b64url_dec(r@) == Some(self.token_bytes()),
            r@.len() == 96,
            b64_len_ok(r@),
    {
        let vb = encode_u64_be(self.validity);
        let mut data = prepare_data(&self.random, &vb);
        append_bytes(&mut data, &self.signature);
        proof {
            assert(data@ =~= self.token_bytes());
        }
        let r = b64url_encode(&data);
        proof {
            vstd::utf8::is_ascii_chars_encode_utf8(r@);
        }
        r
    }

    /// Decodes base64 text back into a token: `InvalidEncoding` exactly on
    /// text that is not URL-safe base64 (or is too long to decode at all),
    /// `InvalidSize` exactly on decoded bytes of the wrong length, and
    /// otherwise the three fields split back out.
    pub fn decode(s: &str) -> (r: Result<Token, TokenError>)
        ensures
            match r {
                Ok(t) => b64_len_ok(s@) && (b64url_dec(s@) matches Some(b) && b.len() == 72
                    && t.wf() && t.random@ == b.subrange(0, 32) && t.validity == u64_from_be_bytes(
                    b.subrange(32, 40),
                ) && t.signature@ == b.subrange(40, 72)),
                Err(e) => (e == TokenError::InvalidEncoding && (b64url_dec(s@) is None
                    || !b64_len_ok(s@))) || (e == TokenError::InvalidSize && b64_len_ok(s@) && (
                b64url_dec(s@) matches Some(b) && b.len() != 72)),
            },
    {
        if s.len() > usize::MAX / 8 {
            return Err(TokenError::InvalidEncoding);
        }
        match b64url_decode(s) {
            None => Err(TokenError::InvalidEncoding),
            Some(bytes) => {
                if bytes.len() != 72 {
                    return Err(TokenError::InvalidSize);
                }
                let random = sub_bytes(&bytes, 0, 32);
                let vb = sub_bytes(&bytes, 32, 40);
                let validity = decode_u64_be(&vb);
                let signature = sub_bytes(&bytes, 40, 72);
                Ok(Token { random, validity, signature })
            },
        }
    }
}

/// The saturating expiry computation, proved equal to `expiry_at`.
pub fn compute_expiry(start: u64, hours: u64) -> (r: u64)
    ensures
        r == expiry_at(start, hours),
{
    let secs: u64 = if hours > u64::MAX / 3600 {
        proof {
            lemma_hours_overflow(hours);
        }
        u64::MAX
    } else {
        proof {
            lemma_hours_fit(hours);
        }
        hours * 3600
    };
    if start > u64::MAX - secs {
        u64::MAX
    } else {
        start + secs
    }
}

/// A count of hours over the division bound overflows the second count.
proof fn lemma_hours_overflow(hours: u64)
    requires
        hours > u64::MAX / 3600,
    ensures
        hours * 3600 > u64::MAX,
{
    assert(hours * 3600 > u64::MAX) by (nonlinear_arith)
        requires
            hours > u64::MAX / 3600,
    ;
}

/// A count of hours within the division bound yields seconds that fit.
proof fn lemma_hours_fit(hours: u64)
    requires
        hours <= u64::MAX / 3600,
    ensures
        hours * 3600 <= u64::MAX,
{
    assert(hours * 3600 <= u64::MAX) by (nonlinear_arith)
        requires
            hours <= u64::MAX / 3600,
    ;
}

/// Splitting the serialized bytes of a well-formed token recovers its
/// fields: the byte layout is unambiguous.
pub proof fn lemma_token_bytes_split(t: Token)
    requires
        t.wf(),
    ensures
        t.token_bytes().len() == 72,
        t.token_bytes().subrange(0, 32) == t.random@,
        t.token_bytes().subrange(32, 40) == u64_be_bytes(t.validity),
        u64_from_be_bytes(t.token_bytes().subrange(32, 40)) == t.validity,
        t.token_bytes().subrange(40, 72) == t.signature@,
        t.token_bytes().subrange(0, 40) == t.signed_data(),
{
    assert(t.token_bytes().subrange(0, 32) =~= t.random@);
    assert(t.token_bytes().subrange(32, 40) =~= u64_be_bytes(t.validity));
    assert(t.token_bytes().subrange(40, 72) =~= t.signature@);
    assert(t.token_bytes().subrange(0, 40) =~= t.signed_data());
    lemma_u64_be_round_trip(t.validity);
}

/// Round trip: decoding an encoded well-formed token restores it field for
/// field.
pub fn encode_decode_round_trip(t: &Token) -> (r: Token)
    requires
        t.wf(),
    ensures
        r.wf(),
        r.random@ == t.random@,
        r.validity == t.validity,
        r.signature@ == t.signature@,
{
    proof {
        lemma_token_bytes_split(*t);
    }
    let s = t.encode();
    match Token::decode(s.as_str()) {
        Ok(t2) => t2,
        Err(_) => vstd::pervasive::unreached(),
    }
}

/// A fresh token is valid the moment it is minted, and expires no more
/// than its window of hours past that moment.
pub proof fn lemma_fresh_token_valid(t: Token, secret: Seq<u8>, start: u64, hours: u64)
    requires
        t.authentic(secret),
        t.validity == expiry_at(start, hours),
        1 <= hours,
        start < u64::MAX,
    ensures
        t.valid_at(secret, start),
        t.validity - start <= hours * 3600,
{
    assert(3600 <= hours * 3600) by (nonlinear_arith)
        requires
            1 <= hours,
    ;
}

/// Any change to the signature of an authentic token breaks authenticity,
/// so verification fails at every time.
pub proof fn lemma_signature_tamper(t: Token, t2: Token, secret: Seq<u8>, at: u64)
    requires
        t.authentic(secret),
        t2.random@ == t.random@,
        t2.validity == t.validity,
        t2.signature@ != t.signature@,
    ensures
        !t2.authentic(secret),
        !t2.valid_at(secret, at),
{
}

/// Any change to the nonce or expiry of an authentic token changes the
/// bytes the MAC covers, so verification fails whenever the MAC of the
/// changed bytes differs from the MAC of the original bytes — and their
/// equality would be an HMAC collision.
pub proof fn lemma_data_tamper(t: Token, t2: Token, secret: Seq<u8>, at: u64)
    requires
        t.authentic(secret),
        t2.signature@ == t.signature@,
        hmac_sha256_of(secret, t2.signed_data()) != hmac_sha256_of(secret, t.signed_data()),
    ensures
        !t2.authentic(secret),
        !t2.valid_at(secret, at),
{
}

/// A token authentic under one secret fails verification under another
/// whenever the two MACs of its data differ — and their equality would be
/// an HMAC collision.
pub proof fn lemma_wrong_key(t: Token, key_a: Seq<u8>, key_b: Seq<u8>, at: u64)
    requires
        t.authentic(key_a),
        hmac_sha256_of(key_b, t.signed_data()) != hmac_sha256_of(key_a, t.signed_data()),
    ensures
        !t.authentic(key_b),
        !t.valid_at(key_b, at),
{
}

/// A token whose expiry has passed fails verification even when its
/// signature is authentic.
pub proof fn lemma_expired_token_invalid(t: Token, secret: Seq<u8>, at: u64)
    requires
        t.validity <= at,
    ensures
        !t.valid_at(secret, at),
{
}

impl std::str::FromStr for Token {
    type Err = TokenError;

    fn from_str(s: &str) -> Result<Self, Self::Err> {
        Token::decode(s)
    }
}

} // verus!

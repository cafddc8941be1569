//! The request authenticator: the login path and the token-check path.
//!
//! Every inbound request is reduced to a plain descriptor (method, path,
//! buffered body, candidate token strings). A login request exchanges a
//! shared-secret commitment for a fresh token; every other request passes
//! through exactly when it presents a token that decodes and verifies.

use vstd::prelude::*;

use crate::crypto::{
    b64_dec, b64_decode, b64_len_ok, b64url_dec, ct_eq, form_fields_of, hmac_sha256_of, now,
    parse_form, sha256, sha256_of,
};
use crate::token::{expiry_at, lemma_token_bytes_split, Token, TokenError};
use crate::wire::{append_bytes, lemma_be_bytes_round_trip, u64_from_be_bytes};

verus! {

/// Index of the first occurrence of `sep` in `s`, or `s.len()` if none.
pub open spec fn first_sep(s: Seq<char>, sep: char) -> int
    decreases s.len(),
{
    if s.len() == 0 {
        0
    } else if s[0] == sep {
        0
    } else {
        1 + first_sep(s.drop_first(), sep)
    }
}

/// `first_sep` points at the first separator: everything before it differs
/// from `sep`, and it lands on `sep` unless no separator occurs at all.
proof fn lemma_first_sep(s: Seq<char>, sep: char)
    ensures
        0 <= first_sep(s, sep) <= s.len(),
        first_sep(s, sep) < s.len() ==> s[first_sep(s, sep)] == sep,
        forall|j: int| 0 <= j < first_sep(s, sep) ==> s[j] != sep,
    decreases s.len(),
{
    if s.len() == 0 {
    } else if s[0] == sep {
    } else {
        lemma_first_sep(s.drop_first(), sep);
        assert forall|j: int| 0 <= j < first_sep(s, sep) implies s[j] != sep by {
            if j > 0 {
                assert(s.drop_first()[j - 1] == s[j]);
            }
        }
    }
}

/// The separator index is determined by its two properties.
proof fn lemma_first_sep_unique(s: Seq<char>, sep: char, i: int)
    requires
        0 <= i <= s.len(),
        i < s.len() ==> s[i] == sep,
        forall|j: int| 0 <= j < i ==> s[j] != sep,
    ensures
        first_sep(s, sep) == i,
{
    lemma_first_sep(s, sep);
    let f = first_sep(s, sep);
    if f < i {
        assert(s[f] == sep);
        assert(s[f] != sep);
    }
    if i < f {
        assert(s[i] != sep);
    }
}

/// The segments of `s` between occurrences of `sep`, in order; empty
/// segments are kept, and a string without separators is one segment.
pub open spec fn split_on(s: Seq<char>, sep: char) -> Seq<Seq<char>>
    decreases s.len(),
{
    let i = first_sep(s, sep);
    if 0 <= i < s.len() {
        seq![s.take(i)] + split_on(s.skip(i + 1), sep)
    } else {
        seq![s]
    }
}

/// What one commitment segment decodes to: its standard-alphabet base64
/// bytes, or nothing when it is not base64 or too long to decode at all.
pub open spec fn decoded_segment(p: Seq<char>) -> Option<Seq<u8>> {
    if b64_len_ok(p) {
        b64_dec(p)
    } else {
        None
    }
}

/// The base64-decodable segments among `parts`, decoded, in order.
pub open spec fn decoded_parts(parts: Seq<Seq<char>>) -> Seq<Seq<u8>>
    decreases parts.len(),
{
    if parts.len() == 0 {
        Seq::empty()
    } else {
        let rest = decoded_parts(parts.drop_last());
        match decoded_segment(parts.last()) {
            Some(b) => rest.push(b),
            None => rest,
        }
    }
}

/// The shared-secret login commitment is acceptable: the presented text
/// splits on `|` into exactly two decodable base64 segments, a salt and a
/// hash, and the hash is SHA-256 of the shared-secret bytes followed by the
/// salt.
pub open spec fn commitment_ok(shared: Seq<char>, presented: Seq<char>) -> bool {
    let parts = decoded_parts(split_on(presented, '|'));
    &&& parts.len() == 2
    &&& sha256_of(vstd::utf8::encode_utf8(shared) + parts[0]) == parts[1]
}

/// The commitment check can be carried out without exceeding the digest
/// size bound: vacuous unless the salt and the shared secret are absurdly
/// large.
pub open spec fn commitment_checkable(shared: Seq<char>, presented: Seq<char>) -> bool {
    let parts = decoded_parts(split_on(presented, '|'));
    parts.len() == 2 ==> vstd::utf8::encode_utf8(shared).len() < 0x800000000000000 && parts[0].len()
        < 0x800000000000000
}

/// Splits `s` at every occurrence of `sep`.
fn split_char(s: &str, sep: char) -> (r: Vec<String>)
    ensures
        r.deep_view() == split_on(s@, sep),
    decreases s@.len(),
{
    let n = s.unicode_len();
    let mut i: usize = 0;
    while i < n && s.get_char(i) != sep
        invariant
            n == s@.len(),
            0 <= i <= n,
            forall|j: int| 0 <= j < i ==> s@[j] != sep,
        decreases n - i,
    {
        i = i + 1;
    }
    if i == n {
        proof {
            lemma_first_sep_unique(s@, sep, n as int);
        }
        let mut r: Vec<String> = Vec::new();
        r.push(s.to_owned());
        proof {
            assert(r.deep_view() =~= split_on(s@, sep));
        }
        r
    } else {
        proof {
            lemma_first_sep_unique(s@, sep, i as int);
        }
        let head = s.substring_char(0, i);
        let tail = s.substring_char(i + 1, n);
        let mut rest = split_char(tail, sep);
        let mut r: Vec<String> = Vec::new();
        r.push(head.to_owned());
        r.append(&mut rest);
        proof {
            assert(head@ == s@.take(i as int));
            assert(tail@ == s@.skip(i + 1));
            assert(r.deep_view() =~= split_on(s@, sep));
        }
        r
    }
}

/// Base64-decodes each segment, keeping the decodable ones in order.
fn decode_segments(parts: &Vec<String>) -> (r: Vec<Vec<u8>>)
    ensures
        r.deep_view() == decoded_parts(parts.deep_view()),
{
    let mut r: Vec<Vec<u8>> = Vec::new();
    let mut i: usize = 0;
    while i < parts.len()
        invariant
            0 <= i <= parts@.len(),
            r.deep_view() == decoded_parts(parts.deep_view().take(i as int)),
        decreases parts@.len() - i,
    {
        let ghost prefix = parts.deep_view().take(i as int);
        let ghost old_dv = r.deep_view();
        let segment = parts[i].as_str();
        if segment.len() <= usize::MAX / 8 {
            match b64_decode(segment) {
                Some(v) => {
                    let ghost vv = v@;
                    r.push(v);
                    proof {
                        assert(r.deep_view() =~~= old_dv.push(vv));
                    }
                },
                None => {},
            }
        }
        proof {
            assert(parts.deep_view().take(i + 1 as int).drop_last() =~= prefix);
            assert(parts.deep_view().take(i + 1 as int).last() == parts@[i as int]@);
        }
        i = i + 1;
    }
    proof {
        assert(parts.deep_view().take(parts@.len() as int) =~= parts.deep_view());
    }
    r
}

/// An inbound request, reduced to the plain values the authenticator reads:
/// whether the method is POST, the path, the buffered body, and the token
/// candidates extracted from the bearer header and the named cookie.
#[derive(Clone, Debug)]
pub struct RequestInfo {
    /// True exactly when the request method is POST.
    pub is_post: bool,
    /// The request path.
    pub path: String,
    /// The fully buffered request body.
    pub body: Vec<u8>,
    /// The token presented by a bearer `Authorization` header, if any.
    pub bearer_token: Option<String>,
    /// The token presented by the session cookie, if any.
    pub cookie_token: Option<String>,
}

/// What the authenticator decides for one request.
#[derive(Clone, Debug, PartialEq)]
pub enum AuthOutcome {
    /// The request proceeds downstream with its (unit) credentials.
    PassThrough,
    /// A login succeeded: the encoded fresh token to return and set as a
    /// cookie.
    LoginOk(String),
    /// The request is refused with the generic denial.
    Denied,
}

/// The request asks for the login path: POST to `/authenticate`.
pub open spec fn is_login(req: RequestInfo) -> bool {
    req.is_post && req.path@ == "/authenticate"@
}

/// The token string a non-login request presents: the bearer header wins,
/// the cookie is the fallback.
pub open spec fn presented_token(req: RequestInfo) -> Option<Seq<char>> {
    match req.bearer_token {
        Some(t) => Some(t@),
        None => match req.cookie_token {
            Some(c) => Some(c@),
            None => None,
        },
    }
}

/// The text decodes as URL-safe base64 to exactly 72 bytes whose trailing
/// 32 bytes are the HMAC of the leading 40 under `secret`.
pub open spec fn encoded_token_authentic(s: Seq<char>, secret: Seq<u8>) -> bool {
    &&& b64_len_ok(s)
    &&& match b64url_dec(s) {
        Some(b) => b.len() == 72 && b.subrange(40, 72) == hmac_sha256_of(
            secret,
            b.subrange(0, 40),
        ),
        None => false,
    }
}

/// Authentic and, read as a token, not yet expired at time `at`.
pub open spec fn encoded_token_valid_at(s: Seq<char>, secret: Seq<u8>, at: u64) -> bool {
    &&& encoded_token_authentic(s, secret)
    &&& (b64url_dec(s) matches Some(b) && u64_from_be_bytes(b.subrange(32, 40)) > at)
}

/// The expiry timestamp carried by an encoded token.
pub open spec fn encoded_token_expiry(s: Seq<char>) -> u64 {
    match b64url_dec(s) {
        Some(b) => u64_from_be_bytes(b.subrange(32, 40)),
        None => 0,
    }
}

/// The outcome owed to a non-login request presenting token text `s` when
/// the clock reads `at`: pass-through exactly on a valid token.
pub open spec fn token_outcome(s: Seq<char>, secret: Seq<u8>, at: u64) -> Result<
    AuthOutcome,
    TokenError,
> {
    if encoded_token_valid_at(s, secret, at) {
        Ok(AuthOutcome::PassThrough)
    } else {
        Ok(AuthOutcome::Denied)
    }
}

/// The value of the last field named `name`, if any: later fields override
/// earlier ones of the same name.
pub open spec fn form_value(fields: Seq<(Seq<char>, Seq<char>)>, name: Seq<char>) -> Option<
    Seq<char>,
>
    decreases fields.len(),
{
    if fields.len() == 0 {
        None
    } else if fields.last().0 == name {
        Some(fields.last().1)
    } else {
        form_value(fields.drop_last(), name)
    }
}

/// Looks up the last field named `name` among the decoded form fields.
fn form_lookup(fields: &Vec<(String, String)>, name: &String) -> (r: Option<String>)
    ensures
        match r {
            Some(v) => form_value(fields.deep_view(), name@) == Some(v@),
            None => form_value(fields.deep_view(), name@) is None,
        },
{
    let mut found: Option<String> = None;
    let mut i: usize = 0;
    while i < fields.len()
        invariant
            0 <= i <= fields@.len(),
            match found {
                Some(v) => form_value(fields.deep_view().take(i as int), name@) == Some(v@),
                None => form_value(fields.deep_view().take(i as int), name@) is None,
            },
        decreases fields@.len() - i,
    {
        let ghost prefix = fields.deep_view().take(i as int);
        let pair = &fields[i];
        if pair.0 == *name {
            found = Some(pair.1.clone());
        }
        proof {
            assert(fields.deep_view().take(i + 1 as int).drop_last() =~= prefix);
            assert(fields.deep_view().take(i + 1 as int).last() == (
                fields@[i as int].0@,
                fields@[i as int].1@,
            ));
        }
        i = i + 1;
    }
    proof {
        assert(fields.deep_view().take(fields@.len() as int) =~= fields.deep_view());
    }
    found
}

/// The authentication capability: `authenticate` maps one request to one
/// outcome, so alternative schemes can replace the shared-secret one
/// without touching request dispatch.
pub trait Authenticator {
    /// What a passed-through request carries downstream.
    type Credentials;

    /// Decides the outcome for one inbound request.
    fn authenticate(&self, req: &RequestInfo) -> Result<AuthOutcome, TokenError>;
}

/// The single-user scheme: a shared secret bootstraps a signed session
/// token, and the token gates every later request.
#[derive(Clone)]
pub struct SharedSecretAuthenticator {
    shared_secret: String,
    my_secret: Vec<u8>,
    token_validity_hours: u64,
}

impl SharedSecretAuthenticator {
    /// The shared login secret, as text.
    pub closed spec fn shared(&self) -> Seq<char> {
        self.shared_secret@
    }

    /// The server-held token signing secret.
    pub closed spec fn secret(&self) -> Seq<u8> {
        self.my_secret@
    }

    /// How many hours a fresh token stays valid.
    pub closed spec fn hours(&self) -> u64 {
        self.token_validity_hours
    }

    /// Bundles the configuration: login secret, signing secret, validity
    /// window.
    pub fn new(shared_secret: String, my_secret: Vec<u8>, token_validity_hours: u64) -> (r: Self)
        ensures
            r.shared() == shared_secret@,
            r.secret() == my_secret@,
            r.hours() == token_validity_hours,
    {
        SharedSecretAuthenticator { shared_secret, my_secret, token_validity_hours }
    }

    /// Checks a presented login commitment against the shared secret: true
    /// exactly when the commitment is acceptable, except that an absurdly
    /// oversized commitment is refused outright.
    pub fn auth_token_ok(&self, token: &str) -> (r: bool)
        ensures
            r ==> commitment_ok(self.shared(), token@),
            commitment_checkable(self.shared(), token@) ==> r == commitment_ok(
                self.shared(),
                token@,
            ),
    {
        let parts = split_char(token, '|');
        let decoded = decode_segments(&parts);
        let ghost spec_parts = decoded_parts(split_on(token@, '|'));
        proof {
            assert(decoded@.len() == spec_parts.len());
        }
        if decoded.len() == 2 {
            proof {
                assert(decoded@[0].deep_view() =~= decoded@[0]@);
                assert(decoded@[1].deep_view() =~= decoded@[1]@);
                assert(decoded@[0]@ == spec_parts[0]);
                assert(decoded@[1]@ == spec_parts[1]);
            }
            let mut msg = self.shared_secret.as_str().as_bytes_vec();
            if msg.len() as u64 >= 0x800000000000000u64 {
                return false;
            }
            let salt = &decoded[0];
            if salt.len() as u64 >= 0x800000000000000u64 {
                return false;
            }
            append_bytes(&mut msg, salt);
            let h = sha256(&msg);
            let r = ct_eq(&h, &decoded[1]);
            r
        } else {
            false
        }
    }

    /// Mints and encodes a fresh token under the configured signing secret
    /// and validity window. Fails exactly when the secure random source is
    /// unavailable.
    pub fn new_auth_token(&self) -> (r: Result<String, TokenError>)
        ensures
            r matches Ok(s) ==> encoded_token_authentic(s@, self.secret()) && s@.len() == 96,
            r matches Ok(s) ==> exists|start: u64|
                encoded_token_expiry(s@) == expiry_at(start, self.hours()),
            r matches Err(e) ==> e == TokenError::RandomSourceUnavailable,
    {
        match Token::new(self.token_validity_hours, self.my_secret.as_slice()) {
            Err(e) => Err(e),
            Ok(t) => {
                let s = t.encode();
                proof {
                    lemma_token_bytes_split(t);
                    let start = choose|start: u64|
                        t.validity == expiry_at(start, self.token_validity_hours);
                    assert(encoded_token_expiry(s@) == expiry_at(start, self.hours()));
                }
                Ok(s)
            },
        }
    }

    /// Decodes and verifies a presented token string against the signing
    /// secret at the time `at`.
    pub fn token_ok_at(&self, token: &str, at: u64) -> (r: bool)
        ensures
            r == encoded_token_valid_at(token@, self.secret(), at),
    {
        match Token::decode(token) {
            Err(_) => false,
            Ok(t) => {
                proof {
                    let b = b64url_dec(token@)->Some_0;
                    lemma_be_bytes_round_trip(b.subrange(32, 40));
                    assert(t.signed_data() =~= b.subrange(0, 40));
                }
                t.is_valid_at(self.my_secret.as_slice(), at)
            },
        }
    }

    /// Decodes and verifies a presented token string against the present
    /// clock: true only for an authentically signed token.
    pub fn token_ok(&self, token: &str) -> (r: bool)
        ensures
            r ==> encoded_token_authentic(token@, self.secret()),
            exists|at: u64| r == encoded_token_valid_at(token@, self.secret(), at),
    {
        let at = now();
        let r = self.token_ok_at(token, at);
        proof {
            assert(r == encoded_token_valid_at(token@, self.secret(), at));
        }
        r
    }

    /// Path A, the login exchange: grants a fresh token exactly when the
    /// body's `secret` field carries an acceptable commitment.
    fn check_login(&self, req: &RequestInfo) -> (r: Result<AuthOutcome, TokenError>)
        ensures
            ({
                let sec = form_value(form_fields_of(req.body@), "secret"@);
                &&& sec is None ==> r == Ok::<AuthOutcome, TokenError>(AuthOutcome::Denied)
                &&& (sec matches Some(s) && !commitment_ok(self.shared(), s)) ==> r == Ok::<
                    AuthOutcome,
                    TokenError,
                >(AuthOutcome::Denied)
                &&& (sec matches Some(s) && commitment_ok(self.shared(), s)
                    && commitment_checkable(self.shared(), s)) ==> ((r matches Ok(o) && o matches
                    AuthOutcome::LoginOk(tok) && encoded_token_authentic(tok@, self.secret())
                    && tok@.len() == 96) || r
                    == Err::<AuthOutcome, TokenError>(TokenError::RandomSourceUnavailable))
            }),
    {
        let fields = parse_form(&req.body);
        proof {
            assert(fields.deep_view() =~~= form_fields_of(req.body@));
        }
        let name: String = "secret".to_owned();
        match form_lookup(&fields, &name) {
            None => Ok(AuthOutcome::Denied),
            Some(s) => {
                if self.auth_token_ok(s.as_str()) {
                    match self.new_auth_token() {
                        Ok(tok) => Ok(AuthOutcome::LoginOk(tok)),
                        Err(e) => Err(e),
                    }
                } else {
                    Ok(AuthOutcome::Denied)
                }
            },
        }
    }

    /// Path B, the token check: passes the request through exactly when a
    /// presented token decodes and verifies at the moment the clock read.
    fn check_token_request(&self, req: &RequestInfo) -> (r: Result<AuthOutcome, TokenError>)
        ensures
            presented_token(*req) is None ==> r == Ok::<AuthOutcome, TokenError>(
                AuthOutcome::Denied,
            ),
            presented_token(*req) matches Some(s) ==> exists|at: u64|
                r == token_outcome(s, self.secret(), at),
            presented_token(*req) matches Some(s) ==> (r == Ok::<AuthOutcome, TokenError>(
                AuthOutcome::PassThrough,
            ) ==> encoded_token_authentic(s, self.secret())),
    {
        let candidate: Option<&String> = match &req.bearer_token {
            Some(t) => Some(t),
            None => match &req.cookie_token {
                Some(c) => Some(c),
                None => None,
            },
        };
        match candidate {
            None => {
                // no token was presented: the denial is owed, and the
                // clauses about a presented token hold vacuously
                proof {
                    assert(presented_token(*req) is None);
                    assert(presented_token(*req) matches Some(s) ==> exists|at: u64|
                        Ok::<AuthOutcome, TokenError>(AuthOutcome::Denied) == token_outcome(
                            s,
                            self.secret(),
                            at,
                        ));
                }
                Ok(AuthOutcome::Denied)
            },
            Some(t) => {
                let at = now();
                let ok = self.token_ok_at(t.as_str(), at);
                let res: Result<AuthOutcome, TokenError> = if ok {
                    Ok(AuthOutcome::PassThrough)
                } else {
                    Ok(AuthOutcome::Denied)
                };
                proof {
                    assert(presented_token(*req) == Some(t@));
                    assert(res == token_outcome(t@, self.secret(), at));
                }
                res
            },
        }
    }

    /// Gates one request. A login request (POST to the login path) is
    /// answered with a fresh token exactly when its body carries an
    /// acceptable `secret` commitment; any other request passes through
    /// exactly when it presents a token that decodes and verifies; all
    /// failures collapse into the same denial.
    #[verifier::rlimit(20)]
    pub fn authenticate(&self, req: &RequestInfo) -> (r: Result<AuthOutcome, TokenError>)
        ensures
            is_login(*req) ==> ({
                let sec = form_value(form_fields_of(req.body@), "secret"@);
                &&& sec is None ==> r == Ok::<AuthOutcome, TokenError>(AuthOutcome::Denied)
                &&& (sec matches Some(s) && !commitment_ok(self.shared(), s)) ==> r == Ok::<
                    AuthOutcome,
                    TokenError,
                >(AuthOutcome::Denied)
                &&& (sec matches Some(s) && commitment_ok(self.shared(), s)
                    && commitment_checkable(self.shared(), s)) ==> ((r matches Ok(o) && o matches
                    AuthOutcome::LoginOk(tok) && encoded_token_authentic(tok@, self.secret())
                    && tok@.len() == 96) || r
                    == Err::<AuthOutcome, TokenError>(TokenError::RandomSourceUnavailable))
            }),
            !is_login(*req) ==> (presented_token(*req) is None ==> r == Ok::<
                AuthOutcome,
                TokenError,
            >(AuthOutcome::Denied)),
            !is_login(*req) ==> (presented_token(*req) matches Some(s) ==> exists|at: u64|
                r == token_outcome(s, self.secret(), at)),
            !is_login(*req) ==> (presented_token(*req) matches Some(s) ==> (r == Ok::<
                AuthOutcome,
                TokenError,
            >(AuthOutcome::PassThrough) ==> encoded_token_authentic(s, self.secret()))),
    {
        let login_path: String = "/authenticate".to_owned();
        if req.is_post && req.path == login_path {
            self.check_login(req)
        } else {
            self.check_token_request(req)
        }
    }
}

impl Authenticator for SharedSecretAuthenticator {
    type Credentials = ();

    /// Mirrors the inherent `authenticate` contract, so a caller that goes
    /// through the trait keeps every guarantee.
    fn authenticate(&self, req: &RequestInfo) -> (r: Result<AuthOutcome, TokenError>)
        ensures
            is_login(*req) ==> ({
                let sec = form_value(form_fields_of(req.body@), "secret"@);
                &&& sec is None ==> r == Ok::<AuthOutcome, TokenError>(AuthOutcome::Denied)
                &&& (sec matches Some(s) && !commitment_ok(self.shared(), s)) ==> r == Ok::<
                    AuthOutcome,
                    TokenError,
                >(AuthOutcome::Denied)
                &&& (sec matches Some(s) && commitment_ok(self.shared(), s)
                    && commitment_checkable(self.shared(), s)) ==> ((r matches Ok(o) && o matches
                    AuthOutcome::LoginOk(tok) && encoded_token_authentic(tok@, self.secret())
                    && tok@.len() == 96) || r == Err::<AuthOutcome, TokenError>(
                    TokenError::RandomSourceUnavailable,
                ))
            }),
            !is_login(*req) ==> (presented_token(*req) is None ==> r == Ok::<
                AuthOutcome,
                TokenError,
            >(AuthOutcome::Denied)),
            !is_login(*req) ==> (presented_token(*req) matches Some(s) ==> exists|at: u64|
                r == token_outcome(s, self.secret(), at)),
            !is_login(*req) ==> (presented_token(*req) matches Some(s) ==> (r == Ok::<
                AuthOutcome,
                TokenError,
            >(AuthOutcome::PassThrough) ==> encoded_token_authentic(s, self.secret()))),
    {
        SharedSecretAuthenticator::authenticate(self, req)
    }
}

} // verus!

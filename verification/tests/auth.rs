use audioserve_auth::auth::{AuthOutcome, Authenticator, RequestInfo, SharedSecretAuthenticator};
use audioserve_auth::crypto::now;
use audioserve_auth::token::Token;
use data_encoding::BASE64;

const SIGNING: &[u8] = b"server signing secret";

fn authenticator() -> SharedSecretAuthenticator {
    SharedSecretAuthenticator::new("mypass".to_string(), SIGNING.to_vec(), 24)
}

fn commitment(shared: &str, salt: &[u8]) -> String {
    let mut message = shared.as_bytes().to_vec();
    message.extend_from_slice(salt);
    let hash = ring::digest::digest(&ring::digest::SHA256, &message);
    let mut out = BASE64.encode(salt);
    out.push('|');
    out.push_str(&BASE64.encode(hash.as_ref()));
    out
}

fn login_request(body: &str) -> RequestInfo {
    RequestInfo {
        is_post: true,
        path: "/authenticate".to_string(),
        body: body.as_bytes().to_vec(),
        bearer_token: None,
        cookie_token: None,
    }
}

fn form_body(value: &str) -> String {
    url::form_urlencoded::Serializer::new(String::new()).append_pair("secret", value).finish()
}

fn plain_request(token: Option<&str>, cookie: bool) -> RequestInfo {
    RequestInfo {
        is_post: false,
        path: "/collections".to_string(),
        body: Vec::new(),
        bearer_token: if cookie { None } else { token.map(|t| t.to_string()) },
        cookie_token: if cookie { token.map(|t| t.to_string()) } else { None },
    }
}

#[test]
fn login_with_good_commitment_yields_valid_token() {
    let auth = authenticator();
    let body = form_body(&commitment("mypass", b"some salt"));
    match auth.authenticate(&login_request(&body)).unwrap() {
        AuthOutcome::LoginOk(token) => {
            assert!(auth.token_ok(&token));
            let decoded = Token::decode(&token).unwrap();
            assert!(decoded.is_valid(SIGNING));
            assert!(decoded.validity() - now() <= 24 * 3600);
        }
        other => panic!("expected a token, got {:?}", other),
    }
}

#[test]
fn login_with_wrong_secret_is_denied() {
    let auth = authenticator();
    let body = form_body(&commitment("not my pass", b"some salt"));
    assert_eq!(auth.authenticate(&login_request(&body)).unwrap(), AuthOutcome::Denied);
}

#[test]
fn login_without_secret_field_is_denied() {
    let auth = authenticator();
    assert_eq!(auth.authenticate(&login_request("other=value")).unwrap(), AuthOutcome::Denied);
}

#[test]
fn login_with_malformed_commitment_is_denied() {
    let auth = authenticator();
    for bad in ["", "only one part", "a|b|c", "QQ==|QQ==|QQ=="] {
        let body = form_body(bad);
        assert_eq!(
            auth.authenticate(&login_request(&body)).unwrap(),
            AuthOutcome::Denied,
            "commitment {:?} was accepted",
            bad
        );
    }
}

#[test]
fn undecodable_extra_segment_is_ignored() {
    // segments that are not valid base64 are filtered out before the
    // two-segment rule applies
    let auth = authenticator();
    let presented = format!("{}|!!!", commitment("mypass", b"salty"));
    assert!(auth.auth_token_ok(&presented));
}

#[test]
fn last_secret_field_wins() {
    let auth = authenticator();
    let good = commitment("mypass", b"s");
    let body = url::form_urlencoded::Serializer::new(String::new())
        .append_pair("secret", "wrong")
        .append_pair("secret", &good)
        .finish();
    match auth.authenticate(&login_request(&body)).unwrap() {
        AuthOutcome::LoginOk(_) => {}
        other => panic!("expected a token, got {:?}", other),
    }
}

#[test]
fn cookie_from_login_passes_other_requests() {
    let auth = authenticator();
    let body = form_body(&commitment("mypass", b"zz"));
    let token = match auth.authenticate(&login_request(&body)).unwrap() {
        AuthOutcome::LoginOk(token) => token,
        other => panic!("expected a token, got {:?}", other),
    };
    let via_cookie = plain_request(Some(&token), true);
    assert_eq!(auth.authenticate(&via_cookie).unwrap(), AuthOutcome::PassThrough);
    let via_bearer = plain_request(Some(&token), false);
    assert_eq!(auth.authenticate(&via_bearer).unwrap(), AuthOutcome::PassThrough);
}

#[test]
fn login_needs_both_post_and_login_path() {
    let auth = authenticator();
    let token = Token::new(24, SIGNING).unwrap().encode();
    // POST elsewhere is an ordinary request: the token decides
    let post_elsewhere = RequestInfo {
        is_post: true,
        path: "/collections".to_string(),
        body: b"secret=anything".to_vec(),
        bearer_token: Some(token.clone()),
        cookie_token: None,
    };
    assert_eq!(auth.authenticate(&post_elsewhere).unwrap(), AuthOutcome::PassThrough);
    // GET on the login path is an ordinary request too
    let get_login_path = RequestInfo {
        is_post: false,
        path: "/authenticate".to_string(),
        body: Vec::new(),
        bearer_token: Some(token),
        cookie_token: None,
    };
    assert_eq!(auth.authenticate(&get_login_path).unwrap(), AuthOutcome::PassThrough);
}

#[test]
fn request_without_token_is_denied() {
    let auth = authenticator();
    assert_eq!(auth.authenticate(&plain_request(None, true)).unwrap(), AuthOutcome::Denied);
}

#[test]
fn request_with_garbage_token_is_denied() {
    let auth = authenticator();
    let req = plain_request(Some("not a token at all"), false);
    assert_eq!(auth.authenticate(&req).unwrap(), AuthOutcome::Denied);
}

#[test]
fn request_with_expired_token_is_denied() {
    let auth = authenticator();
    let expired = Token::issue(vec![5u8; 32], now() - 1, SIGNING).encode();
    let req = plain_request(Some(&expired), true);
    assert_eq!(auth.authenticate(&req).unwrap(), AuthOutcome::Denied);
}

#[test]
fn request_with_foreign_token_is_denied() {
    let auth = authenticator();
    let foreign = Token::new(24, b"someone else's key").unwrap().encode();
    let req = plain_request(Some(&foreign), false);
    assert_eq!(auth.authenticate(&req).unwrap(), AuthOutcome::Denied);
}

#[test]
fn bearer_token_wins_over_cookie() {
    let auth = authenticator();
    let good = Token::new(24, SIGNING).unwrap().encode();
    let req = RequestInfo {
        is_post: false,
        path: "/x".to_string(),
        body: Vec::new(),
        bearer_token: Some("garbage".to_string()),
        cookie_token: Some(good),
    };
    assert_eq!(auth.authenticate(&req).unwrap(), AuthOutcome::Denied);
}

#[test]
fn trait_object_dispatch_matches() {
    let auth = authenticator();
    let dyn_auth: &dyn Authenticator<Credentials = ()> = &auth;
    assert_eq!(
        dyn_auth.authenticate(&plain_request(None, true)).unwrap(),
        AuthOutcome::Denied
    );
}

#[test]
fn percent_encoded_body_is_decoded() {
    // the commitment travels percent-encoded; the parser must undo it
    let auth = authenticator();
    let good = commitment("mypass", b"\xffbinary\x00salt");
    let body = form_body(&good);
    assert!(body.contains('%'));
    match auth.authenticate(&login_request(&body)).unwrap() {
        AuthOutcome::LoginOk(_) => {}
        other => panic!("expected a token, got {:?}", other),
    }
}

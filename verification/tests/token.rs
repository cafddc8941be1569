use audioserve_auth::crypto::now;
use audioserve_auth::token::{compute_expiry, Token, TokenError};
use data_encoding::BASE64URL;

const SECRET: &[u8] = b"my big secret";

#[test]
fn test_token() {
    let token = Token::new(24, SECRET).unwrap();
    assert!(token.is_valid(b"my big secret"));
    let orig_token = token.clone();
    let serialized_token: String = token.encode();
    assert!(serialized_token.len() >= 72);
    let new_token: Token = serialized_token.parse().unwrap();
    assert_eq!(orig_token, new_token);
    assert!(new_token.is_valid(b"my big secret"));
    assert!(!new_token.is_valid(b"wrong secret"));
    assert!(new_token.validity() - now() <= 24 * 3600);
}

#[test]
fn issued_token_round_trips_exactly() {
    let random: Vec<u8> = (0u8..32).collect();
    let token = Token::issue(random.clone(), 0x0123_4567_89AB_CDEF, b"key");
    let text = token.encode();
    let back = Token::decode(&text).unwrap();
    assert_eq!(back.random, random);
    assert_eq!(back.validity(), 0x0123_4567_89AB_CDEF);
    assert_eq!(back.signature, token.signature);
    assert_eq!(back, token);
}

#[test]
fn serialized_token_is_72_bytes_before_text_encoding() {
    let token = Token::new(1, SECRET).unwrap();
    let bytes = BASE64URL.decode(token.encode().as_bytes()).unwrap();
    assert_eq!(bytes.len(), 72);
}

#[test]
fn expiry_bytes_are_big_endian() {
    let random = vec![0xAAu8; 32];
    let token = Token::issue(random, 0x0123_4567_89AB_CDEF, b"key");
    let bytes = BASE64URL.decode(token.encode().as_bytes()).unwrap();
    assert_eq!(&bytes[0..32], &[0xAAu8; 32]);
    assert_eq!(&bytes[32..40], &[0x01, 0x23, 0x45, 0x67, 0x89, 0xAB, 0xCD, 0xEF]);
    assert_eq!(&bytes[40..72], token.signature.as_slice());
}

#[test]
fn expiry_saturates_instead_of_wrapping() {
    assert_eq!(compute_expiry(100, 2), 7300);
    assert_eq!(compute_expiry(u64::MAX - 10, 1), u64::MAX);
    assert_eq!(compute_expiry(5, u64::MAX), u64::MAX);
    assert_eq!(compute_expiry(0, 0), 0);
}

#[test]
fn decode_rejects_non_base64() {
    assert_eq!(Token::decode("this is not base64!"), Err(TokenError::InvalidEncoding));
}

#[test]
fn token_text_is_url_and_cookie_safe() {
    let token = Token::issue(vec![0xFBu8; 32], u64::MAX, SECRET);
    let text = token.encode();
    assert_eq!(text.len(), 96);
    assert!(!text.contains('+'));
    assert!(!text.contains('/'));
    assert!(text.chars().all(|c| c.is_ascii_alphanumeric() || c == '-' || c == '_' || c == '='));
    // the same 72 bytes in the standard alphabet are not a valid token text
    let standard = data_encoding::BASE64.encode(&BASE64URL.decode(text.as_bytes()).unwrap());
    assert!(standard.contains('+'));
    assert_eq!(Token::decode(&standard), Err(TokenError::InvalidEncoding));
}

#[test]
fn decode_rejects_wrong_size() {
    let short = BASE64URL.encode(&[7u8; 10]);
    assert_eq!(Token::decode(&short), Err(TokenError::InvalidSize));
    let long = BASE64URL.encode(&[7u8; 100]);
    assert_eq!(Token::decode(&long), Err(TokenError::InvalidSize));
}

fn flip_bit(text: &str, byte_index: usize) -> String {
    let mut bytes = BASE64URL.decode(text.as_bytes()).unwrap();
    bytes[byte_index] ^= 1;
    BASE64URL.encode(&bytes)
}

#[test]
fn flipping_any_region_invalidates() {
    let token = Token::new(24, SECRET).unwrap();
    let text = token.encode();
    // one position in the random, validity and signature regions each,
    // plus the region boundaries
    for &i in &[0usize, 31, 32, 35, 39, 40, 55, 71] {
        let tampered = Token::decode(&flip_bit(&text, i)).unwrap();
        assert!(!tampered.is_valid(SECRET), "bit flip in byte {} went unnoticed", i);
    }
}

#[test]
fn wrong_key_is_rejected() {
    let random = vec![9u8; 32];
    let token = Token::issue(random, u64::MAX, b"secret a");
    assert!(token.is_valid(b"secret a"));
    assert!(!token.is_valid(b"secret b"));
}

#[test]
fn expired_token_is_rejected() {
    let random = vec![1u8; 32];
    let past = now() - 10;
    let token = Token::issue(random, past, SECRET);
    assert!(!token.is_valid(SECRET));
}

#[test]
fn validity_boundary_is_strict() {
    let token = Token::issue(vec![3u8; 32], 1000, SECRET);
    assert!(token.is_valid_at(SECRET, 999));
    assert!(!token.is_valid_at(SECRET, 1000));
    assert!(!token.is_valid_at(SECRET, 1001));
}

#[test]
fn fresh_tokens_differ() {
    let a = Token::new(24, SECRET).unwrap();
    let b = Token::new(24, SECRET).unwrap();
    assert_ne!(a.random, b.random);
    assert_ne!(a.encode(), b.encode());
}

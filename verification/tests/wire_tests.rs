use todo_api::error::ApiError;
use todo_api::gate::authorize_request;
use todo_api::identity::{Identity, RequestContext};
use todo_api::token::{issue, Claims, SigningKey, Token, TokenKind};
use todo_api::wire::{
    bearer_token, decode_token, digit, digit_value, encode_token, from_hex, parse_token, render_token,
    to_hex, TOKEN_LEN,
};

const TEXT: &str =
    "7766554433221100efcdab896745230100f153650000000084f4536500000000012a0000000000000000000000000000006b979c52d8c22721de52db72c1295cf5";

fn key() -> SigningKey {
    SigningKey { secret: b"top-secret-key".to_vec() }
}

fn access() -> Token {
    issue(&key(), Identity { id: 0x0123456789abcdef0011223344556677 }, TokenKind::Access, 1_700_000_000, 900, 42)
}

fn header_of(text: &str) -> Vec<u8> {
    let mut header = b"Bearer ".to_vec();
    header.extend_from_slice(text.as_bytes());
    header
}

#[test]
fn token_renders_as_lower_case_hex() {
    assert_eq!(render_token(&access()), TEXT.as_bytes().to_vec());
    assert_eq!(encode_token(&access()).len(), TOKEN_LEN);
    assert_eq!(TOKEN_LEN, 65);
}

#[test]
fn token_reads_back_from_its_text() {
    assert_eq!(parse_token(TEXT.as_bytes()), Some(access()));
    assert_eq!(decode_token(&encode_token(&access())), Some(access()));
    let refresh = Token {
        claims: Claims { sub: u128::MAX, iat: 0, exp: u64::MAX, kind: TokenKind::Refresh, serial: u128::MAX - 1 },
        signature: 1,
    };
    assert_eq!(parse_token(&render_token(&refresh)), Some(refresh));
}

#[test]
fn malformed_text_is_no_token() {
    assert_eq!(parse_token(b""), None);
    assert_eq!(parse_token(&TEXT.as_bytes()[..128]), None);
    assert_eq!(parse_token(&TEXT.as_bytes()[..129]), None);
    assert_eq!(parse_token(TEXT.to_uppercase().as_bytes()), None);
    let mut long = TEXT.as_bytes().to_vec();
    long.extend_from_slice(b"00");
    assert_eq!(parse_token(&long), None);
    let mut odd_kind = encode_token(&access());
    odd_kind[32] = 3;
    assert_eq!(decode_token(&odd_kind), None);
    odd_kind[32] = 0;
    assert_eq!(decode_token(&odd_kind), None);
    odd_kind[32] = 2;
    assert_eq!(decode_token(&odd_kind).map(|t| t.claims.kind), Some(TokenKind::Refresh));
}

#[test]
fn hex_is_two_digits_a_byte() {
    assert_eq!(to_hex(&[0x00, 0x0f, 0xa5, 0xff]), b"000fa5ff".to_vec());
    assert_eq!(to_hex(&[]), Vec::<u8>::new());
    assert_eq!(from_hex(b"000fa5ff"), Some(vec![0x00, 0x0f, 0xa5, 0xff]));
    assert_eq!(from_hex(b""), Some(vec![]));
    assert_eq!(from_hex(b"0"), None);
    assert_eq!(from_hex(b"0g"), None);
    assert_eq!(from_hex(b"g0"), None);
    assert_eq!(from_hex(b"0F"), None);
    assert_eq!(digit(0), b'0');
    assert_eq!(digit(9), b'9');
    assert_eq!(digit(10), b'a');
    assert_eq!(digit(15), b'f');
    assert_eq!(digit_value(b'7'), Some(7));
    assert_eq!(digit_value(b'c'), Some(12));
    assert_eq!(digit_value(b'/'), None);
    assert_eq!(digit_value(b':'), None);
    assert_eq!(digit_value(b'`'), None);
    assert_eq!(digit_value(b'g'), None);
}

#[test]
fn bearer_header_carries_the_token() {
    assert_eq!(bearer_token(&header_of(TEXT)), Some(access()));
    assert_eq!(bearer_token(TEXT.as_bytes()), None);
    assert_eq!(bearer_token(b"Bearer"), None);
    assert_eq!(bearer_token(b"Bearer "), None);
    assert_eq!(bearer_token(b""), None);
    let mut lower = header_of(TEXT);
    lower[0] = b'b';
    assert_eq!(bearer_token(&lower), None);
    let mut basic = b"Basic  ".to_vec();
    basic.extend_from_slice(TEXT.as_bytes());
    assert_eq!(bearer_token(&basic), None);
}

#[test]
fn request_is_authorized_by_its_header() {
    let header = header_of(TEXT);
    assert_eq!(
        authorize_request(Some(&header), &key(), 1_700_000_100),
        Ok(RequestContext { identity: Identity { id: 0x0123456789abcdef0011223344556677 } })
    );
    assert_eq!(authorize_request(None, &key(), 1_700_000_100), Err(ApiError::Unauthorized));
    assert_eq!(authorize_request(Some(b"Bearer zz"), &key(), 1_700_000_100), Err(ApiError::Unauthorized));
    assert_eq!(authorize_request(Some(&header), &key(), 1_700_000_905), Err(ApiError::Unauthorized));
    let mut forged = header.clone();
    let last = forged.len() - 1;
    forged[last] = b'4';
    assert_ne!(forged, header);
    assert_eq!(authorize_request(Some(&forged), &key(), 1_700_000_100), Err(ApiError::Unauthorized));
    let other = SigningKey { secret: b"another-key".to_vec() };
    assert_eq!(authorize_request(Some(&header), &other, 1_700_000_100), Err(ApiError::Unauthorized));
}

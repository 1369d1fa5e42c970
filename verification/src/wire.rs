use vstd::prelude::*;
use vstd::bytes::{
    lemma_auto_spec_u128_to_from_le_bytes, lemma_auto_spec_u64_to_from_le_bytes,
    spec_u128_from_le_bytes, spec_u128_to_le_bytes, spec_u64_from_le_bytes, spec_u64_to_le_bytes,
    u128_from_le_bytes, u128_to_le_bytes, u64_from_le_bytes,
};
use vstd::slice::slice_subrange;
use crate::token::{claims_bytes, kind_byte, signing_input, Claims, Token, TokenKind};

verus! {

/// Length in bytes of a token on the wire.
pub const TOKEN_LEN: usize = 65;

/// A token on the wire: the signed bytes of its claims, then its signature
/// in little-endian order.
pub open spec fn token_bytes(t: Token) -> Seq<u8> {
    claims_bytes(t.claims) + spec_u128_to_le_bytes(t.signature)
}

pub open spec fn kind_from(b: u8) -> Option<TokenKind> {
    if b == 1u8 {
        Some(TokenKind::Access)
    } else if b == 2u8 {
        Some(TokenKind::Refresh)
    } else {
        None
    }
}

/// The token that `bytes` spell, if they spell one.
pub open spec fn parsed(bytes: Seq<u8>) -> Option<Token> {
    if bytes.len() != TOKEN_LEN || kind_from(bytes[32]).is_none() {
        None
    } else {
        Some(
            Token {
                claims: Claims {
                    sub: spec_u128_from_le_bytes(bytes.subrange(0, 16)),
                    iat: spec_u64_from_le_bytes(bytes.subrange(16, 24)),
                    exp: spec_u64_from_le_bytes(bytes.subrange(24, 32)),
                    kind: kind_from(bytes[32]).unwrap(),
                    serial: spec_u128_from_le_bytes(bytes.subrange(33, 49)),
                },
                signature: spec_u128_from_le_bytes(bytes.subrange(49, 65)),
            },
        )
    }
}

pub fn encode_token(t: &Token) -> (out: Vec<u8>)
    ensures
        out@ == token_bytes(*t),
{
    let mut out = signing_input(&t.claims);
    let mut signature = u128_to_le_bytes(t.signature);
    out.append(&mut signature);
    out
}

pub fn decode_token(bytes: &[u8]) -> (r: Option<Token>)
    ensures
        r == parsed(bytes@),
{
    if bytes.len() != TOKEN_LEN {
        return None;
    }
    let kind = if bytes[32] == 1u8 {
        TokenKind::Access
    } else if bytes[32] == 2u8 {
        TokenKind::Refresh
    } else {
        return None;
    };
    let sub = u128_from_le_bytes(slice_subrange(bytes, 0, 16));
    let iat = u64_from_le_bytes(slice_subrange(bytes, 16, 24));
    let exp = u64_from_le_bytes(slice_subrange(bytes, 24, 32));
    let serial = u128_from_le_bytes(slice_subrange(bytes, 33, 49));
    let signature = u128_from_le_bytes(slice_subrange(bytes, 49, 65));
    Some(Token { claims: Claims { sub, iat, exp, kind, serial }, signature })
}

/// Decoding gives back the token that was encoded.
pub proof fn law_decode_inverts_encode(t: Token)
    ensures
        token_bytes(t).len() == TOKEN_LEN,
        parsed(token_bytes(t)) == Some(t),
{
    lemma_auto_spec_u64_to_from_le_bytes();
    lemma_auto_spec_u128_to_from_le_bytes();
    let b = token_bytes(t);
    let c = t.claims;
    assert(spec_u128_to_le_bytes(c.sub).len() == 16);
    assert(spec_u64_to_le_bytes(c.iat).len() == 8);
    assert(spec_u64_to_le_bytes(c.exp).len() == 8);
    assert(spec_u128_to_le_bytes(c.serial).len() == 16);
    assert(spec_u128_to_le_bytes(t.signature).len() == 16);
    assert(b.subrange(0, 16) =~= spec_u128_to_le_bytes(c.sub));
    assert(b.subrange(16, 24) =~= spec_u64_to_le_bytes(c.iat));
    assert(b.subrange(24, 32) =~= spec_u64_to_le_bytes(c.exp));
    assert(b.subrange(33, 49) =~= spec_u128_to_le_bytes(c.serial));
    assert(b.subrange(49, 65) =~= spec_u128_to_le_bytes(t.signature));
    assert(b[32] == kind_byte(c.kind));
}

/// No two sets of claims are signed over the same bytes.
pub proof fn law_signing_input_is_injective(a: Claims, b: Claims)
    requires
        claims_bytes(a) == claims_bytes(b),
    ensures
        a == b,
{
    law_decode_inverts_encode(Token { claims: a, signature: 0 });
    law_decode_inverts_encode(Token { claims: b, signature: 0 });
}

/// Only one string of bytes decodes to a given token: the one that encoding
/// gives.
pub proof fn law_encode_inverts_decode(bytes: Seq<u8>)
    requires
        parsed(bytes).is_some(),
    ensures
        token_bytes(parsed(bytes).unwrap()) == bytes,
{
    lemma_auto_spec_u64_to_from_le_bytes();
    lemma_auto_spec_u128_to_from_le_bytes();
    let t = parsed(bytes).unwrap();
    let c = t.claims;
    assert(bytes.subrange(0, 16).len() == 16);
    assert(bytes.subrange(16, 24).len() == 8);
    assert(bytes.subrange(24, 32).len() == 8);
    assert(bytes.subrange(33, 49).len() == 16);
    assert(bytes.subrange(49, 65).len() == 16);
    assert(spec_u128_to_le_bytes(c.sub) == bytes.subrange(0, 16));
    assert(spec_u64_to_le_bytes(c.iat) == bytes.subrange(16, 24));
    assert(spec_u64_to_le_bytes(c.exp) == bytes.subrange(24, 32));
    assert(spec_u128_to_le_bytes(c.serial) == bytes.subrange(33, 49));
    assert(spec_u128_to_le_bytes(t.signature) == bytes.subrange(49, 65));
    assert(kind_byte(c.kind) == bytes[32]);
    assert(token_bytes(t) =~= bytes);
}

/// The lower-case hexadecimal digit, in ASCII, of a value below sixteen.
pub open spec fn hex_digit(n: u8) -> u8 {
    if n < 10 {
        (48 + n) as u8
    } else {
        (87 + n) as u8
    }
}

/// The value of a lower-case hexadecimal digit.
pub open spec fn hex_value(c: u8) -> Option<u8> {
    if 48 <= c <= 57 {
        Some((c - 48) as u8)
    } else if 97 <= c <= 102 {
        Some((c - 87) as u8)
    } else {
        None
    }
}

/// Two digits for each byte, the high half first.
pub open spec fn hex_of(bytes: Seq<u8>) -> Seq<u8> {
    Seq::new(
        2 * bytes.len(),
        |i: int|
            if i % 2 == 0 {
                hex_digit(bytes[i / 2] / 16)
            } else {
                hex_digit(bytes[i / 2] % 16)
            },
    )
}

pub open spec fn is_hex(text: Seq<u8>) -> bool {
    text.len() % 2 == 0 && forall|i: int| 0 <= i < text.len() ==> hex_value(#[trigger] text[i]).is_some()
}

pub open spec fn unhex(text: Seq<u8>) -> Seq<u8> {
    Seq::new(
        text.len() / 2,
        |i: int| (hex_value(text[2 * i]).unwrap() * 16 + hex_value(text[2 * i + 1]).unwrap()) as u8,
    )
}

/// The text of a token: URL-safe, two characters for each byte on the wire.
pub open spec fn token_text(t: Token) -> Seq<u8> {
    hex_of(token_bytes(t))
}

/// The token that `text` spells, if it spells one.
pub open spec fn parsed_text(text: Seq<u8>) -> Option<Token> {
    if is_hex(text) {
        parsed(unhex(text))
    } else {
        None
    }
}

/// The seven bytes `Bearer ` that precede a token in an authorization header.
pub open spec fn bearer_prefix() -> Seq<u8> {
    seq![66u8, 101u8, 97u8, 114u8, 101u8, 114u8, 32u8]
}

/// The token that an authorization header carries, if it carries one.
pub open spec fn bearer_of(header: Seq<u8>) -> Option<Token> {
    if header.len() >= 7 && header.subrange(0, 7) == bearer_prefix() {
        parsed_text(header.subrange(7, header.len() as int))
    } else {
        None
    }
}

pub fn digit(n: u8) -> (c: u8)
    requires
        n < 16,
    ensures
        c == hex_digit(n),
{
    if n < 10 {
        48 + n
    } else {
        87 + n
    }
}

pub fn digit_value(c: u8) -> (v: Option<u8>)
    ensures
        v == hex_value(c),
        v.is_some() ==> v.unwrap() < 16,
{
    if 48 <= c && c <= 57 {
        Some(c - 48)
    } else if 97 <= c && c <= 102 {
        Some(c - 87)
    } else {
        None
    }
}

pub fn to_hex(bytes: &[u8]) -> (out: Vec<u8>)
    ensures
        out@ == hex_of(bytes@),
{
    let mut out: Vec<u8> = Vec::new();
    let mut i: usize = 0;
    while i < bytes.len()
        invariant
            i <= bytes.len(),
            out@.len() == 2 * i,
            forall|k: int| 0 <= k < 2 * i ==> out@[k] == hex_of(bytes@)[k],
        decreases bytes.len() - i,
    {
        let b: u8 = bytes[i];
        out.push(digit(b / 16));
        out.push(digit(b % 16));
        i = i + 1;
    }
    proof {
        assert(out@ =~= hex_of(bytes@));
    }
    out
}

pub fn from_hex(text: &[u8]) -> (r: Option<Vec<u8>>)
    ensures
        r.is_some() == is_hex(text@),
        r.is_some() ==> r.unwrap()@ == unhex(text@),
{
    if text.len() % 2 != 0 {
        return None;
    }
    let n: usize = text.len() / 2;
    let mut out: Vec<u8> = Vec::new();
    let mut i: usize = 0;
    while i < n
        invariant
            i <= n,
            n == text.len() / 2,
            text.len() % 2 == 0,
            out@.len() == i,
            forall|k: int| 0 <= k < 2 * i ==> hex_value(#[trigger] text@[k]).is_some(),
            forall|k: int| 0 <= k < i ==> out@[k] == unhex(text@)[k],
        decreases n - i,
    {
        let high = digit_value(text[2 * i]);
        let low = digit_value(text[2 * i + 1]);
        match (high, low) {
            (Some(h), Some(l)) => {
                out.push(h * 16 + l);
            },
            _ => {
                proof {
                    assert(hex_value(text@[2 * i]).is_none() || hex_value(text@[2 * i + 1]).is_none());
                }
                return None;
            },
        }
        i = i + 1;
    }
    proof {
        assert(out@ =~= unhex(text@));
    }
    Some(out)
}

/// Writes a token as text.
pub fn render_token(t: &Token) -> (text: Vec<u8>)
    ensures
        text@ == token_text(*t),
{
    let bytes = encode_token(t);
    to_hex(bytes.as_slice())
}

/// Reads a token from text.
pub fn parse_token(text: &[u8]) -> (r: Option<Token>)
    ensures
        r == parsed_text(text@),
{
    match from_hex(text) {
        Some(bytes) => decode_token(bytes.as_slice()),
        None => None,
    }
}

/// Takes the token out of the value of an authorization header.
pub fn bearer_token(header: &[u8]) -> (r: Option<Token>)
    ensures
        r == bearer_of(header@),
{
    if header.len() < 7 {
        return None;
    }
    if header[0] != 66u8 || header[1] != 101u8 || header[2] != 97u8 || header[3] != 114u8 || header[4]
        != 101u8 || header[5] != 114u8 || header[6] != 32u8 {
        proof {
            let head = header@.subrange(0, 7);
            assert(head[0] == header@[0] && head[1] == header@[1] && head[2] == header@[2] && head[3]
                == header@[3] && head[4] == header@[4] && head[5] == header@[5] && head[6]
                == header@[6]);
        }
        return None;
    }
    proof {
        assert(header@.subrange(0, 7) =~= bearer_prefix());
    }
    parse_token(slice_subrange(header, 7, header.len()))
}

/// Hexadecimal text reads back as the bytes it was written from.
pub proof fn law_unhex_inverts_hex(bytes: Seq<u8>)
    ensures
        is_hex(hex_of(bytes)),
        unhex(hex_of(bytes)) == bytes,
{
    let text = hex_of(bytes);
    assert forall|i: int| 0 <= i < text.len() implies hex_value(#[trigger] text[i]).is_some() by {
        let b = bytes[i / 2];
        assert(b / 16 < 16 && b % 16 < 16);
    }
    assert forall|i: int| 0 <= i < bytes.len() implies unhex(text)[i] == bytes[i] by {
        let b = bytes[i];
        assert((2 * i) / 2 == i && (2 * i + 1) / 2 == i);
        assert((2 * i) % 2 == 0 && (2 * i + 1) % 2 == 1);
        assert(text[2 * i] == hex_digit(b / 16));
        assert(text[2 * i + 1] == hex_digit(b % 16));
        assert(hex_value(hex_digit(b / 16)) == Some((b / 16) as u8));
        assert(hex_value(hex_digit(b % 16)) == Some((b % 16) as u8));
    }
    assert(unhex(text) =~= bytes);
}

/// Bytes that were read from hexadecimal text write back as that text.
pub proof fn law_hex_inverts_unhex(text: Seq<u8>)
    requires
        is_hex(text),
    ensures
        hex_of(unhex(text)) == text,
{
    let bytes = unhex(text);
    assert forall|k: int| 0 <= k < text.len() implies hex_of(bytes)[k] == text[k] by {
        let i = k / 2;
        let h = hex_value(text[2 * i]).unwrap();
        let l = hex_value(text[2 * i + 1]).unwrap();
        assert(hex_value(text[2 * i]).is_some());
        assert(hex_value(text[2 * i + 1]).is_some());
        assert(h < 16 && l < 16);
        assert(bytes[i] == h * 16 + l);
        assert(bytes[i] / 16 == h && bytes[i] % 16 == l);
        assert(hex_digit(h) == text[2 * i]);
        assert(hex_digit(l) == text[2 * i + 1]);
    }
    assert(hex_of(bytes) =~= text);
}

/// A token reads back from its text, and from the header that carries it.
pub proof fn law_parse_inverts_render(t: Token)
    ensures
        parsed_text(token_text(t)) == Some(t),
        bearer_of(bearer_prefix() + token_text(t)) == Some(t),
{
    law_unhex_inverts_hex(token_bytes(t));
    law_decode_inverts_encode(t);
    let header = bearer_prefix() + token_text(t);
    assert(header.subrange(0, 7) =~= bearer_prefix());
    assert(header.subrange(7, header.len() as int) =~= token_text(t));
}

/// A text spells a token exactly if it is the text of that token: reading
/// accepts nothing but what writing produces.
pub proof fn law_text_spells_one_token(text: Seq<u8>, t: Token)
    ensures
        (parsed_text(text) == Some(t)) <==> token_text(t) == text,
{
    if token_text(t) == text {
        law_parse_inverts_render(t);
    }
    if parsed_text(text) == Some(t) {
        law_encode_inverts_decode(unhex(text));
        law_hex_inverts_unhex(text);
    }
}

} // verus!

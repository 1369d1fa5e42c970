use vstd::prelude::*;
use vstd::bytes::{
    spec_u128_from_le_bytes, spec_u128_to_le_bytes, spec_u64_to_le_bytes, u128_from_le_bytes,
    u128_to_le_bytes, u64_to_le_bytes,
};
use hmac::{Hmac, Mac};
use sha2::Sha256;
use crate::identity::Identity;

verus! {

/// Seconds by which a verifier's clock may run ahead of the issuer's.
pub const CLOCK_SKEW_SECS: u64 = 5;

/// Length in bytes of the part of a tag that a token carries.
pub const SIGNATURE_LEN: usize = 16;

#[derive(Clone, Copy, Debug, PartialEq, Eq, Structural)]
pub enum TokenKind {
    Access,
    Refresh,
}

/// The authenticated claims of a token. Instants are UTC epoch seconds.
/// `serial` is drawn anew for each issue, so that two tokens minted for one
/// identity in one second still differ.
#[derive(Clone, Copy, Debug, PartialEq, Eq, Structural)]
pub struct Claims {
    pub sub: u128,
    pub iat: u64,
    pub exp: u64,
    pub kind: TokenKind,
    pub serial: u128,
}

/// Claims together with the leading sixteen bytes of their tag.
#[derive(Clone, Copy, Debug, PartialEq, Eq, Structural)]
pub struct Token {
    pub claims: Claims,
    pub signature: u128,
}

#[derive(Clone, Copy, Debug, PartialEq, Eq, Structural)]
pub enum TokenError {
    InvalidSignature,
    Expired,
    WrongKind,
}

/// The process-wide secret, built once at start-up and handed to every
/// component that signs or verifies.
pub struct SigningKey {
    pub secret: Vec<u8>,
}

/// The HMAC-SHA-256 tag of `message` under `key`.
pub uninterp spec fn mac_tag(key: Seq<u8>, message: Seq<u8>) -> Seq<u8>;

/// Calls `Hmac::<Sha256>::new_from_slice`, `Mac::update` and `Mac::finalize`
/// of the `hmac` crate, with `Sha256` of the `sha2` crate. Trusted: the tag
/// is a function of key and message alone, and has the 32 bytes of a SHA-256
/// output. Nothing more is claimed of its bytes. The constructor accepts a
/// key of any length, so the second arm is never taken.
#[verifier::external_body]
pub(crate) fn hmac_sha256(key: &[u8], message: &[u8]) -> (tag: Vec<u8>)
    ensures
        tag@ == mac_tag(key@, message@),
        tag@.len() == 32,
{
    match Hmac::<Sha256>::new_from_slice(key) {
        Ok(mut mac) => {
            mac.update(message);
            mac.finalize().into_bytes().to_vec()
        },
        Err(_) => Vec::new(),
    }
}

pub open spec fn kind_byte(kind: TokenKind) -> u8 {
    match kind {
        TokenKind::Access => 1u8,
        TokenKind::Refresh => 2u8,
    }
}

/// The bytes that are signed: subject, issued-at and expiry in little-endian
/// order, one byte for the kind, then the serial in little-endian order.
pub open spec fn claims_bytes(c: Claims) -> Seq<u8> {
    spec_u128_to_le_bytes(c.sub) + spec_u64_to_le_bytes(c.iat) + spec_u64_to_le_bytes(c.exp)
        + seq![kind_byte(c.kind)] + spec_u128_to_le_bytes(c.serial)
}

/// The leading sixteen bytes of a tag as a little-endian integer.
pub open spec fn tag_prefix(tag: Seq<u8>) -> u128
    recommends
        tag.len() >= 16,
{
    spec_u128_from_le_bytes(tag.subrange(0, 16))
}

/// The signature that `key` gives to `c`.
pub open spec fn signature_of(key: Seq<u8>, c: Claims) -> u128 {
    tag_prefix(mac_tag(key, claims_bytes(c)))
}

/// The value under which a refresh token is filed in the session store: a
/// keyed hash of its signature.
pub open spec fn fingerprint_of(key: Seq<u8>, token: Token) -> u128 {
    tag_prefix(mac_tag(key, spec_u128_to_le_bytes(token.signature)))
}

/// The token that `key` mints for `identity` at `now`, good for `ttl` seconds,
/// under `serial`.
pub open spec fn minted(
    key: Seq<u8>,
    identity: Identity,
    kind: TokenKind,
    now: u64,
    ttl: u64,
    serial: u128,
) -> Token {
    let claims = Claims { sub: identity.id, iat: now, exp: (now + ttl) as u64, kind, serial };
    Token { claims, signature: signature_of(key, claims) }
}

/// Whether `token` carries the signature that `key` gives to its claims.
pub open spec fn genuine(key: Seq<u8>, token: Token) -> bool {
    token.signature == signature_of(key, token.claims)
}

/// What verification answers for claims whose signature did or did not
/// match, at instant `now`, when `expected` (if any) is the kind asked for.
/// Integrity is judged first, then expiry, then kind.
pub open spec fn verdict(
    c: Claims,
    signature_ok: bool,
    now: u64,
    expected: Option<TokenKind>,
) -> Result<Identity, TokenError> {
    if !signature_ok {
        Err(TokenError::InvalidSignature)
    } else if c.exp + CLOCK_SKEW_SECS <= now {
        Err(TokenError::Expired)
    } else if expected.is_some() && expected.unwrap() != c.kind {
        Err(TokenError::WrongKind)
    } else {
        Ok(Identity { id: c.sub })
    }
}

pub fn kind_code(kind: TokenKind) -> (b: u8)
    ensures
        b == kind_byte(kind),
{
    match kind {
        TokenKind::Access => 1u8,
        TokenKind::Refresh => 2u8,
    }
}

pub fn signing_input(c: &Claims) -> (out: Vec<u8>)
    ensures
        out@ == claims_bytes(*c),
{
    let mut out = u128_to_le_bytes(c.sub);
    let mut iat = u64_to_le_bytes(c.iat);
    let mut exp = u64_to_le_bytes(c.exp);
    out.append(&mut iat);
    out.append(&mut exp);
    out.push(kind_code(c.kind));
    let mut serial = u128_to_le_bytes(c.serial);
    out.append(&mut serial);
    proof {
        assert(out@ =~= claims_bytes(*c));
    }
    out
}

/// Folds the leading bytes of a tag into the integer that tokens carry.
pub fn leading_bytes(tag: &Vec<u8>) -> (p: u128)
    requires
        tag@.len() >= SIGNATURE_LEN,
    ensures
        p == tag_prefix(tag@),
{
    let mut head: Vec<u8> = Vec::new();
    let mut i: usize = 0;
    while i < SIGNATURE_LEN
        invariant
            i <= SIGNATURE_LEN <= tag.len(),
            head@ == tag@.subrange(0, i as int),
        decreases SIGNATURE_LEN - i,
    {
        head.push(tag[i]);
        proof {
            assert(head@ =~= tag@.subrange(0, i + 1));
        }
        i = i + 1;
    }
    u128_from_le_bytes(head.as_slice())
}

pub fn sign(key: &SigningKey, c: &Claims) -> (sig: u128)
    ensures
        sig == signature_of(key.secret@, *c),
{
    let message = signing_input(c);
    let tag = hmac_sha256(key.secret.as_slice(), message.as_slice());
    leading_bytes(&tag)
}

/// The value under which a refresh token is filed: never the token itself.
pub fn fingerprint(key: &SigningKey, token: &Token) -> (f: u128)
    ensures
        f == fingerprint_of(key.secret@, *token),
{
    let message = u128_to_le_bytes(token.signature);
    let tag = hmac_sha256(key.secret.as_slice(), message.as_slice());
    leading_bytes(&tag)
}

/// Mints a token of `kind` for `identity`, issued at `now` and good for `ttl`
/// seconds. `serial` is a value that the caller draws anew for each issue.
pub fn issue(key: &SigningKey, identity: Identity, kind: TokenKind, now: u64, ttl: u64, serial: u128) -> (t:
    Token)
    requires
        now + ttl <= u64::MAX,
    ensures
        t == minted(key.secret@, identity, kind, now, ttl, serial),
{
    let claims = Claims { sub: identity.id, iat: now, exp: now + ttl, kind, serial };
    let signature = sign(key, &claims);
    Token { claims, signature }
}

/// Judges a token against the signature that the key gives to its claims.
pub fn check_token(token: &Token, expected_signature: u128, now: u64, expected: Option<TokenKind>) -> (r:
    Result<Identity, TokenError>)
    ensures
        r == verdict(token.claims, token.signature == expected_signature, now, expected),
{
    if token.signature != expected_signature {
        return Err(TokenError::InvalidSignature);
    }
    if now >= token.claims.exp && now - token.claims.exp >= CLOCK_SKEW_SECS {
        return Err(TokenError::Expired);
    }
    match expected {
        Some(kind) => {
            if kind != token.claims.kind {
                return Err(TokenError::WrongKind);
            }
        },
        None => {},
    }
    Ok(Identity { id: token.claims.sub })
}

/// Verifies a token under `key` at instant `now`.
pub fn verify(key: &SigningKey, token: &Token, now: u64, expected: Option<TokenKind>) -> (r: Result<
    Identity,
    TokenError,
>)
    ensures
        r == verdict(token.claims, genuine(key.secret@, *token), now, expected),
{
    let expected_signature = sign(key, &token.claims);
    check_token(token, expected_signature, now, expected)
}

/// A token that was just issued verifies to the identity it was issued for,
/// at every instant before its expiry plus the tolerated skew.
pub proof fn law_issued_token_verifies(
    key: Seq<u8>,
    identity: Identity,
    kind: TokenKind,
    issued: u64,
    ttl: u64,
    serial: u128,
    at: u64,
)
    requires
        issued + ttl <= u64::MAX,
        at < issued + ttl + CLOCK_SKEW_SECS,
    ensures
        genuine(key, minted(key, identity, kind, issued, ttl, serial)),
        verdict(minted(key, identity, kind, issued, ttl, serial).claims, true, at, Some(kind)) == Ok::<
            Identity,
            TokenError,
        >(identity),
        verdict(minted(key, identity, kind, issued, ttl, serial).claims, true, at, None) == Ok::<
            Identity,
            TokenError,
        >(identity),
{
}

/// A correctly signed token whose expiry (plus skew) has passed is answered
/// with `Expired`, whatever its kind and whatever kind was asked for.
pub proof fn law_expired_token_rejected(c: Claims, now: u64, expected: Option<TokenKind>)
    requires
        c.exp + CLOCK_SKEW_SECS <= now,
    ensures
        verdict(c, true, now, expected) == Err::<Identity, TokenError>(TokenError::Expired),
{
}

/// A token whose signature differs from the one the key gives to its claims
/// is answered with `InvalidSignature`, at every instant and for every kind.
pub proof fn law_tampered_token_rejected(
    key: Seq<u8>,
    issued: Token,
    forged: Token,
    now: u64,
    expected: Option<TokenKind>,
)
    requires
        genuine(key, issued),
        forged.claims == issued.claims,
        forged.signature != issued.signature,
    ensures
        !genuine(key, forged),
        verdict(forged.claims, genuine(key, forged), now, expected) == Err::<Identity, TokenError>(
            TokenError::InvalidSignature,
        ),
{
}

} // verus!

use vstd::prelude::*;
use crate::error::ApiError;
use crate::identity::{Identity, RequestContext};
use crate::credential::{account_of, login_result, law_login_then_verify, Lifetimes, UserRecord};
use crate::session::Session;
use crate::token::{genuine, verdict, verify, SigningKey, Token, TokenKind, CLOCK_SKEW_SECS};
use crate::wire::{bearer_of, bearer_prefix, bearer_token, law_parse_inverts_render, token_text};

verus! {

/// Where a request stands on its way to a protected handler.
#[derive(Clone, Copy, Debug, PartialEq, Eq, Structural)]
pub enum GateState {
    Unauthenticated,
    TokenExtracted(Token),
    Verified(Identity),
    Attached(RequestContext),
    Rejected(ApiError),
}

/// One step of the checkpoint. `presented` is the token found in the request, if
/// any; an extracted token must verify as an access token under `key` at
/// `now`. `Attached` and `Rejected` are final.
pub open spec fn gate_step(state: GateState, presented: Option<Token>, key: Seq<u8>, now: u64) -> GateState {
    match state {
        GateState::Unauthenticated => match presented {
            Some(token) => GateState::TokenExtracted(token),
            None => GateState::Rejected(ApiError::Unauthorized),
        },
        GateState::TokenExtracted(token) => match verdict(
            token.claims,
            genuine(key, token),
            now,
            Some(TokenKind::Access),
        ) {
            Ok(identity) => GateState::Verified(identity),
            Err(_) => GateState::Rejected(ApiError::Unauthorized),
        },
        GateState::Verified(identity) => GateState::Attached(RequestContext { identity }),
        GateState::Attached(ctx) => GateState::Attached(ctx),
        GateState::Rejected(e) => GateState::Rejected(e),
    }
}

/// What the checkpoint answers for a request: the context of the identity whose
/// access token it presented, or `Unauthorized` with no word on why.
pub open spec fn gate_outcome(presented: Option<Token>, key: Seq<u8>, now: u64) -> Result<
    RequestContext,
    ApiError,
> {
    match presented {
        None => Err(ApiError::Unauthorized),
        Some(token) => match verdict(token.claims, genuine(key, token), now, Some(TokenKind::Access)) {
            Ok(identity) => Ok(RequestContext { identity }),
            Err(_) => Err(ApiError::Unauthorized),
        },
    }
}

pub fn advance(state: GateState, presented: Option<Token>, key: &SigningKey, now: u64) -> (next: GateState)
    ensures
        next == gate_step(state, presented, key.secret@, now),
{
    match state {
        GateState::Unauthenticated => match presented {
            Some(token) => GateState::TokenExtracted(token),
            None => GateState::Rejected(ApiError::Unauthorized),
        },
        GateState::TokenExtracted(token) => match verify(key, &token, now, Some(TokenKind::Access)) {
            Ok(identity) => GateState::Verified(identity),
            Err(_) => GateState::Rejected(ApiError::Unauthorized),
        },
        GateState::Verified(identity) => GateState::Attached(RequestContext { identity }),
        GateState::Attached(ctx) => GateState::Attached(ctx),
        GateState::Rejected(e) => GateState::Rejected(e),
    }
}

/// Runs the checkpoint on one request, from `Unauthenticated` to its final state.
pub fn authorize(presented: Option<Token>, key: &SigningKey, now: u64) -> (r: Result<RequestContext, ApiError>)
    ensures
        r == gate_outcome(presented, key.secret@, now),
{
    let extracted = advance(GateState::Unauthenticated, presented, key, now);
    let verified = advance(extracted, presented, key, now);
    let attached = advance(verified, presented, key, now);
    match attached {
        GateState::Attached(ctx) => Ok(ctx),
        GateState::Rejected(e) => Err(e),
        _ => Err(ApiError::Unauthorized),
    }
}

/// The token that a request presents: the one in its authorization header,
/// if it has such a header and the header carries a token.
pub open spec fn presented_by(header: Option<Seq<u8>>) -> Option<Token> {
    match header {
        Some(value) => bearer_of(value),
        None => None,
    }
}

/// Runs the checkpoint on the authorization header of a request. A missing
/// header, one that carries no token and a token that does not verify are
/// answered alike.
pub fn authorize_request(header: Option<&[u8]>, key: &SigningKey, now: u64) -> (r: Result<
    RequestContext,
    ApiError,
>)
    ensures
        r == gate_outcome(
            presented_by(
                match header {
                    Some(value) => Some(value@),
                    None => None,
                },
            ),
            key.secret@,
            now,
        ),
{
    let presented = match header {
        Some(value) => bearer_token(value),
        None => None,
    };
    authorize(presented, key, now)
}

/// Three steps take every request to a final state, and a request is
/// attached only to the identity that its own access token verifies to.
pub proof fn law_gate_reaches_final_state(presented: Option<Token>, key: Seq<u8>, now: u64)
    ensures
        ({
            let last = gate_step(
                gate_step(gate_step(GateState::Unauthenticated, presented, key, now), presented, key, now),
                presented,
                key,
                now,
            );
            &&& gate_step(last, presented, key, now) == last
            &&& match gate_outcome(presented, key, now) {
                Ok(ctx) => last == GateState::Attached(ctx),
                Err(e) => last == GateState::Rejected(e),
            }
        }),
{
}

/// Every rejection reads the same: a missing token, a forged one, an expired
/// one and one of the wrong kind cannot be told apart by the answer.
pub proof fn law_rejection_is_uniform(presented: Option<Token>, key: Seq<u8>, now: u64)
    requires
        gate_outcome(presented, key, now).is_err(),
    ensures
        gate_outcome(presented, key, now) == Err::<RequestContext, ApiError>(ApiError::Unauthorized),
{
}

/// The access token of a successful login passes the checkpoint as the
/// identity of the account that logged in, and as no other, at every instant
/// before its expiry; and so does the header that carries its text.
pub proof fn law_login_passes_checkpoint(
    users: Seq<UserRecord>,
    s: Seq<Session>,
    key: Seq<u8>,
    ttl: Lifetimes,
    name: Seq<char>,
    secret: Seq<u8>,
    now: u64,
    serial: u128,
    at: u64,
)
    requires
        ttl.fits(now),
        login_result(users, s, key, ttl, name, secret, now, serial).is_ok(),
        at < now + ttl.access_ttl + CLOCK_SKEW_SECS,
    ensures
        ({
            let access = login_result(users, s, key, ttl, name, secret, now, serial).unwrap().access;
            let ctx = RequestContext { identity: Identity { id: users[account_of(users, name)].id } };
            &&& gate_outcome(Some(access), key, at) == Ok::<RequestContext, ApiError>(ctx)
            &&& gate_outcome(presented_by(Some(bearer_prefix() + token_text(access))), key, at) == Ok::<
                RequestContext,
                ApiError,
            >(ctx)
        }),
{
    let access = login_result(users, s, key, ttl, name, secret, now, serial).unwrap().access;
    law_login_then_verify(users, s, key, ttl, name, secret, now, serial, at);
    law_parse_inverts_render(access);
}

} // verus!

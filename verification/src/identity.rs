use vstd::prelude::*;

verus! {

/// The principal that a session token stands for.
#[derive(Clone, Copy, Debug, PartialEq, Eq, Structural)]
pub struct Identity {
    pub id: u128,
}

/// What authentication hands to a handler: the identity resolved for one request.
#[derive(Clone, Copy, Debug, PartialEq, Eq, Structural)]
pub struct RequestContext {
    pub identity: Identity,
}

} // verus!

use vstd::prelude::*;
use crate::error::{message_of, status_of, ApiError, Status};

verus! {

/// The members of a response envelope that do not depend on the endpoint.
#[derive(Clone, Copy, Debug)]
pub struct Envelope {
    pub status: Status,
    pub message: Option<&'static str>,
}

pub open spec fn greeting() -> Seq<char> {
    "hello word"@
}

/// The answer of the root endpoint.
pub fn request() -> (e: Envelope)
    ensures
        e.status == Status::Success,
        e.message.is_some(),
        e.message.unwrap()@ == greeting(),
{
    Envelope { status: Status::Success, message: Some("hello word") }
}

/// The envelope of a success that carries data and no message.
pub fn success() -> (e: Envelope)
    ensures
        e.status == Status::Success,
        e.message.is_none(),
{
    Envelope { status: Status::Success, message: None }
}

/// The envelope of a failure.
pub fn failure(error: ApiError) -> (e: Envelope)
    ensures
        e.status == status_of(error),
        e.message.is_some(),
        e.message.unwrap()@ == message_of(error),
{
    Envelope { status: error.status(), message: Some(error.message()) }
}

} // verus!

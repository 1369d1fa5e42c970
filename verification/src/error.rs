use vstd::prelude::*;

verus! {

#[derive(Clone, Copy, Debug, PartialEq, Eq, Structural)]
pub enum ValidationIssue {
    NameRequired,
    DescriptionRequired,
}

/// Every way in which a request can fail.
#[derive(Clone, Copy, Debug, PartialEq, Eq, Structural)]
pub enum ApiError {
    Validation(ValidationIssue),
    Unauthorized,
    NotFound,
    DuplicateUser,
    InvalidCredentials,
    PersistenceFault,
}

/// The `status` member of a response envelope.
#[derive(Clone, Copy, Debug, PartialEq, Eq, Structural)]
pub enum Status {
    Success,
    Fail,
    Error,
}

/// A fault of the server is an `Error`; whatever the client can correct is a
/// `Fail`.
pub open spec fn status_of(e: ApiError) -> Status {
    match e {
        ApiError::PersistenceFault => Status::Error,
        _ => Status::Fail,
    }
}

pub open spec fn http_status_of(e: ApiError) -> u16 {
    match e {
        ApiError::Validation(_) => 400u16,
        ApiError::Unauthorized => 401u16,
        ApiError::NotFound => 404u16,
        ApiError::DuplicateUser => 409u16,
        ApiError::InvalidCredentials => 401u16,
        ApiError::PersistenceFault => 500u16,
    }
}

/// The text shown to the caller. It never says which check of a token or of
/// a credential failed, nor whether a record exists under another owner.
pub open spec fn message_of(e: ApiError) -> Seq<char> {
    match e {
        ApiError::Validation(ValidationIssue::NameRequired) => "Todo name is required"@,
        ApiError::Validation(ValidationIssue::DescriptionRequired) => "Todo description is required"@,
        ApiError::Unauthorized => "You are not logged in, please provide a valid token"@,
        ApiError::NotFound => "TODO item not found"@,
        ApiError::DuplicateUser => "User already exists"@,
        ApiError::InvalidCredentials => "Invalid username or password"@,
        ApiError::PersistenceFault => "Database error"@,
    }
}

pub fn status_str(s: Status) -> (text: &'static str)
    ensures
        text@ == (match s {
            Status::Success => "success"@,
            Status::Fail => "fail"@,
            Status::Error => "error"@,
        }),
{
    match s {
        Status::Success => "success",
        Status::Fail => "fail",
        Status::Error => "error",
    }
}

impl ApiError {
    pub fn status(&self) -> (s: Status)
        ensures
            s == status_of(*self),
    {
        match self {
            ApiError::PersistenceFault => Status::Error,
            _ => Status::Fail,
        }
    }

    pub fn http_status(&self) -> (code: u16)
        ensures
            code == http_status_of(*self),
    {
        match self {
            ApiError::Validation(_) => 400u16,
            ApiError::Unauthorized => 401u16,
            ApiError::NotFound => 404u16,
            ApiError::DuplicateUser => 409u16,
            ApiError::InvalidCredentials => 401u16,
            ApiError::PersistenceFault => 500u16,
        }
    }

    pub fn message(&self) -> (text: &'static str)
        ensures
            text@ == message_of(*self),
    {
        match self {
            ApiError::Validation(ValidationIssue::NameRequired) => "Todo name is required",
            ApiError::Validation(ValidationIssue::DescriptionRequired) => "Todo description is required",
            ApiError::Unauthorized => "You are not logged in, please provide a valid token",
            ApiError::NotFound => "TODO item not found",
            ApiError::DuplicateUser => "User already exists",
            ApiError::InvalidCredentials => "Invalid username or password",
            ApiError::PersistenceFault => "Database error",
        }
    }
}

/// What the client can correct is answered in the 400s, a fault of the
/// server in the 500s.
pub proof fn law_status_matches_class(e: ApiError)
    ensures
        status_of(e) == Status::Fail <==> 400 <= http_status_of(e) < 500,
        status_of(e) == Status::Error <==> 500 <= http_status_of(e) < 600,
        status_of(e) != Status::Success,
{
}

} // verus!

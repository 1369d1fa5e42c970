//! Session tokens, refresh-token sessions and owner-scoped records for a
//! multi-tenant to-do service.

pub mod identity;
pub mod error;
pub mod token;
pub mod session;
pub mod credential;
pub mod gate;
pub mod wire;
pub mod todo_model;
pub mod todohandler;
pub mod route;
pub mod requests;

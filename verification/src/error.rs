//! Errors of the knowledge base and the HTTP status each one maps to.

use vstd::prelude::*;

verus! {

/// Errors raised by the knowledge base. The last five variants carry the
/// message of an underlying storage, pool, JSON, identifier or other failure.
#[derive(Debug, Clone)]
pub enum KbError {
    NotFound,
    BadRequest(String),
    Unauthorized,
    Conflict(String),
    Db(String),
    Pool(String),
    Json(String),
    Ulid(String),
    Other(String),
}

/// The HTTP status code of an error.
pub open spec fn status_of(e: KbError) -> u16 {
    match e {
        KbError::NotFound => 404,
        KbError::BadRequest(_) => 400,
        KbError::Unauthorized => 401,
        KbError::Conflict(_) => 409,
        _ => 500,
    }
}

/// The text shown for an error.
pub open spec fn message_of(e: KbError) -> Seq<char> {
    match e {
        KbError::NotFound => "not found"@,
        KbError::BadRequest(m) => "invalid input: "@ + m@,
        KbError::Unauthorized => "unauthorized"@,
        KbError::Conflict(m) => "conflict: "@ + m@,
        KbError::Db(m) => m@,
        KbError::Pool(m) => m@,
        KbError::Json(m) => m@,
        KbError::Ulid(m) => m@,
        KbError::Other(m) => m@,
    }
}

fn prefixed(prefix: &str, m: &String) -> (r: String)
    ensures
        r@ == prefix@ + m@,
{
    let mut r = String::from_str(prefix);
    r.append(m.as_str());
    r
}

impl KbError {
    /// HTTP status code: 404, 400, 401 and 409 for the client errors, 500
    /// for every failure underneath.
    pub fn status(&self) -> (code: u16)
        ensures
            code == status_of(*self),
    {
        match self {
            KbError::NotFound => 404,
            KbError::BadRequest(_) => 400,
            KbError::Unauthorized => 401,
            KbError::Conflict(_) => 409,
            _ => 500,
        }
    }

    /// The error text: `not found`, `invalid input: ..`, `unauthorized`,
    /// `conflict: ..`, or the underlying failure's own message.
    pub fn message(&self) -> (m: String)
        ensures
            m@ == message_of(*self),
    {
        match self {
            KbError::NotFound => String::from_str("not found"),
            KbError::BadRequest(m) => prefixed("invalid input: ", m),
            KbError::Unauthorized => String::from_str("unauthorized"),
            KbError::Conflict(m) => prefixed("conflict: ", m),
            KbError::Db(m) => m.clone(),
            KbError::Pool(m) => m.clone(),
            KbError::Json(m) => m.clone(),
            KbError::Ulid(m) => m.clone(),
            KbError::Other(m) => m.clone(),
        }
    }
}

} // verus!

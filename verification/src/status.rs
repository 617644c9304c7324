//! The HTTP statuses that the request rules answer with.

use vstd::prelude::*;

verus! {

/// An HTTP status that a refused request is answered with.
#[derive(Clone, Copy, Debug, PartialEq, Eq, Structural)]
pub enum HttpStatus {
    /// 400
    BadRequest,
    /// 401
    Unauthorized,
    /// 403
    Forbidden,
}

impl HttpStatus {
    /// The numeric status code.
    pub fn code(&self) -> (c: u16)
        ensures
            c == match *self {
                HttpStatus::BadRequest => 400u16,
                HttpStatus::Unauthorized => 401u16,
                HttpStatus::Forbidden => 403u16,
            },
    {
        match self {
            HttpStatus::BadRequest => 400,
            HttpStatus::Unauthorized => 401,
            HttpStatus::Forbidden => 403,
        }
    }
}

} // verus!

//! Response status codes and their canonical reason phrases.

use vstd::prelude::*;

verus! {

/// The status codes this server can answer with.
#[derive(Copy, Clone, Debug, PartialEq, Eq, Structural)]
pub enum StatusCode {
    /// 200
    OK,
    /// 400
    BadRequest,
    /// 404
    NotFound,
}

impl StatusCode {
    /// The number sent on the status line.
    pub open spec fn code(self) -> nat {
        match self {
            StatusCode::OK => 200,
            StatusCode::BadRequest => 400,
            StatusCode::NotFound => 404,
        }
    }

    /// The canonical text that follows the number on the status line.
    pub open spec fn phrase(self) -> Seq<char> {
        match self {
            StatusCode::OK => "OK"@,
            StatusCode::BadRequest => "Bad Request"@,
            StatusCode::NotFound => "Not Found"@,
        }
    }

    /// The underlying HTTP status number.
    pub fn numeric_value(&self) -> (n: u16)
        ensures
            n == self.code(),
    {
        match self {
            StatusCode::OK => 200,
            StatusCode::BadRequest => 400,
            StatusCode::NotFound => 404,
        }
    }

    /// The canonical reason phrase for this code.
    pub fn reason_phrase(&self) -> (phrase: &'static str)
        ensures
            phrase@ == self.phrase(),
    {
        match self {
            StatusCode::OK => "OK",
            StatusCode::BadRequest => "Bad Request",
            StatusCode::NotFound => "Not Found",
        }
    }
}

} // verus!

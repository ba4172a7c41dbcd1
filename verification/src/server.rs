//! The server and the contract between it and the application's handler.
//!
//! The server serves one request per connection. Reading from and writing to
//! the connection is the caller's business; what is decided here is which
//! response a received buffer gets.

use crate::http::request::{parse_bytes, ParseError, Request, RequestView};
use crate::http::response::{Response, ResponseView};
use crate::http::status_code::StatusCode;
use vstd::prelude::*;

verus! {

/// How many bytes of a connection are read, at most, before the request is
/// parsed. A longer request is cut off there.
pub const READ_BUFFER_SIZE: usize = 1024;

/// What an application implements to answer requests.
pub trait Handler {
    /// Whether `response` is an answer that this handler, in its present
    /// state, may give to `request`. A handler that says nothing more may
    /// give any answer.
    open spec fn may_answer(&self, request: RequestView, response: ResponseView) -> bool {
        true
    }

    /// Answers a well-formed request. A request that matches no route is
    /// answered too, by convention with `NotFound`.
    fn handle_request(&mut self, request: &Request) -> (response: Response)
        ensures
            old(self).may_answer(request@, response@),
    ;

    /// Whether `response` is an answer with a body that this handler, in its
    /// present state, may give to a buffer that failed to parse with `e`. A
    /// handler that says nothing more gives no such answer: it answers
    /// without a body.
    open spec fn may_refuse(&self, e: ParseError, response: ResponseView) -> bool {
        false
    }

    /// Answers a buffer that could not be read as a request: `BadRequest`,
    /// without a body. An override may choose a body, which `may_refuse`
    /// then describes, but not another status.
    fn handle_bad_request(&mut self, e: &ParseError) -> (response: Response)
        ensures
            response@.status_code == StatusCode::BadRequest,
            response@.body is None || old(self).may_refuse(*e, response@),
    {
        Response::new(StatusCode::BadRequest, None)
    }
}

/// A server bound to one address.
#[derive(Debug)]
pub struct Server {
    addr: String,
}

impl Server {
    /// A server for the address `addr`, written as `host:port`. Nothing is
    /// opened yet.
    pub fn new(addr: String) -> (server: Server)
        ensures
            server.addr_text() == addr@,
    {
        Server { addr }
    }

    /// The address that the server was made for.
    pub closed spec fn addr_text(&self) -> Seq<char> {
        self.addr@
    }

    /// The address that the server was made for.
    pub fn addr(&self) -> (addr: &str)
        ensures
            addr@ == self.addr_text(),
    {
        self.addr.as_str()
    }

    /// The response to what was read from one connection: the handler's
    /// answer to the request that the buffer holds, or, where it holds none,
    /// the handler's bad-request answer to the error that parsing gave.
    pub fn respond<H: Handler>(&self, handler: &mut H, buffer: &[u8]) -> (response: Response)
        ensures
            match parse_bytes(buffer@) {
                Ok(request) => old(handler).may_answer(request, response@),
                Err(e) => response@.status_code == StatusCode::BadRequest && (response@.body
                    is None || old(handler).may_refuse(e, response@)),
            },
    {
        match Request::parse(buffer) {
            Ok(request) => handler.handle_request(&request),
            Err(e) => handler.handle_bad_request(&e),
        }
    }
}

} // verus!

//! A small handler that serves two pages.

use crate::http::method::Method;
use crate::http::request::{ParseError, Request, RequestView};
use crate::http::response::{Response, ResponseView};
use crate::http::status_code::StatusCode;
use crate::http::text::same_text;
use crate::server::Handler;
use vstd::prelude::*;

verus! {

/// The page that a request gets: one of the two known pages for a `GET` of
/// its path, and `NotFound` without a body for everything else.
pub open spec fn page_for(request: RequestView) -> ResponseView {
    if request.method == Method::GET && request.path == "/"@ {
        ResponseView { status_code: StatusCode::OK, body: Some("<h1>Welcome!</h1>"@) }
    } else if request.method == Method::GET && request.path == "/hello"@ {
        ResponseView { status_code: StatusCode::OK, body: Some("<h1>Hello</h1>"@) }
    } else {
        ResponseView { status_code: StatusCode::NotFound, body: None }
    }
}

/// A handler for a website whose files live under one directory.
pub struct WebsiteHandler {
    public_path: String,
}

impl WebsiteHandler {
    /// A handler for the site under `public_path`.
    pub fn new(public_path: String) -> (handler: WebsiteHandler)
        ensures
            handler.public_path_text() == public_path@,
    {
        WebsiteHandler { public_path }
    }

    /// The directory that the handler was made for.
    pub closed spec fn public_path_text(&self) -> Seq<char> {
        self.public_path@
    }

    /// The directory that the handler was made for.
    pub fn public_path(&self) -> (path: &str)
        ensures
            path@ == self.public_path_text(),
    {
        self.public_path.as_str()
    }
}

impl Handler for WebsiteHandler {
    open spec fn may_answer(&self, request: RequestView, response: ResponseView) -> bool {
        response == page_for(request)
    }

    fn handle_request(&mut self, request: &Request) -> (response: Response)
        ensures
            response@ == page_for(request@),
            *final(self) == *old(self),
    {
        match request.method() {
            Method::GET => {
                let path = request.path();
                if same_text(path, "/") {
                    Response::new(StatusCode::OK, Some("<h1>Welcome!</h1>".to_owned()))
                } else if same_text(path, "/hello") {
                    Response::new(StatusCode::OK, Some("<h1>Hello</h1>".to_owned()))
                } else {
                    Response::new(StatusCode::NotFound, None)
                }
            },
            _ => Response::new(StatusCode::NotFound, None),
        }
    }
}

/// The website handler keeps the plain answer to a bad request: whatever
/// the error, it is `BadRequest` without a body.
pub proof fn lemma_website_refuses_without_body(
    handler: WebsiteHandler,
    e: ParseError,
    response: ResponseView,
)
    requires
        response.status_code == StatusCode::BadRequest,
        response.body is None || handler.may_refuse(e, response),
    ensures
        response == (ResponseView { status_code: StatusCode::BadRequest, body: None }),
{
}

} // verus!

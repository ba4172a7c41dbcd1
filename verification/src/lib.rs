//! A minimal HTTP/1.1 server core: a request-line parser, a status and
//! response model, and the handler contract that a transport loop drives.

pub mod factorial;
pub mod http;
pub mod server;
pub mod website_handler;

pub use http::{Method, MethodError, ParseError, Request, Response, StatusCode};
pub use server::{Handler, Server};
pub use website_handler::WebsiteHandler;

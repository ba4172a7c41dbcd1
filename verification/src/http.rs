//! The HTTP data model: methods, status codes, requests and responses.

pub mod grammar;
pub mod method;
pub mod request;
pub mod response;
pub mod status_code;
pub mod text;

pub use method::{Method, MethodError};
pub use request::{ParseError, Request};
pub use response::Response;
pub use status_code::StatusCode;

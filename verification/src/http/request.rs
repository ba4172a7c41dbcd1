//! The request line and its parser.
//!
//! A request is read from the first line of what a client sent:
//! `METHOD PATH[?QUERY] HTTP/1.1`, each of the three words followed by a
//! space or a newline. Nothing after the third word is looked at.

use crate::http::method::{Method, MethodError};
use crate::http::text::{first_of, lemma_first_of_bounds, same_text, split_at_first};
use core::str::Utf8Error;
use vstd::prelude::*;
use vstd::utf8::*;

verus! {

/// Why a buffer could not be read as a request.
#[derive(Copy, Clone, Debug, PartialEq, Eq, Structural)]
pub enum ParseError {
    /// One of the three words of the request line is missing.
    InvalidRequest,
    /// The buffer is not UTF-8 text.
    InvalidEncoding,
    /// The third word is not `HTTP/1.1`.
    InvalidProtocol,
    /// The first word names no known method.
    InvalidMethod,
}

impl ParseError {
    /// The text of `message`.
    pub open spec fn message_text(self) -> Seq<char> {
        match self {
            ParseError::InvalidRequest => "Invalid Request"@,
            ParseError::InvalidEncoding => "Invalid Encoding"@,
            ParseError::InvalidProtocol => "Invalid Protocol"@,
            ParseError::InvalidMethod => "Invalid Method"@,
        }
    }

    /// A short description of the error for people to read.
    pub fn message(&self) -> (s: String)
        ensures
            s@ == self.message_text(),
    {
        match self {
            ParseError::InvalidRequest => "Invalid Request".to_owned(),
            ParseError::InvalidEncoding => "Invalid Encoding".to_owned(),
            ParseError::InvalidProtocol => "Invalid Protocol".to_owned(),
            ParseError::InvalidMethod => "Invalid Method".to_owned(),
        }
    }
}

impl From<MethodError> for ParseError {
    fn from(e: MethodError) -> (r: ParseError) {
        ParseError::InvalidMethod
    }
}

impl vstd::std_specs::convert::FromSpecImpl<MethodError> for ParseError {
    open spec fn obeys_from_spec() -> bool {
        true
    }

    open spec fn from_spec(e: MethodError) -> ParseError {
        ParseError::InvalidMethod
    }
}

/// The error of `core::str::from_utf8`, carried through unread.
#[verifier::external_type_specification]
#[verifier::external_body]
pub struct ExUtf8Error(Utf8Error);

impl From<Utf8Error> for ParseError {
    fn from(e: Utf8Error) -> (r: ParseError) {
        ParseError::InvalidEncoding
    }
}

impl vstd::std_specs::convert::FromSpecImpl<Utf8Error> for ParseError {
    open spec fn obeys_from_spec() -> bool {
        true
    }

    open spec fn from_spec(e: Utf8Error) -> ParseError {
        ParseError::InvalidEncoding
    }
}

/// `core::str::from_utf8` accepts exactly the byte sequences that are
/// well-formed UTF-8, and the text it returns is those bytes decoded.
pub assume_specification<'a>[ core::str::from_utf8 ](v: &'a [u8]) -> (r: Result<&'a str, Utf8Error>)
    ensures
        r is Ok <==> valid_utf8(v@),
        r matches Ok(s) ==> s@ == decode_utf8(v@),
;

/// The byte of a space.
pub const SPACE: u8 = 0x20;

/// The byte of a newline.
pub const NEWLINE: u8 = 0x0A;

/// The byte of a question mark.
pub const QUESTION_MARK: u8 = 0x3F;

/// What a request holds, as plain values.
pub struct RequestView {
    pub method: Method,
    pub path: Seq<char>,
    pub query_string: Option<Seq<char>>,
}

/// The next word of `s` and what follows it: the text before the first
/// space or newline, and the text after that separator. `None` where `s`
/// holds no separator.
pub open spec fn next_word(s: Seq<char>) -> Option<(Seq<char>, Seq<char>)> {
    let k = first_of(s, ' ', '\n');
    if k < s.len() {
        Some((s.subrange(0, k), s.subrange(k + 1, s.len() as int)))
    } else {
        None
    }
}

/// The path of a request target: all of it before the first `?`.
pub open spec fn target_path(target: Seq<char>) -> Seq<char> {
    target.subrange(0, first_of(target, '?', '?'))
}

/// The query string of a request target: all of it after the first `?`, or
/// `None` where it holds none.
pub open spec fn target_query(target: Seq<char>) -> Option<Seq<char>> {
    let k = first_of(target, '?', '?');
    if k < target.len() {
        Some(target.subrange(k + 1, target.len() as int))
    } else {
        None
    }
}

/// The request that a text stands for, or the reason why it stands for none.
pub open spec fn parse_text(s: Seq<char>) -> Result<RequestView, ParseError> {
    match next_word(s) {
        None => Err(ParseError::InvalidRequest),
        Some((method, after_method)) => match next_word(after_method) {
            None => Err(ParseError::InvalidRequest),
            Some((target, after_target)) => match next_word(after_target) {
                None => Err(ParseError::InvalidRequest),
                Some((protocol, _)) => if protocol != "HTTP/1.1"@ {
                    Err(ParseError::InvalidProtocol)
                } else {
                    match Method::from_token(method) {
                        None => Err(ParseError::InvalidMethod),
                        Some(m) => Ok(
                            RequestView {
                                method: m,
                                path: target_path(target),
                                query_string: target_query(target),
                            },
                        ),
                    }
                },
            },
        },
    }
}

/// The request that a buffer stands for, or the reason why it stands for
/// none. A buffer that is not UTF-8 text is refused before anything else is
/// looked at.
pub open spec fn parse_bytes(bytes: Seq<u8>) -> Result<RequestView, ParseError> {
    if valid_utf8(bytes) {
        parse_text(decode_utf8(bytes))
    } else {
        Err(ParseError::InvalidEncoding)
    }
}

/// Splits `request` at its first space or newline into the word before it
/// and the rest after it. Text without such a separator, the empty text
/// included, holds no word. Text that starts with a separator gives the
/// empty word.
pub fn get_next_word<'a>(request: &'a str) -> (r: Option<(&'a str, &'a str)>)
    ensures
        match r {
            Some((word, rest)) => next_word(request@) == Some((word@, rest@)),
            None => next_word(request@) is None,
        },
{
    split_at_first(request, SPACE, NEWLINE)
}

/// A parsed request line. It borrows its path and query string from the
/// buffer that it was read from.
#[derive(Debug)]
pub struct Request<'buf> {
    path: &'buf str,
    query_string: Option<&'buf str>,
    method: Method,
}

impl<'buf> View for Request<'buf> {
    type V = RequestView;

    closed spec fn view(&self) -> RequestView {
        RequestView {
            method: self.method,
            path: self.path@,
            query_string: match self.query_string {
                Some(q) => Some(q@),
                None => None,
            },
        }
    }
}

impl<'buf> Request<'buf> {
    #[verifier::type_invariant]
    spec fn path_holds_no_question_mark(&self) -> bool {
        !self.path@.contains('?')
    }

    /// Reads a request from the bytes that a client sent.
    pub fn parse(buf: &'buf [u8]) -> (r: Result<Request<'buf>, ParseError>)
        ensures
            match r {
                Ok(request) => parse_bytes(buf@) == Ok::<RequestView, ParseError>(request@),
                Err(e) => parse_bytes(buf@) == Err::<RequestView, ParseError>(e),
            },
            r matches Err(ParseError::InvalidEncoding) <==> !valid_utf8(buf@),
    {
        let request = match core::str::from_utf8(buf) {
            Ok(text) => text,
            Err(e) => {
                return Err(ParseError::from(e));
            },
        };
        let (method, request) = match get_next_word(request) {
            Some(found) => found,
            None => {
                return Err(ParseError::InvalidRequest);
            },
        };
        let (target, request) = match get_next_word(request) {
            Some(found) => found,
            None => {
                return Err(ParseError::InvalidRequest);
            },
        };
        let (protocol, _) = match get_next_word(request) {
            Some(found) => found,
            None => {
                return Err(ParseError::InvalidRequest);
            },
        };
        if !same_text(protocol, "HTTP/1.1") {
            return Err(ParseError::InvalidProtocol);
        }
        let method = match Method::parse(method) {
            Ok(m) => m,
            Err(e) => {
                return Err(ParseError::from(e));
            },
        };
        proof {
            lemma_first_of_bounds(target@, '?', '?');
        }
        let (path, query_string) = match split_at_first(target, QUESTION_MARK, QUESTION_MARK) {
            Some((path, query)) => (path, Some(query)),
            None => {
                assert(target@.subrange(0, target@.len() as int) =~= target@);
                (target, None)
            },
        };
        Ok(Request { path, query_string, method })
    }

    /// The path that was asked for, without the query string.
    pub fn path(&self) -> (p: &'buf str)
        ensures
            p@ == self@.path,
            !p@.contains('?'),
    {
        proof {
            use_type_invariant(self);
        }
        self.path
    }

    /// What followed the first `?` of the request target, if there was one.
    pub fn query_string(&self) -> (q: Option<&'buf str>)
        ensures
            match q {
                Some(text) => self@.query_string == Some(text@),
                None => self@.query_string is None,
            },
    {
        self.query_string
    }

    /// The method of the request.
    pub fn method(&self) -> (m: Method)
        ensures
            m == self@.method,
    {
        self.method
    }
}

impl<'buf> TryFrom<&'buf [u8]> for Request<'buf> {
    type Error = ParseError;

    /// The same as `Request::parse`.
    fn try_from(buf: &'buf [u8]) -> (r: Result<Request<'buf>, ParseError>)
        ensures
            match r {
                Ok(request) => parse_bytes(buf@) == Ok::<RequestView, ParseError>(request@),
                Err(e) => parse_bytes(buf@) == Err::<RequestView, ParseError>(e),
            },
            r matches Err(ParseError::InvalidEncoding) <==> !valid_utf8(buf@),
    {
        Request::parse(buf)
    }
}

/// Two requests that hold the same values may still borrow from different
/// buffers, so what the conversion returns is stated over views, in the
/// contract of `try_from` itself, and not as a value here.
impl<'buf> vstd::std_specs::convert::TryFromSpecImpl<&'buf [u8]> for Request<'buf> {
    open spec fn obeys_try_from_spec() -> bool {
        false
    }

    open spec fn try_from_spec(buf: &'buf [u8]) -> Result<Request<'buf>, ParseError> {
        arbitrary()
    }
}

} // verus!

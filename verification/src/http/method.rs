//! The request methods this server understands.

use crate::http::text::same_text;
use vstd::prelude::*;

verus! {

/// An HTTP request method.
#[derive(Copy, Clone, Debug, PartialEq, Eq, Structural)]
pub enum Method {
    GET,
    DELETE,
    POST,
    PUT,
    HEAD,
    CONNECT,
    OPTIONS,
    TRACE,
    PATCH,
}

/// The token on the request line names no known method.
#[derive(Copy, Clone, Debug, PartialEq, Eq, Structural)]
pub struct MethodError;

impl Method {
    /// The token that names this method on the request line.
    pub open spec fn token(self) -> Seq<char> {
        match self {
            Method::GET => "GET"@,
            Method::DELETE => "DELETE"@,
            Method::POST => "POST"@,
            Method::PUT => "PUT"@,
            Method::HEAD => "HEAD"@,
            Method::CONNECT => "CONNECT"@,
            Method::OPTIONS => "OPTIONS"@,
            Method::TRACE => "TRACE"@,
            Method::PATCH => "PATCH"@,
        }
    }

    /// The method that `token` names, letter for letter and in upper case,
    /// if there is one.
    pub open spec fn from_token(token: Seq<char>) -> Option<Method> {
        if token == "GET"@ {
            Some(Method::GET)
        } else if token == "DELETE"@ {
            Some(Method::DELETE)
        } else if token == "POST"@ {
            Some(Method::POST)
        } else if token == "PUT"@ {
            Some(Method::PUT)
        } else if token == "HEAD"@ {
            Some(Method::HEAD)
        } else if token == "CONNECT"@ {
            Some(Method::CONNECT)
        } else if token == "OPTIONS"@ {
            Some(Method::OPTIONS)
        } else if token == "TRACE"@ {
            Some(Method::TRACE)
        } else if token == "PATCH"@ {
            Some(Method::PATCH)
        } else {
            None
        }
    }

    /// Reads a method from its token. The match is exact and case-sensitive;
    /// every other token is an error.
    pub fn parse(token: &str) -> (r: Result<Method, MethodError>)
        ensures
            r.ok() == Method::from_token(token@),
    {
        if same_text(token, "GET") {
            Ok(Method::GET)
        } else if same_text(token, "DELETE") {
            Ok(Method::DELETE)
        } else if same_text(token, "POST") {
            Ok(Method::POST)
        } else if same_text(token, "PUT") {
            Ok(Method::PUT)
        } else if same_text(token, "HEAD") {
            Ok(Method::HEAD)
        } else if same_text(token, "CONNECT") {
            Ok(Method::CONNECT)
        } else if same_text(token, "OPTIONS") {
            Ok(Method::OPTIONS)
        } else if same_text(token, "TRACE") {
            Ok(Method::TRACE)
        } else if same_text(token, "PATCH") {
            Ok(Method::PATCH)
        } else {
            Err(MethodError)
        }
    }

    /// The token of this method, as it stands on a request line.
    pub fn as_str(&self) -> (s: &'static str)
        ensures
            s@ == self.token(),
    {
        match self {
            Method::GET => "GET",
            Method::DELETE => "DELETE",
            Method::POST => "POST",
            Method::PUT => "PUT",
            Method::HEAD => "HEAD",
            Method::CONNECT => "CONNECT",
            Method::OPTIONS => "OPTIONS",
            Method::TRACE => "TRACE",
            Method::PATCH => "PATCH",
        }
    }
}

/// Every method is read back from its own token.
pub proof fn lemma_token_names_method(m: Method)
    ensures
        Method::from_token(m.token()) == Some(m),
{
    reveal_strlit("GET");
    reveal_strlit("DELETE");
    reveal_strlit("POST");
    reveal_strlit("PUT");
    reveal_strlit("HEAD");
    reveal_strlit("CONNECT");
    reveal_strlit("OPTIONS");
    reveal_strlit("TRACE");
    reveal_strlit("PATCH");
    assert("GET"@.len() == 3 && "GET"@[0] == 'G');
    assert("DELETE"@.len() == 6);
    assert("POST"@.len() == 4 && "POST"@[0] == 'P');
    assert("PUT"@.len() == 3 && "PUT"@[0] == 'P');
    assert("HEAD"@.len() == 4 && "HEAD"@[0] == 'H');
    assert("CONNECT"@.len() == 7 && "CONNECT"@[0] == 'C');
    assert("OPTIONS"@.len() == 7 && "OPTIONS"@[0] == 'O');
    assert("TRACE"@.len() == 5 && "TRACE"@[0] == 'T');
    assert("PATCH"@.len() == 5 && "PATCH"@[0] == 'P');
}

impl std::str::FromStr for Method {
    type Err = MethodError;

    /// The same as `Method::parse`: the method that `s` names, letter for
    /// letter, or an error where it names none.
    fn from_str(s: &str) -> (r: Result<Method, MethodError>)
        ensures
            r.ok() == Method::from_token(s@),
    {
        Method::parse(s)
    }
}

} // verus!

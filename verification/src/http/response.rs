//! Responses and their form on the wire.

use crate::http::status_code::StatusCode;
use vstd::prelude::*;
use vstd::string::*;

verus! {

/// The digit character for a value below ten.
pub open spec fn digit_char(d: nat) -> char {
    if d == 0 {
        '0'
    } else if d == 1 {
        '1'
    } else if d == 2 {
        '2'
    } else if d == 3 {
        '3'
    } else if d == 4 {
        '4'
    } else if d == 5 {
        '5'
    } else if d == 6 {
        '6'
    } else if d == 7 {
        '7'
    } else if d == 8 {
        '8'
    } else {
        '9'
    }
}

/// A number written in decimal, without leading zeros.
pub open spec fn decimal(n: nat) -> Seq<char>
    decreases n,
{
    if n < 10 {
        seq![digit_char(n)]
    } else {
        decimal(n / 10).push(digit_char(n % 10))
    }
}

/// The bytes-on-the-wire text of a response: the status line, a blank line,
/// and the body where there is one.
pub open spec fn wire_text(status_code: StatusCode, body: Option<Seq<char>>) -> Seq<char> {
    "HTTP/1.1 "@ + decimal(status_code.code()) + " "@ + status_code.phrase() + "\r\n\r\n"@ + match body {
        Some(text) => text,
        None => Seq::<char>::empty(),
    }
}

/// The one-character string for a digit.
fn digit_str(d: u16) -> (s: &'static str)
    requires
        d < 10,
    ensures
        s@ == seq![digit_char(d as nat)],
{
    let s = if d == 0 {
        "0"
    } else if d == 1 {
        "1"
    } else if d == 2 {
        "2"
    } else if d == 3 {
        "3"
    } else if d == 4 {
        "4"
    } else if d == 5 {
        "5"
    } else if d == 6 {
        "6"
    } else if d == 7 {
        "7"
    } else if d == 8 {
        "8"
    } else {
        "9"
    };
    proof {
        reveal_strlit("0");
        reveal_strlit("1");
        reveal_strlit("2");
        reveal_strlit("3");
        reveal_strlit("4");
        reveal_strlit("5");
        reveal_strlit("6");
        reveal_strlit("7");
        reveal_strlit("8");
        reveal_strlit("9");
        assert(s@ =~= seq![digit_char(d as nat)]);
    }
    s
}

/// Appends `n` in decimal to `out`.
fn push_decimal(out: &mut String, n: u16)
    ensures
        final(out)@ == old(out)@ + decimal(n as nat),
    decreases n,
{
    if n >= 10 {
        push_decimal(out, n / 10);
    }
    out.append(digit_str(n % 10));
    proof {
        if n >= 10 {
            assert(old(out)@ + decimal((n / 10) as nat) + seq![digit_char((n % 10) as nat)]
                =~= old(out)@ + decimal(n as nat));
        }
    }
}

/// A status code and, optionally, a body.
#[derive(Debug)]
pub struct Response {
    status_code: StatusCode,
    body: Option<String>,
}

/// What a response holds, as plain values.
pub struct ResponseView {
    pub status_code: StatusCode,
    pub body: Option<Seq<char>>,
}

impl View for Response {
    type V = ResponseView;

    closed spec fn view(&self) -> ResponseView {
        ResponseView {
            status_code: self.status_code,
            body: match self.body {
                Some(text) => Some(text@),
                None => None,
            },
        }
    }
}

impl Response {
    /// A response with the given status and body.
    pub fn new(status_code: StatusCode, body: Option<String>) -> (r: Response)
        ensures
            r@.status_code == status_code,
            match body {
                Some(text) => r@.body == Some(text@),
                None => r@.body is None,
            },
    {
        Response { status_code, body }
    }

    /// The status of the response.
    pub fn status_code(&self) -> (code: StatusCode)
        ensures
            code == self@.status_code,
    {
        self.status_code
    }

    /// The body of the response, if it has one.
    pub fn body(&self) -> (b: Option<&str>)
        ensures
            match b {
                Some(text) => self@.body == Some(text@),
                None => self@.body is None,
            },
    {
        match &self.body {
            Some(text) => Some(text.as_str()),
            None => None,
        }
    }

    /// The response as it goes over the wire.
    pub fn serialize(&self) -> (out: String)
        ensures
            out@ == wire_text(self@.status_code, self@.body),
    {
        let mut out = String::from_str("HTTP/1.1 ");
        push_decimal(&mut out, self.status_code.numeric_value());
        out.append(" ");
        out.append(self.status_code.reason_phrase());
        out.append("\r\n\r\n");
        match &self.body {
            Some(text) => {
                out.append(text.as_str());
            },
            None => {
                assert(out@ + Seq::<char>::empty() =~= out@);
            },
        }
        out
    }
}

/// Serializing is repeatable: whatever two calls of `serialize` return for
/// one response, it is the same text.
pub proof fn lemma_serialize_is_repeatable(response: &Response, first: String, second: String)
    requires
        call_ensures(Response::serialize, (response,), first),
        call_ensures(Response::serialize, (response,), second),
    ensures
        first@ == second@,
{
}

} // verus!

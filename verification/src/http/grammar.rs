//! What the parser does on well-formed request lines, stated for all of them.
//!
//! A request line is three words, each followed by a separator. The facts
//! here say which request the parser reads from such a line, and that it
//! reads one exactly when the method is known and the protocol is
//! `HTTP/1.1`.

use crate::http::method::Method;
use crate::http::request::{
    next_word, parse_bytes, parse_text, target_path, target_query, ParseError, RequestView,
};
use crate::http::text::{first_of, lemma_first_of_bounds, lemma_first_of_unique};
use vstd::prelude::*;
use vstd::utf8::*;

verus! {

/// A space or a newline: what ends a word.
pub open spec fn is_separator(c: char) -> bool {
    c == ' ' || c == '\n'
}

/// Text that holds no separator.
pub open spec fn is_word(w: Seq<char>) -> bool {
    forall|i: int| 0 <= i < w.len() ==> !is_separator(#[trigger] w[i])
}

/// The number of separators in `s`.
pub open spec fn separator_count(s: Seq<char>) -> nat
    decreases s.len(),
{
    if s.len() == 0 {
        0
    } else if is_separator(s[0]) {
        1 + separator_count(s.drop_first())
    } else {
        separator_count(s.drop_first())
    }
}

/// Three words, each followed by a separator, and then anything at all.
pub open spec fn request_line(
    method: Seq<char>,
    after_method: char,
    target: Seq<char>,
    after_target: char,
    protocol: Seq<char>,
    after_protocol: char,
    rest: Seq<char>,
) -> Seq<char> {
    method + seq![after_method] + target + seq![after_target] + protocol + seq![after_protocol]
        + rest
}

/// The line `GET {target} HTTP/1.1`, the separator that ends it, and what
/// follows.
pub open spec fn get_line(target: Seq<char>, end: char, rest: Seq<char>) -> Seq<char> {
    "GET "@ + target + " HTTP/1.1"@ + seq![end] + rest
}

/// The next word of a word, a separator and a rest is that word, and that
/// rest is what follows it.
pub proof fn lemma_next_word_of_join(word: Seq<char>, sep: char, rest: Seq<char>)
    requires
        is_word(word),
        is_separator(sep),
    ensures
        next_word(word + seq![sep] + rest) == Some((word, rest)),
{
    let s = word + seq![sep] + rest;
    let k = word.len() as int;
    assert forall|j: int| 0 <= j < k implies s[j] != ' ' && s[j] != '\n' by {
        assert(s[j] == word[j]);
    }
    assert(s[k] == sep);
    lemma_first_of_unique(s, ' ', '\n', k);
    assert(s.subrange(0, k) =~= word);
    assert(s.subrange(k + 1, s.len() as int) =~= rest);
}

/// Text holds a next word exactly when it holds a separator.
pub proof fn lemma_next_word_needs_separator(s: Seq<char>)
    ensures
        next_word(s) is Some <==> separator_count(s) > 0,
        next_word(s) matches Some((_, rest)) ==> separator_count(rest) == separator_count(s) - 1,
    decreases s.len(),
{
    lemma_first_of_bounds(s, ' ', '\n');
    if s.len() == 0 {
    } else if is_separator(s[0]) {
        assert(first_of(s, ' ', '\n') == 0);
        assert(s.subrange(1, s.len() as int) =~= s.drop_first());
    } else {
        let tail = s.drop_first();
        lemma_next_word_needs_separator(tail);
        lemma_first_of_bounds(tail, ' ', '\n');
        let k = first_of(tail, ' ', '\n');
        assert(first_of(s, ' ', '\n') == k + 1);
        if k < tail.len() {
            assert(s.subrange(k + 2, s.len() as int) =~= tail.subrange(k + 1, tail.len() as int));
        }
    }
}

/// Text is refused for want of a word exactly when it holds fewer than
/// three separators.
pub proof fn lemma_missing_word(s: Seq<char>)
    ensures
        parse_text(s) == Err::<RequestView, ParseError>(ParseError::InvalidRequest)
            <==> separator_count(s) < 3,
{
    lemma_next_word_needs_separator(s);
    if let Some((_, after_method)) = next_word(s) {
        lemma_next_word_needs_separator(after_method);
        if let Some((_, after_target)) = next_word(after_method) {
            lemma_next_word_needs_separator(after_target);
        }
    }
}

/// The empty buffer is UTF-8 text without a word, and is refused as such.
pub proof fn lemma_empty_buffer_holds_no_request()
    ensures
        parse_bytes(Seq::<u8>::empty()) == Err::<RequestView, ParseError>(
            ParseError::InvalidRequest,
        ),
{
    assert(decode_utf8(Seq::<u8>::empty()) =~= Seq::<char>::empty());
    lemma_missing_word(Seq::<char>::empty());
}

/// A target without a `?` is all path and has no query string.
pub proof fn lemma_target_without_query(path: Seq<char>)
    requires
        !path.contains('?'),
    ensures
        target_path(path) == path,
        target_query(path) is None,
{
    assert forall|j: int| 0 <= j < path.len() implies path[j] != '?' by {
        if path[j] == '?' {
            assert(path.contains('?'));
        }
    }
    lemma_first_of_unique(path, '?', '?', path.len() as int);
    assert(path.subrange(0, path.len() as int) =~= path);
}

/// A target made of a path without a `?`, a `?` and a query has that path
/// and that query string, whatever the query holds.
pub proof fn lemma_target_with_query(path: Seq<char>, query: Seq<char>)
    requires
        !path.contains('?'),
    ensures
        target_path(path + seq!['?'] + query) == path,
        target_query(path + seq!['?'] + query) == Some(query),
{
    let target = path + seq!['?'] + query;
    let k = path.len() as int;
    assert forall|j: int| 0 <= j < k implies target[j] != '?' by {
        assert(target[j] == path[j]);
        if path[j] == '?' {
            assert(path.contains('?'));
        }
    }
    assert(target[k] == '?');
    lemma_first_of_unique(target, '?', '?', k);
    assert(target.subrange(0, k) =~= path);
    assert(target.subrange(k + 1, target.len() as int) =~= query);
}

/// The path of a target never holds a `?`.
pub proof fn lemma_path_holds_no_question_mark(target: Seq<char>)
    ensures
        !target_path(target).contains('?'),
{
    lemma_first_of_bounds(target, '?', '?');
    let path = target_path(target);
    if path.contains('?') {
        let j = choose|j: int| 0 <= j < path.len() && path[j] == '?';
        assert(path[j] == target[j]);
    }
}

/// What the parser makes of a request line: the protocol is looked at
/// first, then the method, and the target is split at its first `?`. The
/// line is accepted exactly when the method is known and the protocol is
/// `HTTP/1.1`.
pub proof fn lemma_parse_request_line(
    method: Seq<char>,
    after_method: char,
    target: Seq<char>,
    after_target: char,
    protocol: Seq<char>,
    after_protocol: char,
    rest: Seq<char>,
)
    requires
        is_word(method),
        is_word(target),
        is_word(protocol),
        is_separator(after_method),
        is_separator(after_target),
        is_separator(after_protocol),
    ensures
        ({
            let line = request_line(
                method,
                after_method,
                target,
                after_target,
                protocol,
                after_protocol,
                rest,
            );
            &&& parse_bytes(encode_utf8(line)) == parse_text(line)
            &&& parse_text(line) is Ok <==> Method::from_token(method) is Some && protocol
                == "HTTP/1.1"@
            &&& parse_text(line) == if protocol != "HTTP/1.1"@ {
                Err::<RequestView, ParseError>(ParseError::InvalidProtocol)
            } else {
                match Method::from_token(method) {
                    None => Err::<RequestView, ParseError>(ParseError::InvalidMethod),
                    Some(m) => Ok::<RequestView, ParseError>(
                        RequestView {
                            method: m,
                            path: target_path(target),
                            query_string: target_query(target),
                        },
                    ),
                }
            }
        }),
{
    let line = request_line(
        method,
        after_method,
        target,
        after_target,
        protocol,
        after_protocol,
        rest,
    );
    let after_third = rest;
    let after_second = protocol + seq![after_protocol] + after_third;
    let after_first = target + seq![after_target] + after_second;
    assert(line =~= method + seq![after_method] + after_first);
    lemma_next_word_of_join(method, after_method, after_first);
    lemma_next_word_of_join(target, after_target, after_second);
    lemma_next_word_of_join(protocol, after_protocol, after_third);
    lemma_parse_encoded_text(line);
}

/// Parsing the bytes of a text is parsing the text.
pub proof fn lemma_parse_encoded_text(text: Seq<char>)
    ensures
        parse_bytes(encode_utf8(text)) == parse_text(text),
{
    encode_utf8_valid_utf8(text);
    encode_utf8_decode_utf8(text);
}

/// `GET {path} HTTP/1.1`, where the path is a word without a `?`, is read
/// as a `GET` of exactly that path, without a query string.
pub proof fn lemma_get_path_round_trip(path: Seq<char>, end: char, rest: Seq<char>)
    requires
        is_word(path),
        !path.contains('?'),
        is_separator(end),
    ensures
        parse_text(get_line(path, end, rest)) == Ok::<RequestView, ParseError>(
            RequestView { method: Method::GET, path: path, query_string: None },
        ),
        parse_bytes(encode_utf8(get_line(path, end, rest))) == parse_text(
            get_line(path, end, rest),
        ),
{
    lemma_get_line_is_request_line(path, end, rest);
    lemma_target_without_query(path);
    lemma_parse_encoded_text(get_line(path, end, rest));
}

/// `GET {path}?{query} HTTP/1.1`, where path and query are words and the
/// path holds no `?`, is read as a `GET` of exactly that path with exactly
/// that query string.
pub proof fn lemma_get_query_round_trip(
    path: Seq<char>,
    query: Seq<char>,
    end: char,
    rest: Seq<char>,
)
    requires
        is_word(path),
        is_word(query),
        !path.contains('?'),
        is_separator(end),
    ensures
        parse_text(get_line(path + seq!['?'] + query, end, rest)) == Ok::<RequestView, ParseError>(
            RequestView { method: Method::GET, path: path, query_string: Some(query) },
        ),
        parse_bytes(encode_utf8(get_line(path + seq!['?'] + query, end, rest))) == parse_text(
            get_line(path + seq!['?'] + query, end, rest),
        ),
{
    let target = path + seq!['?'] + query;
    assert forall|i: int| 0 <= i < target.len() implies !is_separator(#[trigger] target[i]) by {
        if i < path.len() {
            assert(target[i] == path[i]);
        } else if i > path.len() {
            assert(target[i] == query[i - path.len() - 1]);
        }
    }
    lemma_get_line_is_request_line(target, end, rest);
    lemma_target_with_query(path, query);
    lemma_parse_encoded_text(get_line(target, end, rest));
}

/// A `GET` line is a request line whose method is `GET` and whose protocol
/// is `HTTP/1.1`, so it is read as a `GET` of its target.
proof fn lemma_get_line_is_request_line(target: Seq<char>, end: char, rest: Seq<char>)
    requires
        is_word(target),
        is_separator(end),
    ensures
        parse_text(get_line(target, end, rest)) == Ok::<RequestView, ParseError>(
            RequestView {
                method: Method::GET,
                path: target_path(target),
                query_string: target_query(target),
            },
        ),
{
    reveal_strlit("GET ");
    reveal_strlit("GET");
    reveal_strlit(" HTTP/1.1");
    reveal_strlit("HTTP/1.1");
    let method = "GET"@;
    let protocol = "HTTP/1.1"@;
    assert("GET "@ =~= method + seq![' ']);
    assert(" HTTP/1.1"@ =~= seq![' '] + protocol);
    assert(get_line(target, end, rest) =~= request_line(
        method,
        ' ',
        target,
        ' ',
        protocol,
        end,
        rest,
    ));
    lemma_parse_request_line(method, ' ', target, ' ', protocol, end, rest);
}

} // verus!

//! Scanning text for ASCII delimiters.
//!
//! Text is modelled as a sequence of characters, while the executable code
//! walks the UTF-8 bytes of a `&str`. An ASCII byte never occurs inside the
//! encoding of another character, so the first delimiter byte marks the first
//! delimiter character, and both sides of it are well-formed text again. The
//! lemmas below make that precise.

use vstd::prelude::*;
use vstd::string::*;
use vstd::utf8::*;

verus! {

/// The position of the first character of `s` that is `a` or `b`, or the
/// length of `s` where neither occurs.
pub open spec fn first_of(s: Seq<char>, a: char, b: char) -> int
    decreases s.len(),
{
    if s.len() == 0 || s[0] == a || s[0] == b {
        0
    } else {
        1 + first_of(s.drop_first(), a, b)
    }
}

/// `first_of` is a position in `s` or its length; nothing before it is a
/// delimiter, and a delimiter stands at it unless it is the length.
pub proof fn lemma_first_of_bounds(s: Seq<char>, a: char, b: char)
    ensures
        0 <= first_of(s, a, b) <= s.len(),
        forall|j: int| 0 <= j < first_of(s, a, b) ==> s[j] != a && s[j] != b,
        first_of(s, a, b) < s.len() ==> s[first_of(s, a, b)] == a || s[first_of(s, a, b)] == b,
    decreases s.len(),
{
    if s.len() == 0 || s[0] == a || s[0] == b {
    } else {
        let rest = s.drop_first();
        lemma_first_of_bounds(rest, a, b);
        assert forall|j: int| 0 <= j < first_of(s, a, b) implies s[j] != a && s[j] != b by {
            if j > 0 {
                assert(s[j] == rest[j - 1]);
            }
        }
    }
}

/// A position with no delimiter before it, which holds a delimiter or is the
/// length of `s`, is `first_of`.
pub proof fn lemma_first_of_unique(s: Seq<char>, a: char, b: char, k: int)
    requires
        0 <= k <= s.len(),
        forall|j: int| 0 <= j < k ==> s[j] != a && s[j] != b,
        k < s.len() ==> s[k] == a || s[k] == b,
    ensures
        first_of(s, a, b) == k,
    decreases s.len(),
{
    if s.len() == 0 {
    } else if s[0] == a || s[0] == b {
        if k > 0 {
            assert(s[0] != a && s[0] != b);
        }
    } else {
        let rest = s.drop_first();
        assert forall|j: int| 0 <= j < k - 1 implies rest[j] != a && rest[j] != b by {
            assert(rest[j] == s[j + 1]);
        }
        lemma_first_of_unique(rest, a, b, k - 1);
    }
}

/// The encoding of an ASCII character is the one byte with its code; the
/// encoding of any other character holds no ASCII byte.
proof fn lemma_encode_scalar_ascii(c: char, x: u8)
    requires
        x < 0x80,
    ensures
        1 <= encode_scalar(c as u32).len() <= 4,
        c == x as char ==> encode_scalar(c as u32) =~= seq![x],
        c != x as char ==> !encode_scalar(c as u32).contains(x),
{
    let v = c as u32;
    let e = encode_scalar(v);
    if has_width_1_encoding(v) {
        assert(((v & 0x7F) as u8) as u32 == v) by (bit_vector)
            requires
                v <= 0x7F,
        ;
    } else {
        assert(forall|y: u8| #![auto] (0xC0u8 | y) >= 0x80u8) by (bit_vector);
        assert(forall|y: u8| #![auto] (0xE0u8 | y) >= 0x80u8) by (bit_vector);
        assert(forall|y: u8| #![auto] (0xF0u8 | y) >= 0x80u8) by (bit_vector);
        assert(forall|y: u8| #![auto] (0x80u8 | y) >= 0x80u8) by (bit_vector);
        assert(forall|j: int| 0 <= j < e.len() ==> e[j] >= 0x80u8);
    }
}

/// Where `i` is the first position of a delimiter byte in the encoding of
/// `cs` (or its length, where there is none), it corresponds to `first_of` in
/// `cs`, and the bytes on either side of it encode the characters on either
/// side of that delimiter.
pub proof fn lemma_first_delimiter_byte(cs: Seq<char>, a: u8, b: u8, i: int)
    requires
        a < 0x80,
        b < 0x80,
        0 <= i <= encode_utf8(cs).len(),
        forall|j: int| 0 <= j < i ==> encode_utf8(cs)[j] != a && encode_utf8(cs)[j] != b,
        i < encode_utf8(cs).len() ==> encode_utf8(cs)[i] == a || encode_utf8(cs)[i] == b,
    ensures
        0 <= first_of(cs, a as char, b as char) <= cs.len(),
        i == encode_utf8(cs).len() <==> first_of(cs, a as char, b as char) == cs.len(),
        i < encode_utf8(cs).len() ==> {
            let k = first_of(cs, a as char, b as char);
            &&& encode_utf8(cs.subrange(0, k)) == encode_utf8(cs).subrange(0, i)
            &&& encode_utf8(cs.subrange(k + 1, cs.len() as int)) == encode_utf8(cs).subrange(
                i + 1,
                encode_utf8(cs).len() as int,
            )
        },
    decreases cs.len(),
{
    let bs = encode_utf8(cs);
    let ca = a as char;
    let cb = b as char;
    if cs.len() == 0 {
    } else {
        let c = cs[0];
        let e = encode_scalar(c as u32);
        let rest = cs.drop_first();
        let rs = encode_utf8(rest);
        assert(bs == e + rs);
        lemma_encode_scalar_ascii(c, a);
        lemma_encode_scalar_ascii(c, b);
        if c == ca || c == cb {
            assert(bs[0] == e[0]);
            assert(i == 0);
            assert(cs.subrange(0, 0) =~= Seq::<char>::empty());
            assert(bs.subrange(0, 0) =~= Seq::<u8>::empty());
            assert(cs.subrange(1, cs.len() as int) =~= rest);
            assert(bs.subrange(1, bs.len() as int) =~= rs);
        } else {
            if i < e.len() {
                assert(bs[i] == e[i]);
                assert(e.contains(bs[i]));
                assert(false);
            }
            let i2 = i - e.len();
            assert forall|j: int| 0 <= j < i2 implies rs[j] != a && rs[j] != b by {
                assert(rs[j] == bs[j + e.len()]);
            }
            if i2 < rs.len() {
                assert(rs[i2] == bs[i]);
            }
            lemma_first_delimiter_byte(rest, a, b, i2);
            let k2 = first_of(rest, ca, cb);
            let k = first_of(cs, ca, cb);
            assert(k == k2 + 1);
            if i < bs.len() {
                let head = cs.subrange(0, k);
                assert(head[0] == c);
                assert(head.drop_first() =~= rest.subrange(0, k2));
                assert(encode_utf8(head) == e + encode_utf8(rest.subrange(0, k2)));
                assert(e + rs.subrange(0, i2) =~= bs.subrange(0, i));
                assert(cs.subrange(k + 1, cs.len() as int) =~= rest.subrange(
                    k2 + 1,
                    rest.len() as int,
                ));
                assert(rs.subrange(i2 + 1, rs.len() as int) =~= bs.subrange(
                    i + 1,
                    bs.len() as int,
                ));
            }
        }
    }
}

/// Two texts with the same encoding are the same text.
pub proof fn lemma_encode_utf8_injective(x: Seq<char>, y: Seq<char>)
    requires
        encode_utf8(x) == encode_utf8(y),
    ensures
        x == y,
{
    encode_utf8_decode_utf8(x);
    encode_utf8_decode_utf8(y);
}

/// Splits `s` at the first occurrence of one of two ASCII delimiters: the
/// text before it and the text after it, or `None` where neither occurs. The
/// delimiter itself belongs to neither part. For a single delimiter, pass it
/// twice.
pub fn split_at_first<'a>(s: &'a str, a: u8, b: u8) -> (r: Option<(&'a str, &'a str)>)
    requires
        a < 0x80,
        b < 0x80,
    ensures
        r is None <==> first_of(s@, a as char, b as char) >= s@.len(),
        r matches Some((head, tail)) ==> {
            let k = first_of(s@, a as char, b as char);
            &&& 0 <= k < s@.len()
            &&& head@ == s@.subrange(0, k)
            &&& tail@ == s@.subrange(k + 1, s@.len() as int)
        },
{
    let bytes = s.as_bytes();
    let n = bytes.len();
    let mut i: usize = 0;
    while i < n
        invariant
            a < 0x80,
            b < 0x80,
            n == bytes@.len(),
            bytes@ == encode_utf8(s@),
            0 <= i <= n,
            forall|j: int| 0 <= j < i ==> bytes@[j] != a && bytes@[j] != b,
        decreases n - i,
    {
        if bytes[i] == a || bytes[i] == b {
            proof {
                encode_utf8_valid_utf8(s@);
                is_char_boundary_iff_not_is_continuation_byte(bytes@, i as int);
                lemma_first_delimiter_byte(s@, a, b, i as int);
            }
            let (head, rest) = s.split_at(i);
            proof {
                let from = bytes@.subrange(i as int, n as int);
                assert(rest.spec_bytes() == from);
                encode_utf8_valid_utf8(rest@);
                assert(from[0] == bytes@[i as int]);
                assert(is_char_boundary(from, 1)) by {
                    reveal_with_fuel(is_char_boundary, 2);
                    reveal_with_fuel(valid_utf8, 2);
                }
            }
            let (_, tail) = rest.split_at(1);
            proof {
                let k = first_of(s@, a as char, b as char);
                assert(tail.spec_bytes() =~= bytes@.subrange(i + 1, n as int));
                assert(head.spec_bytes() =~= bytes@.subrange(0, i as int));
                lemma_encode_utf8_injective(head@, s@.subrange(0, k));
                lemma_encode_utf8_injective(tail@, s@.subrange(k + 1, s@.len() as int));
            }
            return Some((head, tail));
        }
        i += 1;
    }
    proof {
        lemma_first_delimiter_byte(s@, a, b, n as int);
    }
    None
}

/// Whether two strings hold the same text.
pub fn same_text(x: &str, y: &str) -> (r: bool)
    ensures
        r == (x@ == y@),
{
    let xb = x.as_bytes();
    let yb = y.as_bytes();
    if xb.len() != yb.len() {
        return false;
    }
    let n = xb.len();
    let mut i: usize = 0;
    while i < n
        invariant
            n == xb@.len(),
            n == yb@.len(),
            xb@ == encode_utf8(x@),
            yb@ == encode_utf8(y@),
            0 <= i <= n,
            forall|j: int| 0 <= j < i ==> xb@[j] == yb@[j],
        decreases n - i,
    {
        if xb[i] != yb[i] {
            return false;
        }
        i += 1;
    }
    proof {
        assert(xb@ =~= yb@);
        lemma_encode_utf8_injective(x@, y@);
    }
    true
}

} // verus!

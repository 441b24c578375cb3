//! Text helpers: string comparison, HTML escaping and query-string encoding.

use vstd::prelude::*;
use vstd::string::{StrSliceExecFns, StringExecFns, StringSliceAdditionalSpecFns};

verus! {

/// Appends one character to a string.
///
/// Trusted: calls std's `String::push`, which adds `c` at the end.
#[verifier::external_body]
pub(crate) fn push_char(s: &mut String, c: char)
    ensures
        final(s)@ == old(s)@.push(c),
{
    s.push(c);
}

/// Whether two string slices hold the same characters.
pub fn str_eq(a: &str, b: &str) -> (r: bool)
    ensures
        r == (a@ == b@),
{
    let ab = a.as_bytes();
    let bb = b.as_bytes();
    if ab.len() != bb.len() {
        return false;
    }
    let mut i: usize = 0;
    while i < ab.len()
        invariant
            i <= ab@.len(),
            ab@.len() == bb@.len(),
            ab@ == a.spec_bytes(),
            bb@ == b.spec_bytes(),
            forall|j: int| 0 <= j < i ==> ab@[j] == bb@[j],
        decreases ab@.len() - i,
    {
        if ab[i] != bb[i] {
            return false;
        }
        i += 1;
    }
    proof {
        assert(ab@ =~= bb@);
        vstd::utf8::encode_utf8_decode_utf8(a@);
        vstd::utf8::encode_utf8_decode_utf8(b@);
    }
    true
}

/// The HTML entity that stands for one character, or the character itself.
pub open spec fn html_escape_char(c: char) -> Seq<char> {
    if c == '&' {
        "&amp;"@
    } else if c == '<' {
        "&lt;"@
    } else if c == '>' {
        "&gt;"@
    } else if c == '"' {
        "&quot;"@
    } else if c == '\'' {
        "&#39;"@
    } else {
        seq![c]
    }
}

/// A text with `& < > " '` replaced by their HTML entities.
pub open spec fn html_escaped(s: Seq<char>) -> Seq<char>
    decreases s.len(),
{
    if s.len() == 0 {
        seq![]
    } else {
        html_escaped(s.drop_last()) + html_escape_char(s.last())
    }
}

/// Escapes `s` for use in HTML text and attribute values.
pub fn html_escape(s: &str) -> (out: String)
    ensures
        out@ == html_escaped(s@),
        html_unescaped(out@) == s@,
{
    let mut out = String::new();
    let ghost chars = s@;
    for c in it: s.chars()
        invariant
            chars == s@,
            it.seq() == chars,
            out@ == html_escaped(chars.take(it.index() as int)),
    {
        assert(chars.take(it.index() + 1).drop_last() =~= chars.take(it.index() as int));
        if c == '&' {
            out.append("&amp;");
        } else if c == '<' {
            out.append("&lt;");
        } else if c == '>' {
            out.append("&gt;");
        } else if c == '"' {
            out.append("&quot;");
        } else if c == '\'' {
            out.append("&#39;");
        } else {
            push_char(&mut out, c);
        }
    }
    assert(chars.take(chars.len() as int) =~= chars);
    proof {
        lemma_html_unescape_escape(s@);
    }
    out
}

/// Whether a byte is sent as itself in a query string: an ASCII letter or
/// digit, or one of `- _ . ~`.
pub open spec fn is_unreserved(b: u8) -> bool {
    ||| 0x30 <= b <= 0x39
    ||| 0x41 <= b <= 0x5A
    ||| 0x61 <= b <= 0x7A
    ||| b == 0x2D
    ||| b == 0x5F
    ||| b == 0x2E
    ||| b == 0x7E
}

/// The upper-case hexadecimal digit for a value below 16.
pub open spec fn hex_digit(n: u8) -> char {
    if n < 10 {
        (48 + n) as char
    } else {
        (55 + n) as char
    }
}

/// One byte of a query-string value: itself when unreserved, else `%XX`.
pub open spec fn url_encode_byte(b: u8) -> Seq<char> {
    if is_unreserved(b) {
        seq![b as char]
    } else {
        seq!['%', hex_digit(b / 16), hex_digit(b % 16)]
    }
}

/// The percent-encoding of a byte sequence, byte by byte.
pub open spec fn url_encoded(bytes: Seq<u8>) -> Seq<char>
    decreases bytes.len(),
{
    if bytes.len() == 0 {
        seq![]
    } else {
        url_encoded(bytes.drop_last()) + url_encode_byte(bytes.last())
    }
}

fn hex_digit_char(n: u8) -> (c: char)
    requires
        n < 16,
    ensures
        c == hex_digit(n),
{
    if n < 10 {
        (n + 48) as char
    } else {
        (n + 55) as char
    }
}

/// Percent-encodes the UTF-8 bytes of `s` for a query string.
pub fn urlencode(s: &str) -> (out: String)
    ensures
        out@ == url_encoded(s.spec_bytes()),
        url_decoded(out@) == s.spec_bytes(),
{
    let bytes = s.as_bytes();
    let mut out = String::new();
    let mut i: usize = 0;
    while i < bytes.len()
        invariant
            bytes@ == s.spec_bytes(),
            i <= bytes@.len(),
            out@ == url_encoded(bytes@.take(i as int)),
        decreases bytes@.len() - i,
    {
        let b = bytes[i];
        assert(bytes@.take(i + 1).drop_last() =~= bytes@.take(i as int));
        let unreserved = (0x30 <= b && b <= 0x39) || (0x41 <= b && b <= 0x5A) || (0x61 <= b && b
            <= 0x7A) || b == 0x2D || b == 0x5F || b == 0x2E || b == 0x7E;
        if unreserved {
            push_char(&mut out, b as char);
        } else {
            push_char(&mut out, '%');
            push_char(&mut out, hex_digit_char(b / 16));
            push_char(&mut out, hex_digit_char(b % 16));
        }
        i += 1;
    }
    assert(bytes@.take(bytes@.len() as int) =~= bytes@);
    proof {
        lemma_url_decode_encode(bytes@);
    }
    out
}

/// The value of an upper-case hexadecimal digit.
pub open spec fn hex_value(c: char) -> int {
    if '0' <= c <= '9' {
        c as int - 48
    } else {
        c as int - 55
    }
}

/// Percent-decoding, read from the front: `%XY` stands for the byte with hex
/// value `XY`, and any other character for its own code.
pub open spec fn url_decoded(s: Seq<char>) -> Seq<u8>
    decreases s.len(),
{
    if s.len() == 0 {
        seq![]
    } else if s[0] == '%' && s.len() >= 3 {
        seq![(hex_value(s[1]) * 16 + hex_value(s[2])) as u8] + url_decoded(s.skip(3))
    } else {
        seq![s[0] as u8] + url_decoded(s.skip(1))
    }
}

/// Whether `s` starts with the characters `p`.
pub open spec fn starts_with(s: Seq<char>, p: Seq<char>) -> bool {
    s.len() >= p.len() && s.take(p.len() as int) == p
}

/// HTML-unescaping, read from the front: each of the five entities written by
/// `html_escape` stands for its character, and any other character for itself.
pub open spec fn html_unescaped(s: Seq<char>) -> Seq<char>
    decreases s.len(),
{
    if s.len() == 0 {
        seq![]
    } else if starts_with(s, seq!['&', 'a', 'm', 'p', ';']) {
        seq!['&'] + html_unescaped(s.skip(5))
    } else if starts_with(s, seq!['&', 'l', 't', ';']) {
        seq!['<'] + html_unescaped(s.skip(4))
    } else if starts_with(s, seq!['&', 'g', 't', ';']) {
        seq!['>'] + html_unescaped(s.skip(4))
    } else if starts_with(s, seq!['&', 'q', 'u', 'o', 't', ';']) {
        seq!['"'] + html_unescaped(s.skip(6))
    } else if starts_with(s, seq!['&', '#', '3', '9', ';']) {
        seq!['\''] + html_unescaped(s.skip(5))
    } else {
        seq![s[0]] + html_unescaped(s.skip(1))
    }
}
/// A character that ends or opens markup or an attribute value in HTML.
pub open spec fn is_markup_char(c: char) -> bool {
    c == '<' || c == '>' || c == '"' || c == '\''
}

/// HTML-escaped text holds no character that could end or open markup or an
/// attribute value.
pub proof fn lemma_html_escaped_has_no_markup(s: Seq<char>)
    ensures
        forall|i: int| 0 <= i < html_escaped(s).len() ==> !is_markup_char(#[trigger] html_escaped(s)[i]),
    decreases s.len(),
{
    if s.len() > 0 {
        lemma_html_escaped_has_no_markup(s.drop_last());
        reveal_strlit("&amp;");
        reveal_strlit("&lt;");
        reveal_strlit("&gt;");
        reveal_strlit("&quot;");
        reveal_strlit("&#39;");
        let head = html_escaped(s.drop_last());
        let tail = html_escape_char(s.last());
        assert forall|i: int| 0 <= i < tail.len() implies !is_markup_char(#[trigger] tail[i]) by {}
        assert(html_escaped(s) == head + tail);
    }
}

/// A character that may stand in a query-string value as it is: an ASCII
/// letter or digit, one of `- _ . ~`, or the `%` of an escape.
pub open spec fn is_query_safe_char(c: char) -> bool {
    ||| 'A' <= c <= 'Z'
    ||| 'a' <= c <= 'z'
    ||| '0' <= c <= '9'
    ||| c == '-'
    ||| c == '_'
    ||| c == '.'
    ||| c == '~'
    ||| c == '%'
}

proof fn lemma_hex_digit_is_query_safe(n: u8)
    requires
        n < 16,
    ensures
        is_query_safe_char(hex_digit(n)),
{
}

/// Percent-encoded text holds only query-safe characters.
pub proof fn lemma_url_encoded_is_query_safe(bytes: Seq<u8>)
    ensures
        forall|i: int| 0 <= i < url_encoded(bytes).len() ==> is_query_safe_char(#[trigger] url_encoded(bytes)[i]),
    decreases bytes.len(),
{
    if bytes.len() > 0 {
        lemma_url_encoded_is_query_safe(bytes.drop_last());
        let b = bytes.last();
        lemma_hex_digit_is_query_safe(b / 16);
        lemma_hex_digit_is_query_safe(b % 16);
        let head = url_encoded(bytes.drop_last());
        let tail = url_encode_byte(b);
        assert forall|i: int| 0 <= i < tail.len() implies is_query_safe_char(#[trigger] tail[i]) by {}
        assert(url_encoded(bytes) == head + tail);
    }
}

proof fn lemma_unreserved_bytes_encode_as_themselves(bytes: Seq<u8>)
    requires
        forall|i: int| 0 <= i < bytes.len() ==> is_unreserved(#[trigger] bytes[i]),
    ensures
        url_encoded(bytes) == Seq::new(bytes.len(), |i: int| bytes[i] as char),
    decreases bytes.len(),
{
    if bytes.len() > 0 {
        let rest = bytes.drop_last();
        assert forall|i: int| 0 <= i < rest.len() implies is_unreserved(#[trigger] rest[i]) by {
            assert(rest[i] == bytes[i]);
        }
        lemma_unreserved_bytes_encode_as_themselves(rest);
        assert(is_unreserved(bytes[bytes.len() - 1]));
        assert(url_encoded(bytes) =~= Seq::new(bytes.len(), |i: int| bytes[i] as char));
    }
}


/// A character that a query-string value keeps as it is: an ASCII letter or
/// digit, or one of `- _ . ~`.
pub open spec fn is_unreserved_char(c: char) -> bool {
    ||| 'A' <= c <= 'Z'
    ||| 'a' <= c <= 'z'
    ||| '0' <= c <= '9'
    ||| c == '-'
    ||| c == '_'
    ||| c == '.'
    ||| c == '~'
}

/// Text made of unreserved characters goes into a query string unchanged.
pub proof fn lemma_unreserved_text_is_unchanged(t: Seq<char>)
    requires
        forall|i: int| 0 <= i < t.len() ==> is_unreserved_char(#[trigger] t[i]),
    ensures
        url_encoded(vstd::utf8::encode_utf8(t)) == t,
{
    assert(vstd::utf8::is_ascii_chars(t));
    vstd::utf8::is_ascii_chars_encode_utf8(t);
    let bytes = vstd::utf8::encode_utf8(t);
    assert forall|i: int| 0 <= i < bytes.len() implies is_unreserved(#[trigger] bytes[i]) by {
        assert(bytes[i] == t[i] as u8);
        assert(is_unreserved_char(t[i]));
    }
    lemma_unreserved_bytes_encode_as_themselves(bytes);
    assert(url_encoded(bytes) =~= t) by {
        assert forall|i: int| 0 <= i < t.len() implies #[trigger] url_encoded(bytes)[i] == t[i] by {
            assert(bytes[i] == t[i] as u8);
        }
    }
}

/// Percent-encoding distributes over concatenation.
pub proof fn lemma_url_encoded_append(x: Seq<u8>, y: Seq<u8>)
    ensures
        url_encoded(x + y) == url_encoded(x) + url_encoded(y),
    decreases y.len(),
{
    if y.len() == 0 {
        assert(x + y =~= x);
        assert(url_encoded(x) + url_encoded(y) =~= url_encoded(x));
    } else {
        lemma_url_encoded_append(x, y.drop_last());
        assert((x + y).drop_last() =~= x + y.drop_last());
        assert((x + y).last() == y.last());
        assert(url_encoded(x + y) == url_encoded(x + y.drop_last()) + url_encode_byte(y.last()));
        assert(url_encoded(x) + url_encoded(y) =~= url_encoded(x) + url_encoded(y.drop_last())
            + url_encode_byte(y.last()));
    }
}

proof fn lemma_hex_digit_value(n: u8)
    requires
        n < 16,
    ensures
        hex_value(hex_digit(n)) == n,
        hex_digit(n) != '%',
{
}

/// Percent-decoding gives back the bytes that were encoded.
pub proof fn lemma_url_decode_encode(bytes: Seq<u8>)
    ensures
        url_decoded(url_encoded(bytes)) == bytes,
    decreases bytes.len(),
{
    if bytes.len() > 0 {
        let b = bytes[0];
        let rest = bytes.skip(1);
        assert(bytes =~= seq![b] + rest);
        lemma_url_encoded_append(seq![b], rest);
        let one = seq![b];
        assert(one.drop_last() =~= Seq::<u8>::empty());
        assert(url_encoded(one.drop_last()).len() == 0);
        assert(url_encoded(one) == url_encoded(one.drop_last()) + url_encode_byte(one.last()));
        assert(url_encoded(one) =~= url_encode_byte(b));
        lemma_url_decode_encode(rest);
        let e = url_encode_byte(b);
        let s = e + url_encoded(rest);
        if is_unreserved(b) {
            assert(s[0] == b as char);
            assert(s.skip(1) =~= url_encoded(rest));
            assert((b as char) as u8 == b);
        } else {
            lemma_hex_digit_value(b / 16);
            lemma_hex_digit_value(b % 16);
            assert(s[0] == '%' && s[1] == hex_digit(b / 16) && s[2] == hex_digit(b % 16));
            assert(s.skip(3) =~= url_encoded(rest));
            assert(((hex_value(s[1]) * 16 + hex_value(s[2])) as u8) == b);
        }
        assert(url_decoded(s) =~= bytes);
    }
}

/// Percent-encoding of text is injective: two texts with the same encoding
/// are the same text.
pub proof fn lemma_url_encoding_injective(s1: Seq<char>, s2: Seq<char>)
    requires
        url_encoded(vstd::utf8::encode_utf8(s1)) == url_encoded(vstd::utf8::encode_utf8(s2)),
    ensures
        s1 == s2,
{
    lemma_url_decode_encode(vstd::utf8::encode_utf8(s1));
    lemma_url_decode_encode(vstd::utf8::encode_utf8(s2));
    vstd::utf8::encode_utf8_decode_utf8(s1);
    vstd::utf8::encode_utf8_decode_utf8(s2);
}

/// HTML escaping distributes over concatenation.
pub proof fn lemma_html_escaped_append(x: Seq<char>, y: Seq<char>)
    ensures
        html_escaped(x + y) == html_escaped(x) + html_escaped(y),
    decreases y.len(),
{
    if y.len() == 0 {
        assert(x + y =~= x);
        assert(html_escaped(x) + html_escaped(y) =~= html_escaped(x));
    } else {
        lemma_html_escaped_append(x, y.drop_last());
        assert((x + y).drop_last() =~= x + y.drop_last());
        assert((x + y).last() == y.last());
        assert(html_escaped(x) + html_escaped(y) =~= html_escaped(x) + html_escaped(y.drop_last())
            + html_escape_char(y.last()));
    }
}

/// One of the five characters that HTML escaping replaces.
pub open spec fn is_html_special(c: char) -> bool {
    c == '&' || c == '<' || c == '>' || c == '"' || c == '\''
}

/// Unescaping gives back the text that was escaped.
pub proof fn lemma_html_unescape_escape(s: Seq<char>)
    ensures
        html_unescaped(html_escaped(s)) == s,
    decreases s.len(),
{
    if s.len() > 0 {
        let c = s[0];
        let rest = s.skip(1);
        assert(s =~= seq![c] + rest);
        lemma_html_escaped_append(seq![c], rest);
        let one = seq![c];
        assert(one.drop_last() =~= Seq::<char>::empty());
        assert(html_escaped(one.drop_last()).len() == 0);
        assert(html_escaped(one) == html_escaped(one.drop_last()) + html_escape_char(one.last()));
        assert(html_escaped(one) =~= html_escape_char(c));
        lemma_html_unescape_escape(rest);
        let amp = seq!['&', 'a', 'm', 'p', ';'];
        let lt = seq!['&', 'l', 't', ';'];
        let gt = seq!['&', 'g', 't', ';'];
        let quot = seq!['&', 'q', 'u', 'o', 't', ';'];
        let apos = seq!['&', '#', '3', '9', ';'];
        assert("&amp;"@ =~= amp) by {
            reveal_strlit("&amp;");
        }
        assert("&lt;"@ =~= lt) by {
            reveal_strlit("&lt;");
        }
        assert("&gt;"@ =~= gt) by {
            reveal_strlit("&gt;");
        }
        assert("&quot;"@ =~= quot) by {
            reveal_strlit("&quot;");
        }
        assert("&#39;"@ =~= apos) by {
            reveal_strlit("&#39;");
        }
        let e = html_escape_char(c);
        let er = html_escaped(rest);
        let t = e + er;
        assert(html_escaped(s) == t);
        assert(t.take(e.len() as int) =~= e);
        assert(t.skip(e.len() as int) =~= er);
        if c == '&' {
            assert(starts_with(t, amp));
            assert(html_unescaped(t) == seq!['&'] + html_unescaped(t.skip(5)));
        } else if c == '<' {
            assert(t[1] == 'l');
            if t.len() >= 5 {
                assert(t.take(5)[1] == t[1]);
            }
            assert(!starts_with(t, amp));
            assert(starts_with(t, lt));
            assert(html_unescaped(t) == seq!['<'] + html_unescaped(t.skip(4)));
        } else if c == '>' {
            assert(t[1] == 'g');
            if t.len() >= 5 {
                assert(t.take(5)[1] == t[1]);
            }
            if t.len() >= 4 {
                assert(t.take(4)[1] == t[1]);
            }
            assert(!starts_with(t, amp));
            assert(!starts_with(t, lt));
            assert(starts_with(t, gt));
            assert(html_unescaped(t) == seq!['>'] + html_unescaped(t.skip(4)));
        } else if c == '"' {
            assert(t[1] == 'q');
            if t.len() >= 5 {
                assert(t.take(5)[1] == t[1]);
            }
            if t.len() >= 4 {
                assert(t.take(4)[1] == t[1]);
            }
            assert(!starts_with(t, amp));
            assert(!starts_with(t, lt));
            assert(!starts_with(t, gt));
            assert(starts_with(t, quot));
            assert(html_unescaped(t) == seq!['"'] + html_unescaped(t.skip(6)));
        } else if c == '\'' {
            assert(t[1] == '#');
            if t.len() >= 5 {
                assert(t.take(5)[1] == t[1]);
            }
            if t.len() >= 4 {
                assert(t.take(4)[1] == t[1]);
            }
            if t.len() >= 6 {
                assert(t.take(6)[1] == t[1]);
            }
            assert(!starts_with(t, amp));
            assert(!starts_with(t, lt));
            assert(!starts_with(t, gt));
            assert(!starts_with(t, quot));
            assert(starts_with(t, apos));
            assert(html_unescaped(t) == seq!['\''] + html_unescaped(t.skip(5)));
        } else {
            assert(e =~= seq![c]);
            assert(t[0] == c);
            if t.len() >= 4 {
                assert(t.take(4)[0] == t[0]);
            }
            if t.len() >= 5 {
                assert(t.take(5)[0] == t[0]);
            }
            if t.len() >= 6 {
                assert(t.take(6)[0] == t[0]);
            }
            assert(!starts_with(t, amp));
            assert(!starts_with(t, lt));
            assert(!starts_with(t, gt));
            assert(!starts_with(t, quot));
            assert(!starts_with(t, apos));
            assert(html_unescaped(t) == seq![c] + html_unescaped(t.skip(1)));
        }
        assert(html_unescaped(t) =~= s);
    }
}

/// HTML escaping is injective: two texts with the same escaping are the same
/// text.
pub proof fn lemma_html_escaping_injective(s1: Seq<char>, s2: Seq<char>)
    requires
        html_escaped(s1) == html_escaped(s2),
    ensures
        s1 == s2,
{
    lemma_html_unescape_escape(s1);
    lemma_html_unescape_escape(s2);
}

/// Text without any of `& < > " '` is left as it is by HTML escaping.
pub proof fn lemma_plain_text_is_not_escaped(s: Seq<char>)
    requires
        forall|i: int| 0 <= i < s.len() ==> !is_html_special(#[trigger] s[i]),
    ensures
        html_escaped(s) == s,
    decreases s.len(),
{
    if s.len() > 0 {
        assert(!is_html_special(s[s.len() - 1]));
        lemma_plain_text_is_not_escaped(s.drop_last());
        assert(html_escaped(s) =~= s);
    }
}

} // verus!

//! The socket wire format.
//!
//! Inbound (client to server) text frames carry a JSON object
//! `{"receiver_id": <identity text>, "content": <string>, "image_url":
//! <string or null>}`; the `image_url` member may be absent. Outbound
//! (server to client) frames carry the JSON rendering of a stored message.
//! Frames are parsed and rendered here, character by character, against
//! the grammar spelled out by the spec functions; malformed inbound text
//! is reported as no frame at all, which the session layer ignores
//! silently.

use vstd::prelude::*;
use vstd::string::StrSliceExecFns;

use crate::ids::{
    hex_lower_char, is_hex_digit, hex_digit_val, parse_uuid, spec_parse_uuid, spec_uuid_text,
    uuid_chars,
};
use crate::message::{Message, MessageView, UserId};

verus! {

// ---------------------------------------------------------------------
// Characters of strings, strings from characters
// ---------------------------------------------------------------------

/// The characters of a string slice, in order.
pub fn str_to_chars(s: &str) -> (r: Vec<char>)
    ensures
        r@ == s@,
{
    let n = s.unicode_len();
    let mut out: Vec<char> = Vec::new();
    let mut i: usize = 0;
    while i < n
        invariant
            i <= n,
            n == s@.len(),
            out@ == s@.take(i as int),
        decreases n - i,
    {
        out.push(s.get_char(i));
        proof {
            assert(out@ =~= s@.take(i + 1));
        }
        i += 1;
    }
    proof {
        assert(s@.take(n as int) =~= s@);
    }
    out
}

/// Relies on String::push: pushing the characters in order builds the
/// string holding exactly those characters.
#[verifier::external_body]
pub(crate) fn chars_to_string(v: &Vec<char>) -> (r: String)
    ensures
        r@ == v@,
{
    let mut s = String::new();
    for c in v.iter() {
        s.push(*c);
    }
    s
}

/// Append the characters of `s` to `out`.
pub(crate) fn push_str_chars(out: &mut Vec<char>, s: &str)
    ensures
        final(out)@ == old(out)@ + s@,
{
    let mut cs = str_to_chars(s);
    out.append(&mut cs);
}


/// An owned copy of a string slice.
pub(crate) fn copy_str(s: &str) -> (r: String)
    ensures
        r@ == s@,
{
    let v = str_to_chars(s);
    chars_to_string(&v)
}

// ---------------------------------------------------------------------
// JSON string escaping
// ---------------------------------------------------------------------

/// How a character appears inside a JSON string literal: short escapes
/// for the quote, the backslash and the common control characters,
/// `\u00XX` for the remaining control characters, the character itself
/// otherwise.
pub open spec fn spec_escape_char(c: char) -> Seq<char> {
    if c == '"' {
        seq!['\\', '"']
    } else if c == '\\' {
        seq!['\\', '\\']
    } else if c == '\n' {
        seq!['\\', 'n']
    } else if c == '\r' {
        seq!['\\', 'r']
    } else if c == '\t' {
        seq!['\\', 't']
    } else if (c as u32) < 0x20 {
        seq![
            '\\',
            'u',
            '0',
            '0',
            hex_lower_char(((c as u32) >> 4) as u128),
            hex_lower_char(((c as u32) & 0xf) as u128),
        ]
    } else {
        seq![c]
    }
}

/// A character sequence rendered as the body of a JSON string literal.
pub open spec fn spec_escape_string(s: Seq<char>) -> Seq<char> {
    s.flat_map(|c: char| spec_escape_char(c))
}

/// The lowercase hex character of a digit value.
fn hex_lower(n: u128) -> (c: char)
    requires
        n <= 0xf,
    ensures
        c == hex_lower_char(n),
{
    if n < 10 {
        ((n as u8) + 0x30) as char
    } else {
        ((n as u8) + 0x57) as char
    }
}

/// Append the escaped rendering of `s` to `out`.
fn push_escaped(out: &mut Vec<char>, s: &Vec<char>)
    ensures
        final(out)@ == old(out)@ + spec_escape_string(s@),
{
    let ghost base = out@;
    let mut i: usize = 0;
    while i < s.len()
        invariant
            i <= s@.len(),
            out@ == base + spec_escape_string(s@.take(i as int)),
        decreases s@.len() - i,
    {
        let c = s[i];
        let cu = c as u32;
        if c == '"' {
            out.push('\\');
            out.push('"');
        } else if c == '\\' {
            out.push('\\');
            out.push('\\');
        } else if c == '\n' {
            out.push('\\');
            out.push('n');
        } else if c == '\r' {
            out.push('\\');
            out.push('r');
        } else if c == '\t' {
            out.push('\\');
            out.push('t');
        } else if cu < 0x20 {
            proof {
                assert((cu >> 4) <= 0xf && (cu & 0xf) <= 0xf) by (bit_vector)
                    requires
                        cu < 0x20,
                ;
            }
            out.push('\\');
            out.push('u');
            out.push('0');
            out.push('0');
            out.push(hex_lower((cu >> 4) as u128));
            out.push(hex_lower((cu & 0xf) as u128));
        } else {
            out.push(c);
        }
        proof {
            broadcast use vstd::prelude::Seq::lemma_flat_map_take_append;

            assert(s@.take(i + 1).drop_last() =~= s@.take(i as int));
            assert(s@.take(i + 1).last() == s@[i as int]);
            assert(spec_escape_string(s@.take(i + 1)) =~= spec_escape_string(s@.take(i as int))
                + spec_escape_char(s@[i as int]));
            assert(out@ =~= base + spec_escape_string(s@.take(i + 1)));
        }
        i += 1;
    }
    proof {
        assert(s@.take(s@.len() as int) =~= s@);
    }
}

// ---------------------------------------------------------------------
// Decimal rendering
// ---------------------------------------------------------------------

/// The decimal digit character of a value below ten.
pub open spec fn dec_digit(n: int) -> char {
    ((n + 0x30) as u8) as char
}

/// The decimal digits of a nonnegative number, most significant first.
pub open spec fn spec_dec_digits(n: int) -> Seq<char>
    decreases n,
{
    if n < 10 {
        seq![dec_digit(n)]
    } else {
        spec_dec_digits(n / 10).push(dec_digit(n % 10))
    }
}

/// The decimal rendering of a signed number.
pub open spec fn spec_dec_signed(n: int) -> Seq<char> {
    if n < 0 {
        seq!['-'] + spec_dec_digits(-n)
    } else {
        spec_dec_digits(n)
    }
}

/// Append the decimal digits of `n` to `out`.
fn push_dec_u64(out: &mut Vec<char>, n: u64)
    ensures
        final(out)@ == old(out)@ + spec_dec_digits(n as int),
    decreases n,
{
    if n < 10 {
        out.push(((n as u8) + 0x30) as char);
        proof {
            assert(final(out)@ =~= old(out)@ + spec_dec_digits(n as int));
        }
    } else {
        push_dec_u64(out, n / 10);
        out.push((((n % 10) as u8) + 0x30) as char);
        proof {
            assert(final(out)@ =~= old(out)@ + spec_dec_digits(n as int));
        }
    }
}

/// Append the decimal rendering of the signed `n` to `out`.
fn push_dec_i64(out: &mut Vec<char>, n: i64)
    ensures
        final(out)@ == old(out)@ + spec_dec_signed(n as int),
{
    if n < 0 {
        out.push('-');
        let m: u64 = (-(n as i128)) as u64;
        push_dec_u64(out, m);
        proof {
            assert(final(out)@ =~= old(out)@ + spec_dec_signed(n as int));
        }
    } else {
        push_dec_u64(out, n as u64);
    }
}

// ---------------------------------------------------------------------
// Outbound frames
// ---------------------------------------------------------------------

/// The outbound frame for a message, as the receiver's socket sees it: a
/// JSON object carrying the stored record's fields, with identities in
/// their canonical text form and timestamps as integers.
pub open spec fn spec_outbound_json(m: MessageView) -> Seq<char> {
    "{\"id\":"@ + spec_dec_digits(m.id) + ",\"sender_id\":\""@ + spec_uuid_text(
        m.sender_id as u128,
    ) + "\",\"receiver_id\":\""@ + spec_uuid_text(m.receiver_id as u128) + "\",\"content\":\""@
        + spec_escape_string(m.content) + "\",\"image_url\":"@ + (match m.image_url {
        Some(u) => "\""@ + spec_escape_string(u) + "\""@,
        None => "null"@,
    }) + ",\"is_read\":"@ + (if m.is_read {
        "true"@
    } else {
        "false"@
    }) + ",\"created_at\":"@ + spec_dec_signed(m.created_at) + "}"@
}

/// Render the outbound frame for `m`.
pub fn serialize_outbound(m: &Message) -> (r: String)
    ensures
        r@ == spec_outbound_json(m@),
{
    let mut out: Vec<char> = Vec::new();
    push_str_chars(&mut out, "{\"id\":");
    push_dec_u64(&mut out, m.id);
    push_str_chars(&mut out, ",\"sender_id\":\"");
    let mut sid = uuid_chars(m.sender_id);
    out.append(&mut sid);
    push_str_chars(&mut out, "\",\"receiver_id\":\"");
    let mut rid = uuid_chars(m.receiver_id);
    out.append(&mut rid);
    push_str_chars(&mut out, "\",\"content\":\"");
    let content_chars = str_to_chars(m.content.as_str());
    push_escaped(&mut out, &content_chars);
    push_str_chars(&mut out, "\",\"image_url\":");
    match &m.image_url {
        Some(u) => {
            push_str_chars(&mut out, "\"");
            let url_chars = str_to_chars(u.as_str());
            push_escaped(&mut out, &url_chars);
            push_str_chars(&mut out, "\"");
        }
        None => {
            push_str_chars(&mut out, "null");
        }
    }
    if m.is_read {
        push_str_chars(&mut out, ",\"is_read\":true");
    } else {
        push_str_chars(&mut out, ",\"is_read\":false");
    }
    push_str_chars(&mut out, ",\"created_at\":");
    push_dec_i64(&mut out, m.created_at);
    push_str_chars(&mut out, "}");
    proof {
        assert(",\"is_read\":true"@ =~= ",\"is_read\":"@ + "true"@) by {
            reveal_strlit(",\"is_read\":true");
            reveal_strlit(",\"is_read\":");
            reveal_strlit("true");
        }
        assert(",\"is_read\":false"@ =~= ",\"is_read\":"@ + "false"@) by {
            reveal_strlit(",\"is_read\":false");
            reveal_strlit(",\"is_read\":");
            reveal_strlit("false");
        }
        assert(out@ =~= spec_outbound_json(m@));
    }
    chars_to_string(&out)
}

// ---------------------------------------------------------------------
// Inbound frames: the grammar
// ---------------------------------------------------------------------

/// JSON whitespace.
pub open spec fn is_json_ws(c: char) -> bool {
    c == ' ' || c == '\t' || c == '\n' || c == '\r'
}

/// The first position at or after `i` holding something other than
/// whitespace.
pub open spec fn skip_ws(s: Seq<char>, i: int) -> int
    decreases s.len() - i,
{
    if 0 <= i < s.len() && is_json_ws(s[i]) {
        skip_ws(s, i + 1)
    } else {
        i
    }
}

/// Advance past whitespace.
fn skip_ws_exec(s: &Vec<char>, i: usize) -> (r: usize)
    requires
        i <= s@.len(),
    ensures
        r as int == skip_ws(s@, i as int),
        i <= r <= s@.len(),
{
    let mut j = i;
    while j < s.len() && (s[j] == ' ' || s[j] == '\t' || s[j] == '\n' || s[j] == '\r')
        invariant
            i <= j <= s@.len(),
            skip_ws(s@, i as int) == skip_ws(s@, j as int),
        decreases s@.len() - j,
    {
        j += 1;
    }
    proof {
        assert(skip_ws(s@, j as int) == j as int);
    }
    j
}

/// The character a short escape denotes.
pub open spec fn spec_short_escape(e: char) -> Option<char> {
    if e == '"' {
        Some('"')
    } else if e == '\\' {
        Some('\\')
    } else if e == '/' {
        Some('/')
    } else if e == 'b' {
        Some('\u{0008}')
    } else if e == 'f' {
        Some('\u{000C}')
    } else if e == 'n' {
        Some('\n')
    } else if e == 'r' {
        Some('\r')
    } else if e == 't' {
        Some('\t')
    } else {
        None
    }
}

/// Parse the body of a JSON string from just past the opening quote to
/// the closing quote: the position after the closing quote, and the
/// decoded characters. Control characters must be escaped; a `\uXXXX`
/// escape denotes a single non-surrogate code point.
pub open spec fn spec_parse_string_body(s: Seq<char>, i: int) -> Option<(int, Seq<char>)>
    decreases s.len() - i,
{
    if i < 0 || i >= s.len() {
        None
    } else if s[i] == '"' {
        Some((i + 1, Seq::empty()))
    } else if s[i] == '\\' {
        if i + 1 >= s.len() {
            None
        } else if s[i + 1] == 'u' {
            if i + 6 <= s.len() && is_hex_digit(s[i + 2]) && is_hex_digit(s[i + 3]) && is_hex_digit(
                s[i + 4],
            ) && is_hex_digit(s[i + 5]) {
                let code = (hex_digit_val(s[i + 2]) * 0x1000 + hex_digit_val(s[i + 3]) * 0x100
                    + hex_digit_val(s[i + 4]) * 0x10 + hex_digit_val(s[i + 5])) as u32;
                if 0xD800 <= code && code < 0xE000 {
                    None
                } else {
                    match spec_parse_string_body(s, i + 6) {
                        Some((j, t)) => Some((j, seq![code as char] + t)),
                        None => None,
                    }
                }
            } else {
                None
            }
        } else {
            match spec_short_escape(s[i + 1]) {
                Some(c) => match spec_parse_string_body(s, i + 2) {
                    Some((j, t)) => Some((j, seq![c] + t)),
                    None => None,
                },
                None => None,
            }
        }
    } else if (s[i] as u32) < 0x20 {
        None
    } else {
        match spec_parse_string_body(s, i + 1) {
            Some((j, t)) => Some((j, seq![s[i]] + t)),
            None => None,
        }
    }
}

/// Relies on char::from_u32: the conversion succeeds exactly for valid
/// scalar values (not a surrogate, not above the maximum code point) and
/// yields the character with that code.
#[verifier::external_body]
fn char_from_u32(v: u32) -> (r: Option<char>)
    ensures
        r == (if (0xD800 <= v && v < 0xE000) || v > 0x10FFFF {
            None
        } else {
            Some(v as char)
        }),
{
    char::from_u32(v)
}

/// Decode a string body, mirroring `spec_parse_string_body`.
fn parse_string_body(s: &Vec<char>, i: usize) -> (r: Option<(usize, Vec<char>)>)
    requires
        i <= s@.len(),
    ensures
        match r {
            Some(p) => {
                &&& spec_parse_string_body(s@, i as int) == Some((p.0 as int, p.1@))
                &&& i < p.0 <= s@.len()
            },
            None => spec_parse_string_body(s@, i as int) is None,
        },
    decreases s@.len() - i,
{
    if i >= s.len() {
        return None;
    }
    let c = s[i];
    if c == '"' {
        let v: Vec<char> = Vec::new();
        proof {
            assert(v@ =~= Seq::<char>::empty());
        }
        Some((i + 1, v))
    } else if c == '\\' {
        if s.len() - i < 2 {
            return None;
        }
        let e = s[i + 1];
        if e == 'u' {
            if s.len() - i < 6 {
                return None;
            }
            let c2 = s[i + 2];
            let c3 = s[i + 3];
            let c4 = s[i + 4];
            let c5 = s[i + 5];
            match (hex_val_exec(c2), hex_val_exec(c3), hex_val_exec(c4), hex_val_exec(c5)) {
                (Some(d2), Some(d3), Some(d4), Some(d5)) => {
                    let code: u32 = (d2 as u32) * 0x1000 + (d3 as u32) * 0x100 + (d4 as u32) * 0x10
                        + (d5 as u32);
                    if 0xD800 <= code && code < 0xE000 {
                        None
                    } else {
                        match char_from_u32(code) {
                            Some(ch) => {
                                match parse_string_body(s, i + 6) {
                                    Some(p) => {
                                        let (j, t) = p;
                                        let mut v: Vec<char> = Vec::new();
                                        v.push(ch);
                                        let mut t2 = t;
                                        v.append(&mut t2);
                                        proof {
                                            assert(v@ =~= seq![ch] + spec_parse_string_body(
                                                s@,
                                                (i + 6) as int,
                                            )->Some_0.1);
                                        }
                                        Some((j, v))
                                    },
                                    None => None,
                                }
                            },
                            None => {
                                // the code is below 0x10000 and not a
                                // surrogate, so conversion cannot fail
                                proof {
                                    assert(false);
                                }
                                None
                            },
                        }
                    }
                },
                _ => None,
            }
        } else {
            let dec: Option<char> = if e == '"' {
                Some('"')
            } else if e == '\\' {
                Some('\\')
            } else if e == '/' {
                Some('/')
            } else if e == 'b' {
                Some('\u{0008}')
            } else if e == 'f' {
                Some('\u{000C}')
            } else if e == 'n' {
                Some('\n')
            } else if e == 'r' {
                Some('\r')
            } else if e == 't' {
                Some('\t')
            } else {
                None
            };
            proof {
                assert(dec == spec_short_escape(s@[i + 1]));
            }
            match dec {
                Some(ch) => {
                    match parse_string_body(s, i + 2) {
                        Some(p) => {
                            let (j, t) = p;
                            let mut v: Vec<char> = Vec::new();
                            v.push(ch);
                            let mut t2 = t;
                            v.append(&mut t2);
                            proof {
                                assert(v@ =~= seq![ch] + spec_parse_string_body(
                                    s@,
                                    (i + 2) as int,
                                )->Some_0.1);
                            }
                            Some((j, v))
                        },
                        None => None,
                    }
                },
                None => None,
            }
        }
    } else if (c as u32) < 0x20 {
        None
    } else {
        match parse_string_body(s, i + 1) {
            Some(p) => {
                let (j, t) = p;
                let mut v: Vec<char> = Vec::new();
                v.push(c);
                let mut t2 = t;
                v.append(&mut t2);
                proof {
                    assert(v@ =~= seq![c] + spec_parse_string_body(s@, (i + 1) as int)->Some_0.1);
                }
                Some((j, v))
            },
            None => None,
        }
    }
}

/// The value of a hex digit character, if it is one.
fn hex_val_exec(c: char) -> (r: Option<u8>)
    ensures
        match r {
            Some(d) => is_hex_digit(c) && d as u128 == hex_digit_val(c) && d <= 0xf,
            None => !is_hex_digit(c),
        },
{
    let cu = c as u32;
    if 0x30 <= cu && cu <= 0x39 {
        Some((cu - 0x30) as u8)
    } else if 0x61 <= cu && cu <= 0x66 {
        Some((cu - 0x57) as u8)
    } else if 0x41 <= cu && cu <= 0x46 {
        Some((cu - 0x37) as u8)
    } else {
        None
    }
}

// ---------------------------------------------------------------------
// Inbound frames: members and assembly
// ---------------------------------------------------------------------

/// A member value: a JSON string or the literal null.
pub enum JsonValueView {
    Str(Seq<char>),
    Null,
}

enum ParsedValue {
    Str(Vec<char>),
    Null,
}

spec fn value_view(v: &ParsedValue) -> JsonValueView {
    match v {
        ParsedValue::Str(t) => JsonValueView::Str(t@),
        ParsedValue::Null => JsonValueView::Null,
    }
}

/// Parse a member value at `i`: a JSON string or the literal null.
pub open spec fn spec_parse_value(s: Seq<char>, i: int) -> Option<(int, JsonValueView)> {
    if 0 <= i < s.len() && s[i] == '"' {
        match spec_parse_string_body(s, i + 1) {
            Some((j, t)) => Some((j, JsonValueView::Str(t))),
            None => None,
        }
    } else if 0 <= i && i + 4 <= s.len() && s[i] == 'n' && s[i + 1] == 'u' && s[i + 2] == 'l' && s[
        i + 3
    ] == 'l' {
        Some((i + 4, JsonValueView::Null))
    } else {
        None
    }
}

fn parse_value(s: &Vec<char>, i: usize) -> (r: Option<(usize, ParsedValue)>)
    requires
        i <= s@.len(),
    ensures
        match r {
            Some(p) => {
                &&& spec_parse_value(s@, i as int) == Some((p.0 as int, value_view(&p.1)))
                &&& i < p.0 <= s@.len()
            },
            None => spec_parse_value(s@, i as int) is None,
        },
{
    if i < s.len() && s[i] == '"' {
        match parse_string_body(s, i + 1) {
            Some(p) => {
                let (j, t) = p;
                Some((j, ParsedValue::Str(t)))
            },
            None => None,
        }
    } else if i < s.len() && s.len() - i >= 4 && s[i] == 'n' && s[i + 1] == 'u' && s[i + 2] == 'l'
        && s[i + 3] == 'l' {
        Some((i + 4, ParsedValue::Null))
    } else {
        None
    }
}

/// Parse one `"key": value` member starting at the key's opening quote.
pub open spec fn spec_parse_member(s: Seq<char>, i: int) -> Option<(int, Seq<char>, JsonValueView)> {
    if 0 <= i < s.len() && s[i] == '"' {
        match spec_parse_string_body(s, i + 1) {
            Some((j, key)) => {
                let j2 = skip_ws(s, j);
                if j2 < s.len() && s[j2] == ':' {
                    match spec_parse_value(s, skip_ws(s, j2 + 1)) {
                        Some((j4, v)) => Some((j4, key, v)),
                        None => None,
                    }
                } else {
                    None
                }
            },
            None => None,
        }
    } else {
        None
    }
}

fn parse_member(s: &Vec<char>, i: usize) -> (r: Option<(usize, Vec<char>, ParsedValue)>)
    requires
        i <= s@.len(),
    ensures
        match r {
            Some(p) => {
                &&& spec_parse_member(s@, i as int) == Some((p.0 as int, p.1@, value_view(&p.2)))
                &&& i < p.0 <= s@.len()
            },
            None => spec_parse_member(s@, i as int) is None,
        },
{
    if i < s.len() && s[i] == '"' {
        match parse_string_body(s, i + 1) {
            Some(p) => {
                let (j, key) = p;
                let j2 = skip_ws_exec(s, j);
                if j2 < s.len() && s[j2] == ':' {
                    let j3 = skip_ws_exec(s, j2 + 1);
                    match parse_value(s, j3) {
                        Some(q) => {
                            let (j4, v) = q;
                            Some((j4, key, v))
                        },
                        None => None,
                    }
                } else {
                    None
                }
            },
            None => None,
        }
    } else {
        None
    }
}

/// Whether the characters equal those of the given string slice.
fn chars_eq_str(v: &Vec<char>, s: &str) -> (r: bool)
    ensures
        r == (v@ == s@),
{
    let n = s.unicode_len();
    if v.len() != n {
        proof {
            if v@ == s@ {
                assert(v@.len() == s@.len());
            }
        }
        return false;
    }
    let mut i: usize = 0;
    while i < n
        invariant
            i <= n,
            n == s@.len(),
            v@.len() == n,
            forall|q: int| 0 <= q < i ==> v@[q] == s@[q],
        decreases n - i,
    {
        if v[i] != s.get_char(i) {
            proof {
                if v@ == s@ {
                    assert(v@[i as int] == s@[i as int]);
                }
            }
            return false;
        }
        i += 1;
    }
    proof {
        assert(v@ =~= s@);
    }
    true
}


/// Whether two string slices hold the same characters.
pub(crate) fn str_eq(a: &str, b: &str) -> (r: bool)
    ensures
        r == (a@ == b@),
{
    let ac = str_to_chars(a);
    chars_eq_str(&ac, b)
}

/// The fields collected while reading an inbound frame's members.
pub struct PartialFrame {
    pub receiver: Option<Seq<char>>,
    pub content: Option<Seq<char>>,
    pub image: Option<Option<Seq<char>>>,
}

struct Partial {
    receiver: Option<Vec<char>>,
    content: Option<Vec<char>>,
    image: Option<Option<Vec<char>>>,
}

spec fn partial_view(p: &Partial) -> PartialFrame {
    PartialFrame {
        receiver: match &p.receiver {
            Some(t) => Some(t@),
            None => None,
        },
        content: match &p.content {
            Some(t) => Some(t@),
            None => None,
        },
        image: match &p.image {
            Some(Some(t)) => Some(Some(t@)),
            Some(None) => Some(None),
            None => None,
        },
    }
}

/// Record one member into the partial frame: only the three known keys
/// are accepted, each at most once; `receiver_id` and `content` must be
/// strings, `image_url` a string or null.
pub open spec fn spec_apply_member(p: PartialFrame, key: Seq<char>, v: JsonValueView) -> Option<
    PartialFrame,
> {
    if key == "receiver_id"@ {
        if p.receiver is None {
            match v {
                JsonValueView::Str(t) => Some(PartialFrame { receiver: Some(t), ..p }),
                JsonValueView::Null => None,
            }
        } else {
            None
        }
    } else if key == "content"@ {
        if p.content is None {
            match v {
                JsonValueView::Str(t) => Some(PartialFrame { content: Some(t), ..p }),
                JsonValueView::Null => None,
            }
        } else {
            None
        }
    } else if key == "image_url"@ {
        if p.image is None {
            match v {
                JsonValueView::Str(t) => Some(PartialFrame { image: Some(Some(t)), ..p }),
                JsonValueView::Null => Some(PartialFrame { image: Some(None), ..p }),
            }
        } else {
            None
        }
    } else {
        None
    }
}

fn apply_member(p: Partial, key: &Vec<char>, v: ParsedValue) -> (r: Option<Partial>)
    ensures
        match r {
            Some(p2) => spec_apply_member(partial_view(&p), key@, value_view(&v)) == Some(
                partial_view(&p2),
            ),
            None => spec_apply_member(partial_view(&p), key@, value_view(&v)) is None,
        },
{
    if chars_eq_str(key, "receiver_id") {
        if p.receiver.is_none() {
            match v {
                ParsedValue::Str(t) => Some(Partial { receiver: Some(t), ..p }),
                ParsedValue::Null => None,
            }
        } else {
            None
        }
    } else if chars_eq_str(key, "content") {
        if p.content.is_none() {
            match v {
                ParsedValue::Str(t) => Some(Partial { content: Some(t), ..p }),
                ParsedValue::Null => None,
            }
        } else {
            None
        }
    } else if chars_eq_str(key, "image_url") {
        if p.image.is_none() {
            match v {
                ParsedValue::Str(t) => Some(Partial { image: Some(Some(t)), ..p }),
                ParsedValue::Null => Some(Partial { image: Some(None), ..p }),
            }
        } else {
            None
        }
    } else {
        None
    }
}

/// An inbound chat frame, decoded: the receiver, the text content, and an
/// optional image reference.
pub struct IncomingChatMessage {
    pub receiver_id: UserId,
    pub content: String,
    pub image_url: Option<String>,
}

/// The model of an inbound frame.
pub struct IncomingChatMessageView {
    pub receiver_id: int,
    pub content: Seq<char>,
    pub image_url: Option<Seq<char>>,
}

impl View for IncomingChatMessage {
    type V = IncomingChatMessageView;

    open spec fn view(&self) -> IncomingChatMessageView {
        IncomingChatMessageView {
            receiver_id: self.receiver_id as int,
            content: self.content@,
            image_url: match self.image_url {
                Some(u) => Some(u@),
                None => None,
            },
        }
    }
}

/// A fully read frame: both required members present, the receiver id in
/// identity-text form, a missing `image_url` member meaning no image.
pub open spec fn spec_finish_frame(p: PartialFrame) -> Option<IncomingChatMessageView> {
    match (p.receiver, p.content) {
        (Some(r), Some(c)) => match spec_parse_uuid(r) {
            Some(id) => Some(
                IncomingChatMessageView {
                    receiver_id: id as int,
                    content: c,
                    image_url: match p.image {
                        Some(x) => x,
                        None => None,
                    },
                },
            ),
            None => None,
        },
        _ => None,
    }
}

fn finish_frame(p: Partial) -> (r: Option<IncomingChatMessage>)
    ensures
        match r {
            Some(f) => spec_finish_frame(partial_view(&p)) == Some(f@),
            None => spec_finish_frame(partial_view(&p)) is None,
        },
{
    let Partial { receiver, content, image } = p;
    match (receiver, content) {
        (Some(rv), Some(cv)) => match parse_uuid(rv.as_slice()) {
            Some(id) => {
                let content_s = chars_to_string(&cv);
                let image_s = match image {
                    Some(Some(u)) => Some(chars_to_string(&u)),
                    _ => None,
                };
                Some(IncomingChatMessage { receiver_id: id, content: content_s, image_url: image_s })
            },
            None => None,
        },
        _ => None,
    }
}

/// Read members from `i` (at a key's opening quote) until the closing
/// brace, recording at most `fuel + 1` of them, then require the text to
/// end after trailing whitespace.
pub open spec fn spec_parse_members(
    s: Seq<char>,
    i: int,
    p: PartialFrame,
    fuel: nat,
) -> Option<IncomingChatMessageView>
    decreases fuel,
{
    match spec_parse_member(s, i) {
        Some((j, key, v)) => match spec_apply_member(p, key, v) {
            Some(p2) => {
                let a = skip_ws(s, j);
                if a < s.len() && s[a] == '}' {
                    if skip_ws(s, a + 1) == s.len() {
                        spec_finish_frame(p2)
                    } else {
                        None
                    }
                } else if a < s.len() && s[a] == ',' && fuel > 0 {
                    spec_parse_members(s, skip_ws(s, a + 1), p2, (fuel - 1) as nat)
                } else {
                    None
                }
            },
            None => None,
        },
        None => None,
    }
}

fn parse_members(s: &Vec<char>, i: usize, p: Partial, fuel: u8) -> (r: Option<IncomingChatMessage>)
    requires
        i <= s@.len(),
    ensures
        match r {
            Some(f) => spec_parse_members(s@, i as int, partial_view(&p), fuel as nat) == Some(f@),
            None => spec_parse_members(s@, i as int, partial_view(&p), fuel as nat) is None,
        },
    decreases fuel,
{
    match parse_member(s, i) {
        Some(m) => {
            let (j, key, v) = m;
            match apply_member(p, &key, v) {
                Some(p2) => {
                    let a = skip_ws_exec(s, j);
                    if a < s.len() && s[a] == '}' {
                        let e = skip_ws_exec(s, a + 1);
                        if e == s.len() {
                            finish_frame(p2)
                        } else {
                            None
                        }
                    } else if a < s.len() && s[a] == ',' {
                        if fuel > 0 {
                            let i2 = skip_ws_exec(s, a + 1);
                            parse_members(s, i2, p2, fuel - 1)
                        } else {
                            None
                        }
                    } else {
                        None
                    }
                },
                None => None,
            }
        },
        None => None,
    }
}

/// The inbound frame denoted by `s`, if `s` is well-formed: a JSON object
/// holding a `receiver_id` string member in identity-text form, a
/// `content` string member, and optionally an `image_url` member that is
/// a string or null -- each at most once, and nothing else.
pub open spec fn spec_parse_frame(s: Seq<char>) -> Option<IncomingChatMessageView> {
    let i0 = skip_ws(s, 0);
    if i0 < s.len() && s[i0] == '{' {
        spec_parse_members(
            s,
            skip_ws(s, i0 + 1),
            PartialFrame { receiver: None, content: None, image: None },
            2,
        )
    } else {
        None
    }
}

/// Decode an inbound text frame. Returns the frame exactly when the text
/// matches the inbound grammar (`spec_parse_frame`); anything else comes
/// back as no frame at all, for the session layer to ignore silently.
pub fn parse_incoming(text: &str) -> (r: Option<IncomingChatMessage>)
    ensures
        match r {
            Some(f) => spec_parse_frame(text@) == Some(f@),
            None => spec_parse_frame(text@) is None,
        },
{
    let s = str_to_chars(text);
    let i0 = skip_ws_exec(&s, 0);
    if i0 < s.len() && s[i0] == '{' {
        let i1 = skip_ws_exec(&s, i0 + 1);
        parse_members(&s, i1, Partial { receiver: None, content: None, image: None }, 2)
    } else {
        None
    }
}

} // verus!

//! The wire format: rendering the JSON request envelope and parsing the
//! JSON response body.
//!
//! The envelope is flat JSON with scalar fields only, so both directions are
//! written here as verified functions over characters; no reflection or
//! derive machinery stands between the contracts and the bytes sent.
//!
//! The parser accepts the JSON subset the gateway speaks: one object of
//! scalar members (strings with the common escapes, integers and decimals
//! without exponents, `true`, `false`, `null`), unknown members ignored.

use vstd::prelude::*;
use vstd::string::*;

use crate::models::{
    ApiRequest, ApiResponse, ApiResponseCode, Balance, BalanceV, MessageModel, UserData,
};
use crate::text::{
    all_digits, ascii_digit, digits_to_u64, digits_val, is_ascii_digit, push_char,
};

verus! {

// ---------------------------------------------------------------------------
// Rendering
// ---------------------------------------------------------------------------

/// The hexadecimal digit for a value below 16.
pub open spec fn hex_digit(n: int) -> char {
    if n == 0 { '0' } else if n == 1 { '1' } else if n == 2 { '2' } else if n == 3 { '3' }
    else if n == 4 { '4' } else if n == 5 { '5' } else if n == 6 { '6' } else if n == 7 { '7' }
    else if n == 8 { '8' } else if n == 9 { '9' } else if n == 10 { 'a' } else if n == 11 { 'b' }
    else if n == 12 { 'c' } else if n == 13 { 'd' } else if n == 14 { 'e' } else { 'f' }
}

/// How one character is written inside a JSON string literal: quote and
/// backslash are escaped, the named control characters use their short
/// escapes, any other control character the `\u00XX` form, and everything
/// else stands for itself.
pub open spec fn esc_char(c: char) -> Seq<char> {
    if c == '"' { "\\\""@ }
    else if c == '\\' { "\\\\"@ }
    else if c == '\n' { "\\n"@ }
    else if c == '\r' { "\\r"@ }
    else if c == '\t' { "\\t"@ }
    else if (c as u32) < 32 {
        "\\u00"@ + seq![hex_digit(((c as u32) as int) / 16), hex_digit(((c as u32) as int) % 16)]
    } else {
        seq![c]
    }
}

/// A whole string escaped for a JSON string literal.
pub open spec fn json_escaped(s: Seq<char>) -> Seq<char>
    decreases s.len(),
{
    if s.len() == 0 {
        Seq::empty()
    } else {
        json_escaped(s.drop_last()) + esc_char(s.last())
    }
}

/// The `userdata` object: the username and the API key, under the wire
/// field names `username` and `password`.
pub open spec fn spec_render_userdata(u: UserData) -> Seq<char> {
    "{\"username\":\""@ + json_escaped(u.username@) + "\",\"password\":\""@ + json_escaped(
        u.password@,
    ) + "\"}"@
}

/// One `msgdata` element: number, body, sender id and the priority digit.
pub open spec fn spec_render_msg(m: MessageModel) -> Seq<char> {
    "{\"number\":\""@ + json_escaped(m.number@) + "\",\"message\":\""@ + json_escaped(m.message@)
        + "\",\"senderid\":\""@ + json_escaped(m.sender_id@) + "\",\"priority\":\""@ + seq![
        m.priority.spec_wire_digit(),
    ] + "\"}"@
}

/// The comma-joined `msgdata` elements.
pub open spec fn spec_render_msgs(ms: Seq<MessageModel>) -> Seq<char>
    decreases ms.len(),
{
    if ms.len() == 0 {
        Seq::empty()
    } else if ms.len() == 1 {
        spec_render_msg(ms[0])
    } else {
        spec_render_msgs(ms.drop_last()) + ","@ + spec_render_msg(ms.last())
    }
}

/// The whole request envelope. The method name is written as it is; the
/// `msgdata` member is omitted entirely when there is no message list.
pub open spec fn spec_render_request(req: ApiRequest) -> Seq<char> {
    "{\"method\":\""@ + req.method@ + "\",\"userdata\":"@ + spec_render_userdata(req.userdata)
        + (match req.message_data {
        Option::None => Seq::<char>::empty(),
        Option::Some(ms) => ",\"msgdata\":["@ + spec_render_msgs(ms@) + "]"@,
    }) + "}"@
}

/// Append one character of a JSON string literal, escaped.
fn append_escaped_char(out: &mut String, c: char)
    ensures
        final(out)@ == old(out)@ + esc_char(c),
{
    if c == '"' {
        out.append("\\\"");
    } else if c == '\\' {
        out.append("\\\\");
    } else if c == '\n' {
        out.append("\\n");
    } else if c == '\r' {
        out.append("\\r");
    } else if c == '\t' {
        out.append("\\t");
    } else {
        let code: u32 = c as u32;
        if code < 32 {
            out.append("\\u00");
            let hi: u32 = code / 16;
            let lo: u32 = code % 16;
            push_char(out, hex_char(hi));
            push_char(out, hex_char(lo));
            proof {
                assert(old(out)@ + esc_char(c) =~= (old(out)@ + "\\u00"@).push(
                    hex_digit(hi as int),
                ).push(hex_digit(lo as int)));
            }
        } else {
            push_char(out, c);
            proof {
                assert(old(out)@ + esc_char(c) =~= old(out)@.push(c));
            }
        }
    }
}

/// The hexadecimal digit character for a value below 16.
fn hex_char(n: u32) -> (c: char)
    requires
        n < 16,
    ensures
        c == hex_digit(n as int),
{
    if n == 0 { '0' } else if n == 1 { '1' } else if n == 2 { '2' } else if n == 3 { '3' }
    else if n == 4 { '4' } else if n == 5 { '5' } else if n == 6 { '6' } else if n == 7 { '7' }
    else if n == 8 { '8' } else if n == 9 { '9' } else if n == 10 { 'a' } else if n == 11 { 'b' }
    else if n == 12 { 'c' } else if n == 13 { 'd' } else if n == 14 { 'e' } else { 'f' }
}

/// Append a whole string, escaped for the inside of a JSON string literal.
fn append_escaped(out: &mut String, s: &str)
    ensures
        final(out)@ == old(out)@ + json_escaped(s@),
{
    let n: usize = s.unicode_len();
    let mut i: usize = 0;
    while i < n
        invariant
            n == s@.len(),
            i <= n,
            out@ == old(out)@ + json_escaped(s@.take(i as int)),
        decreases n - i,
    {
        let c: char = s.get_char(i);
        proof {
            assert(s@.take(i as int + 1).drop_last() =~= s@.take(i as int));
            assert(s@.take(i as int + 1).last() == s@[i as int]);
        }
        append_escaped_char(out, c);
        proof {
            assert(out@ =~= old(out)@ + json_escaped(s@.take(i as int + 1)));
        }
        i = i + 1;
    }
    proof {
        assert(s@.take(n as int) =~= s@);
    }
}

/// Render the `userdata` object.
fn render_userdata(out: &mut String, u: &UserData)
    ensures
        final(out)@ == old(out)@ + spec_render_userdata(*u),
{
    out.append("{\"username\":\"");
    append_escaped(out, u.username.as_str());
    out.append("\",\"password\":\"");
    append_escaped(out, u.password.as_str());
    out.append("\"}");
    proof {
        assert(out@ =~= old(out)@ + spec_render_userdata(*u));
    }
}

/// Render one `msgdata` element.
fn render_msg(out: &mut String, m: &MessageModel)
    ensures
        final(out)@ == old(out)@ + spec_render_msg(*m),
{
    out.append("{\"number\":\"");
    append_escaped(out, m.number.as_str());
    out.append("\",\"message\":\"");
    append_escaped(out, m.message.as_str());
    out.append("\",\"senderid\":\"");
    append_escaped(out, m.sender_id.as_str());
    out.append("\",\"priority\":\"");
    push_char(out, m.priority.wire_digit());
    out.append("\"}");
    proof {
        assert(out@ =~= old(out)@ + spec_render_msg(*m));
    }
}

/// Render a whole request envelope as its JSON text.
pub fn render_request(req: &ApiRequest) -> (r: String)
    ensures
        r@ == spec_render_request(*req),
{
    let mut out: String = String::from_str("{\"method\":\"");
    out.append(req.method.as_str());
    out.append("\",\"userdata\":");
    render_userdata(&mut out, &req.userdata);
    match &req.message_data {
        Option::None => {},
        Option::Some(ms) => {
            out.append(",\"msgdata\":[");
            let ghost pre = out@;
            let n: usize = ms.len();
            let mut i: usize = 0;
            while i < n
                invariant
                    n == ms@.len(),
                    i <= n,
                    out@ == pre + spec_render_msgs(ms@.take(i as int)),
                decreases n - i,
            {
                if i > 0 {
                    out.append(",");
                }
                render_msg(&mut out, &ms[i]);
                proof {
                    assert(ms@.take(i as int + 1).drop_last() =~= ms@.take(i as int));
                    assert(ms@.take(i as int + 1).last() == ms@[i as int]);
                    if i == 0 {
                        assert(spec_render_msgs(ms@.take(1)) == spec_render_msg(ms@[0]));
                        assert(out@ =~= pre + spec_render_msgs(ms@.take(i as int + 1)));
                    } else {
                        assert(out@ =~= pre + spec_render_msgs(ms@.take(i as int + 1)));
                    }
                }
                i = i + 1;
            }
            proof {
                assert(ms@.take(n as int) =~= ms@);
            }
            out.append("]");
        },
    }
    out.append("}");
    proof {
        assert(out@ =~= spec_render_request(*req));
    }
    out
}

// ---------------------------------------------------------------------------
// Parsing: scanners
// ---------------------------------------------------------------------------

/// JSON insignificant whitespace.
pub open spec fn is_json_ws(c: char) -> bool {
    c == ' ' || c == '\t' || c == '\n' || c == '\r'
}

fn json_ws(c: char) -> (r: bool)
    ensures
        r == is_json_ws(c),
{
    c == ' ' || c == '\t' || c == '\n' || c == '\r'
}

/// The first position at or after `i` holding no whitespace.
pub open spec fn ws_end(s: Seq<char>, i: int) -> int
    decreases s.len() - i when 0 <= i <= s.len()
{
    if i < s.len() && is_json_ws(s[i]) {
        ws_end(s, i + 1)
    } else {
        i
    }
}

pub proof fn lemma_ws_end(s: Seq<char>, i: int)
    requires
        0 <= i <= s.len(),
    ensures
        i <= ws_end(s, i) <= s.len(),
    decreases s.len() - i,
{
    if i < s.len() && is_json_ws(s[i]) {
        lemma_ws_end(s, i + 1);
    }
}

fn skip_ws(s: &str, i0: usize) -> (j: usize)
    requires
        i0 <= s@.len(),
    ensures
        j as int == ws_end(s@, i0 as int),
        i0 <= j <= s@.len(),
{
    let n: usize = s.unicode_len();
    let mut i: usize = i0;
    while i < n && json_ws(s.get_char(i))
        invariant
            i0 <= i <= n,
            n == s@.len(),
            ws_end(s@, i0 as int) == ws_end(s@, i as int),
        decreases n - i,
    {
        i = i + 1;
    }
    i
}

/// The first position at or after `i` holding no decimal digit.
pub open spec fn digits_end(s: Seq<char>, i: int) -> int
    decreases s.len() - i when 0 <= i <= s.len()
{
    if i < s.len() && is_ascii_digit(s[i]) {
        digits_end(s, i + 1)
    } else {
        i
    }
}

pub proof fn lemma_digits_end(s: Seq<char>, i: int)
    requires
        0 <= i <= s.len(),
    ensures
        i <= digits_end(s, i) <= s.len(),
        forall|j: int| i <= j < digits_end(s, i) ==> is_ascii_digit(#[trigger] s[j]),
    decreases s.len() - i,
{
    if i < s.len() && is_ascii_digit(s[i]) {
        lemma_digits_end(s, i + 1);
    }
}

fn scan_digits(s: &str, i0: usize) -> (j: usize)
    requires
        i0 <= s@.len(),
    ensures
        j as int == digits_end(s@, i0 as int),
        i0 <= j <= s@.len(),
{
    let n: usize = s.unicode_len();
    let mut i: usize = i0;
    while i < n && ascii_digit(s.get_char(i))
        invariant
            i0 <= i <= n,
            n == s@.len(),
            digits_end(s@, i0 as int) == digits_end(s@, i as int),
        decreases n - i,
    {
        i = i + 1;
    }
    i
}

/// What a backslash escape stands for inside a JSON string literal.
pub open spec fn unescape(c: char) -> Option<char> {
    if c == '"' { Some('"') } else if c == '\\' { Some('\\') } else if c == '/' { Some('/') }
    else if c == 'n' { Some('\n') } else if c == 'r' { Some('\r') } else if c == 't' { Some('\t') }
    else if c == 'b' { Some('\u{8}') } else if c == 'f' { Some('\u{c}') } else { None }
}

fn unescape_exec(c: char) -> (r: Option<char>)
    ensures
        r == unescape(c),
{
    if c == '"' { Some('"') } else if c == '\\' { Some('\\') } else if c == '/' { Some('/') }
    else if c == 'n' { Some('\n') } else if c == 'r' { Some('\r') } else if c == 't' { Some('\t') }
    else if c == 'b' { Some('\u{8}') } else if c == 'f' { Some('\u{c}') } else { None }
}

/// Scan the inside of a JSON string literal starting right after the
/// opening quote: the decoded content and the position after the closing
/// quote. Unknown escapes and raw control characters are refused.
pub open spec fn scan_string(s: Seq<char>, i: int) -> Option<(Seq<char>, int)>
    decreases s.len() - i when 0 <= i <= s.len()
{
    if i >= s.len() {
        None
    } else if s[i] == '"' {
        Some((Seq::empty(), i + 1))
    } else if s[i] == '\\' {
        if i + 1 < s.len() {
            match unescape(s[i + 1]) {
                None => None,
                Some(c) => match scan_string(s, i + 2) {
                    None => None,
                    Some((t, j)) => Some((seq![c] + t, j)),
                },
            }
        } else {
            None
        }
    } else if (s[i] as u32) < 32 {
        None
    } else {
        match scan_string(s, i + 1) {
            None => None,
            Some((t, j)) => Some((seq![s[i]] + t, j)),
        }
    }
}

pub proof fn lemma_scan_string(s: Seq<char>, i: int)
    requires
        0 <= i <= s.len(),
    ensures
        scan_string(s, i) matches Some(p) ==> i < p.1 <= s.len(),
    decreases s.len() - i,
{
    if i < s.len() {
        if s[i] == '"' {
        } else if s[i] == '\\' {
            if i + 1 < s.len() {
                lemma_scan_string(s, i + 2);
            }
        } else if (s[i] as u32) >= 32 {
            lemma_scan_string(s, i + 1);
        }
    }
}

fn scan_string_at(s: &str, i0: usize) -> (r: Option<(String, usize)>)
    requires
        i0 <= s@.len(),
    ensures
        match r {
            Some(p) => scan_string(s@, i0 as int) == Some((p.0@, p.1 as int)) && i0 < p.1
                <= s@.len(),
            None => scan_string(s@, i0 as int) is None,
        },
{
    let n: usize = s.unicode_len();
    let mut i: usize = i0;
    let mut acc: String = String::new();
    loop
        invariant
            i0 <= i <= n,
            n == s@.len(),
            match scan_string(s@, i as int) {
                Some(p) => scan_string(s@, i0 as int) == Some((acc@ + p.0, p.1)),
                None => scan_string(s@, i0 as int) is None,
            },
        decreases n - i,
    {
        if i >= n {
            return None;
        }
        let c: char = s.get_char(i);
        if c == '"' {
            proof {
                assert(acc@ + Seq::<char>::empty() =~= acc@);
                lemma_scan_string(s@, i0 as int);
            }
            return Some((acc, i + 1));
        } else if c == '\\' {
            if i + 1 >= n {
                return None;
            }
            let e: char = s.get_char(i + 1);
            match unescape_exec(e) {
                None => {
                    return None;
                },
                Some(d) => {
                    let ghost acc0 = acc@;
                    push_char(&mut acc, d);
                    proof {
                        assert forall|t2: Seq<char>| acc0 + (seq![d] + t2) =~= acc@ + t2 by {}
                    }
                    i = i + 2;
                },
            }
        } else {
            let code: u32 = c as u32;
            if code < 32 {
                return None;
            }
            let ghost acc0 = acc@;
            push_char(&mut acc, c);
            proof {
                assert forall|t2: Seq<char>| acc0 + (seq![c] + t2) =~= acc@ + t2 by {}
            }
            i = i + 1;
        }
    }
}

/// A scanned JSON number: sign and the digit runs of its integer and
/// fraction parts, held exactly as written.
pub struct NumToken {
    pub negative: bool,
    pub int_digits: String,
    pub frac_digits: String,
}

/// Ghost image of `NumToken`.
pub ghost struct NumTokenV {
    pub negative: bool,
    pub int_digits: Seq<char>,
    pub frac_digits: Seq<char>,
}

impl View for NumToken {
    type V = NumTokenV;

    open spec fn view(&self) -> NumTokenV {
        NumTokenV {
            negative: self.negative,
            int_digits: self.int_digits@,
            frac_digits: self.frac_digits@,
        }
    }
}

/// Scan a JSON number without exponent: an optional minus, an integer part
/// with no leading zero, and an optional non-empty fraction.
pub open spec fn scan_number(s: Seq<char>, i: int) -> Option<(NumTokenV, int)> {
    let neg = i < s.len() && s[i] == '-';
    let p = if neg { i + 1 } else { i };
    let q = digits_end(s, p);
    if q == p {
        None
    } else if s[p] == '0' && q > p + 1 {
        None
    } else if q < s.len() && s[q] == '.' {
        let m = digits_end(s, q + 1);
        if m == q + 1 {
            None
        } else {
            Some(
                (
                    NumTokenV {
                        negative: neg,
                        int_digits: s.subrange(p, q),
                        frac_digits: s.subrange(q + 1, m),
                    },
                    m,
                ),
            )
        }
    } else {
        Some(
            (NumTokenV { negative: neg, int_digits: s.subrange(p, q), frac_digits: Seq::empty() }, q),
        )
    }
}

pub proof fn lemma_scan_number(s: Seq<char>, i: int)
    requires
        0 <= i <= s.len(),
    ensures
        scan_number(s, i) matches Some(p) ==> i < p.1 <= s.len(),
{
    let neg = i < s.len() && s[i] == '-';
    let p = if neg { i + 1 } else { i };
    lemma_digits_end(s, p);
    let q = digits_end(s, p);
    if q > p && q < s.len() && s[q] == '.' {
        lemma_digits_end(s, q + 1);
    }
}

fn scan_number_at(s: &str, i0: usize) -> (r: Option<(NumToken, usize)>)
    requires
        i0 <= s@.len(),
    ensures
        match r {
            Some(p) => {
                &&& scan_number(s@, i0 as int) == Some((p.0@, p.1 as int))
                &&& i0 < p.1 <= s@.len()
                &&& all_digits(p.0.int_digits@)
                &&& all_digits(p.0.frac_digits@)
                &&& 1 <= p.0.int_digits@.len()
            },
            None => scan_number(s@, i0 as int) is None,
        },
{
    let n: usize = s.unicode_len();
    let neg: bool = i0 < n && s.get_char(i0) == '-';
    let p: usize = if neg {
        i0 + 1
    } else {
        i0
    };
    let q: usize = scan_digits(s, p);
    proof {
        lemma_digits_end(s@, p as int);
    }
    if q == p {
        return None;
    }
    if s.get_char(p) == '0' && q > p + 1 {
        return None;
    }
    let int_digits: String = s.substring_char(p, q).to_owned();
    if q < n && s.get_char(q) == '.' {
        let m: usize = scan_digits(s, q + 1);
        proof {
            lemma_digits_end(s@, q as int + 1);
        }
        if m == q + 1 {
            return None;
        }
        let frac_digits: String = s.substring_char(q + 1, m).to_owned();
        Some((NumToken { negative: neg, int_digits, frac_digits }, m))
    } else {
        Some((NumToken { negative: neg, int_digits, frac_digits: String::new() }, q))
    }
}

/// A scalar member value of the response object.
pub enum JsonValue {
    Str(String),
    Num(NumToken),
    Bool(bool),
    Null,
}

/// Ghost image of `JsonValue`.
pub ghost enum JsonValueV {
    Str(Seq<char>),
    Num(NumTokenV),
    Bool(bool),
    Null,
}

impl View for JsonValue {
    type V = JsonValueV;

    open spec fn view(&self) -> JsonValueV {
        match self {
            JsonValue::Str(t) => JsonValueV::Str(t@),
            JsonValue::Num(t) => JsonValueV::Num(t@),
            JsonValue::Bool(b) => JsonValueV::Bool(*b),
            JsonValue::Null => JsonValueV::Null,
        }
    }
}

/// Scan one scalar value: a string, a number, `true`, `false` or `null`.
pub open spec fn scan_value(s: Seq<char>, i: int) -> Option<(JsonValueV, int)> {
    if i >= s.len() {
        None
    } else if s[i] == '"' {
        match scan_string(s, i + 1) {
            None => None,
            Some((t, j)) => Some((JsonValueV::Str(t), j)),
        }
    } else if s[i] == '-' || is_ascii_digit(s[i]) {
        match scan_number(s, i) {
            None => None,
            Some((t, j)) => Some((JsonValueV::Num(t), j)),
        }
    } else if s[i] == 't' {
        if i + 3 < s.len() && s[i + 1] == 'r' && s[i + 2] == 'u' && s[i + 3] == 'e' {
            Some((JsonValueV::Bool(true), i + 4))
        } else {
            None
        }
    } else if s[i] == 'f' {
        if i + 4 < s.len() && s[i + 1] == 'a' && s[i + 2] == 'l' && s[i + 3] == 's' && s[i + 4]
            == 'e' {
            Some((JsonValueV::Bool(false), i + 5))
        } else {
            None
        }
    } else if s[i] == 'n' {
        if i + 3 < s.len() && s[i + 1] == 'u' && s[i + 2] == 'l' && s[i + 3] == 'l' {
            Some((JsonValueV::Null, i + 4))
        } else {
            None
        }
    } else {
        None
    }
}

pub proof fn lemma_scan_value(s: Seq<char>, i: int)
    requires
        0 <= i <= s.len(),
    ensures
        scan_value(s, i) matches Some(p) ==> i < p.1 <= s.len(),
{
    if i < s.len() {
        if s[i] == '"' {
            lemma_scan_string(s, i + 1);
        } else if s[i] == '-' || is_ascii_digit(s[i]) {
            lemma_scan_number(s, i);
        }
    }
}

fn scan_value_at(s: &str, i0: usize) -> (r: Option<(JsonValue, usize)>)
    requires
        i0 <= s@.len(),
    ensures
        match r {
            Some(p) => scan_value(s@, i0 as int) == Some((p.0@, p.1 as int)) && i0 < p.1
                <= s@.len() && value_wf(p.0@),
            None => scan_value(s@, i0 as int) is None,
        },
{
    let n: usize = s.unicode_len();
    if i0 >= n {
        return None;
    }
    let c: char = s.get_char(i0);
    if c == '"' {
        match scan_string_at(s, i0 + 1) {
            None => None,
            Some((t, j)) => Some((JsonValue::Str(t), j)),
        }
    } else if c == '-' || ascii_digit(c) {
        match scan_number_at(s, i0) {
            None => None,
            Some((t, j)) => Some((JsonValue::Num(t), j)),
        }
    } else if c == 't' {
        if n - i0 > 3 && s.get_char(i0 + 1) == 'r' && s.get_char(i0 + 2) == 'u' && s.get_char(
            i0 + 3,
        ) == 'e' {
            Some((JsonValue::Bool(true), i0 + 4))
        } else {
            None
        }
    } else if c == 'f' {
        if n - i0 > 4 && s.get_char(i0 + 1) == 'a' && s.get_char(i0 + 2) == 'l' && s.get_char(
            i0 + 3,
        ) == 's' && s.get_char(i0 + 4) == 'e' {
            Some((JsonValue::Bool(false), i0 + 5))
        } else {
            None
        }
    } else if c == 'n' {
        if n - i0 > 3 && s.get_char(i0 + 1) == 'u' && s.get_char(i0 + 2) == 'l' && s.get_char(
            i0 + 3,
        ) == 'l' {
            Some((JsonValue::Null, i0 + 4))
        } else {
            None
        }
    } else {
        None
    }
}

// ---------------------------------------------------------------------------
// Parsing: the object
// ---------------------------------------------------------------------------

/// Scan one object member: a string key, a colon, a scalar value.
pub open spec fn scan_member(s: Seq<char>, i: int) -> Option<((Seq<char>, JsonValueV), int)> {
    if i < s.len() && s[i] == '"' {
        match scan_string(s, i + 1) {
            None => None,
            Some((k, j)) => {
                let j2 = ws_end(s, j);
                if j2 < s.len() && s[j2] == ':' {
                    let j3 = ws_end(s, j2 + 1);
                    match scan_value(s, j3) {
                        None => None,
                        Some((v, j4)) => Some(((k, v), j4)),
                    }
                } else {
                    None
                }
            },
        }
    } else {
        None
    }
}

pub proof fn lemma_scan_member(s: Seq<char>, i: int)
    requires
        0 <= i <= s.len(),
    ensures
        scan_member(s, i) matches Some(p) ==> i < p.1 <= s.len(),
{
    if i < s.len() && s[i] == '"' {
        lemma_scan_string(s, i + 1);
        match scan_string(s, i + 1) {
            None => {},
            Some((k, j)) => {
                lemma_ws_end(s, j);
                let j2 = ws_end(s, j);
                if j2 < s.len() && s[j2] == ':' {
                    lemma_ws_end(s, j2 + 1);
                    lemma_scan_value(s, ws_end(s, j2 + 1));
                }
            },
        }
    }
}

fn scan_member_at(s: &str, i0: usize) -> (r: Option<((String, JsonValue), usize)>)
    requires
        i0 <= s@.len(),
    ensures
        match r {
            Some(p) => scan_member(s@, i0 as int) == Some(((p.0.0@, p.0.1@), p.1 as int)) && i0
                < p.1 <= s@.len() && value_wf(p.0.1@),
            None => scan_member(s@, i0 as int) is None,
        },
{
    let n: usize = s.unicode_len();
    if !(i0 < n && s.get_char(i0) == '"') {
        return None;
    }
    match scan_string_at(s, i0 + 1) {
        None => None,
        Some((k, j)) => {
            let j2: usize = skip_ws(s, j);
            if j2 < n && s.get_char(j2) == ':' {
                let j3: usize = skip_ws(s, j2 + 1);
                match scan_value_at(s, j3) {
                    None => None,
                    Some((v, j4)) => Some(((k, v), j4)),
                }
            } else {
                None
            }
        },
    }
}

/// The views of a list of scanned members.
pub open spec fn kvs_view(v: Seq<(String, JsonValue)>) -> Seq<(Seq<char>, JsonValueV)> {
    v.map_values(|kv: (String, JsonValue)| (kv.0@, kv.1@))
}

/// What the number scanner guarantees of every token it hands out.
pub open spec fn num_wf(t: NumTokenV) -> bool {
    all_digits(t.int_digits) && all_digits(t.frac_digits) && 1 <= t.int_digits.len()
}

/// Scanned values carry well-formed number tokens.
pub open spec fn value_wf(v: JsonValueV) -> bool {
    match v {
        JsonValueV::Num(t) => num_wf(t),
        _ => true,
    }
}

/// Every value of a scanned member list is well formed.
pub open spec fn kvs_wf(kvs: Seq<(Seq<char>, JsonValueV)>) -> bool {
    forall|i: int| 0 <= i < kvs.len() ==> value_wf((#[trigger] kvs[i]).1)
}

/// Scan a comma-separated run of members. The index guards restate what
/// the advance lemmas prove, so that the recursion visibly terminates; the
/// refused branches are never reached.
pub open spec fn scan_members(s: Seq<char>, i: int) -> Option<
    (Seq<(Seq<char>, JsonValueV)>, int),
>
    decreases s.len() - i when 0 <= i <= s.len()
{
    match scan_member(s, i) {
        None => None,
        Some((kv, j)) => {
            if i < j && j <= s.len() {
                let j2 = ws_end(s, j);
                if j2 < s.len() && s[j2] == ',' {
                    let k = ws_end(s, j2 + 1);
                    if i < k && k <= s.len() {
                        match scan_members(s, k) {
                            None => None,
                            Some((rest, e)) => Some((seq![kv] + rest, e)),
                        }
                    } else {
                        None
                    }
                } else {
                    Some((seq![kv], j2))
                }
            } else {
                None
            }
        },
    }
}

pub proof fn lemma_scan_members(s: Seq<char>, i: int)
    requires
        0 <= i <= s.len(),
    ensures
        scan_members(s, i) matches Some(p) ==> i < p.1 <= s.len(),
    decreases s.len() - i,
{
    lemma_scan_member(s, i);
    match scan_member(s, i) {
        None => {},
        Some((kv, j)) => {
            if i < j && j <= s.len() {
                lemma_ws_end(s, j);
                let j2 = ws_end(s, j);
                if j2 < s.len() && s[j2] == ',' {
                    lemma_ws_end(s, j2 + 1);
                    let k = ws_end(s, j2 + 1);
                    if i < k && k <= s.len() {
                        lemma_scan_members(s, k);
                    }
                }
            }
        },
    }
}

fn scan_members_at(s: &str, i0: usize) -> (r: Option<(Vec<(String, JsonValue)>, usize)>)
    requires
        i0 <= s@.len(),
    ensures
        match r {
            Some(p) => scan_members(s@, i0 as int) == Some((kvs_view(p.0@), p.1 as int)) && i0
                < p.1 <= s@.len() && kvs_wf(kvs_view(p.0@)),
            None => scan_members(s@, i0 as int) is None,
        },
{
    let n: usize = s.unicode_len();
    let mut acc: Vec<(String, JsonValue)> = Vec::new();
    let mut i: usize = i0;
    proof {
        assert(kvs_view(acc@) =~= Seq::<(Seq<char>, JsonValueV)>::empty());
        lemma_scan_members(s@, i0 as int);
        match scan_members(s@, i0 as int) {
            Some(p) => {
                assert(kvs_view(acc@) + p.0 =~= p.0);
            },
            None => {},
        }
    }
    loop
        invariant
            i0 <= i <= n,
            n == s@.len(),
            kvs_wf(kvs_view(acc@)),
            match scan_members(s@, i as int) {
                Some(p) => scan_members(s@, i0 as int) == Some((kvs_view(acc@) + p.0, p.1)) && (
                i as int) < p.1 <= s@.len(),
                None => scan_members(s@, i0 as int) is None,
            },
        decreases n - i,
    {
        proof {
            lemma_scan_member(s@, i as int);
            lemma_scan_members(s@, i as int);
        }
        match scan_member_at(s, i) {
            None => {
                return None;
            },
            Some((kv, j)) => {
                let ghost acc0 = acc@;
                let ghost kvv = (kv.0@, kv.1@);
                let j2: usize = skip_ws(s, j);
                acc.push(kv);
                proof {
                    assert(kvs_view(acc@) =~= kvs_view(acc0) + seq![kvv]);
                    assert(kvs_wf(kvs_view(acc@)));
                }
                if j2 < n && s.get_char(j2) == ',' {
                    let k: usize = skip_ws(s, j2 + 1);
                    proof {
                        lemma_scan_members(s@, k as int);
                        assert forall|rest2: Seq<(Seq<char>, JsonValueV)>|
                            kvs_view(acc0) + (seq![kvv] + rest2) =~= kvs_view(acc@) + rest2 by {}
                    }
                    i = k;
                } else {
                    proof {
                        assert(scan_members(s@, i as int) == Some((seq![kvv], j2 as int)));
                        assert(kvs_view(acc0) + seq![kvv] =~= kvs_view(acc@));
                    }
                    return Some((acc, j2));
                }
            },
        }
    }
}

/// Scan a whole body: optional whitespace around one object of members and
/// nothing else.
pub open spec fn scan_object(s: Seq<char>) -> Option<Seq<(Seq<char>, JsonValueV)>> {
    let i = ws_end(s, 0);
    if i < s.len() && s[i] == '{' {
        let j = ws_end(s, i + 1);
        if j < s.len() && s[j] == '}' {
            if ws_end(s, j + 1) == s.len() {
                Some(Seq::empty())
            } else {
                None
            }
        } else {
            match scan_members(s, j) {
                None => None,
                Some((kvs, e)) => {
                    let e2 = ws_end(s, e);
                    if e2 < s.len() && s[e2] == '}' && ws_end(s, e2 + 1) == s.len() {
                        Some(kvs)
                    } else {
                        None
                    }
                },
            }
        }
    } else {
        None
    }
}

fn scan_object_exec(s: &str) -> (r: Option<Vec<(String, JsonValue)>>)
    ensures
        match r {
            Some(kvs) => scan_object(s@) == Some(kvs_view(kvs@)) && kvs_wf(kvs_view(kvs@)),
            None => scan_object(s@) is None,
        },
{
    let n: usize = s.unicode_len();
    let i: usize = skip_ws(s, 0);
    if !(i < n && s.get_char(i) == '{') {
        return None;
    }
    let j: usize = skip_ws(s, i + 1);
    if j < n && s.get_char(j) == '}' {
        let e3: usize = skip_ws(s, j + 1);
        if e3 == n {
            proof {
                assert(kvs_view(Seq::<(String, JsonValue)>::empty()) =~= Seq::<
                    (Seq<char>, JsonValueV),
                >::empty());
            }
            Some(Vec::new())
        } else {
            None
        }
    } else {
        match scan_members_at(s, j) {
            None => None,
            Some((kvs, e)) => {
                let e2: usize = skip_ws(s, e);
                if e2 < n && s.get_char(e2) == '}' {
                    let e3: usize = skip_ws(s, e2 + 1);
                    if e3 == n {
                        Some(kvs)
                    } else {
                        None
                    }
                } else {
                    None
                }
            },
        }
    }
}

// ---------------------------------------------------------------------------
// Parsing: interpretation of the members
// ---------------------------------------------------------------------------

/// The response under construction while members are folded in.
pub struct RespBuild {
    pub status_text: Option<String>,
    pub message: Option<String>,
    pub cost: Option<i32>,
    pub follow_up: Option<String>,
    pub balance: Option<Balance>,
}

/// Ghost image of `RespBuild`.
pub ghost struct RespBuildV {
    pub status_text: Option<Seq<char>>,
    pub message: Option<Seq<char>>,
    pub cost: Option<int>,
    pub follow_up: Option<Seq<char>>,
    pub balance: Option<BalanceV>,
}

impl View for RespBuild {
    type V = RespBuildV;

    open spec fn view(&self) -> RespBuildV {
        RespBuildV {
            status_text: match self.status_text {
                Some(t) => Some(t@),
                None => None,
            },
            message: match self.message {
                Some(t) => Some(t@),
                None => None,
            },
            cost: match self.cost {
                Some(c) => Some(c as int),
                None => None,
            },
            follow_up: match self.follow_up {
                Some(t) => Some(t@),
                None => None,
            },
            balance: match self.balance {
                Some(b) => Some(b@),
                None => None,
            },
        }
    }
}

/// The build before any member is folded in.
pub open spec fn empty_build() -> RespBuildV {
    RespBuildV { status_text: None, message: None, cost: None, follow_up: None, balance: None }
}

/// The cost a number token denotes: an integer (no fraction) whose
/// magnitude fits an `i32`. A JSON numeral has no leading zero, so one
/// longer than 19 digits always overflows and the length test refuses
/// nothing representable.
pub open spec fn cost_of_num(t: NumTokenV) -> Option<int> {
    if t.frac_digits.len() == 0 && 1 <= t.int_digits.len() <= 19 && digits_val(t.int_digits)
        <= 0x7fff_ffff {
        if t.negative {
            Some(-digits_val(t.int_digits))
        } else {
            Some(digits_val(t.int_digits))
        }
    } else {
        None
    }
}

/// The balance a number token denotes: held exactly as mantissa and scale
/// when its digits fit a `u64` mantissa, refused otherwise.
pub open spec fn balance_of_num(t: NumTokenV) -> Option<BalanceV> {
    if 1 <= t.int_digits.len() && t.int_digits.len() + t.frac_digits.len() <= 19 {
        Some(
            BalanceV {
                negative: t.negative,
                mantissa: digits_val(t.int_digits + t.frac_digits),
                scale: t.frac_digits.len() as int,
            },
        )
    } else {
        None
    }
}

/// The balance a string member denotes: its whole text read as one number,
/// nothing when the text is not numeric.
pub open spec fn balance_of_text(t: Seq<char>) -> Option<BalanceV> {
    match scan_number(t, 0) {
        Some((nt, e)) => if e == t.len() {
            balance_of_num(nt)
        } else {
            None
        },
        None => None,
    }
}

/// Fold one member into the build. The five known keys are typed strictly
/// (`null` standing for an absent value); a non-numeric or oversized
/// `Balance` is kept as absent rather than failing, since the remote side
/// may write it as text; unknown keys are ignored.
pub open spec fn apply_field(b: RespBuildV, k: Seq<char>, v: JsonValueV) -> Option<RespBuildV> {
    if k == "Status"@ {
        match v {
            JsonValueV::Str(t) => Some(
                RespBuildV {
                    status_text: Some(t),
                    message: b.message,
                    cost: b.cost,
                    follow_up: b.follow_up,
                    balance: b.balance,
                },
            ),
            _ => None,
        }
    } else if k == "Message"@ {
        match v {
            JsonValueV::Str(t) => Some(
                RespBuildV {
                    status_text: b.status_text,
                    message: Some(t),
                    cost: b.cost,
                    follow_up: b.follow_up,
                    balance: b.balance,
                },
            ),
            JsonValueV::Null => Some(
                RespBuildV {
                    status_text: b.status_text,
                    message: None,
                    cost: b.cost,
                    follow_up: b.follow_up,
                    balance: b.balance,
                },
            ),
            _ => None,
        }
    } else if k == "Cost"@ {
        match v {
            JsonValueV::Num(t) => match cost_of_num(t) {
                Some(c) => Some(
                    RespBuildV {
                        status_text: b.status_text,
                        message: b.message,
                        cost: Some(c),
                        follow_up: b.follow_up,
                        balance: b.balance,
                    },
                ),
                None => None,
            },
            JsonValueV::Null => Some(
                RespBuildV {
                    status_text: b.status_text,
                    message: b.message,
                    cost: None,
                    follow_up: b.follow_up,
                    balance: b.balance,
                },
            ),
            _ => None,
        }
    } else if k == "MsgFollowUpUniqueCode"@ {
        match v {
            JsonValueV::Str(t) => Some(
                RespBuildV {
                    status_text: b.status_text,
                    message: b.message,
                    cost: b.cost,
                    follow_up: Some(t),
                    balance: b.balance,
                },
            ),
            JsonValueV::Null => Some(
                RespBuildV {
                    status_text: b.status_text,
                    message: b.message,
                    cost: b.cost,
                    follow_up: None,
                    balance: b.balance,
                },
            ),
            _ => None,
        }
    } else if k == "Balance"@ {
        match v {
            JsonValueV::Num(t) => Some(
                RespBuildV {
                    status_text: b.status_text,
                    message: b.message,
                    cost: b.cost,
                    follow_up: b.follow_up,
                    balance: balance_of_num(t),
                },
            ),
            JsonValueV::Str(t) => Some(
                RespBuildV {
                    status_text: b.status_text,
                    message: b.message,
                    cost: b.cost,
                    follow_up: b.follow_up,
                    balance: balance_of_text(t),
                },
            ),
            JsonValueV::Null => Some(
                RespBuildV {
                    status_text: b.status_text,
                    message: b.message,
                    cost: b.cost,
                    follow_up: b.follow_up,
                    balance: None,
                },
            ),
            JsonValueV::Bool(_) => None,
        }
    } else {
        Some(b)
    }
}

/// Fold every member into the build, front to back; later members
/// overwrite earlier ones of the same key.
pub open spec fn apply_fields(b: RespBuildV, kvs: Seq<(Seq<char>, JsonValueV)>) -> Option<
    RespBuildV,
>
    decreases kvs.len(),
{
    if kvs.len() == 0 {
        Some(b)
    } else {
        match apply_field(b, kvs[0].0, kvs[0].1) {
            None => None,
            Some(b2) => apply_fields(b2, kvs.drop_first()),
        }
    }
}

/// Why a body failed to parse into a response.
#[derive(Clone, PartialEq, Eq, Debug)]
pub enum ParseFail {
    /// The body was not a well-formed response object.
    Malformed,
    /// The body parsed but its `Status` was neither `OK` nor `Failed`; the
    /// offending text is carried.
    UnknownStatus(String),
}

/// Ghost image of `ParseFail`.
pub ghost enum ParseFailV {
    Malformed,
    UnknownStatus(Seq<char>),
}

impl View for ParseFail {
    type V = ParseFailV;

    open spec fn view(&self) -> ParseFailV {
        match self {
            ParseFail::Malformed => ParseFailV::Malformed,
            ParseFail::UnknownStatus(t) => ParseFailV::UnknownStatus(t@),
        }
    }
}

/// The view of a parse result.
pub open spec fn parse_result_view(r: Result<ApiResponse, ParseFail>) -> Result<
    crate::models::ApiResponseV,
    ParseFailV,
> {
    match r {
        Ok(a) => Ok(a@),
        Err(e) => Err(e@),
    }
}

/// Close the build: `Status` must have been seen and be one of the two
/// defined codes; anything else is the offending protocol text.
pub open spec fn finish_build(b: RespBuildV) -> Result<crate::models::ApiResponseV, ParseFailV> {
    match b.status_text {
        None => Err(ParseFailV::Malformed),
        Some(t) => if t == "OK"@ {
            Ok(
                crate::models::ApiResponseV {
                    status: ApiResponseCode::OK,
                    message: b.message,
                    cost: b.cost,
                    message_follow_up_code: b.follow_up,
                    balance: b.balance,
                },
            )
        } else if t == "Failed"@ {
            Ok(
                crate::models::ApiResponseV {
                    status: ApiResponseCode::Failed,
                    message: b.message,
                    cost: b.cost,
                    message_follow_up_code: b.follow_up,
                    balance: b.balance,
                },
            )
        } else {
            Err(ParseFailV::UnknownStatus(t))
        },
    }
}

/// What a response body means: scan the object, fold its members, close
/// the build. Anything else is malformed.
pub open spec fn spec_parse_response(s: Seq<char>) -> Result<
    crate::models::ApiResponseV,
    ParseFailV,
> {
    match scan_object(s) {
        None => Err(ParseFailV::Malformed),
        Some(kvs) => match apply_fields(empty_build(), kvs) {
            None => Err(ParseFailV::Malformed),
            Some(b) => finish_build(b),
        },
    }
}

fn cost_of_num_exec(t: &NumToken) -> (r: Option<i32>)
    requires
        all_digits(t@.int_digits),
        1 <= t@.int_digits.len(),
    ensures
        match r {
            Some(c) => cost_of_num(t@) == Some(c as int),
            None => cost_of_num(t@) is None,
        },
{
    if t.frac_digits.unicode_len() > 0 {
        return None;
    }
    let len: usize = t.int_digits.unicode_len();
    if len > 19 {
        return None;
    }
    let v: u64 = digits_to_u64(t.int_digits.as_str());
    if v > 0x7fff_ffff {
        return None;
    }
    let c: i32 = v as i32;
    if t.negative {
        Some(-c)
    } else {
        Some(c)
    }
}

fn balance_of_num_exec(t: &NumToken) -> (r: Option<Balance>)
    requires
        all_digits(t@.int_digits),
        all_digits(t@.frac_digits),
        1 <= t@.int_digits.len(),
    ensures
        match r {
            Some(b) => balance_of_num(t@) == Some(b@),
            None => balance_of_num(t@) is None,
        },
{
    let ilen: usize = t.int_digits.unicode_len();
    let flen: usize = t.frac_digits.unicode_len();
    if ilen > 19 || flen > 19 - ilen {
        return None;
    }
    let mut digits: String = t.int_digits.clone();
    digits.append(t.frac_digits.as_str());
    proof {
        assert(digits@ == t@.int_digits + t@.frac_digits);
        assert(all_digits(digits@));
    }
    let m: u64 = digits_to_u64(digits.as_str());
    let scale: u32 = flen as u32;
    Some(Balance { negative: t.negative, mantissa: m, scale })
}

fn balance_of_text_exec(t: &String) -> (r: Option<Balance>)
    ensures
        match r {
            Some(b) => balance_of_text(t@) == Some(b@),
            None => balance_of_text(t@) is None,
        },
{
    match scan_number_at(t.as_str(), 0) {
        None => None,
        Some((tok, e)) => {
            if e == t.as_str().unicode_len() {
                balance_of_num_exec(&tok)
            } else {
                None
            }
        },
    }
}

fn apply_field_exec(b: RespBuild, k: &String, v: JsonValue) -> (r: Option<RespBuild>)
    requires
        value_wf(v@),
    ensures
        match r {
            Some(b2) => apply_field(b@, k@, v@) == Some(b2@),
            None => apply_field(b@, k@, v@) is None,
        },
{
    let key_status: String = String::from_str("Status");
    let key_message: String = String::from_str("Message");
    let key_cost: String = String::from_str("Cost");
    let key_follow: String = String::from_str("MsgFollowUpUniqueCode");
    let key_balance: String = String::from_str("Balance");
    if k.eq(&key_status) {
        match v {
            JsonValue::Str(t) => Some(RespBuild { status_text: Some(t), ..b }),
            _ => None,
        }
    } else if k.eq(&key_message) {
        match v {
            JsonValue::Str(t) => Some(RespBuild { message: Some(t), ..b }),
            JsonValue::Null => Some(RespBuild { message: None, ..b }),
            _ => None,
        }
    } else if k.eq(&key_cost) {
        match v {
            JsonValue::Num(t) => match cost_of_num_exec(&t) {
                Some(c) => Some(RespBuild { cost: Some(c), ..b }),
                None => None,
            },
            JsonValue::Null => Some(RespBuild { cost: None, ..b }),
            _ => None,
        }
    } else if k.eq(&key_follow) {
        match v {
            JsonValue::Str(t) => Some(RespBuild { follow_up: Some(t), ..b }),
            JsonValue::Null => Some(RespBuild { follow_up: None, ..b }),
            _ => None,
        }
    } else if k.eq(&key_balance) {
        match v {
            JsonValue::Num(t) => {
                let nb: Option<Balance> = balance_of_num_exec(&t);
                Some(RespBuild { balance: nb, ..b })
            },
            JsonValue::Str(t) => {
                let nb: Option<Balance> = balance_of_text_exec(&t);
                Some(RespBuild { balance: nb, ..b })
            },
            JsonValue::Null => Some(RespBuild { balance: None, ..b }),
            JsonValue::Bool(_) => None,
        }
    } else {
        Some(b)
    }
}

fn apply_fields_exec(b: RespBuild, kvs: Vec<(String, JsonValue)>) -> (r: Option<RespBuild>)
    requires
        kvs_wf(kvs_view(kvs@)),
    ensures
        match r {
            Some(b2) => apply_fields(b@, kvs_view(kvs@)) == Some(b2@),
            None => apply_fields(b@, kvs_view(kvs@)) is None,
        },
{
    let mut cur: RespBuild = b;
    let mut rest: Vec<(String, JsonValue)> = kvs;
    while rest.len() > 0
        invariant
            kvs_wf(kvs_view(rest@)),
            apply_fields(b@, kvs_view(kvs@)) == apply_fields(cur@, kvs_view(rest@)),
        decreases rest.len(),
    {
        let ghost rest0 = rest@;
        let kv: (String, JsonValue) = rest.remove(0);
        proof {
            assert(kvs_view(rest0)[0] == (kv.0@, kv.1@));
            assert(kvs_view(rest0).drop_first() =~= kvs_view(rest@));
            assert(kvs_wf(kvs_view(rest@)));
        }
        match apply_field_exec(cur, &kv.0, kv.1) {
            None => {
                return None;
            },
            Some(b2) => {
                cur = b2;
            },
        }
    }
    proof {
        assert(kvs_view(rest@) =~= Seq::<(Seq<char>, JsonValueV)>::empty());
    }
    Some(cur)
}

fn finish_build_exec(b: RespBuild) -> (r: Result<ApiResponse, ParseFail>)
    ensures
        parse_result_view(r) == finish_build(b@),
{
    let ok_text: String = String::from_str("OK");
    let failed_text: String = String::from_str("Failed");
    match b.status_text {
        None => Err(ParseFail::Malformed),
        Some(t) => {
            if t.eq(&ok_text) {
                Ok(
                    ApiResponse {
                        status: ApiResponseCode::OK,
                        message: b.message,
                        cost: b.cost,
                        message_follow_up_code: b.follow_up,
                        balance: b.balance,
                    },
                )
            } else if t.eq(&failed_text) {
                Ok(
                    ApiResponse {
                        status: ApiResponseCode::Failed,
                        message: b.message,
                        cost: b.cost,
                        message_follow_up_code: b.follow_up,
                        balance: b.balance,
                    },
                )
            } else {
                Err(ParseFail::UnknownStatus(t))
            }
        },
    }
}

/// Parse a response body into the typed response, or say why it cannot be.
pub fn parse_api_response(s: &str) -> (r: Result<ApiResponse, ParseFail>)
    ensures
        parse_result_view(r) == spec_parse_response(s@),
{
    match scan_object_exec(s) {
        None => Err(ParseFail::Malformed),
        Some(kvs) => {
            let empty: RespBuild = RespBuild {
                status_text: None,
                message: None,
                cost: None,
                follow_up: None,
                balance: None,
            };
            proof {
                assert(empty@ == empty_build());
            }
            match apply_fields_exec(empty, kvs) {
                None => Err(ParseFail::Malformed),
                Some(b) => finish_build_exec(b),
            }
        },
    }
}

} // verus!

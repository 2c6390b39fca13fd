//! Wire codec for protocol frames.
//!
//! Frames are JSON objects whose values are strings and booleans,
//! discriminated by a `type` field.  The encoder's output is pinned
//! character by character by spec functions; the decoder accepts
//! exactly the frame grammar given by the `parse_*` spec functions and
//! yields the event those functions denote, or nothing for a malformed
//! frame.

use vstd::prelude::*;

verus! {

/// One inbound or outbound protocol event.  The `message` payload is
/// carried as its raw text.
#[derive(Debug)]
pub enum WebSocketEvent {
    Message { consultation_id: String, message: String },
    ConsultationUpdate { consultation_id: String, status: String },
    Typing { consultation_id: String, user_id: String, is_typing: bool },
    ReadReceipt { consultation_id: String, message_id: String, read_by: String },
    ConnectionAck { user_id: String, session_id: String },
    Error { code: String, message: String },
}

/// The spec-level image of an event: every text field as a character
/// sequence.
pub ghost enum EventV {
    Message { consultation_id: Seq<char>, message: Seq<char> },
    ConsultationUpdate { consultation_id: Seq<char>, status: Seq<char> },
    Typing { consultation_id: Seq<char>, user_id: Seq<char>, is_typing: bool },
    ReadReceipt { consultation_id: Seq<char>, message_id: Seq<char>, read_by: Seq<char> },
    ConnectionAck { user_id: Seq<char>, session_id: Seq<char> },
    Error { code: Seq<char>, message: Seq<char> },
}

impl View for WebSocketEvent {
    type V = EventV;

    open spec fn view(&self) -> EventV {
        match self {
            WebSocketEvent::Message { consultation_id, message } => EventV::Message {
                consultation_id: consultation_id@,
                message: message@,
            },
            WebSocketEvent::ConsultationUpdate { consultation_id, status } => EventV::ConsultationUpdate {
                consultation_id: consultation_id@,
                status: status@,
            },
            WebSocketEvent::Typing { consultation_id, user_id, is_typing } => EventV::Typing {
                consultation_id: consultation_id@,
                user_id: user_id@,
                is_typing: *is_typing,
            },
            WebSocketEvent::ReadReceipt { consultation_id, message_id, read_by } => EventV::ReadReceipt {
                consultation_id: consultation_id@,
                message_id: message_id@,
                read_by: read_by@,
            },
            WebSocketEvent::ConnectionAck { user_id, session_id } => EventV::ConnectionAck {
                user_id: user_id@,
                session_id: session_id@,
            },
            WebSocketEvent::Error { code, message } => EventV::Error {
                code: code@,
                message: message@,
            },
        }
    }
}

/// A lower-case hexadecimal digit.
pub open spec fn hex_digit(n: nat) -> char {
    if n < 10 {
        ((n + 48) as u8) as char
    } else {
        ((n + 87) as u8) as char
    }
}

/// How one character appears inside a JSON string literal.
pub open spec fn esc_char(c: char) -> Seq<char> {
    if c == '"' {
        seq!['\\', '"']
    } else if c == '\\' {
        seq!['\\', '\\']
    } else if c as u32 == 0x08 {
        seq!['\\', 'b']
    } else if c as u32 == 0x09 {
        seq!['\\', 't']
    } else if c as u32 == 0x0A {
        seq!['\\', 'n']
    } else if c as u32 == 0x0C {
        seq!['\\', 'f']
    } else if c as u32 == 0x0D {
        seq!['\\', 'r']
    } else if (c as u32) < 0x20 {
        seq!['\\', 'u', '0', '0', hex_digit(((c as u32) / 16) as nat), hex_digit(
            ((c as u32) % 16) as nat,
        )]
    } else {
        seq![c]
    }
}

/// The body of a JSON string literal for `s`.
pub open spec fn json_escape(s: Seq<char>) -> Seq<char>
    decreases s.len(),
{
    if s.len() == 0 {
        Seq::empty()
    } else {
        esc_char(s[0]) + json_escape(s.drop_first())
    }
}

/// A complete JSON string literal: quotes around the escaped body.
pub open spec fn jstr(s: Seq<char>) -> Seq<char> {
    seq!['"'] + json_escape(s) + seq!['"']
}

proof fn lemma_json_escape_push(s: Seq<char>, c: char)
    ensures
        json_escape(s.push(c)) == json_escape(s) + esc_char(c),
    decreases s.len(),
{
    if s.len() == 0 {
        assert(s.push(c).drop_first() =~= Seq::<char>::empty());
        assert(json_escape(Seq::<char>::empty()) =~= Seq::<char>::empty());
        assert(s.push(c)[0] == c);
        assert(json_escape(s.push(c)) =~= esc_char(c) + json_escape(s.push(c).drop_first()));
        assert(json_escape(s.push(c)) =~= json_escape(s) + esc_char(c));
    } else {
        lemma_json_escape_push(s.drop_first(), c);
        assert(s.push(c).drop_first() =~= s.drop_first().push(c));
        assert(json_escape(s.push(c)) =~= json_escape(s) + esc_char(c));
    }
}

/// Appends the JSON string literal for `s` to `out`.
pub fn push_json_string(out: &mut String, s: &str)
    ensures
        final(out)@ == old(out)@ + jstr(s@),
{
    out.push('"');
    let cs = crate::strutil::chars_vec(s);
    let n = cs.len();
    let mut i: usize = 0;
    while i < n
        invariant
            cs@ == s@,
            n == cs@.len(),
            0 <= i <= n,
            out@ == old(out)@ + seq!['"'] + json_escape(cs@.take(i as int)),
        decreases n - i,
    {
        let c = cs[i];
        let u = c as u32;
        if c == '"' {
            out.push('\\');
            out.push('"');
        } else if c == '\\' {
            out.push('\\');
            out.push('\\');
        } else if u == 0x08 {
            out.push('\\');
            out.push('b');
        } else if u == 0x09 {
            out.push('\\');
            out.push('t');
        } else if u == 0x0A {
            out.push('\\');
            out.push('n');
        } else if u == 0x0C {
            out.push('\\');
            out.push('f');
        } else if u == 0x0D {
            out.push('\\');
            out.push('r');
        } else if u < 0x20 {
            out.push('\\');
            out.push('u');
            out.push('0');
            out.push('0');
            let hi = (u / 16) as u8;
            let lo = (u % 16) as u8;
            let hc: char = (if hi < 10 { hi + 48 } else { hi + 87 }) as char;
            let lc: char = (if lo < 10 { lo + 48 } else { lo + 87 }) as char;
            proof {
                assert(hi < 2 && lo < 16);
                assert(hc == hex_digit(((cs@[i as int] as u32) / 16) as nat));
                assert(lc == hex_digit(((cs@[i as int] as u32) % 16) as nat));
            }
            out.push(hc);
            out.push(lc);
        } else {
            out.push(c);
        }
        proof {
            lemma_json_escape_push(cs@.take(i as int), cs@[i as int]);
            assert(cs@.take(i + 1) =~= cs@.take(i as int).push(cs@[i as int]));
            assert(out@ =~= old(out)@ + seq!['"'] + json_escape(cs@.take(i + 1)));
        }
        i = i + 1;
    }
    out.push('"');
    proof {
        assert(cs@.take(n as int) =~= cs@);
        assert(out@ =~= old(out)@ + jstr(s@));
    }
}

/// The control frame that subscribes to a consultation.
pub open spec fn spec_subscribe_frame(cid: Seq<char>) -> Seq<char> {
    "{\"type\":\"subscribe\",\"consultation_id\":"@ + jstr(cid) + seq!['}']
}

/// The control frame that cancels a subscription.
pub open spec fn spec_unsubscribe_frame(cid: Seq<char>) -> Seq<char> {
    "{\"type\":\"unsubscribe\",\"consultation_id\":"@ + jstr(cid) + seq!['}']
}

/// The read-receipt frame, reported by the doctor side.
pub open spec fn spec_read_receipt_frame(cid: Seq<char>, mid: Seq<char>) -> Seq<char> {
    "{\"type\":\"read_receipt\",\"consultation_id\":"@ + jstr(cid) + ",\"message_id\":"@ + jstr(
        mid,
    ) + ",\"read_by\":\"doctor\"}"@
}

/// The typing-status frame, reported by the doctor side.
pub open spec fn spec_typing_frame(cid: Seq<char>, is_typing: bool) -> Seq<char> {
    "{\"type\":\"typing\",\"consultation_id\":"@ + jstr(cid) + ",\"user_id\":\"doctor\",\"is_typing\":"@
        + (if is_typing {
        "true"@
    } else {
        "false"@
    }) + seq!['}']
}

pub fn encode_subscribe(cid: &str) -> (r: String)
    ensures
        r@ == spec_subscribe_frame(cid@),
{
    let mut out = String::from_str("{\"type\":\"subscribe\",\"consultation_id\":");
    push_json_string(&mut out, cid);
    out.push('}');
    proof {
        assert(out@ =~= spec_subscribe_frame(cid@));
    }
    out
}

pub fn encode_unsubscribe(cid: &str) -> (r: String)
    ensures
        r@ == spec_unsubscribe_frame(cid@),
{
    let mut out = String::from_str("{\"type\":\"unsubscribe\",\"consultation_id\":");
    push_json_string(&mut out, cid);
    out.push('}');
    proof {
        assert(out@ =~= spec_unsubscribe_frame(cid@));
    }
    out
}

pub fn encode_read_receipt(cid: &str, mid: &str) -> (r: String)
    ensures
        r@ == spec_read_receipt_frame(cid@, mid@),
{
    let mut out = String::from_str("{\"type\":\"read_receipt\",\"consultation_id\":");
    push_json_string(&mut out, cid);
    out.append(",\"message_id\":");
    push_json_string(&mut out, mid);
    out.append(",\"read_by\":\"doctor\"}");
    proof {
        assert(out@ =~= spec_read_receipt_frame(cid@, mid@));
    }
    out
}

pub fn encode_typing(cid: &str, is_typing: bool) -> (r: String)
    ensures
        r@ == spec_typing_frame(cid@, is_typing),
{
    let mut out = String::from_str("{\"type\":\"typing\",\"consultation_id\":");
    push_json_string(&mut out, cid);
    out.append(",\"user_id\":\"doctor\",\"is_typing\":");
    if is_typing {
        out.append("true");
    } else {
        out.append("false");
    }
    out.push('}');
    proof {
        assert(out@ =~= spec_typing_frame(cid@, is_typing));
    }
    out
}

// ---------------------------------------------------------------------
// Decoding
// ---------------------------------------------------------------------

/// A JSON value the frame grammar admits: a string, a boolean or null.
pub enum JsonValue {
    S(String),
    B(bool),
    Null,
}

/// Spec image of a JSON value.
pub ghost enum JVal {
    S(Seq<char>),
    B(bool),
    Null,
}

impl View for JsonValue {
    type V = JVal;

    open spec fn view(&self) -> JVal {
        match self {
            JsonValue::S(s) => JVal::S(s@),
            JsonValue::B(b) => JVal::B(*b),
            JsonValue::Null => JVal::Null,
        }
    }
}

/// JSON whitespace.
pub open spec fn is_json_ws(c: char) -> bool {
    c == ' ' || c == '\t' || c == '\n' || c == '\r'
}

/// The first position at or after `i` holding a non-whitespace
/// character, or the end of the text.
pub open spec fn skip_ws(s: Seq<char>, i: int) -> int
    recommends
        0 <= i <= s.len(),
    decreases s.len() - i,
{
    if 0 <= i && i < s.len() && is_json_ws(s[i]) {
        skip_ws(s, i + 1)
    } else {
        i
    }
}

proof fn lemma_skip_ws_bounds(s: Seq<char>, i: int)
    requires
        0 <= i <= s.len(),
    ensures
        i <= skip_ws(s, i) <= s.len(),
    decreases s.len() - i,
{
    if i < s.len() && is_json_ws(s[i]) {
        lemma_skip_ws_bounds(s, i + 1);
    }
}

/// The value of a hexadecimal digit.
pub open spec fn hex_val(c: char) -> Option<nat> {
    let u = c as u32;
    if 48 <= u && u <= 57 {
        Some((u - 48) as nat)
    } else if 97 <= u && u <= 102 {
        Some((u - 87) as nat)
    } else if 65 <= u && u <= 70 {
        Some((u - 55) as nat)
    } else {
        None
    }
}

/// A code a `\u` escape may name: in the basic plane and no surrogate.
pub open spec fn ok_bmp(u: nat) -> bool {
    u < 0xD800 || (0xE000 <= u && u <= 0xFFFF)
}

/// Parses the body of a string literal starting right after the opening
/// quote: the decoded text and the position after the closing quote.
pub open spec fn parse_string_body(s: Seq<char>, i: int) -> Option<(Seq<char>, int)>
    recommends
        0 <= i <= s.len(),
    decreases s.len() - i,
    when 0 <= i <= s.len()
{
    if i >= s.len() {
        None
    } else if s[i] == '"' {
        Some((Seq::empty(), i + 1))
    } else if s[i] == '\\' {
        if i + 1 >= s.len() {
            None
        } else {
            let e = s[i + 1];
            if e == '"' || e == '\\' || e == '/' {
                match parse_string_body(s, i + 2) {
                    Some((t, j)) => Some((seq![e] + t, j)),
                    None => None,
                }
            } else if e == 'b' || e == 'f' || e == 'n' || e == 'r' || e == 't' {
                let c = if e == 'b' {
                    '\u{08}'
                } else if e == 'f' {
                    '\u{0C}'
                } else if e == 'n' {
                    '\n'
                } else if e == 'r' {
                    '\r'
                } else {
                    '\t'
                };
                match parse_string_body(s, i + 2) {
                    Some((t, j)) => Some((seq![c] + t, j)),
                    None => None,
                }
            } else if e == 'u' {
                if i + 6 > s.len() {
                    None
                } else {
                    match (hex_val(s[i + 2]), hex_val(s[i + 3]), hex_val(s[i + 4]), hex_val(
                        s[i + 5],
                    )) {
                        (Some(h0), Some(h1), Some(h2), Some(h3)) => {
                            let v = h0 * 4096 + h1 * 256 + h2 * 16 + h3;
                            if ok_bmp(v) {
                                match parse_string_body(s, i + 6) {
                                    Some((t, j)) => Some((seq![(v as u32) as char] + t, j)),
                                    None => None,
                                }
                            } else {
                                None
                            }
                        },
                        _ => None,
                    }
                }
            } else {
                None
            }
        }
    } else if (s[i] as u32) < 0x20 {
        None
    } else {
        match parse_string_body(s, i + 1) {
            Some((t, j)) => Some((seq![s[i]] + t, j)),
            None => None,
        }
    }
}

proof fn lemma_parse_string_bounds(s: Seq<char>, i: int)
    requires
        0 <= i <= s.len(),
    ensures
        parse_string_body(s, i) matches Some((t, j)) ==> i < j <= s.len(),
    decreases s.len() - i,
{
    if i < s.len() {
        if s[i] == '\\' && i + 1 < s.len() {
            let e = s[i + 1];
            if e == 'u' {
                if i + 6 <= s.len() {
                    lemma_parse_string_bounds(s, i + 6);
                }
            } else {
                if i + 2 <= s.len() {
                    lemma_parse_string_bounds(s, i + 2);
                }
            }
        } else {
            if i + 1 <= s.len() {
                lemma_parse_string_bounds(s, i + 1);
            }
        }
    }
}

/// Parses one value: a string literal, `true`, `false` or `null`, with
/// leading whitespace allowed.
pub open spec fn parse_value(s: Seq<char>, i: int) -> Option<(JVal, int)>
    recommends
        0 <= i <= s.len(),
{
    let j = skip_ws(s, i);
    if j < s.len() && s[j] == '"' {
        match parse_string_body(s, j + 1) {
            Some((t, k)) => Some((JVal::S(t), k)),
            None => None,
        }
    } else if j + 4 <= s.len() && s[j] == 't' && s[j + 1] == 'r' && s[j + 2] == 'u' && s[j + 3]
        == 'e' {
        Some((JVal::B(true), j + 4))
    } else if j + 5 <= s.len() && s[j] == 'f' && s[j + 1] == 'a' && s[j + 2] == 'l' && s[j + 3]
        == 's' && s[j + 4] == 'e' {
        Some((JVal::B(false), j + 5))
    } else if j + 4 <= s.len() && s[j] == 'n' && s[j + 1] == 'u' && s[j + 2] == 'l' && s[j + 3]
        == 'l' {
        Some((JVal::Null, j + 4))
    } else {
        None
    }
}

proof fn lemma_parse_value_bounds(s: Seq<char>, i: int)
    requires
        0 <= i <= s.len(),
    ensures
        parse_value(s, i) matches Some((v, j)) ==> i < j <= s.len(),
{
    lemma_skip_ws_bounds(s, i);
    let j = skip_ws(s, i);
    if j < s.len() && s[j] == '"' {
        lemma_parse_string_bounds(s, j + 1);
    }
}

/// Parses the members of an object from right after `{` (or after a
/// comma): one `"key": value` pair at a time, up to and including the
/// closing `}`.
pub open spec fn parse_members(s: Seq<char>, i: int) -> Option<(Seq<(Seq<char>, JVal)>, int)>
    recommends
        0 <= i <= s.len(),
    decreases s.len() - i,
    when 0 <= i <= s.len()
    via parse_members_dec
{
    let j = skip_ws(s, i);
    if j >= s.len() || s[j] != '"' {
        None
    } else {
        match parse_string_body(s, j + 1) {
            None => None,
            Some((k, j2)) => {
                let j3 = skip_ws(s, j2);
                if j3 >= s.len() || s[j3] != ':' {
                    None
                } else {
                    match parse_value(s, j3 + 1) {
                        None => None,
                        Some((v, j4)) => {
                            let j5 = skip_ws(s, j4);
                            if j5 >= s.len() {
                                None
                            } else if s[j5] == '}' {
                                Some((seq![(k, v)], j5 + 1))
                            } else if s[j5] == ',' {
                                match parse_members(s, j5 + 1) {
                                    Some((rest, j6)) => Some((seq![(k, v)] + rest, j6)),
                                    None => None,
                                }
                            } else {
                                None
                            }
                        },
                    }
                }
            },
        }
    }
}

#[via_fn]
proof fn parse_members_dec(s: Seq<char>, i: int) {
    if 0 <= i <= s.len() {
        lemma_skip_ws_bounds(s, i);
        let j = skip_ws(s, i);
        if j < s.len() && s[j] == '"' {
            lemma_parse_string_bounds(s, j + 1);
            match parse_string_body(s, j + 1) {
                None => {},
                Some((k, j2)) => {
                    lemma_skip_ws_bounds(s, j2);
                    let j3 = skip_ws(s, j2);
                    if j3 < s.len() && s[j3] == ':' {
                        lemma_parse_value_bounds(s, j3 + 1);
                        match parse_value(s, j3 + 1) {
                            None => {},
                            Some((v, j4)) => {
                                lemma_skip_ws_bounds(s, j4);
                            },
                        }
                    }
                },
            }
        }
    }
}

proof fn lemma_parse_members_bounds(s: Seq<char>, i: int)
    requires
        0 <= i <= s.len(),
    ensures
        parse_members(s, i) matches Some((ps, j)) ==> i < j <= s.len(),
    decreases s.len() - i,
{
    lemma_skip_ws_bounds(s, i);
    let j = skip_ws(s, i);
    if j < s.len() && s[j] == '"' {
        lemma_parse_string_bounds(s, j + 1);
        match parse_string_body(s, j + 1) {
            None => {},
            Some((k, j2)) => {
                lemma_skip_ws_bounds(s, j2);
                let j3 = skip_ws(s, j2);
                if j3 < s.len() && s[j3] == ':' {
                    lemma_parse_value_bounds(s, j3 + 1);
                    match parse_value(s, j3 + 1) {
                        None => {},
                        Some((v, j4)) => {
                            lemma_skip_ws_bounds(s, j4);
                            let j5 = skip_ws(s, j4);
                            if j5 < s.len() && s[j5] == ',' {
                                lemma_parse_members_bounds(s, j5 + 1);
                            }
                        },
                    }
                }
            },
        }
    }
}

/// Parses a whole frame: one object covering the full text, yielding
/// its key/value pairs in order.
pub open spec fn parse_object(s: Seq<char>) -> Option<Seq<(Seq<char>, JVal)>> {
    let i = skip_ws(s, 0);
    if i >= s.len() || s[i] != '{' {
        None
    } else {
        let j = skip_ws(s, i + 1);
        if j < s.len() && s[j] == '}' {
            if skip_ws(s, j + 1) == s.len() {
                Some(Seq::empty())
            } else {
                None
            }
        } else {
            match parse_members(s, i + 1) {
                Some((ps, k)) => if skip_ws(s, k) == s.len() {
                    Some(ps)
                } else {
                    None
                },
                None => None,
            }
        }
    }
}

/// The value of the first member named `key`, if any.
pub open spec fn lookup(pairs: Seq<(Seq<char>, JVal)>, key: Seq<char>) -> Option<JVal>
    decreases pairs.len(),
{
    if pairs.len() == 0 {
        None
    } else if pairs[0].0 == key {
        Some(pairs[0].1)
    } else {
        lookup(pairs.drop_first(), key)
    }
}

/// The text of the first member named `key`, when that member is a
/// string.
pub open spec fn lookup_str(pairs: Seq<(Seq<char>, JVal)>, key: Seq<char>) -> Option<Seq<char>> {
    match lookup(pairs, key) {
        Some(JVal::S(s)) => Some(s),
        _ => None,
    }
}

/// The truth value of the first member named `key`, when that member is
/// a boolean.
pub open spec fn lookup_bool(pairs: Seq<(Seq<char>, JVal)>, key: Seq<char>) -> Option<bool> {
    match lookup(pairs, key) {
        Some(JVal::B(b)) => Some(b),
        _ => None,
    }
}

/// The spec image of a parsed member list.
pub open spec fn pairs_view(v: Seq<(String, JsonValue)>) -> Seq<(Seq<char>, JVal)> {
    v.map_values(|p: (String, JsonValue)| (p.0@, p.1@))
}

fn skip_ws_exec(cs: &Vec<char>, i: usize) -> (r: usize)
    requires
        i <= cs@.len(),
    ensures
        r as int == skip_ws(cs@, i as int),
        i <= r <= cs@.len(),
    decreases cs@.len() - i,
{
    if i < cs.len() {
        let c = cs[i];
        if c == ' ' || c == '\t' || c == '\n' || c == '\r' {
            return skip_ws_exec(cs, i + 1);
        }
    }
    i
}

fn hex_val_exec(c: char) -> (r: Option<u32>)
    ensures
        match hex_val(c) {
            Some(v) => r matches Some(u) && u == v && v < 16,
            None => r is None,
        },
{
    let u = c as u32;
    if 48 <= u && u <= 57 {
        Some(u - 48)
    } else if 97 <= u && u <= 102 {
        Some(u - 87)
    } else if 65 <= u && u <= 70 {
        Some(u - 55)
    } else {
        None
    }
}

/// Decodes a string literal's body into `out`, starting right after the
/// opening quote; yields the position after the closing quote.
fn parse_string_exec(cs: &Vec<char>, i: usize, out: &mut String) -> (r: Option<usize>)
    requires
        i <= cs@.len(),
    ensures
        match parse_string_body(cs@, i as int) {
            Some((t, j)) => r matches Some(ri) && ri as int == j && final(out)@ == old(out)@ + t,
            None => r is None,
        },
    decreases cs@.len() - i,
{
    if i >= cs.len() {
        return None;
    }
    let c = cs[i];
    if c == '"' {
        proof {
            assert(final(out)@ =~= old(out)@ + Seq::<char>::empty());
        }
        return Some(i + 1);
    }
    if c == '\\' {
        if i + 1 >= cs.len() {
            return None;
        }
        let e = cs[i + 1];
        if e == '"' || e == '\\' || e == '/' {
            out.push(e);
            let r = parse_string_exec(cs, i + 2, out);
            proof {
                if parse_string_body(cs@, i as int) is Some {
                    assert(final(out)@ =~= old(out)@ + parse_string_body(
                        cs@,
                        i as int,
                    )->Some_0.0);
                }
            }
            return r;
        }
        if e == 'b' || e == 'f' || e == 'n' || e == 'r' || e == 't' {
            let d: char = if e == 'b' {
                '\u{08}'
            } else if e == 'f' {
                '\u{0C}'
            } else if e == 'n' {
                '\n'
            } else if e == 'r' {
                '\r'
            } else {
                '\t'
            };
            out.push(d);
            let r = parse_string_exec(cs, i + 2, out);
            proof {
                if parse_string_body(cs@, i as int) is Some {
                    assert(final(out)@ =~= old(out)@ + parse_string_body(
                        cs@,
                        i as int,
                    )->Some_0.0);
                }
            }
            return r;
        }
        if e == 'u' {
            if cs.len() - i < 6 {
                return None;
            }
            let h0 = hex_val_exec(cs[i + 2]);
            let h1 = hex_val_exec(cs[i + 3]);
            let h2 = hex_val_exec(cs[i + 4]);
            let h3 = hex_val_exec(cs[i + 5]);
            match (h0, h1, h2, h3) {
                (Some(a), Some(b), Some(x), Some(y)) => {
                    let v: u32 = a * 4096 + b * 256 + x * 16 + y;
                    if v < 0xD800 || 0xE000 <= v {
                        match char::from_u32(v) {
                            Some(d) => {
                                proof {
                                    vstd::utf8::char_u32_cast(d, v);
                                    assert(d == (v as char));
                                }
                                out.push(d);
                                let r = parse_string_exec(cs, i + 6, out);
                                proof {
                                    if parse_string_body(cs@, i as int) is Some {
                                        assert(final(out)@ =~= old(out)@ + parse_string_body(
                                            cs@,
                                            i as int,
                                        )->Some_0.0);
                                    }
                                }
                                return r;
                            },
                            None => {
                                // unreachable: v is no surrogate and below 0x10000
                                return None;
                            },
                        }
                    } else {
                        return None;
                    }
                },
                _ => {
                    return None;
                },
            }
        }
        return None;
    }
    if (c as u32) < 0x20 {
        return None;
    }
    out.push(c);
    let r = parse_string_exec(cs, i + 1, out);
    proof {
        if parse_string_body(cs@, i as int) is Some {
            assert(final(out)@ =~= old(out)@ + parse_string_body(cs@, i as int)->Some_0.0);
        }
    }
    r
}

/// Decodes one value: a string, `true`, `false` or `null`.
fn parse_value_exec(cs: &Vec<char>, i: usize) -> (r: Option<(JsonValue, usize)>)
    requires
        i <= cs@.len(),
    ensures
        match parse_value(cs@, i as int) {
            Some((v, j)) => r matches Some((rv, ri)) && rv@ == v && ri as int == j,
            None => r is None,
        },
{
    let j = skip_ws_exec(cs, i);
    if j < cs.len() && cs[j] == '"' {
        let mut text = String::new();
        match parse_string_exec(cs, j + 1, &mut text) {
            Some(k) => {
                proof {
                    if parse_string_body(cs@, j + 1) is Some {
                        assert(text@ =~= parse_string_body(cs@, j + 1)->Some_0.0);
                    }
                }
                Some((JsonValue::S(text), k))
            },
            None => None,
        }
    } else if cs.len() - j >= 4 && cs[j] == 't' && cs[j + 1] == 'r' && cs[j + 2] == 'u' && cs[j
        + 3] == 'e' {
        Some((JsonValue::B(true), j + 4))
    } else if cs.len() - j >= 5 && cs[j] == 'f' && cs[j + 1] == 'a' && cs[j + 2] == 'l' && cs[j
        + 3] == 's' && cs[j + 4] == 'e' {
        Some((JsonValue::B(false), j + 5))
    } else if cs.len() - j >= 4 && cs[j] == 'n' && cs[j + 1] == 'u' && cs[j + 2] == 'l' && cs[j
        + 3] == 'l' {
        Some((JsonValue::Null, j + 4))
    } else {
        None
    }
}

/// Decodes the members of an object into `acc`, from right after `{`
/// (or a comma) through the closing `}`.
fn parse_members_exec(cs: &Vec<char>, i: usize, acc: &mut Vec<(String, JsonValue)>) -> (r: Option<
    usize,
>)
    requires
        i <= cs@.len(),
    ensures
        match parse_members(cs@, i as int) {
            Some((ps, j)) => r matches Some(ri) && ri as int == j && pairs_view(final(acc)@)
                == pairs_view(old(acc)@) + ps,
            None => r is None,
        },
    decreases cs@.len() - i,
{
    let j = skip_ws_exec(cs, i);
    if j >= cs.len() {
        return None;
    }
    if cs[j] != '"' {
        return None;
    }
    let mut key = String::new();
    let j2 = match parse_string_exec(cs, j + 1, &mut key) {
        Some(j2) => j2,
        None => {
            return None;
        },
    };
    proof {
        lemma_parse_string_bounds(cs@, j + 1);
    }
    let j3 = skip_ws_exec(cs, j2);
    if j3 >= cs.len() {
        return None;
    }
    if cs[j3] != ':' {
        return None;
    }
    let (v, j4) = match parse_value_exec(cs, j3 + 1) {
        Some(p) => p,
        None => {
            return None;
        },
    };
    proof {
        lemma_parse_value_bounds(cs@, j3 + 1);
    }
    let j5 = skip_ws_exec(cs, j4);
    if j5 >= cs.len() {
        return None;
    }
    let c5 = cs[j5];
    if c5 == '}' {
        acc.push((key, v));
        proof {
            assert(pairs_view(acc@) =~= pairs_view(old(acc)@) + parse_members(
                cs@,
                i as int,
            )->Some_0.0);
        }
        return Some(j5 + 1);
    }
    if c5 == ',' {
        acc.push((key, v));
        let ghost mid = acc@;
        let r = parse_members_exec(cs, j5 + 1, acc);
        proof {
            match parse_members(cs@, (j5 + 1) as int) {
                Some((rest, j6)) => {
                    assert(pairs_view(mid) =~= pairs_view(old(acc)@).push(
                        (key@, v@),
                    ));
                    assert(pairs_view(acc@) =~= pairs_view(old(acc)@) + parse_members(
                        cs@,
                        i as int,
                    )->Some_0.0);
                },
                None => {},
            }
        }
        return r;
    }
    None
}

/// What a frame decodes to: the event its `type` field names, with the
/// fields that variant requires, or nothing if the text is not an
/// object of this grammar, the type is unknown, or a field is missing
/// or of the wrong shape.
pub open spec fn spec_decode_event(s: Seq<char>) -> Option<EventV> {
    match parse_object(s) {
        None => None,
        Some(pairs) => match lookup_str(pairs, "type"@) {
            None => None,
            Some(t) => if t == "message"@ {
                match (lookup_str(pairs, "consultation_id"@), lookup_str(pairs, "message"@)) {
                    (Some(c), Some(m)) => Some(EventV::Message { consultation_id: c, message: m }),
                    _ => None,
                }
            } else if t == "consultation_update"@ {
                match (lookup_str(pairs, "consultation_id"@), lookup_str(pairs, "status"@)) {
                    (Some(c), Some(st)) => Some(
                        EventV::ConsultationUpdate { consultation_id: c, status: st },
                    ),
                    _ => None,
                }
            } else if t == "typing"@ {
                match (lookup_str(pairs, "consultation_id"@), lookup_str(pairs, "user_id"@),
                lookup_bool(pairs, "is_typing"@)) {
                    (Some(c), Some(u), Some(b)) => Some(
                        EventV::Typing { consultation_id: c, user_id: u, is_typing: b },
                    ),
                    _ => None,
                }
            } else if t == "read_receipt"@ {
                match (lookup_str(pairs, "consultation_id"@), lookup_str(pairs, "message_id"@),
                lookup_str(pairs, "read_by"@)) {
                    (Some(c), Some(m), Some(rb)) => Some(
                        EventV::ReadReceipt { consultation_id: c, message_id: m, read_by: rb },
                    ),
                    _ => None,
                }
            } else if t == "connection_ack"@ {
                match (lookup_str(pairs, "user_id"@), lookup_str(pairs, "session_id"@)) {
                    (Some(u), Some(sid)) => Some(
                        EventV::ConnectionAck { user_id: u, session_id: sid },
                    ),
                    _ => None,
                }
            } else if t == "error"@ {
                match (lookup_str(pairs, "code"@), lookup_str(pairs, "message"@)) {
                    (Some(c), Some(m)) => Some(EventV::Error { code: c, message: m }),
                    _ => None,
                }
            } else {
                None
            },
        },
    }
}

proof fn lemma_lookup_skip(pairs: Seq<(Seq<char>, JVal)>, key: Seq<char>, i: int)
    requires
        0 <= i <= pairs.len(),
        forall|j: int| 0 <= j < i ==> #[trigger] pairs[j].0 != key,
    ensures
        lookup(pairs, key) == lookup(pairs.skip(i), key),
    decreases i,
{
    if i > 0 {
        assert(pairs[0].0 != key);
        lemma_lookup_skip(pairs, key, i - 1);
        assert(pairs.skip(i - 1).drop_first() =~= pairs.skip(i));
        if pairs.skip(i - 1).len() > 0 {
            assert(pairs.skip(i - 1)[0] == pairs[i - 1]);
        }
    } else {
        assert(pairs.skip(0) =~= pairs);
    }
}

/// The first member named `key`, when it is a string.
pub fn lookup_text(pairs: &Vec<(String, JsonValue)>, key: &str) -> (r: Option<String>)
    ensures
        match lookup_str(pairs_view(pairs@), key@) {
            Some(t) => r matches Some(x) && x@ == t,
            None => r is None,
        },
{
    let n = pairs.len();
    let mut i: usize = 0;
    while i < n
        invariant
            n == pairs@.len(),
            0 <= i <= n,
            forall|j: int| 0 <= j < i ==> #[trigger] pairs_view(pairs@)[j].0 != key@,
        decreases n - i,
    {
        if crate::strutil::str_eq(pairs[i].0.as_str(), key) {
            proof {
                lemma_lookup_skip(pairs_view(pairs@), key@, i as int);
                assert(pairs_view(pairs@).skip(i as int)[0] == pairs_view(pairs@)[i as int]);
            }
            match &pairs[i].1 {
                JsonValue::S(s) => {
                    let out = s.clone();
                    return Some(out);
                },
                JsonValue::B(_) => {
                    return None;
                },
                JsonValue::Null => {
                    return None;
                },
            }
        }
        proof {
            assert(pairs_view(pairs@)[i as int].0 != key@);
        }
        i = i + 1;
    }
    proof {
        lemma_lookup_skip(pairs_view(pairs@), key@, n as int);
        assert(pairs_view(pairs@).skip(n as int) =~= Seq::<(Seq<char>, JVal)>::empty());
    }
    None
}

/// The first member named `key`, when it is a boolean.
fn lookup_boolean(pairs: &Vec<(String, JsonValue)>, key: &str) -> (r: Option<bool>)
    ensures
        match lookup_bool(pairs_view(pairs@), key@) {
            Some(b) => r == Some(b),
            None => r is None,
        },
{
    let n = pairs.len();
    let mut i: usize = 0;
    while i < n
        invariant
            n == pairs@.len(),
            0 <= i <= n,
            forall|j: int| 0 <= j < i ==> #[trigger] pairs_view(pairs@)[j].0 != key@,
        decreases n - i,
    {
        if crate::strutil::str_eq(pairs[i].0.as_str(), key) {
            proof {
                lemma_lookup_skip(pairs_view(pairs@), key@, i as int);
                assert(pairs_view(pairs@).skip(i as int)[0] == pairs_view(pairs@)[i as int]);
            }
            match &pairs[i].1 {
                JsonValue::B(b) => {
                    return Some(*b);
                },
                JsonValue::S(_) => {
                    return None;
                },
                JsonValue::Null => {
                    return None;
                },
            }
        }
        proof {
            assert(pairs_view(pairs@)[i as int].0 != key@);
        }
        i = i + 1;
    }
    proof {
        lemma_lookup_skip(pairs_view(pairs@), key@, n as int);
        assert(pairs_view(pairs@).skip(n as int) =~= Seq::<(Seq<char>, JVal)>::empty());
    }
    None
}

/// Decodes one inbound frame, or yields nothing for anything outside
/// the grammar: exactly [`spec_decode_event`].
/// Parses a whole frame into its members: exactly [`parse_object`].
pub fn parse_frame_object(s: &str) -> (r: Option<Vec<(String, JsonValue)>>)
    ensures
        match parse_object(s@) {
            Some(ps) => r matches Some(v) && pairs_view(v@) == ps,
            None => r is None,
        },
{
    let cs = crate::strutil::chars_vec(s);
    let i = skip_ws_exec(&cs, 0);
    if i >= cs.len() {
        return None;
    }
    if cs[i] != '{' {
        return None;
    }
    let j = skip_ws_exec(&cs, i + 1);
    let mut pairs: Vec<(String, JsonValue)> = Vec::new();
    if j < cs.len() && cs[j] == '}' {
        if skip_ws_exec(&cs, j + 1) != cs.len() {
            return None;
        }
        proof {
            assert(parse_object(cs@) == Some(Seq::<(Seq<char>, JVal)>::empty()));
            assert(pairs_view(pairs@) =~= Seq::<(Seq<char>, JVal)>::empty());
        }
    } else {
        match parse_members_exec(&cs, i + 1, &mut pairs) {
            Some(k) => {
                proof {
                    lemma_parse_members_bounds(cs@, i + 1);
                }
                if skip_ws_exec(&cs, k) != cs.len() {
                    return None;
                }
            },
            None => {
                return None;
            },
        }
        proof {
            assert(pairs_view(pairs@) =~= Seq::<(Seq<char>, JVal)>::empty() + pairs_view(pairs@));
        }
    }
    Some(pairs)
}

pub fn decode_event(s: &str) -> (r: Option<WebSocketEvent>)
    ensures
        match spec_decode_event(s@) {
            Some(ev) => r matches Some(e) && e@ == ev,
            None => r is None,
        },
{
    let pairs = match parse_frame_object(s) {
        Some(p) => p,
        None => {
            return None;
        },
    };
    let ghost ps = pairs_view(pairs@);
    let t = match lookup_text(&pairs, "type") {
        Some(t) => t,
        None => {
            return None;
        },
    };
    if crate::strutil::str_eq(t.as_str(), "message") {
        match (lookup_text(&pairs, "consultation_id"), lookup_text(&pairs, "message")) {
            (Some(c), Some(m)) => Some(WebSocketEvent::Message { consultation_id: c, message: m }),
            _ => None,
        }
    } else if crate::strutil::str_eq(t.as_str(), "consultation_update") {
        match (lookup_text(&pairs, "consultation_id"), lookup_text(&pairs, "status")) {
            (Some(c), Some(st)) => Some(
                WebSocketEvent::ConsultationUpdate { consultation_id: c, status: st },
            ),
            _ => None,
        }
    } else if crate::strutil::str_eq(t.as_str(), "typing") {
        match (lookup_text(&pairs, "consultation_id"), lookup_text(&pairs, "user_id"),
        lookup_boolean(&pairs, "is_typing")) {
            (Some(c), Some(u), Some(b)) => Some(
                WebSocketEvent::Typing { consultation_id: c, user_id: u, is_typing: b },
            ),
            _ => None,
        }
    } else if crate::strutil::str_eq(t.as_str(), "read_receipt") {
        match (lookup_text(&pairs, "consultation_id"), lookup_text(&pairs, "message_id"),
        lookup_text(&pairs, "read_by")) {
            (Some(c), Some(m), Some(rb)) => Some(
                WebSocketEvent::ReadReceipt { consultation_id: c, message_id: m, read_by: rb },
            ),
            _ => None,
        }
    } else if crate::strutil::str_eq(t.as_str(), "connection_ack") {
        match (lookup_text(&pairs, "user_id"), lookup_text(&pairs, "session_id")) {
            (Some(u), Some(sid)) => Some(
                WebSocketEvent::ConnectionAck { user_id: u, session_id: sid },
            ),
            _ => None,
        }
    } else if crate::strutil::str_eq(t.as_str(), "error") {
        match (lookup_text(&pairs, "code"), lookup_text(&pairs, "message")) {
            (Some(c), Some(m)) => Some(WebSocketEvent::Error { code: c, message: m }),
            _ => None,
        }
    } else {
        None
    }
}

} // verus!

//! The wire codec for bus envelopes.
//!
//! An envelope travels on the shared bus as the text
//! `{"id":"<origin>","msg":{"<Variant>":{"username":"…","room_name":"…"}}}`
//! (with a third `"context"` field for `Chat`). String contents are escaped
//! as in JSON: `"` and `\` get a backslash, control characters become
//! `\u00XX`, everything else is verbatim. The decoder accepts exactly the
//! encoder's output; anything else is reported as undecodable and the
//! subscriber drops it.

use vstd::prelude::*;
use vstd::string::StrSliceExecFns;
use vstd::string::StringExecFns;

use crate::message::ChatMessage;
use crate::message::ChatMessageView;
use crate::message::EnvelopeView;
use crate::message::IdLabeledMessage;
use crate::server_id::ServerId;

verus! {

/// Relies on `alloc::string::String::push`: appends the given character to
/// the end of the string.
pub assume_specification[ String::push ](s: &mut String, c: char)
    ensures
        final(s)@ == old(s)@.push(c),
;

/// The lower-case hexadecimal digit for a value below sixteen.
pub open spec fn spec_hex_digit(n: int) -> char {
    if n == 0 { '0' }
    else if n == 1 { '1' }
    else if n == 2 { '2' }
    else if n == 3 { '3' }
    else if n == 4 { '4' }
    else if n == 5 { '5' }
    else if n == 6 { '6' }
    else if n == 7 { '7' }
    else if n == 8 { '8' }
    else if n == 9 { '9' }
    else if n == 10 { 'a' }
    else if n == 11 { 'b' }
    else if n == 12 { 'c' }
    else if n == 13 { 'd' }
    else if n == 14 { 'e' }
    else { 'f' }
}

/// How one character appears inside a quoted wire string.
pub open spec fn spec_escape_char(c: char) -> Seq<char> {
    if c == '"' {
        seq!['\\', '"']
    } else if c == '\\' {
        seq!['\\', '\\']
    } else if (c as u32) < 32 {
        seq![
            '\\',
            'u',
            '0',
            '0',
            spec_hex_digit((c as u32 / 16) as int),
            spec_hex_digit((c as u32 % 16) as int),
        ]
    } else {
        seq![c]
    }
}

/// How a whole string appears inside quotes on the wire.
pub open spec fn spec_escape(s: Seq<char>) -> Seq<char>
    decreases s.len(),
{
    if s.len() == 0 {
        Seq::empty()
    } else {
        spec_escape_char(s[0]) + spec_escape(s.drop_first())
    }
}

proof fn lemma_escape_snoc(s: Seq<char>, c: char)
    ensures
        spec_escape(s.push(c)) == spec_escape(s) + spec_escape_char(c),
    decreases s.len(),
{
    if s.len() == 0 {
        assert(s.push(c)[0] == c);
        assert(s.push(c).drop_first() =~= Seq::<char>::empty());
        assert(spec_escape(s.push(c)) == spec_escape_char(c) + spec_escape(Seq::<char>::empty()));
        assert(spec_escape(s.push(c)) =~= spec_escape(s) + spec_escape_char(c));
    } else {
        assert(s.push(c)[0] == s[0]);
        assert(s.push(c).drop_first() =~= s.drop_first().push(c));
        lemma_escape_snoc(s.drop_first(), c);
        assert(spec_escape(s.push(c)) == spec_escape_char(s[0]) + (spec_escape(s.drop_first())
            + spec_escape_char(c)));
        assert(spec_escape(s.push(c)) =~= spec_escape(s) + spec_escape_char(c));
    }
}

/// The wire text of one event.
pub open spec fn spec_encode_message(m: ChatMessageView) -> Seq<char> {
    match m {
        ChatMessageView::Join { username, room_name } =>
            "{\"Join\":{\"username\":\""@ + spec_escape(username) + seq!['"']
                + ",\"room_name\":\""@ + spec_escape(room_name) + seq!['"'] + "}}"@,
        ChatMessageView::Leave { username, room_name } =>
            "{\"Leave\":{\"username\":\""@ + spec_escape(username) + seq!['"']
                + ",\"room_name\":\""@ + spec_escape(room_name) + seq!['"'] + "}}"@,
        ChatMessageView::Chat { username, room_name, context } =>
            "{\"Chat\":{\"username\":\""@ + spec_escape(username) + seq!['"']
                + ",\"room_name\":\""@ + spec_escape(room_name) + seq!['"']
                + ",\"context\":\""@ + spec_escape(context) + seq!['"'] + "}}"@,
    }
}

/// The wire text of one envelope.
pub open spec fn spec_encode_envelope(env: EnvelopeView) -> Seq<char> {
    "{\"id\":\""@ + spec_escape(env.id) + seq!['"'] + ",\"msg\":"@
        + spec_encode_message(env.msg) + seq!['}']
}

fn hex_digit_char(n: u8) -> (c: char)
    requires
        n < 16,
    ensures
        c == spec_hex_digit(n as int),
{
    if n == 0 { '0' }
    else if n == 1 { '1' }
    else if n == 2 { '2' }
    else if n == 3 { '3' }
    else if n == 4 { '4' }
    else if n == 5 { '5' }
    else if n == 6 { '6' }
    else if n == 7 { '7' }
    else if n == 8 { '8' }
    else if n == 9 { '9' }
    else if n == 10 { 'a' }
    else if n == 11 { 'b' }
    else if n == 12 { 'c' }
    else if n == 13 { 'd' }
    else if n == 14 { 'e' }
    else { 'f' }
}

/// Append the escaped form of `s` to `out`.
fn escape_into(s: &str, out: &mut String)
    ensures
        final(out)@ == old(out)@ + spec_escape(s@),
{
    let n = s.unicode_len();
    let mut i: usize = 0;
    while i < n
        invariant
            i <= n,
            n == s@.len(),
            out@ == old(out)@ + spec_escape(s@.take(i as int)),
        decreases n - i,
    {
        let c = s.get_char(i);
        proof {
            lemma_escape_snoc(s@.take(i as int), c);
            assert(s@.take(i as int).push(c) =~= s@.take(i as int + 1));
        }
        if c == '"' {
            out.push('\\');
            out.push('"');
        } else if c == '\\' {
            out.push('\\');
            out.push('\\');
        } else if (c as u32) < 32 {
            let v = c as u32;
            out.push('\\');
            out.push('u');
            out.push('0');
            out.push('0');
            out.push(hex_digit_char((v / 16) as u8));
            out.push(hex_digit_char((v % 16) as u8));
        } else {
            out.push(c);
        }
        i = i + 1;
        assert(out@ =~= old(out)@ + spec_escape(s@.take(i as int)));
    }
    proof {
        assert(s@.take(n as int) =~= s@);
    }
}

/// The wire text of one event.
pub fn encode_message(m: &ChatMessage) -> (r: String)
    ensures
        r@ == spec_encode_message(m@),
{
    let mut out;
    match m {
        ChatMessage::Join { username, room_name } => {
            out = String::from_str("{\"Join\":{\"username\":\"");
            escape_into(username.as_str(), &mut out);
            out.append("\"");
            out.append(",\"room_name\":\"");
            escape_into(room_name.as_str(), &mut out);
            out.append("\"");
            out.append("}}");
        }
        ChatMessage::Leave { username, room_name } => {
            out = String::from_str("{\"Leave\":{\"username\":\"");
            escape_into(username.as_str(), &mut out);
            out.append("\"");
            out.append(",\"room_name\":\"");
            escape_into(room_name.as_str(), &mut out);
            out.append("\"");
            out.append("}}");
        }
        ChatMessage::Chat { username, room_name, context } => {
            out = String::from_str("{\"Chat\":{\"username\":\"");
            escape_into(username.as_str(), &mut out);
            out.append("\"");
            out.append(",\"room_name\":\"");
            escape_into(room_name.as_str(), &mut out);
            out.append("\"");
            out.append(",\"context\":\"");
            escape_into(context.as_str(), &mut out);
            out.append("\"");
            out.append("}}");
        }
    }
    proof {
        assert("\""@ =~= seq!['"']) by {
            reveal_strlit("\"");
        }
        assert(out@ =~= spec_encode_message(m@));
    }
    out
}

/// The wire text of one envelope: the origin token plus the event.
pub fn encode_envelope(id: &ServerId, msg: &ChatMessage) -> (r: String)
    ensures
        r@ == spec_encode_envelope(EnvelopeView { id: id@, msg: msg@ }),
{
    let mut out = String::from_str("{\"id\":\"");
    escape_into(id.as_str(), &mut out);
    out.append("\"");
    out.append(",\"msg\":");
    let body = encode_message(msg);
    out.append(body.as_str());
    out.append("}");
    proof {
        assert("\""@ =~= seq!['"']) by {
            reveal_strlit("\"");
        }
        assert("}"@ =~= seq!['}']) by {
            reveal_strlit("}");
        }
        assert(out@ =~= spec_encode_envelope(EnvelopeView { id: id@, msg: msg@ }));
    }
    out
}

impl IdLabeledMessage {
    /// The wire text of this envelope.
    pub fn encode(&self) -> (r: String)
        ensures
            r@ == spec_encode_envelope(self@),
    {
        encode_envelope(&self.id, &self.msg)
    }
}

/// The value of a lower-case hexadecimal digit, or a negative number for
/// any other character.
pub open spec fn spec_hex_val(c: char) -> int {
    if c == '0' { 0 }
    else if c == '1' { 1 }
    else if c == '2' { 2 }
    else if c == '3' { 3 }
    else if c == '4' { 4 }
    else if c == '5' { 5 }
    else if c == '6' { 6 }
    else if c == '7' { 7 }
    else if c == '8' { 8 }
    else if c == '9' { 9 }
    else if c == 'a' { 10 }
    else if c == 'b' { 11 }
    else if c == 'c' { 12 }
    else if c == 'd' { 13 }
    else if c == 'e' { 14 }
    else if c == 'f' { 15 }
    else { -1 }
}

/// Read a quoted string's content starting just after its opening quote:
/// unescape characters until the closing quote, which is consumed. Yields
/// the content and the position after the closing quote. Accepts exactly
/// what the encoder emits.
pub open spec fn spec_parse_string(s: Seq<char>, i: int) -> Option<(Seq<char>, int)>
    decreases s.len() - i,
{
    if i < 0 || i >= s.len() {
        None
    } else if s[i] == '"' {
        Some((Seq::empty(), i + 1))
    } else if s[i] == '\\' {
        if i + 1 < s.len() && s[i + 1] == '"' {
            match spec_parse_string(s, i + 2) {
                Some((t, j)) => Some((seq!['"'] + t, j)),
                None => None,
            }
        } else if i + 1 < s.len() && s[i + 1] == '\\' {
            match spec_parse_string(s, i + 2) {
                Some((t, j)) => Some((seq!['\\'] + t, j)),
                None => None,
            }
        } else if i + 5 < s.len() && s[i + 1] == 'u' && s[i + 2] == '0' && s[i + 3] == '0'
            && spec_hex_val(s[i + 4]) >= 0 && spec_hex_val(s[i + 5]) >= 0
            && 16 * spec_hex_val(s[i + 4]) + spec_hex_val(s[i + 5]) < 32 {
            match spec_parse_string(s, i + 6) {
                Some((t, j)) => Some(
                    (
                        seq![((16 * spec_hex_val(s[i + 4]) + spec_hex_val(s[i + 5])) as u32) as char]
                            + t,
                        j,
                    ),
                ),
                None => None,
            }
        } else {
            None
        }
    } else if (s[i] as u32) < 32 {
        None
    } else {
        match spec_parse_string(s, i + 1) {
            Some((t, j)) => Some((seq![s[i]] + t, j)),
            None => None,
        }
    }
}

/// Match a fixed piece of text at a position; yields the position after it.
pub open spec fn spec_expect(s: Seq<char>, i: int, lit: Seq<char>) -> Option<int> {
    if 0 <= i && i + lit.len() <= s.len() && s.subrange(i, i + lit.len()) == lit {
        Some(i + lit.len())
    } else {
        None
    }
}

/// Read the common `"username":…,"room_name":…` part of an event body,
/// starting just after the username's opening quote.
pub open spec fn spec_parse_two_names(s: Seq<char>, i: int) -> Option<(Seq<char>, Seq<char>, int)> {
    match spec_parse_string(s, i) {
        None => None,
        Some((u, i2)) => match spec_expect(s, i2, ",\"room_name\":\""@) {
            None => None,
            Some(i3) => match spec_parse_string(s, i3) {
                None => None,
                Some((rn, i4)) => Some((u, rn, i4)),
            },
        },
    }
}

/// Read one encoded event at a position; yields it and the position after.
pub open spec fn spec_parse_message(s: Seq<char>, i: int) -> Option<(ChatMessageView, int)> {
    match spec_expect(s, i, "{\"Join\":{\"username\":\""@) {
        Some(i1) => match spec_parse_two_names(s, i1) {
            None => None,
            Some((u, rn, i4)) => match spec_expect(s, i4, "}}"@) {
                None => None,
                Some(i5) => Some((ChatMessageView::Join { username: u, room_name: rn }, i5)),
            },
        },
        None => match spec_expect(s, i, "{\"Leave\":{\"username\":\""@) {
            Some(i1) => match spec_parse_two_names(s, i1) {
                None => None,
                Some((u, rn, i4)) => match spec_expect(s, i4, "}}"@) {
                    None => None,
                    Some(i5) => Some((ChatMessageView::Leave { username: u, room_name: rn }, i5)),
                },
            },
            None => match spec_expect(s, i, "{\"Chat\":{\"username\":\""@) {
                Some(i1) => match spec_parse_two_names(s, i1) {
                    None => None,
                    Some((u, rn, i4)) => match spec_expect(s, i4, ",\"context\":\""@) {
                        None => None,
                        Some(i5) => match spec_parse_string(s, i5) {
                            None => None,
                            Some((cx, i6)) => match spec_expect(s, i6, "}}"@) {
                                None => None,
                                Some(i7) => Some(
                                    (ChatMessageView::Chat {
                                        username: u,
                                        room_name: rn,
                                        context: cx,
                                    }, i7),
                                ),
                            },
                        },
                    },
                },
                None => None,
            },
        },
    }
}

/// Read a whole envelope: it must span the entire text.
pub open spec fn spec_decode_envelope(s: Seq<char>) -> Option<EnvelopeView> {
    match spec_expect(s, 0, "{\"id\":\""@) {
        None => None,
        Some(i1) => match spec_parse_string(s, i1) {
            None => None,
            Some((id, i2)) => match spec_expect(s, i2, ",\"msg\":"@) {
                None => None,
                Some(i3) => match spec_parse_message(s, i3) {
                    None => None,
                    Some((m, i4)) => if i4 + 1 == s.len() && s[i4] == '}' {
                        Some(EnvelopeView { id, msg: m })
                    } else {
                        None
                    },
                },
            },
        },
    }
}

proof fn lemma_hex_digit_val(d: int)
    requires
        0 <= d < 16,
    ensures
        spec_hex_val(spec_hex_digit(d)) == d,
{
}

/// Splitting a suffix: if the text from `i` on is `a` followed by `b`,
/// then `a`'s characters stand at `i`, and the text from `i + a.len()` on
/// is `b`.
proof fn lemma_skip_split(s: Seq<char>, i: int, a: Seq<char>, b: Seq<char>)
    requires
        0 <= i <= s.len(),
        s.skip(i) == a + b,
    ensures
        i + a.len() + b.len() == s.len(),
        s.skip(i + a.len()) == b,
        forall|k: int| i <= k < i + a.len() ==> s[k] == a[k - i],
{
    assert(s.skip(i).len() == s.len() - i);
    assert forall|k: int| i <= k < i + a.len() implies s[k] == a[k - i] by {
        assert(s.skip(i)[k - i] == s[k]);
    }
    assert forall|k: int| 0 <= k < b.len() implies s.skip(i + a.len())[k] == b[k] by {
        assert(s.skip(i)[a.len() + k] == s[i + a.len() + k]);
        assert(s.skip(i + a.len())[k] == s[i + a.len() + k]);
    }
    assert(s.skip(i + a.len()) =~= b);
}

/// A fixed piece of text standing at position `i` is matched there, and
/// what follows it is exactly the rest.
proof fn lemma_expect_here(s: Seq<char>, i: int, lit: Seq<char>, rest: Seq<char>)
    requires
        0 <= i <= s.len(),
        s.skip(i) == lit + rest,
    ensures
        spec_expect(s, i, lit) == Some(i + lit.len()),
        0 <= i + lit.len() <= s.len(),
        s.skip(i + lit.len()) == rest,
{
    lemma_skip_split(s, i, lit, rest);
    assert forall|k: int| 0 <= k < lit.len() implies s.subrange(i, i + lit.len())[k]
        == lit[k] by {
        assert(s[k + i] == lit[k + i - i]);
    }
    assert(s.subrange(i, i + lit.len()) =~= lit);
}

/// The string parser, run where an escaped content followed by the closing
/// quote stands, reads back exactly that content.
proof fn lemma_parse_escaped(s: Seq<char>, i: int, content: Seq<char>, rest: Seq<char>)
    requires
        0 <= i <= s.len(),
        s.skip(i) == spec_escape(content) + seq!['"'] + rest,
    ensures
        spec_parse_string(s, i) == Some((content, i + spec_escape(content).len() + 1)),
        0 <= i + spec_escape(content).len() + 1 <= s.len(),
        s.skip(i + spec_escape(content).len() + 1) == rest,
    decreases content.len(),
{
    assert(s.skip(i).len() == s.len() - i);
    if content.len() == 0 {
        assert(spec_escape(content).len() == 0);
        assert(s.skip(i) =~= seq!['"'] + rest);
        lemma_skip_split(s, i, seq!['"'], rest);
        assert(s[i] == seq!['"'][i - i]);
        assert(spec_parse_string(s, i) == Some((Seq::<char>::empty(), i + 1)));
        assert(content =~= Seq::<char>::empty());
    } else {
        let c = content[0];
        let tail = content.drop_first();
        assert(spec_escape(content) == spec_escape_char(c) + spec_escape(tail));
        let e = spec_escape_char(c);
        let elen = e.len() as int;
        let r1 = spec_escape(tail) + seq!['"'] + rest;
        assert(s.skip(i) =~= e + r1);
        lemma_skip_split(s, i, e, r1);
        lemma_parse_escaped(s, i + elen, tail, rest);
        if c == '"' {
            assert(s[i] == e[i - i] && s[i + 1] == e[i + 1 - i]);
            assert(seq!['"'] + tail =~= content);
        } else if c == '\\' {
            assert(s[i] == e[i - i] && s[i + 1] == e[i + 1 - i]);
            assert(seq!['\\'] + tail =~= content);
        } else if (c as u32) < 32 {
            assert(s[i] == e[i - i] && s[i + 1] == e[i + 1 - i] && s[i + 2] == e[i + 2 - i]
                && s[i + 3] == e[i + 3 - i] && s[i + 4] == e[i + 4 - i] && s[i + 5] == e[i + 5
                - i]);
            let v = c as u32;
            assert(s[i + 4] == spec_hex_digit((v / 16) as int));
            assert(s[i + 5] == spec_hex_digit((v % 16) as int));
            lemma_hex_digit_val((v / 16) as int);
            lemma_hex_digit_val((v % 16) as int);
            assert(16 * spec_hex_val(s[i + 4]) + spec_hex_val(s[i + 5]) == v as int);
            assert((16 * spec_hex_val(s[i + 4]) + spec_hex_val(s[i + 5])) as u32 == v);
            vstd::utf8::char_u32_cast(c, v);
            assert((((16 * spec_hex_val(s[i + 4]) + spec_hex_val(s[i + 5])) as u32) as char)
                == c);
            assert(seq![c] + tail =~= content);
        } else {
            assert(s[i] == e[i - i]);
            assert(seq![c] + tail =~= content);
        }
    }
}

/// The two-name parser, run where an encoded username and room name stand,
/// reads back exactly those names.
proof fn lemma_parse_two_names_encode(
    s: Seq<char>,
    i: int,
    u: Seq<char>,
    rn: Seq<char>,
    rest: Seq<char>,
)
    requires
        0 <= i <= s.len(),
        s.skip(i) == spec_escape(u) + seq!['"'] + ",\"room_name\":\""@ + spec_escape(rn)
            + seq!['"'] + rest,
    ensures
        ({
            let j = i + spec_escape(u).len() + 1 + ",\"room_name\":\""@.len()
                + spec_escape(rn).len() + 1;
            spec_parse_two_names(s, i) == Some((u, rn, j)) && 0 <= j <= s.len() && s.skip(j)
                == rest
        }),
{
    let lit = ",\"room_name\":\""@;
    let r1 = lit + spec_escape(rn) + seq!['"'] + rest;
    assert(s.skip(i) =~= spec_escape(u) + seq!['"'] + r1);
    lemma_parse_escaped(s, i, u, r1);
    let i2 = i + spec_escape(u).len() + 1;
    let r2 = spec_escape(rn) + seq!['"'] + rest;
    assert(s.skip(i2) =~= lit + r2);
    lemma_expect_here(s, i2, lit, r2);
    let i3 = i2 + lit.len();
    lemma_parse_escaped(s, i3, rn, rest);
}

/// The message parser, run where an encoded event stands, reads back
/// exactly that event.
#[verifier::rlimit(60)]
proof fn lemma_parse_message_encode(s: Seq<char>, i: int, m: ChatMessageView, rest: Seq<char>)
    requires
        0 <= i <= s.len(),
        s.skip(i) == spec_encode_message(m) + rest,
    ensures
        spec_parse_message(s, i) == Some((m, i + spec_encode_message(m).len())),
        0 <= i + spec_encode_message(m).len() <= s.len(),
        s.skip(i + spec_encode_message(m).len()) == rest,
{
    let joinlit = "{\"Join\":{\"username\":\""@;
    let leavelit = "{\"Leave\":{\"username\":\""@;
    let chatlit = "{\"Chat\":{\"username\":\""@;
    let closelit = "}}"@;
    assert(s.skip(i).len() == s.len() - i);
    match m {
        ChatMessageView::Join { username, room_name } => {
            let r1 = spec_escape(username) + seq!['"'] + ",\"room_name\":\""@ + spec_escape(
                room_name,
            ) + seq!['"'] + (closelit + rest);
            assert(s.skip(i) =~= joinlit + r1);
            lemma_expect_here(s, i, joinlit, r1);
            let i1 = i + joinlit.len();
            assert(s.skip(i1) =~= spec_escape(username) + seq!['"'] + ",\"room_name\":\""@
                + spec_escape(room_name) + seq!['"'] + (closelit + rest));
            lemma_parse_two_names_encode(s, i1, username, room_name, closelit + rest);
            let i4 = i1 + spec_escape(username).len() + 1 + ",\"room_name\":\""@.len()
                + spec_escape(room_name).len() + 1;
            lemma_expect_here(s, i4, closelit, rest);
        }
        ChatMessageView::Leave { username, room_name } => {
            assert(spec_expect(s, i, joinlit) is None) by {
                reveal_strlit("{\"Join\":{\"username\":\"");
                reveal_strlit("{\"Leave\":{\"username\":\"");
                if spec_expect(s, i, joinlit) is Some {
                    assert(s.subrange(i, i + joinlit.len())[2] == s[i + 2]);
                    assert(s.skip(i)[2] == s[i + 2]);
                }
            }
            let r1 = spec_escape(username) + seq!['"'] + ",\"room_name\":\""@ + spec_escape(
                room_name,
            ) + seq!['"'] + (closelit + rest);
            assert(s.skip(i) =~= leavelit + r1);
            lemma_expect_here(s, i, leavelit, r1);
            let i1 = i + leavelit.len();
            lemma_parse_two_names_encode(s, i1, username, room_name, closelit + rest);
            let i4 = i1 + spec_escape(username).len() + 1 + ",\"room_name\":\""@.len()
                + spec_escape(room_name).len() + 1;
            lemma_expect_here(s, i4, closelit, rest);
        }
        ChatMessageView::Chat { username, room_name, context } => {
            assert(spec_expect(s, i, joinlit) is None) by {
                reveal_strlit("{\"Join\":{\"username\":\"");
                reveal_strlit("{\"Chat\":{\"username\":\"");
                if spec_expect(s, i, joinlit) is Some {
                    assert(s.subrange(i, i + joinlit.len())[2] == s[i + 2]);
                    assert(s.skip(i)[2] == s[i + 2]);
                }
            }
            assert(spec_expect(s, i, leavelit) is None) by {
                reveal_strlit("{\"Leave\":{\"username\":\"");
                reveal_strlit("{\"Chat\":{\"username\":\"");
                if spec_expect(s, i, leavelit) is Some {
                    assert(s.subrange(i, i + leavelit.len())[2] == s[i + 2]);
                    assert(s.skip(i)[2] == s[i + 2]);
                }
            }
            let ctxlit = ",\"context\":\""@;
            let r1 = spec_escape(username) + seq!['"'] + ",\"room_name\":\""@ + spec_escape(
                room_name,
            ) + seq!['"'] + (ctxlit + spec_escape(context) + seq!['"'] + closelit + rest);
            assert(s.skip(i) =~= chatlit + r1);
            lemma_expect_here(s, i, chatlit, r1);
            let i1 = i + chatlit.len();
            lemma_parse_two_names_encode(
                s,
                i1,
                username,
                room_name,
                ctxlit + spec_escape(context) + seq!['"'] + closelit + rest,
            );
            let i4 = i1 + spec_escape(username).len() + 1 + ",\"room_name\":\""@.len()
                + spec_escape(room_name).len() + 1;
            let r2 = spec_escape(context) + seq!['"'] + closelit + rest;
            assert(s.skip(i4) =~= ctxlit + r2);
            lemma_expect_here(s, i4, ctxlit, r2);
            let i5 = i4 + ctxlit.len();
            assert(s.skip(i5) =~= spec_escape(context) + seq!['"'] + (closelit + rest));
            lemma_parse_escaped(s, i5, context, closelit + rest);
            let i6 = i5 + spec_escape(context).len() + 1;
            lemma_expect_here(s, i6, closelit, rest);
        }
    }
}

/// Decoding inverts encoding: every envelope comes back from its own wire
/// text, so a process's published events are readable on every other
/// process, and the origin stamp survives the trip intact.
pub proof fn lemma_decode_encode(env: EnvelopeView)
    ensures
        spec_decode_envelope(spec_encode_envelope(env)) == Some(env),
{
    let s = spec_encode_envelope(env);
    let p1 = "{\"id\":\""@;
    let p2 = ",\"msg\":"@;
    let msgenc = spec_encode_message(env.msg);
    let r1 = spec_escape(env.id) + seq!['"'] + (p2 + msgenc + seq!['}']);
    assert(s.skip(0) =~= p1 + (spec_escape(env.id) + seq!['"'] + (p2 + msgenc + seq!['}'])));
    lemma_expect_here(s, 0, p1, spec_escape(env.id) + seq!['"'] + (p2 + msgenc + seq!['}']));
    let i1 = p1.len() as int;
    assert(s.skip(i1) =~= spec_escape(env.id) + seq!['"'] + (p2 + msgenc + seq!['}']));
    lemma_parse_escaped(s, i1, env.id, p2 + msgenc + seq!['}']);
    let i2 = i1 + spec_escape(env.id).len() + 1;
    assert(s.skip(i2) =~= p2 + (msgenc + seq!['}']));
    lemma_expect_here(s, i2, p2, msgenc + seq!['}']);
    let i3 = i2 + p2.len();
    lemma_parse_message_encode(s, i3, env.msg, seq!['}']);
    let i4 = i3 + msgenc.len();
    assert(s.skip(i4).len() == s.len() - i4);
    assert(s[i4] == '}') by {
        assert(s.skip(i4)[0] == s[i4]);
    }
    assert(i4 + 1 == s.len());
    assert(spec_decode_envelope(s) == Some(EnvelopeView { id: env.id, msg: env.msg }));
    assert(EnvelopeView { id: env.id, msg: env.msg } == env);
}

proof fn lemma_hex_val_digit(c: char)
    requires
        spec_hex_val(c) >= 0,
    ensures
        spec_hex_digit(spec_hex_val(c)) == c,
{
}

/// A span of text is the two adjacent spans it is made of.
proof fn lemma_subrange_concat(s: Seq<char>, i: int, m: int, j: int)
    requires
        0 <= i <= m <= j <= s.len(),
    ensures
        s.subrange(i, j) == s.subrange(i, m) + s.subrange(m, j),
{
    assert forall|k: int| 0 <= k < j - i implies s.subrange(i, j)[k] == (s.subrange(i, m)
        + s.subrange(m, j))[k] by {
        assert(s.subrange(i, j)[k] == s[i + k]);
        if k < m - i {
            assert(s.subrange(i, m)[k] == s[i + k]);
        } else {
            assert(s.subrange(m, j)[k - (m - i)] == s[m + (k - (m - i))]);
        }
    }
    assert(s.subrange(i, j) =~= s.subrange(i, m) + s.subrange(m, j));
}

/// The string parser accepts only the canonical escaping: whatever
/// content it reads back stood there in exactly its escaped form.
proof fn lemma_parse_string_sound(s: Seq<char>, i: int, content: Seq<char>, j: int)
    requires
        spec_parse_string(s, i) == Some((content, j)),
    ensures
        0 <= i < j <= s.len(),
        s.subrange(i, j) == spec_escape(content) + seq!['"'],
    decreases s.len() - i,
{
    if s[i] == '"' {
        assert(content =~= Seq::<char>::empty());
        assert(s.subrange(i, j) =~= seq!['"']) by {
            assert(s.subrange(i, j)[0] == s[i]);
        }
        assert(spec_escape(content) + seq!['"'] =~= seq!['"']);
    } else if s[i] == '\\' {
        if i + 1 < s.len() && s[i + 1] == '"' {
            match spec_parse_string(s, i + 2) {
                Some((t, j2)) => {
                    lemma_parse_string_sound(s, i + 2, t, j2);
                    assert(content == seq!['"'] + t && j == j2);
                    assert(content[0] == '"');
                    assert(content.drop_first() =~= t);
                    lemma_subrange_concat(s, i, i + 2, j);
                    assert(s.subrange(i, i + 2) =~= seq!['\\', '"']) by {
                        assert(s.subrange(i, i + 2)[0] == s[i]);
                        assert(s.subrange(i, i + 2)[1] == s[i + 1]);
                    }
                    assert(s.subrange(i, j) =~= spec_escape(content) + seq!['"']);
                }
                None => {
                    assert(false);
                }
            }
        } else if i + 1 < s.len() && s[i + 1] == '\\' {
            match spec_parse_string(s, i + 2) {
                Some((t, j2)) => {
                    lemma_parse_string_sound(s, i + 2, t, j2);
                    assert(content == seq!['\\'] + t && j == j2);
                    assert(content[0] == '\\');
                    assert(content.drop_first() =~= t);
                    lemma_subrange_concat(s, i, i + 2, j);
                    assert(s.subrange(i, i + 2) =~= seq!['\\', '\\']) by {
                        assert(s.subrange(i, i + 2)[0] == s[i]);
                        assert(s.subrange(i, i + 2)[1] == s[i + 1]);
                    }
                    assert(s.subrange(i, j) =~= spec_escape(content) + seq!['"']);
                }
                None => {
                    assert(false);
                }
            }
        } else {
            let d1 = spec_hex_val(s[i + 4]);
            let d0 = spec_hex_val(s[i + 5]);
            let v = 16 * d1 + d0;
            match spec_parse_string(s, i + 6) {
                Some((t, j2)) => {
                    lemma_parse_string_sound(s, i + 6, t, j2);
                    let c0 = (v as u32) as char;
                    assert(content == seq![c0] + t && j == j2);
                    assert(content[0] == c0);
                    assert(content.drop_first() =~= t);
                    assert(c0 as u32 == v);
                    assert(c0 != '"' && c0 != '\\');
                    assert((c0 as u32) / 16 == d1 && (c0 as u32) % 16 == d0);
                    lemma_hex_val_digit(s[i + 4]);
                    lemma_hex_val_digit(s[i + 5]);
                    assert(spec_escape_char(c0) =~= seq![
                        '\\',
                        'u',
                        '0',
                        '0',
                        s[i + 4],
                        s[i + 5],
                    ]);
                    lemma_subrange_concat(s, i, i + 6, j);
                    assert(s.subrange(i, i + 6) =~= spec_escape_char(c0)) by {
                        assert(s.subrange(i, i + 6)[0] == s[i]);
                        assert(s.subrange(i, i + 6)[1] == s[i + 1]);
                        assert(s.subrange(i, i + 6)[2] == s[i + 2]);
                        assert(s.subrange(i, i + 6)[3] == s[i + 3]);
                        assert(s.subrange(i, i + 6)[4] == s[i + 4]);
                        assert(s.subrange(i, i + 6)[5] == s[i + 5]);
                    }
                    assert(s.subrange(i, j) =~= spec_escape(content) + seq!['"']);
                }
                None => {
                    assert(false);
                }
            }
        }
    } else {
        match spec_parse_string(s, i + 1) {
            Some((t, j2)) => {
                lemma_parse_string_sound(s, i + 1, t, j2);
                assert(content == seq![s[i]] + t && j == j2);
                assert(content[0] == s[i]);
                assert(content.drop_first() =~= t);
                assert(spec_escape_char(s[i]) =~= seq![s[i]]);
                lemma_subrange_concat(s, i, i + 1, j);
                assert(s.subrange(i, i + 1) =~= seq![s[i]]) by {
                    assert(s.subrange(i, i + 1)[0] == s[i]);
                }
                assert(s.subrange(i, j) =~= spec_escape(content) + seq!['"']);
            }
            None => {
                assert(false);
            }
        }
    }
}

/// The two-name parser accepts only the canonical text of the two names.
proof fn lemma_parse_two_names_sound(s: Seq<char>, i: int, u: Seq<char>, rn: Seq<char>, j: int)
    requires
        spec_parse_two_names(s, i) == Some((u, rn, j)),
    ensures
        0 <= i < j <= s.len(),
        s.subrange(i, j) == spec_escape(u) + seq!['"'] + ",\"room_name\":\""@ + spec_escape(rn)
            + seq!['"'],
{
    let lit = ",\"room_name\":\""@;
    match spec_parse_string(s, i) {
        Some((u1, i2)) => {
            lemma_parse_string_sound(s, i, u1, i2);
            match spec_expect(s, i2, lit) {
                Some(i3) => {
                    match spec_parse_string(s, i3) {
                        Some((rn1, j1)) => {
                            lemma_parse_string_sound(s, i3, rn1, j1);
                            lemma_subrange_concat(s, i2, i3, j);
                            lemma_subrange_concat(s, i, i2, j);
                            assert(s.subrange(i, j) =~= spec_escape(u) + seq!['"'] + lit
                                + spec_escape(rn) + seq!['"']);
                        }
                        None => {
                            assert(false);
                        }
                    }
                }
                None => {
                    assert(false);
                }
            }
        }
        None => {
            assert(false);
        }
    }
}

/// The message parser accepts only the canonical text of the event it
/// reads back.
#[verifier::rlimit(60)]
proof fn lemma_parse_message_sound(s: Seq<char>, i: int, m: ChatMessageView, j: int)
    requires
        spec_parse_message(s, i) == Some((m, j)),
    ensures
        0 <= i < j <= s.len(),
        s.subrange(i, j) == spec_encode_message(m),
{
    let joinlit = "{\"Join\":{\"username\":\""@;
    let leavelit = "{\"Leave\":{\"username\":\""@;
    let chatlit = "{\"Chat\":{\"username\":\""@;
    let closelit = "}}"@;
    if spec_expect(s, i, joinlit) is Some {
        let i1 = i + joinlit.len();
        match spec_parse_two_names(s, i1) {
            Some((u, rn, i4)) => {
                lemma_parse_two_names_sound(s, i1, u, rn, i4);
                match spec_expect(s, i4, closelit) {
                    Some(i5) => {
                        lemma_subrange_concat(s, i1, i4, j);
                        lemma_subrange_concat(s, i, i1, j);
                        assert(s.subrange(i, j) =~= spec_encode_message(m));
                    }
                    None => {
                        assert(false);
                    }
                }
            }
            None => {
                assert(false);
            }
        }
    } else if spec_expect(s, i, leavelit) is Some {
        let i1 = i + leavelit.len();
        match spec_parse_two_names(s, i1) {
            Some((u, rn, i4)) => {
                lemma_parse_two_names_sound(s, i1, u, rn, i4);
                match spec_expect(s, i4, closelit) {
                    Some(i5) => {
                        lemma_subrange_concat(s, i1, i4, j);
                        lemma_subrange_concat(s, i, i1, j);
                        assert(s.subrange(i, j) =~= spec_encode_message(m));
                    }
                    None => {
                        assert(false);
                    }
                }
            }
            None => {
                assert(false);
            }
        }
    } else if spec_expect(s, i, chatlit) is Some {
        let ctxlit = ",\"context\":\""@;
        let i1 = i + chatlit.len();
        match spec_parse_two_names(s, i1) {
            Some((u, rn, i4)) => {
                lemma_parse_two_names_sound(s, i1, u, rn, i4);
                match spec_expect(s, i4, ctxlit) {
                    Some(i5) => {
                        match spec_parse_string(s, i5) {
                            Some((cx, i6)) => {
                                lemma_parse_string_sound(s, i5, cx, i6);
                                match spec_expect(s, i6, closelit) {
                                    Some(i7) => {
                                        lemma_subrange_concat(s, i5, i6, j);
                                        lemma_subrange_concat(s, i4, i5, j);
                                        lemma_subrange_concat(s, i1, i4, j);
                                        lemma_subrange_concat(s, i, i1, j);
                                        assert(s.subrange(i, j) =~= spec_encode_message(m));
                                    }
                                    None => {
                                        assert(false);
                                    }
                                }
                            }
                            None => {
                                assert(false);
                            }
                        }
                    }
                    None => {
                        assert(false);
                    }
                }
            }
            None => {
                assert(false);
            }
        }
    } else {
        assert(false);
    }
}

/// Decoding is honest: whatever it accepts was exactly the encoding of
/// the envelope it yields. A subscriber therefore acts only on genuine
/// envelopes, and no two distinct envelopes share a wire text.
#[verifier::rlimit(100)]
pub proof fn lemma_decode_sound(s: Seq<char>, env: EnvelopeView)
    requires
        spec_decode_envelope(s) == Some(env),
    ensures
        s == spec_encode_envelope(env),
{
    let p1 = "{\"id\":\""@;
    let p2 = ",\"msg\":"@;
    match spec_expect(s, 0, p1) {
        Some(i1) => {
            match spec_parse_string(s, i1) {
                Some((id, i2)) => {
                    lemma_parse_string_sound(s, i1, id, i2);
                    match spec_expect(s, i2, p2) {
                        Some(i3) => {
                            match spec_parse_message(s, i3) {
                                Some((m, i4)) => {
                                    lemma_parse_message_sound(s, i3, m, i4);
                                    assert(s.subrange(i4, s.len() as int) =~= seq!['}']) by {
                                        assert(s.subrange(i4, s.len() as int)[0] == s[i4]);
                                    }
                                    lemma_subrange_concat(s, i3, i4, s.len() as int);
                                    lemma_subrange_concat(s, i2, i3, s.len() as int);
                                    lemma_subrange_concat(s, i1, i2, s.len() as int);
                                    lemma_subrange_concat(s, 0, i1, s.len() as int);
                                    assert(s.subrange(0, s.len() as int) =~= s);
                                    assert(s =~= spec_encode_envelope(env));
                                }
                                None => {
                                    assert(false);
                                }
                            }
                        }
                        None => {
                            assert(false);
                        }
                    }
                }
                None => {
                    assert(false);
                }
            }
        }
        None => {
            assert(false);
        }
    }
}

/// No two distinct envelopes have the same wire text.
pub proof fn lemma_encode_injective(a: EnvelopeView, b: EnvelopeView)
    requires
        spec_encode_envelope(a) == spec_encode_envelope(b),
    ensures
        a == b,
{
    lemma_decode_encode(a);
    lemma_decode_encode(b);
}

fn hex_val_char(c: char) -> (r: i8)
    ensures
        r as int == spec_hex_val(c),
{
    if c == '0' { 0 }
    else if c == '1' { 1 }
    else if c == '2' { 2 }
    else if c == '3' { 3 }
    else if c == '4' { 4 }
    else if c == '5' { 5 }
    else if c == '6' { 6 }
    else if c == '7' { 7 }
    else if c == '8' { 8 }
    else if c == '9' { 9 }
    else if c == 'a' { 10 }
    else if c == 'b' { 11 }
    else if c == 'c' { 12 }
    else if c == 'd' { 13 }
    else if c == 'e' { 14 }
    else if c == 'f' { 15 }
    else { -1 }
}

fn expect_lit(s: &str, i: usize, lit: &str) -> (r: Option<usize>)
    ensures
        match r {
            Some(j) => spec_expect(s@, i as int, lit@) == Some(j as int),
            None => spec_expect(s@, i as int, lit@) is None,
        },
{
    let n = s.unicode_len();
    let m = lit.unicode_len();
    if i > n || n - i < m {
        return None;
    }
    let mut k: usize = 0;
    while k < m
        invariant
            k <= m,
            m == lit@.len(),
            n == s@.len(),
            i + m <= n,
            forall|t: int| 0 <= t < k ==> s@[i + t] == lit@[t],
        decreases m - k,
    {
        if s.get_char(i + k) != lit.get_char(k) {
            proof {
                let sub = s@.subrange(i as int, i as int + m as int);
                assert(sub[k as int] == s@[i + k]);
            }
            return None;
        }
        k = k + 1;
    }
    proof {
        assert(s@.subrange(i as int, i as int + m as int) =~= lit@);
    }
    Some(i + m)
}

/// Glue a parsed prefix onto the result of parsing the remainder.
spec fn opt_prepend(pre: Seq<char>, o: Option<(Seq<char>, int)>) -> Option<
    (Seq<char>, int),
> {
    match o {
        Some((t, j)) => Some((pre + t, j)),
        None => None,
    }
}

proof fn lemma_opt_prepend_assoc(a: Seq<char>, b: Seq<char>, o: Option<(Seq<char>, int)>)
    ensures
        opt_prepend(a, opt_prepend(b, o)) == opt_prepend(a + b, o),
{
    match o {
        Some((t, j)) => {
            assert(a + (b + t) =~= (a + b) + t);
        }
        None => {}
    }
}

fn parse_string_at(s: &str, start: usize) -> (r: Option<(String, usize)>)
    ensures
        match r {
            Some(p) => spec_parse_string(s@, start as int) == Some((p.0@, p.1 as int)),
            None => spec_parse_string(s@, start as int) is None,
        },
{
    let n = s.unicode_len();
    if start > n {
        return None;
    }
    let mut out = String::new();
    let mut i = start;
    loop
        invariant
            start <= i <= n,
            n == s@.len(),
            spec_parse_string(s@, start as int) == opt_prepend(
                out@,
                spec_parse_string(s@, i as int),
            ),
        decreases n - i,
    {
        if i >= n {
            return None;
        }
        let ghost iold = i as int;
        let ghost outold = out@;
        let c = s.get_char(i);
        if c == '"' {
            proof {
                assert(outold + Seq::<char>::empty() =~= outold);
            }
            return Some((out, i + 1));
        } else if c == '\\' {
            if n - i < 2 {
                return None;
            }
            let c1 = s.get_char(i + 1);
            if c1 == '"' {
                out.push('"');
                i = i + 2;
                proof {
                    lemma_opt_prepend_assoc(outold, seq!['"'], spec_parse_string(s@, i as int));
                    assert(outold + seq!['"'] =~= out@);
                }
            } else if c1 == '\\' {
                out.push('\\');
                i = i + 2;
                proof {
                    lemma_opt_prepend_assoc(outold, seq!['\\'], spec_parse_string(s@, i as int));
                    assert(outold + seq!['\\'] =~= out@);
                }
            } else if c1 == 'u' {
                if n - i < 6 {
                    return None;
                }
                if s.get_char(i + 2) != '0' || s.get_char(i + 3) != '0' {
                    return None;
                }
                let h1 = hex_val_char(s.get_char(i + 4));
                let h0 = hex_val_char(s.get_char(i + 5));
                if h1 < 0 || h0 < 0 {
                    return None;
                }
                let v: u8 = 16 * (h1 as u8) + (h0 as u8);
                if v >= 32 {
                    return None;
                }
                let uc: char = v as char;
                out.push(uc);
                i = i + 6;
                proof {
                    lemma_opt_prepend_assoc(outold, seq![uc], spec_parse_string(s@, i as int));
                    assert(outold + seq![uc] =~= out@);
                }
            } else {
                return None;
            }
        } else if (c as u32) < 32 {
            return None;
        } else {
            out.push(c);
            i = i + 1;
            proof {
                lemma_opt_prepend_assoc(outold, seq![c], spec_parse_string(s@, i as int));
                assert(outold + seq![c] =~= out@);
            }
        }
    }
}

fn parse_two_names_at(s: &str, i: usize) -> (r: Option<(String, String, usize)>)
    ensures
        match r {
            Some(p) => spec_parse_two_names(s@, i as int) == Some((p.0@, p.1@, p.2 as int)),
            None => spec_parse_two_names(s@, i as int) is None,
        },
{
    let (u, i2) = match parse_string_at(s, i) {
        Some(p) => p,
        None => {
            return None;
        }
    };
    let i3 = match expect_lit(s, i2, ",\"room_name\":\"") {
        Some(j) => j,
        None => {
            return None;
        }
    };
    let (rn, i4) = match parse_string_at(s, i3) {
        Some(p) => p,
        None => {
            return None;
        }
    };
    Some((u, rn, i4))
}

fn parse_message_at(s: &str, i: usize) -> (r: Option<(ChatMessage, usize)>)
    ensures
        match r {
            Some(p) => spec_parse_message(s@, i as int) == Some((p.0@, p.1 as int)),
            None => spec_parse_message(s@, i as int) is None,
        },
{
    if let Some(i1) = expect_lit(s, i, "{\"Join\":{\"username\":\"") {
        let (u, rn, i4) = match parse_two_names_at(s, i1) {
            Some(p) => p,
            None => {
                return None;
            }
        };
        let i5 = match expect_lit(s, i4, "}}") {
            Some(j) => j,
            None => {
                return None;
            }
        };
        Some((ChatMessage::Join { username: u, room_name: rn }, i5))
    } else if let Some(i1) = expect_lit(s, i, "{\"Leave\":{\"username\":\"") {
        let (u, rn, i4) = match parse_two_names_at(s, i1) {
            Some(p) => p,
            None => {
                return None;
            }
        };
        let i5 = match expect_lit(s, i4, "}}") {
            Some(j) => j,
            None => {
                return None;
            }
        };
        Some((ChatMessage::Leave { username: u, room_name: rn }, i5))
    } else if let Some(i1) = expect_lit(s, i, "{\"Chat\":{\"username\":\"") {
        let (u, rn, i4) = match parse_two_names_at(s, i1) {
            Some(p) => p,
            None => {
                return None;
            }
        };
        let i5 = match expect_lit(s, i4, ",\"context\":\"") {
            Some(j) => j,
            None => {
                return None;
            }
        };
        let (cx, i6) = match parse_string_at(s, i5) {
            Some(p) => p,
            None => {
                return None;
            }
        };
        let i7 = match expect_lit(s, i6, "}}") {
            Some(j) => j,
            None => {
                return None;
            }
        };
        Some((ChatMessage::Chat { username: u, room_name: rn, context: cx }, i7))
    } else {
        None
    }
}

/// Decode one envelope from bus text. Yields the envelope exactly when the
/// text is an encoded envelope; on any other text, nothing.
pub fn decode_envelope(s: &str) -> (r: Option<IdLabeledMessage>)
    ensures
        match r {
            Some(env) => spec_decode_envelope(s@) == Some(env@),
            None => spec_decode_envelope(s@) is None,
        },
{
    let i1 = match expect_lit(s, 0, "{\"id\":\"") {
        Some(j) => j,
        None => {
            return None;
        }
    };
    let (ids, i2) = match parse_string_at(s, i1) {
        Some(p) => p,
        None => {
            return None;
        }
    };
    let i3 = match expect_lit(s, i2, ",\"msg\":") {
        Some(j) => j,
        None => {
            return None;
        }
    };
    let (m, i4) = match parse_message_at(s, i3) {
        Some(p) => p,
        None => {
            return None;
        }
    };
    let n = s.unicode_len();
    if i4 < n && i4 + 1 == n {
        let last = s.get_char(i4);
        if last == '}' {
            return Some(IdLabeledMessage { id: ServerId::from_string(ids), msg: m });
        }
    }
    None
}

} // verus!

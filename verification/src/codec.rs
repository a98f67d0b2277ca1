//! Wire codec for envelopes.
//!
//! An envelope travels as one compact JSON object,
//! `{"user_id":"...","message":M}`, where `M` is `"ping"`, `"pong"`,
//! `{"data":"..."}` or `{"error":"..."}`. String payloads escape `"` and `\`
//! with a backslash; every other character stands for itself.
//!
//! The serialization is defined by the spec function [`envelope_json`], the
//! accepted wire language by the spec parser [`parse_envelope`]; the decoder
//! accepts exactly the canonical form the encoder emits:
//! [`lemma_codec_round_trip`] proves that decoding a freshly encoded
//! envelope gives the original back, and
//! [`lemma_accepted_input_is_canonical`] that nothing else is accepted.

use vstd::prelude::*;

use crate::envelope::{MessageModel, MessageType, Notification, NotificationModel};

verus! {

// ---------------------------------------------------------------------------
// Serialization, as a mathematical function.
// ---------------------------------------------------------------------------

/// How one character of a string payload appears on the wire.
pub open spec fn escape_char(c: char) -> Seq<char> {
    if c == '"' || c == '\\' {
        seq!['\\', c]
    } else {
        seq![c]
    }
}

/// How a whole string payload appears on the wire, quotes excluded.
pub open spec fn escape_string(s: Seq<char>) -> Seq<char>
    decreases s.len(),
{
    if s.len() == 0 {
        Seq::empty()
    } else {
        escape_char(s[0]) + escape_string(s.skip(1))
    }
}

/// A string payload on the wire: escaped and wrapped in double quotes.
pub open spec fn quoted(s: Seq<char>) -> Seq<char> {
    seq!['"'] + escape_string(s) + seq!['"']
}

/// The object head `{"user_id":`.
pub open spec fn head_lit() -> Seq<char> {
    seq!['{', '"', 'u', 's', 'e', 'r', '_', 'i', 'd', '"', ':']
}

/// The separator `,"message":`.
pub open spec fn mid_lit() -> Seq<char> {
    seq![',', '"', 'm', 'e', 's', 's', 'a', 'g', 'e', '"', ':']
}

/// The tag `"ping"`.
pub open spec fn ping_lit() -> Seq<char> {
    seq!['"', 'p', 'i', 'n', 'g', '"']
}

/// The tag `"pong"`.
pub open spec fn pong_lit() -> Seq<char> {
    seq!['"', 'p', 'o', 'n', 'g', '"']
}

/// The payload-variant head `{"data":`.
pub open spec fn data_open_lit() -> Seq<char> {
    seq!['{', '"', 'd', 'a', 't', 'a', '"', ':']
}

/// The payload-variant head `{"error":`.
pub open spec fn error_open_lit() -> Seq<char> {
    seq!['{', '"', 'e', 'r', 'r', 'o', 'r', '"', ':']
}

/// The wire form of a message body.
pub open spec fn message_json(m: MessageModel) -> Seq<char> {
    match m {
        MessageModel::Ping => ping_lit(),
        MessageModel::Pong => pong_lit(),
        MessageModel::Data(p) => data_open_lit() + quoted(p) + seq!['}'],
        MessageModel::Error(p) => error_open_lit() + quoted(p) + seq!['}'],
    }
}

/// The wire form of a whole envelope.
pub open spec fn envelope_json(n: NotificationModel) -> Seq<char> {
    head_lit() + quoted(n.user_id) + mid_lit() + message_json(n.message) + seq!['}']
}

// ---------------------------------------------------------------------------
// Facts about escaping.
// ---------------------------------------------------------------------------

proof fn lemma_escape_string_concat(s: Seq<char>, t: Seq<char>)
    ensures
        escape_string(s + t) == escape_string(s) + escape_string(t),
    decreases s.len(),
{
    if s.len() == 0 {
        assert(s + t =~= t);
        assert(escape_string(s) + escape_string(t) =~= escape_string(t));
    } else {
        assert((s + t).skip(1) =~= s.skip(1) + t);
        lemma_escape_string_concat(s.skip(1), t);
        assert((s + t)[0] == s[0]);
        assert(escape_char(s[0]) + (escape_string(s.skip(1)) + escape_string(t)) =~= (escape_char(
            s[0],
        ) + escape_string(s.skip(1))) + escape_string(t));
    }
}

proof fn lemma_escape_string_single(c: char)
    ensures
        escape_string(seq![c]) == escape_char(c),
{
    assert(seq![c].skip(1) =~= Seq::<char>::empty());
    assert(escape_char(c) + escape_string(seq![c].skip(1)) =~= escape_char(c));
}

proof fn lemma_escape_string_take_step(s: Seq<char>, i: int)
    requires
        0 <= i < s.len(),
    ensures
        escape_string(s.take(i + 1)) == escape_string(s.take(i)) + escape_char(s[i]),
{
    assert(s.take(i + 1) =~= s.take(i) + seq![s[i]]);
    lemma_escape_string_concat(s.take(i), seq![s[i]]);
    lemma_escape_string_single(s[i]);
}

// ---------------------------------------------------------------------------
// Encoding.
// ---------------------------------------------------------------------------

/// Relies on `String::push`: appends exactly the one given character.
#[verifier::external_body]
fn push_char(out: &mut String, c: char)
    ensures
        final(out)@ == old(out)@.push(c),
{
    out.push(c);
}

/// Appends the escaped form of `s` to `out`.
fn append_escaped(out: &mut String, s: &str)
    ensures
        final(out)@ == old(out)@ + escape_string(s@),
{
    let n = s.unicode_len();
    let mut i: usize = 0;
    while i < n
        invariant
            n == s@.len(),
            i <= n,
            out@ == old(out)@ + escape_string(s@.take(i as int)),
        decreases n - i,
    {
        let c = s.get_char(i);
        if c == '"' {
            out.append("\\\"");
            proof {
                reveal_strlit("\\\"");
                assert("\\\""@ =~= escape_char(c));
            }
        } else if c == '\\' {
            out.append("\\\\");
            proof {
                reveal_strlit("\\\\");
                assert("\\\\"@ =~= escape_char(c));
            }
        } else {
            push_char(out, c);
            proof {
                assert(out@ =~= (old(out)@ + escape_string(s@.take(i as int))) + escape_char(c));
            }
        }
        proof {
            lemma_escape_string_take_step(s@, i as int);
            assert(out@ =~= old(out)@ + escape_string(s@.take(i + 1)));
        }
        i += 1;
    }
    proof {
        assert(s@.take(n as int) =~= s@);
    }
}

/// Appends the quoted, escaped form of `s` to `out`.
fn append_quoted(out: &mut String, s: &str)
    ensures
        final(out)@ == old(out)@ + quoted(s@),
{
    out.append("\"");
    append_escaped(out, s);
    out.append("\"");
    proof {
        reveal_strlit("\"");
        assert("\""@ =~= seq!['"']);
        assert(out@ =~= old(out)@ + quoted(s@));
    }
}

/// Appends the wire form of a message body to `out`.
fn append_message(out: &mut String, m: &MessageType)
    ensures
        final(out)@ == old(out)@ + message_json(m@),
{
    match m {
        MessageType::Ping => {
            out.append("\"ping\"");
            proof {
                reveal_strlit("\"ping\"");
                assert("\"ping\""@ =~= ping_lit());
            }
        },
        MessageType::Pong => {
            out.append("\"pong\"");
            proof {
                reveal_strlit("\"pong\"");
                assert("\"pong\""@ =~= pong_lit());
            }
        },
        MessageType::Data(p) => {
            out.append("{\"data\":");
            append_quoted(out, p.as_str());
            out.append("}");
            proof {
                reveal_strlit("{\"data\":");
                reveal_strlit("}");
                assert("{\"data\":"@ =~= data_open_lit());
                assert("}"@ =~= seq!['}']);
                assert(out@ =~= old(out)@ + message_json(m@));
            }
        },
        MessageType::Error(p) => {
            out.append("{\"error\":");
            append_quoted(out, p.as_str());
            out.append("}");
            proof {
                reveal_strlit("{\"error\":");
                reveal_strlit("}");
                assert("{\"error\":"@ =~= error_open_lit());
                assert("}"@ =~= seq!['}']);
                assert(out@ =~= old(out)@ + message_json(m@));
            }
        },
    }
}

/// Serializes an envelope to its canonical wire form.
pub fn encode_notification(n: &Notification) -> (s: String)
    ensures
        s@ == envelope_json(n@),
{
    let mut out = String::new();
    out.append("{\"user_id\":");
    append_quoted(&mut out, n.user_id.as_str());
    out.append(",\"message\":");
    append_message(&mut out, &n.message);
    out.append("}");
    proof {
        reveal_strlit("{\"user_id\":");
        reveal_strlit(",\"message\":");
        reveal_strlit("}");
        assert("{\"user_id\":"@ =~= head_lit());
        assert(",\"message\":"@ =~= mid_lit());
        assert("}"@ =~= seq!['}']);
        assert(out@ =~= envelope_json(n@));
    }
    out
}

// ---------------------------------------------------------------------------
// The accepted wire language, as a mathematical parser.
//
// Each parsing function consumes a prefix of its input and hands back the
// parsed value together with the unconsumed rest.
// ---------------------------------------------------------------------------

/// Consumes `p` from the front of `s`, if it is there.
pub open spec fn strip_prefix(s: Seq<char>, p: Seq<char>) -> Option<Seq<char>> {
    if p.len() <= s.len() && s.take(p.len() as int) == p {
        Some(s.skip(p.len() as int))
    } else {
        None
    }
}

/// Parses the remainder of a quoted string, the opening quote already
/// consumed: unescapes up to and over the closing quote.
pub open spec fn parse_string_body(s: Seq<char>) -> Option<(Seq<char>, Seq<char>)>
    decreases s.len(),
{
    if s.len() == 0 {
        None
    } else if s[0] == '"' {
        Some((Seq::empty(), s.skip(1)))
    } else if s[0] == '\\' {
        if s.len() >= 2 && (s[1] == '"' || s[1] == '\\') {
            match parse_string_body(s.skip(2)) {
                Some((content, rest)) => Some((seq![s[1]] + content, rest)),
                None => None,
            }
        } else {
            None
        }
    } else {
        match parse_string_body(s.skip(1)) {
            Some((content, rest)) => Some((seq![s[0]] + content, rest)),
            None => None,
        }
    }
}

/// Parses a quoted string, opening quote included.
pub open spec fn parse_quoted(s: Seq<char>) -> Option<(Seq<char>, Seq<char>)> {
    if s.len() > 0 && s[0] == '"' {
        parse_string_body(s.skip(1))
    } else {
        None
    }
}

/// Parses a message body: one of the two tags or one of the two
/// payload-carrying objects.
pub open spec fn parse_message(s: Seq<char>) -> Option<(MessageModel, Seq<char>)> {
    match strip_prefix(s, ping_lit()) {
        Some(rest) => Some((MessageModel::Ping, rest)),
        None => match strip_prefix(s, pong_lit()) {
            Some(rest) => Some((MessageModel::Pong, rest)),
            None => match strip_prefix(s, data_open_lit()) {
                Some(r1) => match parse_quoted(r1) {
                    Some((p, r2)) => if r2.len() >= 1 && r2[0] == '}' {
                        Some((MessageModel::Data(p), r2.skip(1)))
                    } else {
                        None
                    },
                    None => None,
                },
                None => match strip_prefix(s, error_open_lit()) {
                    Some(r1) => match parse_quoted(r1) {
                        Some((p, r2)) => if r2.len() >= 1 && r2[0] == '}' {
                            Some((MessageModel::Error(p), r2.skip(1)))
                        } else {
                            None
                        },
                        None => None,
                    },
                    None => None,
                },
            },
        },
    }
}

/// Parses a whole envelope; the entire input must be consumed.
pub open spec fn parse_envelope(s: Seq<char>) -> Option<NotificationModel> {
    match strip_prefix(s, head_lit()) {
        Some(r1) => match parse_quoted(r1) {
            Some((uid, r2)) => match strip_prefix(r2, mid_lit()) {
                Some(r3) => match parse_message(r3) {
                    Some((m, r4)) => if r4.len() == 1 && r4[0] == '}' {
                        Some(NotificationModel { user_id: uid, message: m })
                    } else {
                        None
                    },
                    None => None,
                },
                None => None,
            },
            None => None,
        },
        None => None,
    }
}

// ---------------------------------------------------------------------------
// Round trip: parsing inverts serialization.
// ---------------------------------------------------------------------------

proof fn lemma_strip_prefix_of_concat(p: Seq<char>, t: Seq<char>)
    ensures
        strip_prefix(p + t, p) == Some(t),
{
    assert((p + t).take(p.len() as int) =~= p);
    assert((p + t).skip(p.len() as int) =~= t);
}

proof fn lemma_parse_string_body_of_escaped(u: Seq<char>, rest: Seq<char>)
    ensures
        parse_string_body(escape_string(u) + seq!['"'] + rest) == Some((u, rest)),
    decreases u.len(),
{
    let w = escape_string(u) + seq!['"'] + rest;
    if u.len() == 0 {
        assert(w =~= seq!['"'] + rest);
        assert(w[0] == '"');
        assert(w.skip(1) =~= rest);
    } else {
        let c = u[0];
        let u1 = u.skip(1);
        lemma_parse_string_body_of_escaped(u1, rest);
        let w1 = escape_string(u1) + seq!['"'] + rest;
        if c == '"' || c == '\\' {
            assert(w =~= seq!['\\', c] + w1);
            assert(w[0] == '\\');
            assert(w[1] == c);
            assert(w.len() >= 2);
            assert(w.skip(2) =~= w1);
            assert(seq![c] + u1 =~= u);
        } else {
            assert(w =~= seq![c] + w1);
            assert(w[0] == c);
            assert(w.skip(1) =~= w1);
            assert(seq![c] + u1 =~= u);
        }
    }
}

proof fn lemma_parse_quoted_of_quoted(u: Seq<char>, rest: Seq<char>)
    ensures
        parse_quoted(quoted(u) + rest) == Some((u, rest)),
{
    let w = quoted(u) + rest;
    assert(w =~= seq!['"'] + (escape_string(u) + seq!['"'] + rest));
    assert(w[0] == '"');
    assert(w.skip(1) =~= escape_string(u) + seq!['"'] + rest);
    lemma_parse_string_body_of_escaped(u, rest);
}

proof fn lemma_parse_message_of_json(m: MessageModel, tail: Seq<char>)
    ensures
        parse_message(message_json(m) + tail) == Some((m, tail)),
{
    let s = message_json(m) + tail;
    match m {
        MessageModel::Ping => {
            lemma_strip_prefix_of_concat(ping_lit(), tail);
        },
        MessageModel::Pong => {
            assert(strip_prefix(s, ping_lit()) is None) by {
                if strip_prefix(s, ping_lit()) is Some {
                    assert(s.take(6)[2] == s[2]);
                    assert(s[2] == pong_lit()[2]);
                    assert(false);
                }
            }
            lemma_strip_prefix_of_concat(pong_lit(), tail);
        },
        MessageModel::Data(p) => {
            assert(s[0] == '{');
            assert(strip_prefix(s, ping_lit()) is None) by {
                if strip_prefix(s, ping_lit()) is Some {
                    assert(s.take(6)[0] == s[0]);
                    assert(false);
                }
            }
            assert(strip_prefix(s, pong_lit()) is None) by {
                if strip_prefix(s, pong_lit()) is Some {
                    assert(s.take(6)[0] == s[0]);
                    assert(false);
                }
            }
            let t1 = quoted(p) + (seq!['}'] + tail);
            assert(s =~= data_open_lit() + t1);
            lemma_strip_prefix_of_concat(data_open_lit(), t1);
            lemma_parse_quoted_of_quoted(p, seq!['}'] + tail);
            let r2 = seq!['}'] + tail;
            assert(r2[0] == '}');
            assert(r2.skip(1) =~= tail);
        },
        MessageModel::Error(p) => {
            assert(s[0] == '{');
            assert(strip_prefix(s, ping_lit()) is None) by {
                if strip_prefix(s, ping_lit()) is Some {
                    assert(s.take(6)[0] == s[0]);
                    assert(false);
                }
            }
            assert(strip_prefix(s, pong_lit()) is None) by {
                if strip_prefix(s, pong_lit()) is Some {
                    assert(s.take(6)[0] == s[0]);
                    assert(false);
                }
            }
            assert(strip_prefix(s, data_open_lit()) is None) by {
                if strip_prefix(s, data_open_lit()) is Some {
                    assert(s.take(8)[2] == s[2]);
                    assert(s[2] == error_open_lit()[2]);
                    assert(false);
                }
            }
            let t1 = quoted(p) + (seq!['}'] + tail);
            assert(s =~= error_open_lit() + t1);
            lemma_strip_prefix_of_concat(error_open_lit(), t1);
            lemma_parse_quoted_of_quoted(p, seq!['}'] + tail);
            let r2 = seq!['}'] + tail;
            assert(r2[0] == '}');
            assert(r2.skip(1) =~= tail);
        },
    }
}

/// The codec round trip: parsing the canonical wire form of any envelope
/// model yields exactly that model. Together with the contracts of
/// [`encode_notification`] and [`decode_notification`], decoding a freshly
/// encoded envelope gives back an envelope of equal value.
pub proof fn lemma_codec_round_trip(n: NotificationModel)
    ensures
        parse_envelope(envelope_json(n)) == Some(n),
{
    let s = envelope_json(n);
    let t_msg = message_json(n.message) + seq!['}'];
    let t_mid = mid_lit() + t_msg;
    let t_uid = quoted(n.user_id) + t_mid;
    assert(s =~= head_lit() + t_uid);
    lemma_strip_prefix_of_concat(head_lit(), t_uid);
    lemma_parse_quoted_of_quoted(n.user_id, t_mid);
    lemma_strip_prefix_of_concat(mid_lit(), t_msg);
    lemma_parse_message_of_json(n.message, seq!['}']);
    let r4 = seq!['}'];
    assert(r4.len() == 1 && r4[0] == '}');
}

proof fn lemma_strip_prefix_splits(s: Seq<char>, p: Seq<char>, r: Seq<char>)
    requires
        strip_prefix(s, p) == Some(r),
    ensures
        s == p + r,
{
    assert(s =~= s.take(p.len() as int) + s.skip(p.len() as int));
}

proof fn lemma_parse_string_body_canonical(s: Seq<char>, u: Seq<char>, rest: Seq<char>)
    requires
        parse_string_body(s) == Some((u, rest)),
    ensures
        s == escape_string(u) + seq!['"'] + rest,
    decreases s.len(),
{
    if s[0] == '"' {
        assert(s =~= seq!['"'] + s.skip(1));
        assert(escape_string(u) + seq!['"'] + rest =~= s);
    } else if s[0] == '\\' {
        match parse_string_body(s.skip(2)) {
            Some((u1, rest1)) => {
                lemma_parse_string_body_canonical(s.skip(2), u1, rest1);
                assert(u == seq![s[1]] + u1);
                assert(u[0] == s[1]);
                assert(u.skip(1) =~= u1);
                assert(escape_char(u[0]) == seq!['\\', s[1]]);
                assert(s =~= seq!['\\', s[1]] + s.skip(2));
                assert(escape_string(u) + seq!['"'] + rest =~= s);
            },
            None => {
                assert(false);
            },
        }
    } else {
        match parse_string_body(s.skip(1)) {
            Some((u1, rest1)) => {
                lemma_parse_string_body_canonical(s.skip(1), u1, rest1);
                assert(u == seq![s[0]] + u1);
                assert(u[0] == s[0]);
                assert(u.skip(1) =~= u1);
                assert(escape_char(u[0]) == seq![s[0]]);
                assert(s =~= seq![s[0]] + s.skip(1));
                assert(escape_string(u) + seq!['"'] + rest =~= s);
            },
            None => {
                assert(false);
            },
        }
    }
}

proof fn lemma_parse_quoted_canonical(s: Seq<char>, u: Seq<char>, rest: Seq<char>)
    requires
        parse_quoted(s) == Some((u, rest)),
    ensures
        s == quoted(u) + rest,
{
    lemma_parse_string_body_canonical(s.skip(1), u, rest);
    assert(s =~= seq!['"'] + s.skip(1));
    assert(quoted(u) + rest =~= s);
}

proof fn lemma_parse_message_canonical(s: Seq<char>, m: MessageModel, rest: Seq<char>)
    requires
        parse_message(s) == Some((m, rest)),
    ensures
        s == message_json(m) + rest,
{
    match strip_prefix(s, ping_lit()) {
        Some(r) => {
            lemma_strip_prefix_splits(s, ping_lit(), r);
        },
        None => match strip_prefix(s, pong_lit()) {
            Some(r) => {
                lemma_strip_prefix_splits(s, pong_lit(), r);
            },
            None => match strip_prefix(s, data_open_lit()) {
                Some(r1) => match parse_quoted(r1) {
                    Some((p, r2)) => {
                        lemma_strip_prefix_splits(s, data_open_lit(), r1);
                        lemma_parse_quoted_canonical(r1, p, r2);
                        assert(r2 =~= seq!['}'] + r2.skip(1));
                        assert(message_json(m) + rest =~= s);
                    },
                    None => {
                        assert(false);
                    },
                },
                None => match strip_prefix(s, error_open_lit()) {
                    Some(r1) => match parse_quoted(r1) {
                        Some((p, r2)) => {
                            lemma_strip_prefix_splits(s, error_open_lit(), r1);
                            lemma_parse_quoted_canonical(r1, p, r2);
                            assert(r2 =~= seq!['}'] + r2.skip(1));
                            assert(message_json(m) + rest =~= s);
                        },
                        None => {
                            assert(false);
                        },
                    },
                    None => {
                        assert(false);
                    },
                },
            },
        },
    }
}

/// The wire language holds nothing but the canonical forms: any input the
/// parser accepts is precisely the serialization of the envelope it returns.
/// Together with [`lemma_codec_round_trip`], serialization and parsing are
/// mutually inverse between envelope models and accepted wire strings — in
/// particular, no two distinct envelopes share a wire form.
pub proof fn lemma_accepted_input_is_canonical(s: Seq<char>, n: NotificationModel)
    requires
        parse_envelope(s) == Some(n),
    ensures
        s == envelope_json(n),
{
    match strip_prefix(s, head_lit()) {
        Some(r1) => match parse_quoted(r1) {
            Some((uid, r2)) => match strip_prefix(r2, mid_lit()) {
                Some(r3) => match parse_message(r3) {
                    Some((m, r4)) => {
                        lemma_strip_prefix_splits(s, head_lit(), r1);
                        lemma_parse_quoted_canonical(r1, uid, r2);
                        lemma_strip_prefix_splits(r2, mid_lit(), r3);
                        lemma_parse_message_canonical(r3, m, r4);
                        assert(r4 =~= seq!['}']);
                        assert(envelope_json(n) =~= s);
                    },
                    None => {
                        assert(false);
                    },
                },
                None => {
                    assert(false);
                },
            },
            None => {
                assert(false);
            },
        },
        None => {
            assert(false);
        },
    }
}

// ---------------------------------------------------------------------------
// Decoding.
// ---------------------------------------------------------------------------

/// Compares the characters of `s` from position `i` on with `lit`.
fn matches_lit(s: &str, i: usize, lit: &str) -> (b: bool)
    requires
        i <= s@.len(),
    ensures
        b == (strip_prefix(s@.skip(i as int), lit@) is Some),
        b ==> i + lit@.len() <= s@.len() && strip_prefix(s@.skip(i as int), lit@) == Some(
            s@.skip(i + lit@.len()),
        ),
{
    let sn = s.unicode_len();
    let ln = lit.unicode_len();
    if ln > sn - i {
        proof {
            assert(s@.skip(i as int).len() < lit@.len());
        }
        return false;
    }
    let mut j: usize = 0;
    while j < ln
        invariant
            i + ln <= sn,
            j <= ln,
            sn == s@.len(),
            ln == lit@.len(),
            forall|k: int| 0 <= k < j ==> s@[i + k] == lit@[k],
        decreases ln - j,
    {
        if s.get_char(i + j) != lit.get_char(j) {
            proof {
                let suf = s@.skip(i as int);
                if strip_prefix(suf, lit@) is Some {
                    assert(suf.take(ln as int)[j as int] == suf[j as int]);
                    assert(suf[j as int] == s@[i + j]);
                    assert(false);
                }
            }
            return false;
        }
        j += 1;
    }
    proof {
        let suf = s@.skip(i as int);
        assert(suf.take(ln as int) =~= lit@);
        assert(suf.skip(ln as int) =~= s@.skip(i + ln));
    }
    true
}

/// Decodes the remainder of a quoted string starting at position `i`, the
/// opening quote already consumed; returns the unescaped contents and the
/// position just past the closing quote.
fn parse_string_body_at(s: &str, i: usize) -> (r: Option<(String, usize)>)
    requires
        i <= s@.len(),
    ensures
        r matches Some(p) ==> i < p.1 <= s@.len() && parse_string_body(s@.skip(i as int)) == Some(
            (p.0@, s@.skip(p.1 as int)),
        ),
        r is None ==> parse_string_body(s@.skip(i as int)) is None,
    decreases s@.len() - i,
{
    let n = s.unicode_len();
    if i >= n {
        return None;
    }
    let c = s.get_char(i);
    proof {
        assert(s@.skip(i as int)[0] == s@[i as int]);
    }
    if c == '"' {
        proof {
            assert(s@.skip(i as int).skip(1) =~= s@.skip(i + 1));
        }
        Some((String::new(), i + 1))
    } else if c == '\\' {
        if i + 1 < n {
            let c2 = s.get_char(i + 1);
            proof {
                assert(s@.skip(i as int)[1] == s@[i + 1]);
            }
            if c2 == '"' || c2 == '\\' {
                proof {
                    assert(s@.skip(i as int).skip(2) =~= s@.skip(i + 2));
                }
                match parse_string_body_at(s, i + 2) {
                    Some((content, j)) => {
                        let mut out = String::new();
                        push_char(&mut out, c2);
                        out.append(content.as_str());
                        proof {
                            assert(out@ =~= seq![c2] + content@);
                        }
                        Some((out, j))
                    },
                    None => None,
                }
            } else {
                None
            }
        } else {
            None
        }
    } else {
        proof {
            assert(s@.skip(i as int).skip(1) =~= s@.skip(i + 1));
        }
        match parse_string_body_at(s, i + 1) {
            Some((content, j)) => {
                let mut out = String::new();
                push_char(&mut out, c);
                out.append(content.as_str());
                proof {
                    assert(out@ =~= seq![c] + content@);
                }
                Some((out, j))
            },
            None => None,
        }
    }
}

/// Decodes a quoted string starting at position `i`, opening quote included.
fn parse_quoted_at(s: &str, i: usize) -> (r: Option<(String, usize)>)
    requires
        i <= s@.len(),
    ensures
        r matches Some(p) ==> i < p.1 <= s@.len() && parse_quoted(s@.skip(i as int)) == Some(
            (p.0@, s@.skip(p.1 as int)),
        ),
        r is None ==> parse_quoted(s@.skip(i as int)) is None,
{
    let n = s.unicode_len();
    if i < n {
        let c = s.get_char(i);
        proof {
            assert(s@.skip(i as int)[0] == s@[i as int]);
        }
        if c == '"' {
            proof {
                assert(s@.skip(i as int).skip(1) =~= s@.skip(i + 1));
            }
            parse_string_body_at(s, i + 1)
        } else {
            None
        }
    } else {
        None
    }
}

/// Decodes a message body starting at position `i`.
fn parse_message_at(s: &str, i: usize) -> (r: Option<(MessageType, usize)>)
    requires
        i <= s@.len(),
    ensures
        r matches Some(p) ==> i <= p.1 <= s@.len() && parse_message(s@.skip(i as int)) == Some(
            (p.0@, s@.skip(p.1 as int)),
        ),
        r is None ==> parse_message(s@.skip(i as int)) is None,
{
    proof {
        reveal_strlit("\"ping\"");
        reveal_strlit("\"pong\"");
        reveal_strlit("{\"data\":");
        reveal_strlit("{\"error\":");
        assert("\"ping\""@ =~= ping_lit());
        assert("\"pong\""@ =~= pong_lit());
        assert("{\"data\":"@ =~= data_open_lit());
        assert("{\"error\":"@ =~= error_open_lit());
    }
    let total = s.unicode_len();
    if matches_lit(s, i, "\"ping\"") {
        Some((MessageType::Ping, i + 6))
    } else if matches_lit(s, i, "\"pong\"") {
        Some((MessageType::Pong, i + 6))
    } else if matches_lit(s, i, "{\"data\":") {
        match parse_quoted_at(s, i + 8) {
            Some((p, j)) => {
                if j < total && s.get_char(j) == '}' {
                    proof {
                        assert(s@.skip(j as int)[0] == s@[j as int]);
                        assert(s@.skip(j as int).skip(1) =~= s@.skip(j + 1));
                    }
                    Some((MessageType::Data(p), j + 1))
                } else {
                    None
                }
            },
            None => None,
        }
    } else if matches_lit(s, i, "{\"error\":") {
        match parse_quoted_at(s, i + 9) {
            Some((p, j)) => {
                if j < total && s.get_char(j) == '}' {
                    proof {
                        assert(s@.skip(j as int)[0] == s@[j as int]);
                        assert(s@.skip(j as int).skip(1) =~= s@.skip(j + 1));
                    }
                    Some((MessageType::Error(p), j + 1))
                } else {
                    None
                }
            },
            None => None,
        }
    } else {
        None
    }
}

/// Decodes an envelope from its canonical wire form; any other input is
/// rejected.
pub fn decode_notification(s: &str) -> (r: Option<Notification>)
    ensures
        r matches Some(n) ==> parse_envelope(s@) == Some(n@),
        r is None ==> parse_envelope(s@) is None,
{
    proof {
        reveal_strlit("{\"user_id\":");
        reveal_strlit(",\"message\":");
        assert("{\"user_id\":"@ =~= head_lit());
        assert(",\"message\":"@ =~= mid_lit());
        assert(s@.skip(0) =~= s@);
    }
    let total = s.unicode_len();
    if matches_lit(s, 0, "{\"user_id\":") {
        match parse_quoted_at(s, 11) {
            Some((uid, j)) => {
                if matches_lit(s, j, ",\"message\":") {
                    match parse_message_at(s, j + 11) {
                        Some((m, k)) => {
                            if k < total && s.get_char(k) == '}' && k + 1 == total {
                                proof {
                                    assert(s@.skip(k as int).len() == 1);
                                    assert(s@.skip(k as int)[0] == s@[k as int]);
                                }
                                Some(Notification { user_id: uid, message: m })
                            } else {
                                proof {
                                    let r4 = s@.skip(k as int);
                                    if k < s@.len() && s@[k as int] == '}' && k + 1 != s@.len() {
                                        assert(r4.len() != 1);
                                    }
                                }
                                None
                            }
                        },
                        None => None,
                    }
                } else {
                    None
                }
            },
            None => None,
        }
    } else {
        None
    }
}

} // verus!

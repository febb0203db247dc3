//! Relaying an upstream event stream: the upstream's text is cut into
//! lines, each `data:` line is decoded as an event of the upstream's
//! protocol (or, failing that, of the client's) and written again in the
//! client's protocol.

use vstd::prelude::*;
use crate::chat::{ChatCompletionsCodec, chat_chunk_event, chat_chunk_ok, chat_stream_text};
use crate::codec::{Codec, CodecError};
use crate::ir::{IrStreamEvent, IrStreamEventV, StreamError, StreamEventType, bare_event_v};
use crate::json::parsed_json_text;
use crate::messages::{MessagesCodec, anth_event_ok, anth_stream_event, anth_stream_text};
use crate::responses::{ResponsesCodec, resp_event_ok, resp_stream_event, resp_stream_text};
use crate::text::{chars_of, concat, string_of_chars};
use crate::types::Protocol;

verus! {

// ---------------------------------------------------------------------------
// Trimming
// ---------------------------------------------------------------------------

/// Whether `c` has the Unicode `White_Space` property (what std's `trim`
/// removes).
pub open spec fn is_white_space(c: char) -> bool {
    let n = c as u32;
    ||| 9 <= n <= 13
    ||| n == 32
    ||| n == 0x85
    ||| n == 0xa0
    ||| n == 0x1680
    ||| 0x2000 <= n <= 0x200a
    ||| n == 0x2028
    ||| n == 0x2029
    ||| n == 0x202f
    ||| n == 0x205f
    ||| n == 0x3000
}

/// Whether `c` has the Unicode `White_Space` property.
pub fn white_space(c: char) -> (r: bool)
    ensures
        r == is_white_space(c),
{
    let n = c as u32;
    (9 <= n && n <= 13) || n == 32 || n == 0x85 || n == 0xa0 || n == 0x1680 || (0x2000 <= n && n
        <= 0x200a) || n == 0x2028 || n == 0x2029 || n == 0x202f || n == 0x205f || n == 0x3000
}

/// `s` without its leading white space.
pub open spec fn trim_start(s: Seq<char>) -> Seq<char>
    decreases s.len(),
{
    if s.len() > 0 && is_white_space(s[0]) {
        trim_start(s.drop_first())
    } else {
        s
    }
}

/// `s` without its trailing white space.
pub open spec fn trim_end(s: Seq<char>) -> Seq<char>
    decreases s.len(),
{
    if s.len() > 0 && is_white_space(s.last()) {
        trim_end(s.drop_last())
    } else {
        s
    }
}

/// `s` without its leading and trailing white space.
pub open spec fn trimmed(s: Seq<char>) -> Seq<char> {
    trim_end(trim_start(s))
}

/// Dropping `i` leading white-space characters does not change what
/// `trim_start` gives.
proof fn lemma_trim_start_skip(s: Seq<char>, i: int)
    requires
        0 <= i <= s.len(),
        forall|k: int| 0 <= k < i ==> is_white_space(#[trigger] s[k]),
    ensures
        trim_start(s) == trim_start(s.skip(i)),
    decreases i,
{
    if i == 0 {
        assert(s.skip(0) =~= s);
    } else {
        lemma_trim_start_skip(s, i - 1);
        assert(s.skip(i - 1)[0] == s[i - 1]);
        assert(s.skip(i - 1).drop_first() =~= s.skip(i));
    }
}

/// Dropping trailing white-space characters after `j` does not change
/// what `trim_end` gives.
proof fn lemma_trim_end_take(s: Seq<char>, j: int)
    requires
        0 <= j <= s.len(),
        forall|k: int| j <= k < s.len() ==> is_white_space(#[trigger] s[k]),
    ensures
        trim_end(s) == trim_end(s.take(j)),
    decreases s.len() - j,
{
    if j == s.len() {
        assert(s.take(j) =~= s);
    } else {
        lemma_trim_end_take(s, j + 1);
        assert(s.take(j + 1).last() == s[j]);
        assert(s.take(j + 1).drop_last() =~= s.take(j));
    }
}

/// `s` without its leading and trailing white space (std `str::trim`).
pub fn trim(s: &str) -> (r: String)
    ensures
        r@ == trimmed(s@),
{
    let cs = chars_of(s);
    let mut a: usize = 0;
    while a < cs.len() && white_space(cs[a])
        invariant
            a <= cs@.len(),
            cs@ == s@,
            forall|k: int| 0 <= k < a ==> is_white_space(#[trigger] cs@[k]),
        decreases cs.len() - a,
    {
        a = a + 1;
    }
    proof {
        lemma_trim_start_skip(s@, a as int);
    }
    let ghost t = s@.skip(a as int);
    assert(trim_start(t) == t);
    let mut b: usize = cs.len();
    while b > a && white_space(cs[b - 1])
        invariant
            a <= b <= cs@.len(),
            cs@ == s@,
            t == s@.skip(a as int),
            forall|k: int| b <= k < cs@.len() ==> is_white_space(#[trigger] cs@[k]),
        decreases b,
    {
        b = b - 1;
    }
    proof {
        assert forall|k: int| b - a <= k < t.len() implies is_white_space(#[trigger] t[k]) by {
            assert(t[k] == cs@[k + a]);
        }
        lemma_trim_end_take(t, b - a);
        assert(t.take(b - a) =~= s@.subrange(a as int, b as int));
        if b > a {
            assert(t.take(b - a).last() == cs@[b - 1]);
        }
    }
    string_of_chars(&cs, a, b)
}

/// `s` without its trailing line feeds.
pub open spec fn trim_newlines(s: Seq<char>) -> Seq<char>
    decreases s.len(),
{
    if s.len() > 0 && s.last() == '\n' {
        trim_newlines(s.drop_last())
    } else {
        s
    }
}

/// `s` without its trailing line feeds (std `trim_end_matches('\n')`).
pub fn trim_newlines_end(s: &str) -> (r: String)
    ensures
        r@ == trim_newlines(s@),
{
    let cs = chars_of(s);
    let mut b: usize = cs.len();
    assert(s@.take(b as int) =~= s@);
    while b > 0 && cs[b - 1] == '\n'
        invariant
            b <= cs@.len(),
            cs@ == s@,
            trim_newlines(s@) == trim_newlines(s@.take(b as int)),
        decreases b,
    {
        assert(s@.take(b as int).drop_last() =~= s@.take(b - 1));
        b = b - 1;
    }
    assert(s@.take(b as int) =~= cs@.subrange(0, b as int));
    string_of_chars(&cs, 0, b)
}

// ---------------------------------------------------------------------------
// Prefixes
// ---------------------------------------------------------------------------

/// `s` without the prefix `p`, when it starts with it.
pub open spec fn strip_prefix(s: Seq<char>, p: Seq<char>) -> Option<Seq<char>> {
    if p.len() <= s.len() && s.take(p.len() as int) == p {
        Some(s.skip(p.len() as int))
    } else {
        None
    }
}

/// `s` without the prefix `p`, when it starts with it (std
/// `str::strip_prefix`).
pub fn strip_prefix_of(s: &str, p: &str) -> (r: Option<String>)
    ensures
        r.deep_view() == strip_prefix(s@, p@),
{
    let cs = chars_of(s);
    let ps = chars_of(p);
    if ps.len() > cs.len() {
        return None;
    }
    let mut i: usize = 0;
    while i < ps.len()
        invariant
            i <= ps@.len() <= cs@.len(),
            cs@ == s@,
            ps@ == p@,
            forall|k: int| 0 <= k < i ==> cs@[k] == ps@[k],
        decreases ps.len() - i,
    {
        if cs[i] != ps[i] {
            assert(s@.take(p@.len() as int)[i as int] != p@[i as int]);
            return None;
        }
        i = i + 1;
    }
    assert(s@.take(p@.len() as int) =~= p@);
    Some(string_of_chars(&cs, ps.len(), cs.len()))
}

// ---------------------------------------------------------------------------
// Lines
// ---------------------------------------------------------------------------

/// The position of the first line feed of `s` at or after `i`.
pub open spec fn newline_from(s: Seq<char>, i: int) -> Option<int>
    decreases s.len() - i,
{
    if i < 0 || i >= s.len() {
        None
    } else if s[i] == '\n' {
        Some(i)
    } else {
        newline_from(s, i + 1)
    }
}

/// What [`newline_from`] finds: a line feed with none before it, or none
/// at all.
pub proof fn lemma_newline_from(s: Seq<char>, i: int)
    requires
        0 <= i <= s.len(),
    ensures
        match newline_from(s, i) {
            Some(k) => i <= k < s.len() && s[k] == '\n' && forall|j: int|
                i <= j < k ==> s[j] != '\n',
            None => forall|j: int| i <= j < s.len() ==> s[j] != '\n',
        },
    decreases s.len() - i,
{
    if i < s.len() && s[i] != '\n' {
        lemma_newline_from(s, i + 1);
    }
}

/// The position of the first line feed of `cs` at or after `from`.
fn find_newline(cs: &Vec<char>, from: usize) -> (r: Option<usize>)
    requires
        from <= cs@.len(),
    ensures
        match r {
            Some(k) => newline_from(cs@, from as int) == Some(k as int),
            None => newline_from(cs@, from as int) is None,
        },
{
    let mut i = from;
    while i < cs.len()
        invariant
            from <= i <= cs@.len(),
            newline_from(cs@, from as int) == newline_from(cs@, i as int),
        decreases cs.len() - i,
    {
        if cs[i] == '\n' {
            return Some(i);
        }
        i = i + 1;
    }
    None
}

// ---------------------------------------------------------------------------
// Events
// ---------------------------------------------------------------------------

/// The event that the text `data` is in protocol `p`, when it is one.
pub open spec fn event_of(p: Protocol, data: Seq<char>) -> Option<IrStreamEventV> {
    match parsed_json_text(data) {
        Err(_) => None,
        Ok(j) => match p {
            Protocol::OpenAiChat => if chat_chunk_ok(j) {
                Some(chat_chunk_event(j))
            } else {
                None
            },
            Protocol::Anthropic => if anth_event_ok(j) {
                Some(anth_stream_event(j))
            } else {
                None
            },
            Protocol::OpenAiResponses => if resp_event_ok(j) {
                Some(resp_stream_event(j))
            } else {
                None
            },
        },
    }
}

/// Decodes `data` as an event of protocol `p`.
fn decode_event_as(p: Protocol, data: &str) -> (r: Option<IrStreamEvent>)
    ensures
        match r {
            Some(e) => event_of(p, data@) == Some(e@),
            None => event_of(p, data@) is None,
        },
{
    let res: Result<IrStreamEvent, CodecError> = match p {
        Protocol::OpenAiChat => ChatCompletionsCodec.decode_stream_event(None, data),
        Protocol::Anthropic => MessagesCodec.decode_stream_event(None, data),
        Protocol::OpenAiResponses => ResponsesCodec.decode_stream_event(None, data),
    };
    match res {
        Ok(e) => Some(e),
        Err(_) => None,
    }
}

/// The server-sent event text that protocol `p` writes for `e`.
pub open spec fn stream_text(p: Protocol, e: IrStreamEventV) -> Seq<char> {
    match p {
        Protocol::OpenAiChat => chat_stream_text(e),
        Protocol::Anthropic => anth_stream_text(e),
        Protocol::OpenAiResponses => resp_stream_text(e),
    }
}

/// What is sent to the client for an event written as `text`: its data
/// after `data: `, without trailing line feeds, when it starts so; else
/// all of it.
pub open spec fn payload_of(text: Seq<char>) -> Seq<char> {
    match strip_prefix(text, "data: "@) {
        Some(d) => trim_newlines(d),
        None => text,
    }
}

/// What is sent to a client of protocol `p` for the event `e`.
pub open spec fn relayed(p: Protocol, e: IrStreamEventV) -> Seq<char> {
    payload_of(stream_text(p, e))
}

/// What is sent to a client of protocol `inbound` for `event` (see
/// [`relayed`]).
pub fn relay_event(inbound: Protocol, event: &IrStreamEvent) -> (r: String)
    ensures
        r@ == relayed(inbound, event@),
{
    let res: Result<String, CodecError> = match inbound {
        Protocol::OpenAiChat => ChatCompletionsCodec.encode_stream_event(event),
        Protocol::Anthropic => MessagesCodec.encode_stream_event(event),
        Protocol::OpenAiResponses => ResponsesCodec.encode_stream_event(event),
    };
    let text = match res {
        Ok(t) => t,
        Err(_) => String::new(),
    };
    match strip_prefix_of(text.as_str(), "data: ") {
        Some(d) => trim_newlines_end(d.as_str()),
        None => text,
    }
}

/// The event that stands for a failed upstream connection.
pub open spec fn connection_error_v(message: Seq<char>) -> IrStreamEventV {
    IrStreamEventV {
        error: Some(
            crate::ir::StreamErrorV {
                error_type: Some("connection_error"@),
                code: None,
                message: Some(message),
                param: None,
            },
        ),
        ..bare_event_v(StreamEventType::Error, 0)
    }
}

/// The event that stands for a failed upstream connection (see
/// [`connection_error_v`]).
pub fn connection_error_event(message: &str) -> (r: IrStreamEvent)
    ensures
        r@ == connection_error_v(message@),
{
    IrStreamEvent {
        event_type: StreamEventType::Error,
        response: None,
        index: 0,
        delta: None,
        stop_reason: None,
        usage: None,
        error: Some(
            StreamError {
                error_type: Some("connection_error".to_string()),
                code: None,
                message: Some(message.to_string()),
                param: None,
            },
        ),
    }
}

// ---------------------------------------------------------------------------
// Relaying lines
// ---------------------------------------------------------------------------

/// The data of an upstream line: the trimmed text after `data:`, when the
/// trimmed line starts so.
pub open spec fn line_data(line: Seq<char>) -> Option<Seq<char>> {
    match strip_prefix(trimmed(line), "data:"@) {
        Some(d) => Some(trimmed(d)),
        None => None,
    }
}

/// What is sent to a client of protocol `inbound` for one line of an
/// upstream of protocol `outbound`: for `[DONE]`, a stop event; for other
/// data, the event that it is in the upstream's protocol, else in the
/// client's; nothing for other lines or for data that is neither.
pub open spec fn line_payload(inbound: Protocol, outbound: Protocol, line: Seq<char>) -> Option<
    Seq<char>,
> {
    match line_data(line) {
        None => None,
        Some(d) => if d == "[DONE]"@ {
            Some(relayed(inbound, bare_event_v(StreamEventType::Stop, 0)))
        } else {
            match event_of(outbound, d) {
                Some(e) => Some(relayed(inbound, e)),
                None => match event_of(inbound, d) {
                    Some(e) => Some(relayed(inbound, e)),
                    None => None,
                },
            }
        },
    }
}

/// What is sent for one upstream line (see [`line_payload`]).
pub fn relay_line(inbound: Protocol, outbound: Protocol, line: &str) -> (r: Option<String>)
    ensures
        r.deep_view() == line_payload(inbound, outbound, line@),
{
    let t = trim(line);
    let d = match strip_prefix_of(t.as_str(), "data:") {
        Some(d) => trim(d.as_str()),
        None => return None,
    };
    if crate::text::str_eq(d.as_str(), "[DONE]") {
        let stop = IrStreamEvent::bare(StreamEventType::Stop, 0);
        return Some(relay_event(inbound, &stop));
    }
    match decode_event_as(outbound, d.as_str()) {
        Some(e) => Some(relay_event(inbound, &e)),
        None => match decode_event_as(inbound, d.as_str()) {
            Some(e) => Some(relay_event(inbound, &e)),
            None => None,
        },
    }
}

/// The sequence holding the value of `o`, if any.
pub open spec fn opt_seq<A>(o: Option<A>) -> Seq<A> {
    match o {
        Some(x) => seq![x],
        None => Seq::empty(),
    }
}

/// Relaying the complete lines of `s` from position `pos` on: what is
/// sent, and the text after the last line feed, which waits for more.
pub open spec fn drain_from(inbound: Protocol, outbound: Protocol, s: Seq<char>, pos: int) -> (
    Seq<Seq<char>>,
    Seq<char>,
)
    decreases s.len() - pos,
{
    if pos < 0 || pos > s.len() {
        (Seq::empty(), Seq::empty())
    } else {
        match newline_from(s, pos) {
            None => (Seq::empty(), s.skip(pos)),
            Some(k) => {
                proof {
                    lemma_newline_from(s, pos);
                }
                let rest = drain_from(inbound, outbound, s, k + 1);
                (opt_seq(line_payload(inbound, outbound, s.subrange(pos, k))) + rest.0, rest.1)
            },
        }
    }
}

/// Relaying the complete lines of `s`: what is sent, and the text that
/// waits for more.
pub open spec fn drained(inbound: Protocol, outbound: Protocol, s: Seq<char>) -> (
    Seq<Seq<char>>,
    Seq<char>,
) {
    drain_from(inbound, outbound, s, 0)
}

/// Takes in `text` from the upstream after what `buffer` holds: relays
/// every complete line and keeps the rest in `buffer` (see [`drained`]).
pub fn relay_text(inbound: Protocol, outbound: Protocol, buffer: &mut String, text: &str) -> (r: Vec<
    String,
>)
    ensures
        r.deep_view() == drained(inbound, outbound, old(buffer)@ + text@).0,
        final(buffer)@ == drained(inbound, outbound, old(buffer)@ + text@).1,
{
    let all = concat(buffer.as_str(), text);
    let cs = chars_of(all.as_str());
    let ghost s = cs@;
    let mut out: Vec<String> = Vec::new();
    let mut pos: usize = 0;
    loop
        invariant
            pos <= cs@.len(),
            s == cs@,
            drained(inbound, outbound, s).0 == out.deep_view() + drain_from(
                inbound,
                outbound,
                s,
                pos as int,
            ).0,
            drained(inbound, outbound, s).1 == drain_from(inbound, outbound, s, pos as int).1,
        ensures
            pos <= cs@.len(),
            s == cs@,
            newline_from(s, pos as int) is None,
            drained(inbound, outbound, s).0 == out.deep_view() + drain_from(
                inbound,
                outbound,
                s,
                pos as int,
            ).0,
            drained(inbound, outbound, s).1 == drain_from(inbound, outbound, s, pos as int).1,
        decreases cs.len() - pos,
    {
        match find_newline(&cs, pos) {
            None => {
                break ;
            },
            Some(k) => {
                proof {
                    lemma_newline_from(s, pos as int);
                }
                let line = string_of_chars(&cs, pos, k);
                let ghost before = out.deep_view();
                let ghost rest = drain_from(inbound, outbound, s, k + 1);
                match relay_line(inbound, outbound, line.as_str()) {
                    Some(p) => {
                        out.push(p);
                        assert(out.deep_view() =~= before + opt_seq(
                            line_payload(inbound, outbound, s.subrange(pos as int, k as int)),
                        ));
                    },
                    None => {
                        assert(out.deep_view() =~= before + opt_seq(
                            line_payload(inbound, outbound, s.subrange(pos as int, k as int)),
                        ));
                    },
                }
                assert(before + (opt_seq(
                    line_payload(inbound, outbound, s.subrange(pos as int, k as int)),
                ) + rest.0) =~= out.deep_view() + rest.0);
                pos = k + 1;
            },
        }
    }
    *buffer = string_of_chars(&cs, pos, cs.len());
    assert(out.deep_view() + Seq::<Seq<char>>::empty() =~= out.deep_view());
    out
}

/// Searching `s` from `p + i` is searching `s` without its first `p`
/// characters from `i`.
proof fn lemma_newline_shift(s: Seq<char>, p: int, i: int)
    requires
        0 <= p,
        0 <= i,
        p + i <= s.len(),
    ensures
        newline_from(s, p + i) == match newline_from(s.skip(p), i) {
            Some(k) => Some(k + p),
            None => None,
        },
    decreases s.len() - (p + i),
{
    if p + i < s.len() {
        assert(s.skip(p)[i] == s[p + i]);
        if s[p + i] != '\n' {
            lemma_newline_shift(s, p, i + 1);
        }
    }
}

/// Relaying `s` from `p + i` is relaying `s` without its first `p`
/// characters from `i`.
proof fn lemma_drain_shift(inbound: Protocol, outbound: Protocol, s: Seq<char>, p: int, i: int)
    requires
        0 <= p,
        0 <= i,
        p + i <= s.len(),
    ensures
        drain_from(inbound, outbound, s, p + i).0 == drain_from(inbound, outbound, s.skip(p), i).0,
        drain_from(inbound, outbound, s, p + i).1 == drain_from(inbound, outbound, s.skip(p), i).1,
    decreases s.len() - (p + i),
{
    lemma_newline_shift(s, p, i);
    lemma_newline_from(s, p + i);
    match newline_from(s.skip(p), i) {
        Some(k) => {
            lemma_newline_from(s.skip(p), i);
            assert(s.subrange(p + i, k + p) =~= s.skip(p).subrange(i, k));
            lemma_drain_shift(inbound, outbound, s, p, k + 1);
            assert(p + (k + 1) == k + p + 1);
        },
        None => {
            assert(s.skip(p + i) =~= s.skip(p).skip(i));
        },
    }
}

/// A line feed found in `x` from `p` on is the one found in `x + y`; when
/// there is none in `x`, the search in `x + y` goes on after `x`.
proof fn lemma_newline_concat(x: Seq<char>, y: Seq<char>, p: int)
    requires
        0 <= p <= x.len(),
    ensures
        match newline_from(x, p) {
            Some(k) => newline_from(x + y, p) == Some(k),
            None => newline_from(x + y, p) == newline_from(x + y, x.len() as int),
        },
    decreases x.len() - p,
{
    if p < x.len() {
        assert((x + y)[p] == x[p]);
        if x[p] != '\n' {
            lemma_newline_concat(x, y, p + 1);
        }
    }
}

/// Relaying `x + y` from `p` sends what relaying `x` from `p` sends, then
/// what relaying the rest of `x` followed by `y` sends.
proof fn lemma_drain_concat(inbound: Protocol, outbound: Protocol, x: Seq<char>, y: Seq<char>, p: int)
    requires
        0 <= p <= x.len(),
    ensures
        drain_from(inbound, outbound, x + y, p).0 == drain_from(inbound, outbound, x, p).0
            + drained(inbound, outbound, drain_from(inbound, outbound, x, p).1 + y).0,
        drain_from(inbound, outbound, x + y, p).1 == drained(
            inbound,
            outbound,
            drain_from(inbound, outbound, x, p).1 + y,
        ).1,
    decreases x.len() - p,
{
    lemma_newline_concat(x, y, p);
    lemma_newline_from(x, p);
    match newline_from(x, p) {
        Some(k) => {
            assert((x + y).subrange(p, k) =~= x.subrange(p, k));
            lemma_drain_concat(inbound, outbound, x, y, k + 1);
            let line = opt_seq(line_payload(inbound, outbound, x.subrange(p, k)));
            let dx = drain_from(inbound, outbound, x, k + 1);
            let r = drained(inbound, outbound, dx.1 + y);
            assert(line + (dx.0 + r.0) =~= (line + dx.0) + r.0);
        },
        None => {
            lemma_drain_shift(inbound, outbound, x + y, p, 0);
            assert((x + y).skip(p) =~= x.skip(p) + y);
            let r = drained(inbound, outbound, x.skip(p) + y);
            assert(Seq::<Seq<char>>::empty() + r.0 =~= r.0);
        },
    }
}

/// How the upstream's text is cut into chunks does not matter: taking in
/// `a` and then `b` sends the same payloads, in the same order, and keeps
/// the same text waiting as taking in `a + b` at once.
pub proof fn law_relay_ignores_chunking(
    inbound: Protocol,
    outbound: Protocol,
    buffer: Seq<char>,
    a: Seq<char>,
    b: Seq<char>,
)
    ensures
        drained(inbound, outbound, buffer + (a + b)).0 == drained(inbound, outbound, buffer + a).0
            + drained(inbound, outbound, drained(inbound, outbound, buffer + a).1 + b).0,
        drained(inbound, outbound, buffer + (a + b)).1 == drained(
            inbound,
            outbound,
            drained(inbound, outbound, buffer + a).1 + b,
        ).1,
{
    assert(buffer + (a + b) =~= (buffer + a) + b);
    lemma_drain_concat(inbound, outbound, buffer + a, b, 0);
}

/// What waits for more text never holds a line feed: every complete line
/// has been relayed.
pub proof fn law_relay_keeps_no_complete_line(inbound: Protocol, outbound: Protocol, s: Seq<char>)
    ensures
        !drained(inbound, outbound, s).1.contains('\n'),
{
    lemma_drain_rest(inbound, outbound, s, 0);
}

proof fn lemma_drain_rest(inbound: Protocol, outbound: Protocol, s: Seq<char>, p: int)
    requires
        0 <= p <= s.len(),
    ensures
        !drain_from(inbound, outbound, s, p).1.contains('\n'),
    decreases s.len() - p,
{
    lemma_newline_from(s, p);
    match newline_from(s, p) {
        Some(k) => {
            lemma_drain_rest(inbound, outbound, s, k + 1);
        },
        None => {
            let rest = s.skip(p);
            assert forall|j: int| 0 <= j < rest.len() implies rest[j] != '\n' by {
                assert(rest[j] == s[p + j]);
            }
        },
    }
}

/// The text that std's `String::from_utf8_lossy` makes of `bytes`: the
/// bytes read as UTF-8, each ill-formed sequence replaced by U+FFFD.
pub uninterp spec fn lossy_text(bytes: Seq<u8>) -> Seq<char>;

/// Reads `bytes` as UTF-8 text (std `String::from_utf8_lossy`); the
/// result is named by [`lossy_text`], and is the text itself when the
/// bytes are well-formed UTF-8.
#[verifier::external_body]
fn utf8_lossy(bytes: &[u8]) -> (r: String)
    ensures
        r@ == lossy_text(bytes@),
        forall|t: Seq<char>| vstd::utf8::encode_utf8(t) == bytes@ ==> r@ == t,
{
    String::from_utf8_lossy(bytes).into_owned()
}

/// Takes in a chunk of the upstream's body: reads it as UTF-8 and relays
/// it as [`relay_text`] does.
pub fn relay_chunk(inbound: Protocol, outbound: Protocol, buffer: &mut String, chunk: &[u8]) -> (r:
    Vec<String>)
    ensures
        r.deep_view() == drained(inbound, outbound, old(buffer)@ + lossy_text(chunk@)).0,
        final(buffer)@ == drained(inbound, outbound, old(buffer)@ + lossy_text(chunk@)).1,
        forall|t: Seq<char>|
            vstd::utf8::encode_utf8(t) == chunk@ ==> r.deep_view() == drained(
                inbound,
                outbound,
                old(buffer)@ + t,
            ).0 && final(buffer)@ == drained(inbound, outbound, old(buffer)@ + t).1,
{
    let text = utf8_lossy(chunk);
    relay_text(inbound, outbound, buffer, text.as_str())
}

/// The UTF-8 bytes of two texts one after the other are the bytes of
/// each, one after the other.
pub proof fn lemma_encode_utf8_concat(x: Seq<char>, y: Seq<char>)
    ensures
        vstd::utf8::encode_utf8(x + y) == vstd::utf8::encode_utf8(x) + vstd::utf8::encode_utf8(y),
    decreases x.len(),
{
    if x.len() == 0 {
        assert(x + y =~= y);
        assert(vstd::utf8::encode_utf8(x) =~= Seq::<u8>::empty());
        assert(Seq::<u8>::empty() + vstd::utf8::encode_utf8(y) =~= vstd::utf8::encode_utf8(y));
    } else {
        lemma_encode_utf8_concat(x.drop_first(), y);
        assert((x + y).drop_first() =~= x.drop_first() + y);
        assert((x + y)[0] == x[0]);
        let e0 = vstd::utf8::encode_scalar(x[0] as u32);
        assert(e0 + (vstd::utf8::encode_utf8(x.drop_first()) + vstd::utf8::encode_utf8(y)) =~= (e0
            + vstd::utf8::encode_utf8(x.drop_first())) + vstd::utf8::encode_utf8(y));
    }
}

/// Chunks of well-formed UTF-8 that are cut between characters are
/// relayed as their bytes would be in one chunk: the text of the joined
/// chunks is the two texts joined, and relaying the second chunk after
/// the first sends, in order, what relaying that text at once sends, and
/// keeps the same text waiting.
pub proof fn law_relay_chunks_cut_between_characters(
    inbound: Protocol,
    outbound: Protocol,
    buffer: Seq<char>,
    a: Seq<u8>,
    b: Seq<u8>,
    ta: Seq<char>,
    tb: Seq<char>,
    t: Seq<char>,
)
    requires
        vstd::utf8::encode_utf8(ta) == a,
        vstd::utf8::encode_utf8(tb) == b,
        vstd::utf8::encode_utf8(t) == a + b,
    ensures
        t == ta + tb,
        drained(inbound, outbound, buffer + t).0 == drained(inbound, outbound, buffer + ta).0
            + drained(inbound, outbound, drained(inbound, outbound, buffer + ta).1 + tb).0,
        drained(inbound, outbound, buffer + t).1 == drained(
            inbound,
            outbound,
            drained(inbound, outbound, buffer + ta).1 + tb,
        ).1,
{
    lemma_encode_utf8_concat(ta, tb);
    vstd::utf8::encode_utf8_decode_utf8(t);
    vstd::utf8::encode_utf8_decode_utf8(ta + tb);
    law_relay_ignores_chunking(inbound, outbound, buffer, ta, tb);
}

// ---------------------------------------------------------------------------
// Single events
// ---------------------------------------------------------------------------

/// The data of one server-sent event written as text: the trimmed text
/// after `data:`, when the trimmed event starts so.
pub open spec fn sse_event_data(s: Seq<char>) -> Option<Seq<char>> {
    if trimmed(s) == "data: [DONE]"@ {
        Some("[DONE]"@)
    } else {
        match strip_prefix(trimmed(s), "data:"@) {
            Some(d) => Some(trimmed(d)),
            None => None,
        }
    }
}

/// The data of one server-sent event written as text (see
/// [`sse_event_data`]); an error naming the text when it is no `data:`
/// event.
pub fn sse_str_to_event(sse_str: &str) -> (r: Result<String, String>)
    ensures
        match r {
            Ok(d) => sse_event_data(sse_str@) == Some(d@),
            Err(m) => sse_event_data(sse_str@) is None && m@ == "invalid SSE string: "@ + sse_str@,
        },
{
    let t = trim(sse_str);
    if crate::text::str_eq(t.as_str(), "data: [DONE]") {
        return Ok("[DONE]".to_string());
    }
    match strip_prefix_of(t.as_str(), "data:") {
        Some(d) => Ok(trim(d.as_str())),
        None => Err(concat("invalid SSE string: ", sse_str)),
    }
}

/// An event written as `data: `, a text and a blank line has, after
/// `data: `, the text and the blank line.
pub proof fn lemma_strip_data(p: Seq<char>)
    ensures
        strip_prefix("data: "@ + p + "\n\n"@, "data: "@) == Some(p + "\n\n"@),
{
    reveal_strlit("data: ");
    let s = "data: "@ + p + "\n\n"@;
    assert(s.take(6) =~= "data: "@);
    assert(s.skip(6) =~= p + "\n\n"@);
}

/// The data of an event written as `data: `, JSON text and a blank line,
/// without its trailing white space, is the JSON text.
pub proof fn lemma_written_payload(p: Seq<char>)
    requires
        p.len() > 0,
        crate::json::json_text_end(p.last()),
    ensures
        strip_prefix("data: "@ + p + "\n\n"@, "data: "@) == Some(p + "\n\n"@),
        trim_end(p + "\n\n"@) == p,
{
    lemma_strip_data(p);
    reveal_strlit("\n\n");
    let q = p + "\n\n"@;
    assert(q.last() == '\n');
    assert(q.drop_last() =~= p.push('\n'));
    assert(p.push('\n').last() == '\n');
    assert(p.push('\n').drop_last() =~= p);
    assert(!is_white_space(p.last()));
    assert(trim_end(p) == p);
    assert(is_white_space('\n'));
    assert(trim_end(p.push('\n')) == trim_end(p));
    assert(trim_end(q) == trim_end(p.push('\n')));
}

} // verus!

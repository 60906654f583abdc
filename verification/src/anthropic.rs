//! The Anthropic messages protocol: reading the server-sent events of a
//! streamed answer into answer pieces.

use vstd::prelude::*;
use crate::json::{Json, JsonValue, get_str, json_get, json_parse, parse_json};
use crate::llm::{ChunkModel, LlmError, StopReason, StopReasonModel, StreamChunk, chunk_model};
use crate::ollama::{present, valid_opt_str, valid_opt_u32};
use crate::text::{
    all_ascii_digits, chars_of, digits_value, find, find_chars, lines, push_all, skip_chars,
    split_lines, starts_with, string_of, take_chars,
};

verus! {

/// A tool call being received: its id, its name and its arguments so far.
pub struct OpenTool {
    pub id: Seq<char>,
    pub name: Seq<char>,
    pub args: Seq<char>,
}

/// What an event gives: a piece of the answer, or a failure reported by
/// the provider.
pub enum EventOut {
    Piece(ChunkModel),
    Failure(Seq<char>),
}

/// A required non-negative integer member that fits a `usize`.
pub open spec fn valid_index(j: Json, k: Seq<char>) -> bool {
    json_get(j, k) matches Some(Json::Number(t)) && t.len() > 0 && all_ascii_digits(t) && digits_value(t) <= usize::MAX
}

/// Why the model stopped, as Anthropic names it.
pub open spec fn stop_reason_named(r: Seq<char>) -> StopReasonModel {
    if r == "end_turn"@ {
        StopReasonModel::EndTurn
    } else if r == "tool_use"@ {
        StopReasonModel::ToolUse
    } else if r == "max_tokens"@ {
        StopReasonModel::MaxTokens
    } else if r == "stop_sequence"@ {
        StopReasonModel::StopSequence
    } else {
        StopReasonModel::Other(r)
    }
}

/// The mathematical form of what an event gives.
pub open spec fn out_model(r: Result<StreamChunk, LlmError>) -> EventOut {
    match r {
        Ok(c) => EventOut::Piece(chunk_model(c)),
        Err(LlmError::Other(m)) => EventOut::Failure(m@),
        Err(_) => EventOut::Failure(seq![]),
    }
}

/// The mathematical forms of what events gave.
pub open spec fn outs_model(rs: Seq<Result<StreamChunk, LlmError>>) -> Seq<EventOut> {
    rs.map_values(|r: Result<StreamChunk, LlmError>| out_model(r))
}

/// A well-formed start of a tool-use block.
pub open spec fn tool_use_start(j: Json) -> Option<(Seq<char>, Seq<char>)> {
    if valid_index(j, "index"@) {
        match json_get(j, "content_block"@) {
            Some(cb) => if cb is Object && get_str(cb, "type"@) == Some("tool_use"@) && get_str(cb, "id"@)
                is Some && get_str(cb, "name"@) is Some && json_get(cb, "input"@) is Some {
                Some((get_str(cb, "id"@)->Some_0, get_str(cb, "name"@)->Some_0))
            } else {
                None
            },
            None => None,
        }
    } else {
        None
    }
}

/// A well-formed delta: its kind (`true` for text, `false` for tool
/// arguments) and its text.
pub open spec fn block_delta(j: Json) -> Option<(bool, Seq<char>)> {
    if valid_index(j, "index"@) {
        match json_get(j, "delta"@) {
            Some(d) => if d is Object && get_str(d, "type"@) == Some("text_delta"@) && get_str(d, "text"@) is Some {
                Some((true, get_str(d, "text"@)->Some_0))
            } else if d is Object && get_str(d, "type"@) == Some("input_json_delta"@) && get_str(
                d,
                "partial_json"@,
            ) is Some {
                Some((false, get_str(d, "partial_json"@)->Some_0))
            } else {
                None
            },
            None => None,
        }
    } else {
        None
    }
}

/// A well-formed message delta: its stop reason, if any.
pub open spec fn message_delta(j: Json) -> Option<Option<Seq<char>>> {
    match json_get(j, "delta"@) {
        Some(d) => if d is Object && valid_opt_str(d, "stop_reason"@) && valid_opt_str(d, "stop_sequence"@)
            && match present(j, "usage"@) {
            None => true,
            Some(u) => u is Object && json_get(u, "output_tokens"@) is Some && valid_opt_u32(u, "output_tokens"@),
        } {
            Some(
                match present(d, "stop_reason"@) {
                    Some(Json::Str(r)) => Some(r),
                    _ => None,
                },
            )
        } else {
            None
        },
        None => None,
    }
}

/// A well-formed error event: its message.
pub open spec fn error_event(j: Json) -> Option<Seq<char>> {
    match json_get(j, "error"@) {
        Some(e) => if e is Object && get_str(e, "message"@) is Some && get_str(e, "type"@) is Some {
            Some(get_str(e, "message"@)->Some_0)
        } else {
            None
        },
        None => None,
    }
}

/// What an event does: a tool-use start opens a tool call and announces
/// it; a text delta is passed on; an argument delta is added to the open
/// tool call and passed on; a block stop closes the open tool call, its
/// arguments read as JSON (`null` when they are not); a message delta with
/// a stop reason ends the answer; an error event reports its message.
/// Anything else, or an event that is not well-formed, does nothing.
pub open spec fn event_effect(cur: Option<OpenTool>, j: Json) -> (Option<OpenTool>, Seq<EventOut>) {
    let kind = get_str(j, "type"@);
    if !(j is Object) {
        (cur, seq![])
    } else if kind == Some("content_block_start"@) {
        match tool_use_start(j) {
            Some((id, name)) => (
                Some(OpenTool { id, name, args: seq![] }),
                seq![EventOut::Piece(ChunkModel::ToolCallStart(id, name))],
            ),
            None => (cur, seq![]),
        }
    } else if kind == Some("content_block_delta"@) {
        match block_delta(j) {
            Some((true, t)) => (cur, seq![EventOut::Piece(ChunkModel::TextDelta(t))]),
            Some((false, p)) => match cur {
                Some(o) => (
                    Some(OpenTool { id: o.id, name: o.name, args: o.args + p }),
                    seq![EventOut::Piece(ChunkModel::ToolCallArgsDelta(o.id, p))],
                ),
                None => (cur, seq![]),
            },
            None => (cur, seq![]),
        }
    } else if kind == Some("content_block_stop"@) {
        if valid_index(j, "index"@) {
            match cur {
                Some(o) => (
                    None,
                    seq![
                        EventOut::Piece(
                            ChunkModel::ToolCallEnd(
                                o.id,
                                o.name,
                                match json_parse(o.args) {
                                    Some(v) => v,
                                    None => Json::Null,
                                },
                            ),
                        ),
                    ],
                ),
                None => (cur, seq![]),
            }
        } else {
            (cur, seq![])
        }
    } else if kind == Some("message_delta"@) {
        match message_delta(j) {
            Some(Some(r)) => (cur, seq![EventOut::Piece(ChunkModel::Done(stop_reason_named(r)))]),
            _ => (cur, seq![]),
        }
    } else if kind == Some("error"@) {
        match error_event(j) {
            Some(m) => (cur, seq![EventOut::Failure(m)]),
            None => (cur, seq![]),
        }
    } else {
        (cur, seq![])
    }
}

/// What a `data: ` line gives; other lines give nothing.
pub open spec fn line_effect(cur: Option<OpenTool>, line: Seq<char>) -> (Option<OpenTool>, Seq<EventOut>) {
    if starts_with(line, "data: "@) {
        match json_parse(line.subrange(6, line.len() as int)) {
            Some(j) => event_effect(cur, j),
            None => (cur, seq![]),
        }
    } else {
        (cur, seq![])
    }
}

/// What lines give, in order.
pub open spec fn lines_effect(cur: Option<OpenTool>, ls: Seq<Seq<char>>) -> (Option<OpenTool>, Seq<EventOut>)
    decreases ls.len(),
{
    if ls.len() == 0 {
        (cur, seq![])
    } else {
        let (c1, o1) = lines_effect(cur, ls.drop_last());
        let (c2, o2) = line_effect(c1, ls.last());
        (c2, o1 + o2)
    }
}

/// What blocks give, in order, each read line by line.
pub open spec fn blocks_effect(cur: Option<OpenTool>, bs: Seq<Seq<char>>) -> (Option<OpenTool>, Seq<EventOut>)
    decreases bs.len(),
{
    if bs.len() == 0 {
        (cur, seq![])
    } else {
        let (c1, o1) = blocks_effect(cur, bs.drop_last());
        let (c2, o2) = lines_effect(c1, lines(bs.last()));
        (c2, o1 + o2)
    }
}

/// The complete blocks of a text (each ending with its blank line), and
/// what follows the last one.
pub open spec fn full_blocks(buf: Seq<char>) -> (Seq<Seq<char>>, Seq<char>)
    decreases buf.len(),
{
    match find(buf, seq!['\n', '\n']) {
        None => (seq![], buf),
        Some(p) => {
            proof {
                crate::text::lemma_find_bounds(buf, seq!['\n', '\n']);
            }
            let (bs, rest) = full_blocks(buf.subrange(p + 2, buf.len() as int));
            (seq![buf.subrange(0, p + 2)] + bs, rest)
        },
    }
}

/// The state of an event-stream reader: what follows the last complete
/// block, and the tool call being received.
pub struct SseModel {
    pub buffer: Seq<char>,
    pub current: Option<OpenTool>,
}

/// Receiving text: appended to what was left, its complete blocks read in
/// order, the rest kept for later.
pub open spec fn sse_feed(st: SseModel, text: Seq<char>) -> (SseModel, Seq<EventOut>) {
    let (bs, rest) = full_blocks(st.buffer + text);
    let (c, outs) = blocks_effect(st.current, bs);
    (SseModel { buffer: rest, current: c }, outs)
}

proof fn lemma_full_blocks_append(x: Seq<char>, y: Seq<char>)
    ensures
        full_blocks(x + y) == (full_blocks(x).0 + full_blocks(full_blocks(x).1 + y).0, full_blocks(full_blocks(x).1 + y).1),
    decreases x.len(),
{
    let sep = seq!['\n', '\n'];
    match find(x, sep) {
        None => {
            assert(full_blocks(x).0 =~= Seq::<Seq<char>>::empty());
            assert(Seq::<Seq<char>>::empty() + full_blocks(x + y).0 =~= full_blocks(x + y).0);
        },
        Some(p) => {
            crate::text::lemma_find_bounds(x, sep);
            crate::text::lemma_find_from_append(x, y, sep, 0);
            let rest = x.subrange(p + 2, x.len() as int);
            assert((x + y).subrange(p + 2, (x + y).len() as int) =~= rest + y);
            assert((x + y).subrange(0, p + 2) =~= x.subrange(0, p + 2));
            lemma_full_blocks_append(rest, y);
            let head = seq![x.subrange(0, p + 2)];
            assert(head + (full_blocks(rest).0 + full_blocks(full_blocks(rest).1 + y).0)
                =~= (head + full_blocks(rest).0) + full_blocks(full_blocks(rest).1 + y).0);
        },
    }
}

proof fn lemma_blocks_effect_append(cur: Option<OpenTool>, a: Seq<Seq<char>>, b: Seq<Seq<char>>)
    ensures
        blocks_effect(cur, a + b) == (
            blocks_effect(blocks_effect(cur, a).0, b).0,
            blocks_effect(cur, a).1 + blocks_effect(blocks_effect(cur, a).0, b).1,
        ),
    decreases b.len(),
{
    if b.len() == 0 {
        assert(a + b =~= a);
        assert(blocks_effect(cur, a).1 + Seq::<EventOut>::empty() =~= blocks_effect(cur, a).1);
    } else {
        lemma_blocks_effect_append(cur, a, b.drop_last());
        assert((a + b).drop_last() =~= a + b.drop_last());
        assert((a + b).last() == b.last());
        let c1 = blocks_effect(cur, a);
        let mid = blocks_effect(c1.0, b.drop_last());
        let last = lines_effect(mid.0, lines(b.last()));
        assert((c1.1 + mid.1) + last.1 =~= c1.1 + (mid.1 + last.1));
    }
}

/// Text may arrive cut anywhere: receiving `a` and then `b` gives the same
/// events, and leaves the reader in the same state, as receiving `a`
/// followed by `b` at once.
pub proof fn lemma_sse_feed_split_anywhere(st: SseModel, a: Seq<char>, b: Seq<char>)
    ensures
        sse_feed(st, a + b) == (
            sse_feed(sse_feed(st, a).0, b).0,
            sse_feed(st, a).1 + sse_feed(sse_feed(st, a).0, b).1,
        ),
{
    assert(st.buffer + (a + b) =~= (st.buffer + a) + b);
    lemma_full_blocks_append(st.buffer + a, b);
    let first = full_blocks(st.buffer + a);
    let second = full_blocks(first.1 + b);
    lemma_blocks_effect_append(st.current, first.0, second.0);
}

/// Reads the event stream of an Anthropic answer.
pub struct AnthropicStreamDecoder {
    pub buffer: Vec<char>,
    pub current: Option<(String, String, Vec<char>)>,
}

/// The tool call being received.
pub open spec fn open_tool_model(c: Option<(String, String, Vec<char>)>) -> Option<OpenTool> {
    match c {
        Some((id, name, args)) => Some(OpenTool { id: id@, name: name@, args: args@ }),
        None => None,
    }
}

fn index_ok(j: &JsonValue) -> (r: bool)
    ensures
        r == valid_index(j.model(), "index"@),
{
    match j.get_key("index") {
        Some(JsonValue::Number(t)) => {
            let c = chars_of(t.as_str());
            if c.len() == 0 || c[0] == '+' {
                return false;
            }
            match crate::text::parse_usize(t.as_str()) {
                Some(_) => true,
                None => false,
            }
        },
        _ => false,
    }
}

fn str_member(j: &JsonValue, k: &str) -> (r: Option<String>)
    ensures
        opt_seq(r) == get_str(j.model(), k@),
{
    j.get_str(k)
}

/// The text of an optional string.
pub open spec fn opt_seq(o: Option<String>) -> Option<Seq<char>> {
    match o {
        Some(t) => Some(t@),
        None => None,
    }
}

fn is_named(o: &Option<String>, name: &str) -> (r: bool)
    ensures
        r == (opt_seq(*o) == Some(name@)),
{
    match o {
        Some(t) => crate::json::str_eq(t.as_str(), name),
        None => false,
    }
}

fn stop_reason_from(r: &str) -> (s: StopReason)
    ensures
        crate::llm::stop_model(s) == stop_reason_named(r@),
{
    if crate::json::str_eq(r, "end_turn") {
        StopReason::EndTurn
    } else if crate::json::str_eq(r, "tool_use") {
        StopReason::ToolUse
    } else if crate::json::str_eq(r, "max_tokens") {
        StopReason::MaxTokens
    } else if crate::json::str_eq(r, "stop_sequence") {
        StopReason::StopSequence
    } else {
        StopReason::Other(r.to_owned())
    }
}

impl AnthropicStreamDecoder {
    pub open spec fn model(&self) -> SseModel {
        SseModel { buffer: self.buffer@, current: open_tool_model(self.current) }
    }

    /// A reader that has received nothing.
    pub fn new() -> (r: AnthropicStreamDecoder)
        ensures
            r.model().buffer.len() == 0,
            r.model().current is None,
    {
        AnthropicStreamDecoder { buffer: Vec::new(), current: None }
    }

    fn event(&mut self, j: &JsonValue, out: &mut Vec<Result<StreamChunk, LlmError>>)
        ensures
            ({
                let (c2, o2) = event_effect(open_tool_model(old(self).current), j.model());
                &&& open_tool_model(final(self).current) == c2
                &&& final(self).buffer@ == old(self).buffer@
                &&& outs_model(final(out)@) == outs_model(old(out)@) + o2
            }),
    {
        let ghost out0 = outs_model(out@);
        if !j.is_object() {
            assert(outs_model(out@) =~= out0 + Seq::<EventOut>::empty());
            return;
        }
        let kind = str_member(j, "type");
        if is_named(&kind, "content_block_start") {
            if index_ok(j) {
                match j.get_key("content_block") {
                    Some(cb) => {
                        let t = str_member(cb, "type");
                        let id = str_member(cb, "id");
                        let name = str_member(cb, "name");
                        if cb.is_object() && is_named(&t, "tool_use") && id.is_some() && name.is_some()
                            && cb.get_key("input").is_some() {
                            let id = id.unwrap();
                            let name = name.unwrap();
                            self.current = Some((id.clone(), name.clone(), Vec::new()));
                            out.push(Ok(StreamChunk::ToolCallStart { id, name }));
                            assert(open_tool_model(self.current) matches Some(o) && o.args =~= Seq::<char>::empty());
                            assert(outs_model(out@) =~= out0 + seq![
                                EventOut::Piece(ChunkModel::ToolCallStart(
                                    tool_use_start(j.model())->Some_0.0,
                                    tool_use_start(j.model())->Some_0.1,
                                )),
                            ]);
                            return;
                        }
                    },
                    None => {},
                }
            }
            assert(outs_model(out@) =~= out0 + Seq::<EventOut>::empty());
            return;
        }
        if is_named(&kind, "content_block_delta") {
            if index_ok(j) {
                match j.get_key("delta") {
                    Some(d) => {
                        let t = str_member(d, "type");
                        if d.is_object() && is_named(&t, "text_delta") {
                            match str_member(d, "text") {
                                Some(text) => {
                                    out.push(Ok(StreamChunk::TextDelta { text }));
                                    assert(outs_model(out@) =~= out0 + event_effect(open_tool_model(old(self).current), j.model()).1);
                                    return;
                                },
                                None => {},
                            }
                        }
                        if d.is_object() && is_named(&t, "input_json_delta") {
                            match str_member(d, "partial_json") {
                                Some(p) => {
                                    match &mut self.current {
                                        Some((id, _name, args)) => {
                                            let pc = chars_of(p.as_str());
                                            push_all(args, &pc);
                                            out.push(Ok(StreamChunk::ToolCallArgsDelta { id: id.clone(), delta: p }));
                                        },
                                        None => {},
                                    }
                                    assert(outs_model(out@) =~= out0 + event_effect(open_tool_model(old(self).current), j.model()).1);
                                    return;
                                },
                                None => {},
                            }
                        }
                    },
                    None => {},
                }
            }
            assert(outs_model(out@) =~= out0 + Seq::<EventOut>::empty());
            return;
        }
        if is_named(&kind, "content_block_stop") {
            if index_ok(j) {
                let cur = self.current.take();
                match cur {
                    Some((id, name, args)) => {
                        let a = string_of(&args);
                        let arguments = match parse_json(a.as_str()) {
                            Ok(v) => v,
                            Err(_) => JsonValue::Null,
                        };
                        out.push(Ok(StreamChunk::ToolCallEnd { id, name, arguments }));
                    },
                    None => {},
                }
                assert(outs_model(out@) =~= out0 + event_effect(open_tool_model(old(self).current), j.model()).1);
                return;
            }
            assert(outs_model(out@) =~= out0 + Seq::<EventOut>::empty());
            return;
        }
        if is_named(&kind, "message_delta") {
            match j.get_key("delta") {
                Some(d) => {
                    let usage_ok = match crate::ollama::present_value(j, "usage") {
                        None => true,
                        Some(u) => u.is_object() && u.get_key("output_tokens").is_some()
                            && crate::ollama::check_opt_u32(u, "output_tokens"),
                    };
                    if d.is_object() && crate::ollama::check_opt_str(d, "stop_reason")
                        && crate::ollama::check_opt_str(d, "stop_sequence") && usage_ok {
                        match crate::ollama::present_value(d, "stop_reason") {
                            Some(JsonValue::Str(r)) => {
                                let stop = stop_reason_from(r.as_str());
                                out.push(Ok(StreamChunk::Done { stop_reason: stop }));
                                assert(outs_model(out@) =~= out0 + event_effect(open_tool_model(old(self).current), j.model()).1);
                                return;
                            },
                            _ => {},
                        }
                    }
                },
                None => {},
            }
            assert(outs_model(out@) =~= out0 + Seq::<EventOut>::empty());
            return;
        }
        if is_named(&kind, "error") {
            match j.get_key("error") {
                Some(e) => {
                    let m = str_member(e, "message");
                    let t = str_member(e, "type");
                    if e.is_object() && m.is_some() && t.is_some() {
                        out.push(Err(LlmError::Other(m.unwrap())));
                        assert(outs_model(out@) =~= out0 + event_effect(open_tool_model(old(self).current), j.model()).1);
                        return;
                    }
                },
                None => {},
            }
            assert(outs_model(out@) =~= out0 + Seq::<EventOut>::empty());
            return;
        }
        assert(outs_model(out@) =~= out0 + Seq::<EventOut>::empty());
    }
}

impl AnthropicStreamDecoder {
    fn line(&mut self, line: &Vec<char>, out: &mut Vec<Result<StreamChunk, LlmError>>)
        ensures
            ({
                let (c2, o2) = line_effect(open_tool_model(old(self).current), line@);
                &&& open_tool_model(final(self).current) == c2
                &&& final(self).buffer@ == old(self).buffer@
                &&& outs_model(final(out)@) == outs_model(old(out)@) + o2
            }),
    {
        let ghost out0 = outs_model(out@);
        if !crate::intake::starts_with_str(line, "data: ") {
            assert(outs_model(out@) =~= out0 + Seq::<EventOut>::empty());
            return;
        }
        proof {
            reveal_strlit("data: ");
        }
        let data = skip_chars(line, 6);
        let ds = string_of(&data);
        match parse_json(ds.as_str()) {
            Ok(j) => {
                self.event(&j, out);
            },
            Err(_) => {
                assert(outs_model(out@) =~= out0 + Seq::<EventOut>::empty());
            },
        }
    }

    fn block(&mut self, b: &Vec<char>, out: &mut Vec<Result<StreamChunk, LlmError>>)
        ensures
            ({
                let (c2, o2) = lines_effect(open_tool_model(old(self).current), lines(b@));
                &&& open_tool_model(final(self).current) == c2
                &&& final(self).buffer@ == old(self).buffer@
                &&& outs_model(final(out)@) == outs_model(old(out)@) + o2
            }),
    {
        let ghost c0 = open_tool_model(self.current);
        let ghost out0 = outs_model(out@);
        let ls = split_lines(b);
        let ghost lm = ls@.map_values(|w: Vec<char>| w@);
        let mut i: usize = 0;
        assert(lm.subrange(0, 0) =~= Seq::<Seq<char>>::empty());
        assert(outs_model(out@) =~= out0 + Seq::<EventOut>::empty());
        while i < ls.len()
            invariant
                i <= ls.len(),
                lm == ls@.map_values(|w: Vec<char>| w@),
                lm == lines(b@),
                open_tool_model(self.current) == lines_effect(c0, lm.subrange(0, i as int)).0,
                outs_model(out@) == out0 + lines_effect(c0, lm.subrange(0, i as int)).1,
                self.buffer@ == old(self).buffer@,
            decreases ls.len() - i,
        {
            let ghost before = outs_model(out@);
            let ghost sub = lm.subrange(0, i + 1);
            assert(sub.drop_last() =~= lm.subrange(0, i as int));
            assert(sub.last() == ls@[i as int]@);
            self.line(&ls[i], out);
            assert(outs_model(out@) =~= out0 + lines_effect(c0, sub).1);
            i = i + 1;
        }
        assert(lm.subrange(0, ls.len() as int) =~= lm);
    }

    /// Receives bytes of the event stream: what every completed block gives,
    /// in order (see `sse_feed`).
    pub fn feed(&mut self, bytes: &[u8]) -> (r: Vec<Result<StreamChunk, LlmError>>)
        ensures
            ({
                let (s2, o) = sse_feed(old(self).model(), crate::text::utf8_lossy(bytes@));
                &&& final(self).model() == s2
                &&& outs_model(r@) == o
            }),
    {
        let ghost st0 = self.model();
        let text = crate::text::utf8_lossy_chars(bytes);
        let mut rest: Vec<char> = Vec::new();
        std::mem::swap(&mut rest, &mut self.buffer);
        push_all(&mut rest, &text);
        let ghost all = rest@;
        let sep: Vec<char> = vec!['\n', '\n'];
        assert(sep@ =~= seq!['\n', '\n']);
        let mut out: Vec<Result<StreamChunk, LlmError>> = Vec::new();
        let ghost mut done: Seq<Seq<char>> = seq![];
        let mut more = true;
        assert(done + full_blocks(rest@).0 =~= full_blocks(all).0);
        assert(outs_model(out@) =~= Seq::<EventOut>::empty());
        while more
            invariant
                all == st0.buffer + crate::text::utf8_lossy(bytes@),
                sep@ == seq!['\n', '\n'],
                done + full_blocks(rest@).0 == full_blocks(all).0,
                full_blocks(rest@).1 == full_blocks(all).1,
                open_tool_model(self.current) == blocks_effect(st0.current, done).0,
                outs_model(out@) == blocks_effect(st0.current, done).1,
                !more ==> find(rest@, sep@) is None,
            decreases rest@.len() + if more { 1int } else { 0int },
        {
            match find_chars(&rest, &sep) {
                None => {
                    more = false;
                },
                Some(p) => {
                    let n = rest.len();
                    proof {
                        crate::text::lemma_find_bounds(rest@, sep@);
                        assert(find(rest@, sep@) == Some(p as int));
                        assert(p + 2 <= n);
                    }
                    let b = take_chars(&rest, p + 2);
                    let tail = skip_chars(&rest, p + 2);
                    self.block(&b, &mut out);
                    proof {
                        let d2 = done.push(b@);
                        assert(d2.drop_last() =~= done);
                        assert(full_blocks(rest@).0 =~= seq![b@] + full_blocks(tail@).0);
                        assert(d2 + full_blocks(tail@).0 =~= done + full_blocks(rest@).0);
                        done = d2;
                    }
                    rest = tail;
                },
            }
        }
        proof {
            assert(full_blocks(rest@).0 =~= Seq::<Seq<char>>::empty());
            assert(done =~= full_blocks(all).0);
        }
        self.buffer = rest;
        out
    }
}

/// A required `u32` member.
pub open spec fn valid_u32(j: Json, k: Seq<char>) -> bool {
    json_get(j, k) matches Some(Json::Number(t)) && t.len() > 0 && all_ascii_digits(t) && digits_value(t) <= u32::MAX
}

/// The value of a required `u32` member.
pub open spec fn u32_value(j: Json, k: Seq<char>) -> nat {
    digits_value(json_get(j, k)->Some_0->Number_0)
}

/// A well-formed content block: text, or a tool use with its id, name and
/// input.
pub open spec fn valid_block(b: Json) -> bool {
    b is Object && ((get_str(b, "type"@) == Some("text"@) && get_str(b, "text"@) is Some) || (get_str(
        b,
        "type"@,
    ) == Some("tool_use"@) && get_str(b, "id"@) is Some && get_str(b, "name"@) is Some && json_get(
        b,
        "input"@,
    ) is Some))
}

/// A well-formed answer: an object with well-formed content blocks, a usage
/// with its two token counts, a model name and an optional stop reason.
pub open spec fn valid_response(j: Json) -> bool {
    &&& j is Object
    &&& crate::json::get_arr(j, "content"@) matches Some(bs) && forall|i: int|
        0 <= i < bs.len() ==> valid_block(#[trigger] bs[i])
    &&& json_get(j, "usage"@) matches Some(u) && u is Object && valid_u32(u, "input_tokens"@) && valid_u32(
        u,
        "output_tokens"@,
    )
    &&& get_str(j, "model"@) is Some
    &&& valid_opt_str(j, "stop_reason"@)
}

/// The text of an answer: its text blocks joined, in order.
pub open spec fn blocks_text(bs: Seq<Json>) -> Seq<char>
    decreases bs.len(),
{
    if bs.len() == 0 {
        seq![]
    } else {
        blocks_text(bs.drop_last()) + if get_str(bs.last(), "type"@) == Some("text"@) {
            get_str(bs.last(), "text"@)->Some_0
        } else {
            seq![]
        }
    }
}

/// The tool calls of an answer: its tool-use blocks, in order.
pub open spec fn blocks_calls(bs: Seq<Json>) -> Seq<(Seq<char>, Seq<char>, Json)>
    decreases bs.len(),
{
    if bs.len() == 0 {
        seq![]
    } else {
        blocks_calls(bs.drop_last()) + if get_str(bs.last(), "type"@) == Some("tool_use"@) {
            seq![
                (
                    get_str(bs.last(), "id"@)->Some_0,
                    get_str(bs.last(), "name"@)->Some_0,
                    json_get(bs.last(), "input"@)->Some_0,
                ),
            ]
        } else {
            seq![]
        }
    }
}

/// The message of a failed call: `type: message` when the body is an
/// Anthropic error, else the body itself.
pub open spec fn failure_body(raw: Seq<char>) -> Seq<char> {
    match json_parse(raw) {
        Some(j) => match json_get(j, "error"@) {
            Some(e) => if j is Object && e is Object && get_str(e, "message"@) is Some && get_str(e, "type"@) is Some {
                get_str(e, "type"@)->Some_0 + ": "@ + get_str(e, "message"@)->Some_0
            } else {
                raw
            },
            None => raw,
        },
        None => raw,
    }
}

/// The message used when an answer is JSON but not a well-formed Anthropic
/// answer.
pub open spec fn invalid_answer() -> Seq<char> {
    "réponse Anthropic invalide"@
}

/// A complete answer, without its timing.
pub struct Completion {
    pub text: String,
    pub tool_calls: Vec<crate::llm::ToolCall>,
    pub model: String,
    pub tokens_in: u32,
    pub tokens_out: u32,
}

pub(crate) fn failure_body_of(raw: &str) -> (r: String)
    ensures
        r@ == failure_body(raw@),
{
    match parse_json(raw) {
        Ok(j) => match j.get_key("error") {
            Some(e) => {
                let m = e.get_str("message");
                let t = e.get_str("type");
                if j.is_object() && e.is_object() && m.is_some() && t.is_some() {
                    let mut v = chars_of(t.unwrap().as_str());
                    let sep = chars_of(": ");
                    push_all(&mut v, &sep);
                    let mc = chars_of(m.unwrap().as_str());
                    push_all(&mut v, &mc);
                    string_of(&v)
                } else {
                    raw.to_owned()
                }
            },
            None => raw.to_owned(),
        },
        Err(_) => raw.to_owned(),
    }
}

pub(crate) fn u32_member(j: &JsonValue, k: &str) -> (r: Option<u32>)
    ensures
        valid_u32(j.model(), k@) <==> r is Some,
        r matches Some(v) ==> v == u32_value(j.model(), k@),
{
    match j.get_key(k) {
        Some(JsonValue::Number(t)) => {
            let c = chars_of(t.as_str());
            if c.len() == 0 || c[0] == '+' {
                return None;
            }
            match crate::text::parse_u64(t.as_str()) {
                Some(v) => {
                    if v <= 4294967295u64 {
                        Some(v as u32)
                    } else {
                        None
                    }
                },
                None => {
                    proof {
                        if all_ascii_digits(c@) {
                            assert(digits_value(c@) > u64::MAX);
                        }
                    }
                    None
                },
            }
        },
        _ => None,
    }
}

fn block_ok(b: &JsonValue) -> (r: bool)
    ensures
        r == valid_block(b.model()),
{
    proof {
        reveal_strlit("text");
        reveal_strlit("tool_use");
        assert("text"@.len() != "tool_use"@.len());
    }
    if !b.is_object() {
        return false;
    }
    let t = b.get_str("type");
    if is_named(&t, "text") {
        let x = b.get_str("text");
        assert(get_str(b.model(), "type"@) == Some("text"@));
        assert(b.model() is Object);
        assert(x is Some <==> get_str(b.model(), "text"@) is Some);
        return x.is_some();
    }
    if is_named(&t, "tool_use") {
        return b.get_str("id").is_some() && b.get_str("name").is_some() && b.get_key("input").is_some();
    }
    proof {
        reveal_strlit("text");
        reveal_strlit("tool_use");
    }
    false
}

/// The blocks of a well-formed answer, or nothing.
#[verifier::loop_isolation(false)]
fn read_response(j: &JsonValue) -> (r: Option<Vec<JsonValue>>)
    ensures
        valid_response(j.model()) <==> r is Some,
        r matches Some(bs) ==> Some(bs@.map_values(|v: JsonValue| v.model())) == crate::json::get_arr(j.model(), "content"@),
{
    if !j.is_object() {
        return None;
    }
    let bs = match j.get_array("content") {
        Some(bs) => bs,
        None => return None,
    };
    let ghost bm = bs@.map_values(|v: JsonValue| v.model());
    let mut i: usize = 0;
    while i < bs.len()
        invariant
            i <= bs.len(),
            bm == bs@.map_values(|v: JsonValue| v.model()),
            forall|q: int| 0 <= q < i ==> valid_block(#[trigger] bm[q]),
        decreases bs.len() - i,
    {
        if !block_ok(&bs[i]) {
            proof {
                let g = crate::json::get_arr(j.model(), "content"@)->Some_0;
                assert(g == bm);
                assert(!valid_block(g[i as int]));
                assert(!valid_response(j.model()));
            }
            return None;
        }
        i = i + 1;
    }
    assert(forall|q: int| 0 <= q < bm.len() ==> valid_block(#[trigger] bm[q]));
    let usage_ok = match j.get_key("usage") {
        Some(u) => u.is_object() && u32_member(u, "input_tokens").is_some() && u32_member(u, "output_tokens").is_some(),
        None => false,
    };
    if !usage_ok {
        return None;
    }
    if j.get_str("model").is_none() {
        return None;
    }
    if !crate::ollama::check_opt_str(j, "stop_reason") {
        return None;
    }
    assert(crate::json::get_arr(j.model(), "content"@) == Some(bm));
    assert(valid_response(j.model()));
    Some(bs)
}

/// Reads a complete answer from Anthropic's status and body: a failure
/// status is reported with its message (see `failure_body`); a body that
/// is not JSON with the parser's message; an answer that is not
/// well-formed is invalid; otherwise its text, tool calls, model and
/// token counts. (A rate limit is reported before the body is read.)
#[verifier::loop_isolation(false)]
pub fn completion_result(status: u16, raw: &str) -> (r: Result<Completion, LlmError>)
    ensures
        status != 200 ==> (r matches Err(LlmError::ProviderStatus { status: s, body }) && s == status
            && body@ == failure_body(raw@)),
        status == 200 ==> match json_parse(raw@) {
            Some(j) => if valid_response(j) {
                r matches Ok(c) && {
                    let bs = crate::json::get_arr(j, "content"@)->Some_0;
                    let u = json_get(j, "usage"@)->Some_0;
                    &&& c.text@ == blocks_text(bs)
                    &&& c.tool_calls@.map_values(|t: crate::llm::ToolCall| (t.id@, t.name@, t.arguments.model()))
                        == blocks_calls(bs)
                    &&& c.model@ == get_str(j, "model"@)->Some_0
                    &&& c.tokens_in == u32_value(u, "input_tokens"@)
                    &&& c.tokens_out == u32_value(u, "output_tokens"@)
                }
            } else {
                r matches Err(LlmError::Json(m)) && m@ == invalid_answer()
            },
            None => r matches Err(LlmError::Json(m)) && m@ == crate::json::json_parse_error(raw@),
        },
{
    if status != 200 {
        return Err(LlmError::ProviderStatus { status, body: failure_body_of(raw) });
    }
    let j = match parse_json(raw) {
        Ok(j) => j,
        Err(e) => return Err(LlmError::Json(e)),
    };
    let bs = match read_response(&j) {
        Some(bs) => bs,
        None => return Err(LlmError::Json("réponse Anthropic invalide".to_owned())),
    };
    let ghost bm = bs@.map_values(|v: JsonValue| v.model());
    proof {
        let g = crate::json::get_arr(j.model(), "content"@)->Some_0;
        assert(g == bm);
        assert(valid_response(j.model()));
        assert forall|q: int| 0 <= q < bm.len() implies valid_block(#[trigger] bm[q]) by {
            assert(valid_block(g[q]));
        }
    }
    proof {
        reveal_strlit("text");
        reveal_strlit("tool_use");
    }
    let mut text: Vec<char> = Vec::new();
    let mut calls: Vec<crate::llm::ToolCall> = Vec::new();
    let mut i: usize = 0;
    assert(bm.subrange(0, 0) =~= Seq::<Json>::empty());
    while i < bs.len()
        invariant
            i <= bs.len(),
            bm == bs@.map_values(|v: JsonValue| v.model()),
            forall|q: int| 0 <= q < bm.len() ==> valid_block(#[trigger] bm[q]),
            text@ == blocks_text(bm.subrange(0, i as int)),
            calls@.map_values(|t: crate::llm::ToolCall| (t.id@, t.name@, t.arguments.model())) == blocks_calls(
                bm.subrange(0, i as int),
            ),
        decreases bs.len() - i,
    {
        let ghost sub = bm.subrange(0, i + 1);
        assert(sub.drop_last() =~= bm.subrange(0, i as int));
        assert(sub.last() == bs@[i as int].model());
        let ghost before = calls@.map_values(|t: crate::llm::ToolCall| (t.id@, t.name@, t.arguments.model()));
        let b = &bs[i];
        let ghost tb = sub.last();
        assert(b.model() == tb);
        assert(tb == bm[i as int]);
        assert(valid_block(tb));
        let ghost prev_text = text@;
        proof {
            reveal_strlit("text");
            reveal_strlit("tool_use");
            assert("text"@.len() != "tool_use"@.len());
        }
        let t = b.get_str("type");
        if is_named(&t, "text") {
            match b.get_str("text") {
                Some(x) => {
                    let xc = chars_of(x.as_str());
                    push_all(&mut text, &xc);
                    assert(text@ == prev_text + get_str(tb, "text"@)->Some_0);
                },
                None => {},
            }
            assert(get_str(tb, "type"@) == Some("text"@));
            assert(calls@.map_values(|t: crate::llm::ToolCall| (t.id@, t.name@, t.arguments.model())) =~= before);
        } else if is_named(&t, "tool_use") {
            match (b.get_str("id"), b.get_str("name"), b.get_key("input")) {
                (Some(id), Some(name), Some(input)) => {
                    calls.push(crate::llm::ToolCall { id, name, arguments: input.duplicate() });
                    assert(calls@.map_values(|t: crate::llm::ToolCall| (t.id@, t.name@, t.arguments.model())) =~= before.push(
                        (id@, name@, input.model()),
                    ));
                },
                _ => {},
            }
            assert(get_str(tb, "type"@) == Some("tool_use"@));
            assert(get_str(tb, "type"@) != Some("text"@));
        } else {
            assert(get_str(tb, "type"@) != Some("text"@));
            assert(get_str(tb, "type"@) != Some("tool_use"@));
            assert(calls@.map_values(|t: crate::llm::ToolCall| (t.id@, t.name@, t.arguments.model())) =~= before);
        }
        proof {
            reveal_strlit("text");
            reveal_strlit("tool_use");
        }
        assert(blocks_text(sub) == blocks_text(sub.drop_last()) + (if get_str(sub.last(), "type"@) == Some("text"@) {
            get_str(sub.last(), "text"@)->Some_0
        } else {
            Seq::<char>::empty()
        }));
        assert(text@ =~= blocks_text(sub));
        assert(calls@.map_values(|t: crate::llm::ToolCall| (t.id@, t.name@, t.arguments.model())) =~= blocks_calls(sub));
        i = i + 1;
    }
    assert(bm.subrange(0, bs.len() as int) =~= bm);
    let model = j.get_str("model").unwrap();
    let (tin, tout) = match j.get_key("usage") {
        Some(u) => (u32_member(u, "input_tokens").unwrap(), u32_member(u, "output_tokens").unwrap()),
        None => (0, 0),
    };
    Ok(Completion { text: string_of(&text), tool_calls: calls, model, tokens_in: tin, tokens_out: tout })
}

/// The input of the first tool-use block, if any.
pub open spec fn first_tool_input(bs: Seq<Json>) -> Option<Json>
    decreases bs.len(),
{
    if bs.len() == 0 {
        None
    } else if get_str(bs[0], "type"@) == Some("tool_use"@) {
        json_get(bs[0], "input"@)
    } else {
        first_tool_input(bs.drop_first())
    }
}

/// What `format!("{:?}", ..)` writes for an optional string.
pub uninterp spec fn option_debug(o: Option<Seq<char>>) -> Seq<char>;

/// The debug form of an optional string (`format!("{:?}", ..)`), named by
/// `option_debug`; `None` is written `None`.
#[verifier::external_body]
fn debug_option(o: &Option<String>) -> (r: String)
    ensures
        r@ == option_debug(opt_seq(*o)),
        o is None ==> r@ == "None"@,
{
    format!("{:?}", o)
}

/// The message when a structured answer has no tool-use block.
pub open spec fn no_tool_use_message(stop: Option<Seq<char>>) -> Seq<char> {
    "Aucun bloc tool_use trouvé dans la réponse Anthropic (stop_reason: "@ + option_debug(stop) + ")"@
}

/// The outcome of a structured call from Anthropic's status and body: a
/// failure status is reported with its message; a body that is not JSON
/// with the parser's message; an answer that is not well-formed is
/// invalid; an answer cut at the token limit is truncated;
/// otherwise the input of its first tool-use block, or the report that
/// there is none.
#[verifier::loop_isolation(false)]
pub fn structured_result(status: u16, raw: &str, schema_name: &str) -> (r: Result<JsonValue, LlmError>)
    ensures
        status != 200 ==> (r matches Err(LlmError::ProviderStatus { status: s, body }) && s == status
            && body@ == failure_body(raw@)),
        status == 200 ==> match json_parse(raw@) {
            Some(j) => if !valid_response(j) {
                r matches Err(LlmError::Json(m)) && m@ == invalid_answer()
            } else if get_str(j, "stop_reason"@) == Some("max_tokens"@) {
                r matches Err(LlmError::Truncated { step, partial_payload }) && step@ == schema_name@
                    && partial_payload@ == raw@
            } else {
                match first_tool_input(crate::json::get_arr(j, "content"@)->Some_0) {
                    Some(v) => r matches Ok(x) && x.model() == v,
                    None => r matches Err(LlmError::BadStructuredOutput(m)) && m@ == no_tool_use_message(
                        get_str(j, "stop_reason"@),
                    ),
                }
            },
            None => r matches Err(LlmError::Json(m)) && m@ == crate::json::json_parse_error(raw@),
        },
{
    if status != 200 {
        return Err(LlmError::ProviderStatus { status, body: failure_body_of(raw) });
    }
    let j = match parse_json(raw) {
        Ok(j) => j,
        Err(e) => return Err(LlmError::Json(e)),
    };
    let bs = match read_response(&j) {
        Some(bs) => bs,
        None => return Err(LlmError::Json("réponse Anthropic invalide".to_owned())),
    };
    let stop = j.get_str("stop_reason");
    if is_named(&stop, "max_tokens") {
        return Err(LlmError::Truncated { step: schema_name.to_owned(), partial_payload: raw.to_owned() });
    }
    let ghost bm = bs@.map_values(|v: JsonValue| v.model());
    proof {
        let g = crate::json::get_arr(j.model(), "content"@)->Some_0;
        assert(g == bm);
        assert forall|q: int| 0 <= q < bm.len() implies valid_block(#[trigger] bm[q]) by {
            assert(valid_block(g[q]));
        }
        reveal_strlit("text");
        reveal_strlit("tool_use");
        assert("text"@.len() != "tool_use"@.len());
    }
    let mut i: usize = 0;
    assert(bm.subrange(0, bm.len() as int) =~= bm);
    while i < bs.len()
        invariant
            i <= bs.len(),
            bm == bs@.map_values(|v: JsonValue| v.model()),
            first_tool_input(bm) == first_tool_input(bm.subrange(i as int, bm.len() as int)),
        decreases bs.len() - i,
    {
        let ghost rest = bm.subrange(i as int, bm.len() as int);
        assert(rest[0] == bs@[i as int].model());
        assert(rest.drop_first() =~= bm.subrange(i + 1, bm.len() as int));
        let t = bs[i].get_str("type");
        if is_named(&t, "tool_use") {
            match bs[i].get_key("input") {
                Some(v) => {
                    return Ok(v.duplicate());
                },
                None => {},
            }
        }
        i = i + 1;
    }
    assert(bm.subrange(bs.len() as int, bm.len() as int) =~= Seq::<Json>::empty());
    let d = debug_option(&stop);
    let mut v = chars_of("Aucun bloc tool_use trouvé dans la réponse Anthropic (stop_reason: ");
    let dc = chars_of(d.as_str());
    push_all(&mut v, &dc);
    let close = chars_of(")");
    push_all(&mut v, &close);
    Err(LlmError::BadStructuredOutput(string_of(&v)))
}

/// The wait asked by a rate-limited answer, in seconds: the `retry-after`
/// header when it is a number, else 5000.
pub open spec fn retry_after_value(h: Option<Seq<char>>) -> nat {
    match h {
        Some(t) => match crate::text::parsed_u64(t) {
            Some(v) => v,
            None => 5000,
        },
        None => 5000,
    }
}

/// The error for a rate-limited answer: the `retry-after` value (see
/// `retry_after_value`) times 1000 as the wait in milliseconds.
pub fn rate_limit_error(retry_after: Option<&str>) -> (r: LlmError)
    requires
        retry_after_value(crate::scrape::str_opt(retry_after)) * 1000 <= u64::MAX,
    ensures
        r == (LlmError::RateLimit {
            retry_after_ms: (retry_after_value(crate::scrape::str_opt(retry_after)) * 1000) as u64,
        }),
{
    let v: u64 = match retry_after {
        Some(t) => match crate::text::parse_u64(t) {
            Some(v) => v,
            None => 5000,
        },
        None => 5000,
    };
    LlmError::RateLimit { retry_after_ms: v * 1000 }
}

/// A JSON object of string members.
pub open spec fn str_object(ms: Seq<(Seq<char>, Seq<char>)>) -> Json {
    Json::Object(ms.map_values(|m: (Seq<char>, Seq<char>)| (m.0, Json::Str(m.1))))
}

fn str_object_value(ms: Vec<(&str, String)>) -> (r: JsonValue)
    ensures
        r.model() == str_object(ms@.map_values(|m: (&str, String)| (m.0@, m.1@))),
{
    let ghost mv = ms@.map_values(|m: (&str, String)| (m.0@, m.1@));
    let mut out: Vec<crate::json::Member> = Vec::new();
    let mut i: usize = 0;
    while i < ms.len()
        invariant
            i <= ms.len(),
            mv == ms@.map_values(|m: (&str, String)| (m.0@, m.1@)),
            crate::json::members_model(out@) =~= mv.subrange(0, i as int).map_values(
                |m: (Seq<char>, Seq<char>)| (m.0, Json::Str(m.1)),
            ),
        decreases ms.len() - i,
    {
        let ghost before = crate::json::members_model(out@);
        let (k, v) = &ms[i];
        out.push(crate::json::Member { key: (*k).to_owned(), value: JsonValue::Str(v.clone()) });
        assert(crate::json::members_model(out@) =~= before.push((mv[i as int].0, Json::Str(mv[i as int].1))));
        assert(mv.subrange(0, i + 1) =~= mv.subrange(0, i as int).push(mv[i as int]));
        i = i + 1;
    }
    proof {
        crate::json::lemma_object_model(out);
        assert(mv.subrange(0, ms.len() as int) =~= mv);
    }
    JsonValue::Object(out)
}

/// The tool choice sent to Anthropic: `auto`, none, `any`, or the named
/// tool.
pub open spec fn anthropic_tool_choice_model(c: crate::llm::ToolChoice) -> Option<Json> {
    match c {
        crate::llm::ToolChoice::Auto => Some(str_object(seq![("type"@, "auto"@)])),
        crate::llm::ToolChoice::Disabled => None,
        crate::llm::ToolChoice::Required => Some(str_object(seq![("type"@, "any"@)])),
        crate::llm::ToolChoice::Tool { name } => Some(str_object(seq![("type"@, "tool"@), ("name"@, name@)])),
    }
}

/// The tool choice sent to Anthropic (see `anthropic_tool_choice_model`).
pub fn anthropic_tool_choice(c: &crate::llm::ToolChoice) -> (r: Option<JsonValue>)
    ensures
        crate::conversation::opt_model(r) == anthropic_tool_choice_model(*c),
{
    match c {
        crate::llm::ToolChoice::Auto => {
            let ms: Vec<(&str, String)> = vec![("type", "auto".to_owned())];
            assert(ms@.map_values(|m: (&str, String)| (m.0@, m.1@)) =~= seq![("type"@, "auto"@)]);
            Some(str_object_value(ms))
        },
        crate::llm::ToolChoice::Disabled => None,
        crate::llm::ToolChoice::Required => {
            let ms: Vec<(&str, String)> = vec![("type", "any".to_owned())];
            assert(ms@.map_values(|m: (&str, String)| (m.0@, m.1@)) =~= seq![("type"@, "any"@)]);
            Some(str_object_value(ms))
        },
        crate::llm::ToolChoice::Tool { name } => {
            let ms: Vec<(&str, String)> = vec![("type", "tool".to_owned()), ("name", name.clone())];
            assert(ms@.map_values(|m: (&str, String)| (m.0@, m.1@)) =~= seq![("type"@, "tool"@), ("name"@, name@)]);
            Some(str_object_value(ms))
        },
    }
}

/// A part of a message as Anthropic receives it.
pub open spec fn block_model(c: crate::llm::MessageContent) -> Json {
    match c {
        crate::llm::MessageContent::Text(t) => Json::Object(seq![("type"@, Json::Str("text"@)), ("text"@, Json::Str(t@))]),
        crate::llm::MessageContent::Image { data, content_type } => Json::Object(
            seq![
                ("type"@, Json::Str("image"@)),
                (
                    "source"@,
                    Json::Object(
                        seq![
                            ("type"@, Json::Str("base64"@)),
                            ("media_type"@, Json::Str(content_type@)),
                            ("data"@, Json::Str(crate::llm::base64_standard_encode(data@))),
                        ],
                    ),
                ),
            ],
        ),
        crate::llm::MessageContent::ToolUse { id, name, input } => Json::Object(
            seq![
                ("type"@, Json::Str("tool_use"@)),
                ("id"@, Json::Str(id@)),
                ("name"@, Json::Str(name@)),
                ("input"@, input.model()),
            ],
        ),
        crate::llm::MessageContent::ToolResult { tool_use_id, content } => Json::Object(
            seq![
                ("type"@, Json::Str("tool_result"@)),
                ("tool_use_id"@, Json::Str(tool_use_id@)),
                ("content"@, Json::Str(content@)),
            ],
        ),
    }
}

pub(crate) fn object_of(ms: Vec<crate::json::Member>) -> (r: JsonValue)
    ensures
        r.model() == Json::Object(crate::json::members_model(ms@)),
{
    proof {
        crate::json::lemma_object_model(ms);
    }
    JsonValue::Object(ms)
}

/// A part of a message as Anthropic receives it (see `block_model`).
pub fn anthropic_block(c: &crate::llm::MessageContent) -> (r: JsonValue)
    ensures
        r.model() == block_model(*c),
{
    match c {
        crate::llm::MessageContent::Text(t) => {
            let ms = vec![
                crate::llm::member("type", JsonValue::Str("text".to_owned())),
                crate::llm::member("text", JsonValue::Str(t.clone())),
            ];
            assert(crate::json::members_model(ms@) =~= block_model(*c)->Object_0);
            object_of(ms)
        },
        crate::llm::MessageContent::Image { data, content_type } => {
            let src = vec![
                crate::llm::member("type", JsonValue::Str("base64".to_owned())),
                crate::llm::member("media_type", JsonValue::Str(content_type.clone())),
                crate::llm::member("data", JsonValue::Str(crate::llm::encode_base64(data.as_slice()))),
            ];
            assert(crate::json::members_model(src@) =~= block_model(*c)->Object_0[1].1->Object_0);
            let so = object_of(src);
            let ms = vec![crate::llm::member("type", JsonValue::Str("image".to_owned())), crate::llm::member("source", so)];
            assert(crate::json::members_model(ms@) =~= block_model(*c)->Object_0);
            object_of(ms)
        },
        crate::llm::MessageContent::ToolUse { id, name, input } => {
            let ms = vec![
                crate::llm::member("type", JsonValue::Str("tool_use".to_owned())),
                crate::llm::member("id", JsonValue::Str(id.clone())),
                crate::llm::member("name", JsonValue::Str(name.clone())),
                crate::llm::member("input", input.duplicate()),
            ];
            assert(crate::json::members_model(ms@) =~= block_model(*c)->Object_0);
            object_of(ms)
        },
        crate::llm::MessageContent::ToolResult { tool_use_id, content } => {
            let ms = vec![
                crate::llm::member("type", JsonValue::Str("tool_result".to_owned())),
                crate::llm::member("tool_use_id", JsonValue::Str(tool_use_id.clone())),
                crate::llm::member("content", JsonValue::Str(content.clone())),
            ];
            assert(crate::json::members_model(ms@) =~= block_model(*c)->Object_0);
            object_of(ms)
        },
    }
}

/// A message as Anthropic receives it: its role (tool results are sent by
/// the user) and its parts.
pub open spec fn anthropic_message_model(m: crate::llm::LlmMessage) -> Json {
    Json::Object(
        seq![
            ("role"@, Json::Str(crate::llm::role_name(m.role, "user"@))),
            ("content"@, Json::Array(m.content@.map_values(|c: crate::llm::MessageContent| block_model(c)))),
        ],
    )
}

/// A message as Anthropic receives it (see `anthropic_message_model`).
pub fn anthropic_message(m: &crate::llm::LlmMessage) -> (r: JsonValue)
    ensures
        r.model() == anthropic_message_model(*m),
{
    let mut blocks: Vec<JsonValue> = Vec::new();
    let mut i: usize = 0;
    while i < m.content.len()
        invariant
            i <= m.content.len(),
            blocks@.map_values(|v: JsonValue| v.model()) =~= m.content@.subrange(0, i as int).map_values(
                |c: crate::llm::MessageContent| block_model(c),
            ),
        decreases m.content.len() - i,
    {
        let ghost before = blocks@.map_values(|v: JsonValue| v.model());
        blocks.push(anthropic_block(&m.content[i]));
        assert(blocks@.map_values(|v: JsonValue| v.model()) =~= before.push(block_model(m.content@[i as int])));
        assert(m.content@.subrange(0, i + 1) =~= m.content@.subrange(0, i as int).push(m.content@[i as int]));
        i = i + 1;
    }
    assert(m.content@.subrange(0, m.content.len() as int) =~= m.content@);
    proof {
        crate::json::lemma_array_model(blocks);
    }
    let ms = vec![
        crate::llm::member("role", JsonValue::Str(crate::llm::role_text(m.role, "user"))),
        crate::llm::member("content", JsonValue::Array(blocks)),
    ];
    assert(crate::json::members_model(ms@) =~= anthropic_message_model(*m)->Object_0);
    object_of(ms)
}

/// A tool as Anthropic receives it.
pub open spec fn anthropic_tool_model(t: crate::llm::LlmTool) -> Json {
    Json::Object(
        seq![
            ("name"@, Json::Str(t.name@)),
            ("description"@, Json::Str(t.description@)),
            ("input_schema"@, t.input_schema.model()),
        ],
    )
}

/// A tool as Anthropic receives it (see `anthropic_tool_model`).
pub fn anthropic_tool(t: &crate::llm::LlmTool) -> (r: JsonValue)
    ensures
        r.model() == anthropic_tool_model(*t),
{
    let ms = vec![
        crate::llm::member("name", JsonValue::Str(t.name.clone())),
        crate::llm::member("description", JsonValue::Str(t.description.clone())),
        crate::llm::member("input_schema", t.input_schema.duplicate()),
    ];
    assert(crate::json::members_model(ms@) =~= anthropic_tool_model(*t)->Object_0);
    object_of(ms)
}

/// The blocks of an extraction input: texts and images, in order; tool
/// calls and tool results are left out.
pub open spec fn extraction_blocks(input: Seq<crate::llm::MessageContent>) -> Seq<Json>
    decreases input.len(),
{
    if input.len() == 0 {
        seq![]
    } else {
        let rest = extraction_blocks(input.drop_last());
        match input.last() {
            crate::llm::MessageContent::Text(_) => rest.push(block_model(input.last())),
            crate::llm::MessageContent::Image { .. } => rest.push(block_model(input.last())),
            _ => rest,
        }
    }
}

/// The single user message of a structured call: the instruction first
/// when it is not empty, then the input's texts and images.
pub open spec fn extraction_message_model(instruction: Seq<char>, input: Seq<crate::llm::MessageContent>) -> Json {
    Json::Object(
        seq![
            ("role"@, Json::Str("user"@)),
            (
                "content"@,
                Json::Array(
                    (if instruction.len() > 0 {
                        seq![Json::Object(seq![("type"@, Json::Str("text"@)), ("text"@, Json::Str(instruction))])]
                    } else {
                        seq![]
                    }) + extraction_blocks(input),
                ),
            ),
        ],
    )
}

/// The single user message of a structured call (see
/// `extraction_message_model`).
pub fn extraction_message(instruction: &str, input: &Vec<crate::llm::MessageContent>) -> (r: JsonValue)
    ensures
        r.model() == extraction_message_model(instruction@, input@),
{
    let mut blocks: Vec<JsonValue> = Vec::new();
    let ghost head: Seq<Json> = if instruction@.len() > 0 {
        seq![Json::Object(seq![("type"@, Json::Str("text"@)), ("text"@, Json::Str(instruction@))])]
    } else {
        seq![]
    };
    if !instruction.is_empty() {
        let t = crate::llm::MessageContent::Text(instruction.to_owned());
        blocks.push(anthropic_block(&t));
    }
    assert(blocks@.map_values(|v: JsonValue| v.model()) =~= head);
    let mut i: usize = 0;
    while i < input.len()
        invariant
            i <= input.len(),
            blocks@.map_values(|v: JsonValue| v.model()) =~= head + extraction_blocks(input@.subrange(0, i as int)),
        decreases input.len() - i,
    {
        let ghost before = blocks@.map_values(|v: JsonValue| v.model());
        let ghost sub = input@.subrange(0, i + 1);
        assert(sub.drop_last() =~= input@.subrange(0, i as int));
        assert(sub.last() == input@[i as int]);
        match &input[i] {
            crate::llm::MessageContent::Text(_) => {
                blocks.push(anthropic_block(&input[i]));
                assert(blocks@.map_values(|v: JsonValue| v.model()) =~= before.push(block_model(input@[i as int])));
            },
            crate::llm::MessageContent::Image { .. } => {
                blocks.push(anthropic_block(&input[i]));
                assert(blocks@.map_values(|v: JsonValue| v.model()) =~= before.push(block_model(input@[i as int])));
            },
            _ => {},
        }
        i = i + 1;
    }
    assert(input@.subrange(0, input.len() as int) =~= input@);
    proof {
        crate::json::lemma_array_model(blocks);
    }
    let ms = vec![
        crate::llm::member("role", JsonValue::Str("user".to_owned())),
        crate::llm::member("content", JsonValue::Array(blocks)),
    ];
    assert(crate::json::members_model(ms@) =~= extraction_message_model(instruction@, input@)->Object_0);
    object_of(ms)
}

/// The schema of a structured call: the bare string `json` stands for any
/// object.
pub open spec fn extraction_schema_model(schema: Json) -> Json {
    if schema == Json::Str("json"@) {
        Json::Object(seq![("type"@, Json::Str("object"@))])
    } else {
        schema
    }
}

/// The schema of a structured call (see `extraction_schema_model`).
pub fn extraction_schema(schema: JsonValue) -> (r: JsonValue)
    ensures
        r.model() == extraction_schema_model(schema.model()),
{
    let is_json = match &schema {
        JsonValue::Str(t) => crate::json::str_eq(t.as_str(), "json"),
        _ => false,
    };
    if is_json {
        let ms = vec![crate::llm::member("type", JsonValue::Str("object".to_owned()))];
        assert(crate::json::members_model(ms@) =~= seq![("type"@, Json::Str("object"@))]);
        object_of(ms)
    } else {
        schema
    }
}

/// A request to Anthropic: model, token limit, optional system prompt,
/// messages, then temperature, tools, tool choice and streaming flag when
/// given.
pub open spec fn anthropic_body_model(
    model: Seq<char>,
    max_tokens: u32,
    system: Option<Seq<char>>,
    messages: Seq<Json>,
    temperature: Option<Json>,
    tools: Option<Seq<Json>>,
    tool_choice: Option<Json>,
    stream: Option<bool>,
) -> Json {
    Json::Object(
        seq![("model"@, Json::Str(model)), ("max_tokens"@, Json::Number(crate::text::decimal(max_tokens as nat)))]
            + crate::ollama::opt_member(
            "system"@,
            match system {
                Some(s) => Some(Json::Str(s)),
                None => None,
            },
        ) + seq![("messages"@, Json::Array(messages))] + crate::ollama::opt_member("temperature"@, temperature)
            + crate::ollama::opt_member(
            "tools"@,
            match tools {
                Some(ts) => Some(Json::Array(ts)),
                None => None,
            },
        ) + crate::ollama::opt_member("tool_choice"@, tool_choice) + crate::ollama::opt_member(
            "stream"@,
            match stream {
                Some(b) => Some(Json::Bool(b)),
                None => None,
            },
        ),
    )
}

fn push_opt_member(ms: &mut Vec<crate::json::Member>, k: &str, v: Option<JsonValue>)
    ensures
        crate::json::members_model(final(ms)@) == crate::json::members_model(old(ms)@) + crate::ollama::opt_member(
            k@,
            crate::conversation::opt_model(v),
        ),
{
    let ghost before = crate::json::members_model(ms@);
    let ghost vm = crate::conversation::opt_model(v);
    match v {
        Some(x) => {
            ms.push(crate::llm::member(k, x));
        },
        None => {},
    }
    assert(crate::json::members_model(ms@) =~= before + crate::ollama::opt_member(k@, vm));
}

/// A request to Anthropic (see `anthropic_body_model`).
pub fn anthropic_body(
    model: &str,
    max_tokens: u32,
    system: Option<String>,
    messages: Vec<JsonValue>,
    temperature: Option<JsonValue>,
    tools: Option<Vec<JsonValue>>,
    tool_choice: Option<JsonValue>,
    stream: Option<bool>,
) -> (r: JsonValue)
    ensures
        r.model() == anthropic_body_model(
            model@,
            max_tokens,
            opt_seq(system),
            messages@.map_values(|v: JsonValue| v.model()),
            crate::conversation::opt_model(temperature),
            match tools {
                Some(ts) => Some(ts@.map_values(|v: JsonValue| v.model())),
                None => None,
            },
            crate::conversation::opt_model(tool_choice),
            stream,
        ),
{
    let ghost mm = messages@.map_values(|v: JsonValue| v.model());
    let ghost sm = opt_seq(system);
    let ghost tpm = crate::conversation::opt_model(temperature);
    let ghost tsm: Option<Seq<Json>> = match &tools {
        Some(ts) => Some(ts@.map_values(|v: JsonValue| v.model())),
        None => None,
    };
    let ghost cm = crate::conversation::opt_model(tool_choice);
    let mt = crate::text::decimal_chars_u64(max_tokens as u64);
    let mut ms: Vec<crate::json::Member> = vec![
        crate::llm::member("model", JsonValue::Str(model.to_owned())),
        crate::llm::member("max_tokens", JsonValue::Number(string_of(&mt))),
    ];
    let ghost m0 = crate::json::members_model(ms@);
    assert(m0 =~= seq![("model"@, Json::Str(model@)), ("max_tokens"@, Json::Number(crate::text::decimal(max_tokens as nat)))]);
    let sys = match system {
        Some(s) => Some(JsonValue::Str(s)),
        None => None,
    };
    assert(crate::conversation::opt_model(sys) == match sm {
        Some(s) => Some(Json::Str(s)),
        None => None,
    });
    push_opt_member(&mut ms, "system", sys);
    let ghost m1 = crate::json::members_model(ms@);
    proof {
        crate::json::lemma_array_model(messages);
    }
    ms.push(crate::llm::member("messages", JsonValue::Array(messages)));
    assert(crate::json::members_model(ms@) =~= m1 + seq![("messages"@, Json::Array(mm))]);
    push_opt_member(&mut ms, "temperature", temperature);
    let tv = match tools {
        Some(ts) => {
            proof {
                crate::json::lemma_array_model(ts);
            }
            Some(JsonValue::Array(ts))
        },
        None => None,
    };
    assert(crate::conversation::opt_model(tv) == match tsm {
        Some(ts) => Some(Json::Array(ts)),
        None => None,
    });
    push_opt_member(&mut ms, "tools", tv);
    push_opt_member(&mut ms, "tool_choice", tool_choice);
    let st = match stream {
        Some(b) => Some(JsonValue::Bool(b)),
        None => None,
    };
    assert(crate::conversation::opt_model(st) == match stream {
        Some(b) => Some(Json::Bool(b)),
        None => None,
    });
    push_opt_member(&mut ms, "stream", st);
    assert(crate::json::members_model(ms@) =~= anthropic_body_model(model@, max_tokens, sm, mm, tpm, tsm, cm, stream)->Object_0);
    object_of(ms)
}

} // verus!

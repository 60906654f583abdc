//! The Ollama chat protocol: reading the lines of a streamed answer into
//! answer pieces, and tidying the JSON of a structured answer.

use vstd::prelude::*;
use crate::json::{Json, JsonValue, get_str, json_get, parse_json, json_parse};
use crate::llm::{ChunkModel, StopReason, StopReasonModel, StreamChunk, chunk_model, chunks_model};
use crate::text::{
    all_ascii_digits, chars_of, decimal, decimal_chars, digits_value, find, find_chars, lemma_find_from_append, push_all,
    skip_chars, string_of, take_chars, trim, trim_chars,
};

verus! {

/// A member that is present and not `null`.
pub open spec fn present(j: Json, k: Seq<char>) -> Option<Json> {
    match json_get(j, k) {
        Some(Json::Null) => None,
        Some(v) => Some(v),
        None => None,
    }
}

/// An optional string member: absent, `null` or a string.
pub open spec fn valid_opt_str(j: Json, k: Seq<char>) -> bool {
    match present(j, k) {
        None => true,
        Some(Json::Str(_)) => true,
        _ => false,
    }
}

/// An optional `u32` member: absent, `null` or a non-negative integer
/// that fits.
pub open spec fn valid_opt_u32(j: Json, k: Seq<char>) -> bool {
    match present(j, k) {
        None => true,
        Some(Json::Number(t)) => t.len() > 0 && all_ascii_digits(t) && digits_value(t) <= u32::MAX,
        _ => false,
    }
}

/// An optional list of strings: absent, `null` or an array of strings.
pub open spec fn valid_opt_str_list(j: Json, k: Seq<char>) -> bool {
    match present(j, k) {
        None => true,
        Some(Json::Array(vs)) => forall|i: int| 0 <= i < vs.len() ==> (#[trigger] vs[i]) is Str,
        _ => false,
    }
}

/// A tool call as the stream gives it.
pub struct ToolCallModel {
    pub id: Option<Seq<char>>,
    pub name: Seq<char>,
    pub arguments: Json,
}

/// A well-formed tool call: an object with an optional string `id`, a
/// string `type` and a `function` object holding a string `name` and some
/// `arguments`.
pub open spec fn valid_tool_call(t: Json) -> bool {
    &&& t is Object
    &&& valid_opt_str(t, "id"@)
    &&& get_str(t, "type"@) is Some
    &&& json_get(t, "function"@) matches Some(f) && f is Object && get_str(f, "name"@) is Some
        && json_get(f, "arguments"@) is Some
}

/// The model of a well-formed tool call.
pub open spec fn tool_call_model(t: Json) -> ToolCallModel {
    let f = json_get(t, "function"@)->Some_0;
    ToolCallModel {
        id: match present(t, "id"@) {
            Some(Json::Str(i)) => Some(i),
            _ => None,
        },
        name: get_str(f, "name"@)->Some_0,
        arguments: json_get(f, "arguments"@)->Some_0,
    }
}

/// The message of a line.
pub struct MessageModel {
    pub content: Seq<char>,
    pub tool_calls: Option<Seq<ToolCallModel>>,
}

/// A well-formed message: an object with string `role` and `content`, and
/// optional `images` (strings), `tool_call_id` (a string) and
/// `tool_calls` (well-formed calls).
pub open spec fn valid_message(m: Json) -> bool {
    &&& m is Object
    &&& get_str(m, "role"@) is Some
    &&& get_str(m, "content"@) is Some
    &&& valid_opt_str_list(m, "images"@)
    &&& valid_opt_str(m, "tool_call_id"@)
    &&& match present(m, "tool_calls"@) {
        None => true,
        Some(Json::Array(vs)) => forall|i: int| 0 <= i < vs.len() ==> valid_tool_call(#[trigger] vs[i]),
        _ => false,
    }
}

/// The model of a well-formed message.
pub open spec fn message_model(m: Json) -> MessageModel {
    MessageModel {
        content: get_str(m, "content"@)->Some_0,
        tool_calls: match present(m, "tool_calls"@) {
            Some(Json::Array(vs)) => Some(vs.map_values(|t: Json| tool_call_model(t))),
            _ => None,
        },
    }
}

/// One line of a streamed answer.
pub struct LineModel {
    pub message: Option<MessageModel>,
    pub content: Option<Seq<char>>,
    pub done: bool,
    pub done_reason: Option<Seq<char>>,
}

/// A well-formed line: an object with a boolean `done`, optional string
/// `content` and `done_reason`, optional `u32` counters and an optional
/// well-formed `message`.
pub open spec fn valid_line(j: Json) -> bool {
    &&& j is Object
    &&& json_get(j, "done"@) matches Some(Json::Bool(_))
    &&& valid_opt_str(j, "content"@)
    &&& valid_opt_str(j, "done_reason"@)
    &&& valid_opt_u32(j, "prompt_eval_count"@)
    &&& valid_opt_u32(j, "eval_count"@)
    &&& match present(j, "message"@) {
        None => true,
        Some(m) => valid_message(m),
    }
}

/// The model of a line, when it is well-formed.
pub open spec fn line_model(j: Json) -> Option<LineModel> {
    if valid_line(j) {
        Some(
            LineModel {
                message: match present(j, "message"@) {
                    Some(m) => Some(message_model(m)),
                    None => None,
                },
                content: match present(j, "content"@) {
                    Some(Json::Str(c)) => Some(c),
                    _ => None,
                },
                done: json_get(j, "done"@)->Some_0->Bool_0,
                done_reason: match present(j, "done_reason"@) {
                    Some(Json::Str(c)) => Some(c),
                    _ => None,
                },
            },
        )
    } else {
        None
    }
}

/// A tool call read from a line.
pub struct OllamaToolCall {
    pub id: Option<String>,
    pub name: String,
    pub arguments: JsonValue,
}

/// The message of a line, read.
pub struct OllamaMessage {
    pub content: String,
    pub tool_calls: Option<Vec<OllamaToolCall>>,
}

/// A line of a streamed answer, read.
pub struct OllamaLine {
    pub message: Option<OllamaMessage>,
    pub content: Option<String>,
    pub done: bool,
    pub done_reason: Option<String>,
}

/// The model of an optional string.
pub open spec fn opt_text(o: Option<String>) -> Option<Seq<char>> {
    match o {
        Some(t) => Some(t@),
        None => None,
    }
}

/// The model of a read tool call.
pub open spec fn ollama_tool_call_model(t: OllamaToolCall) -> ToolCallModel {
    ToolCallModel { id: opt_text(t.id), name: t.name@, arguments: t.arguments.model() }
}

/// The model of a read line.
pub open spec fn ollama_line_model(l: OllamaLine) -> LineModel {
    LineModel {
        message: match l.message {
            Some(m) => Some(
                MessageModel {
                    content: m.content@,
                    tool_calls: match m.tool_calls {
                        Some(v) => Some(v@.map_values(|t: OllamaToolCall| ollama_tool_call_model(t))),
                        None => None,
                    },
                },
            ),
            None => None,
        },
        content: opt_text(l.content),
        done: l.done,
        done_reason: opt_text(l.done_reason),
    }
}

pub(crate) fn present_value<'a>(j: &'a JsonValue, k: &str) -> (r: Option<&'a JsonValue>)
    ensures
        match present(j.model(), k@) {
            Some(p) => r matches Some(v) && v.model() == p,
            None => r is None,
        },
{
    match j.get_key(k) {
        Some(p) => {
            if p.is_null() {
                None
            } else {
                Some(p)
            }
        },
        None => None,
    }
}

pub(crate) fn check_opt_str(j: &JsonValue, k: &str) -> (r: bool)
    ensures
        r == valid_opt_str(j.model(), k@),
{
    match present_value(j, k) {
        None => true,
        Some(JsonValue::Str(_)) => true,
        Some(_) => false,
    }
}

pub(crate) fn check_opt_u32(j: &JsonValue, k: &str) -> (r: bool)
    ensures
        r == valid_opt_u32(j.model(), k@),
{
    match present_value(j, k) {
        None => true,
        Some(JsonValue::Number(t)) => {
            let c = chars_of(t.as_str());
            if c.len() == 0 {
                return false;
            }
            if c[0] == '+' {
                return false;
            }
            match crate::text::parse_u64(t.as_str()) {
                Some(v) => v <= 4294967295u64,
                None => {
                    proof {
                        if all_ascii_digits(c@) {
                            assert(digits_value(c@) > u64::MAX);
                        }
                    }
                    false
                },
            }
        },
        Some(_) => false,
    }
}

#[verifier::loop_isolation(false)]
fn check_opt_str_list(j: &JsonValue, k: &str) -> (r: bool)
    ensures
        r == valid_opt_str_list(j.model(), k@),
{
    match present_value(j, k) {
        None => true,
        Some(JsonValue::Array(items)) => {
            proof {
                crate::json::lemma_array_model(*items);
            }
            let mut i: usize = 0;
            while i < items.len()
                invariant
                    i <= items.len(),
                    forall|q: int| 0 <= q < i ==> (#[trigger] items@[q]).model() is Str,
                decreases items.len() - i,
            {
                match &items[i] {
                    JsonValue::Str(_) => {},
                    _ => {
                        assert(!(items@[i as int].model() is Str));
                        assert(items@.map_values(|v: JsonValue| v.model())[i as int] == items@[i as int].model());
                        return false;
                    },
                }
                i = i + 1;
            }
            true
        },
        Some(_) => false,
    }
}

fn read_tool_call(t: &JsonValue) -> (r: Option<OllamaToolCall>)
    ensures
        valid_tool_call(t.model()) <==> r is Some,
        r matches Some(c) ==> ollama_tool_call_model(c) == tool_call_model(t.model()),
{
    if !t.is_object() || !check_opt_str(t, "id") {
        return None;
    }
    match t.get_key("type") {
        Some(JsonValue::Str(_)) => {},
        _ => return None,
    }
    let f = match t.get_key("function") {
        Some(f) => f,
        None => return None,
    };
    if !f.is_object() {
        return None;
    }
    let name = match f.get_str("name") {
        Some(n) => n,
        None => return None,
    };
    let arguments = match f.get_key("arguments") {
        Some(a) => a.duplicate(),
        None => return None,
    };
    let id = match present_value(t, "id") {
        Some(JsonValue::Str(i)) => Some(i.clone()),
        _ => None,
    };
    Some(OllamaToolCall { id, name, arguments })
}

#[verifier::loop_isolation(false)]
fn read_message(m: &JsonValue) -> (r: Option<OllamaMessage>)
    ensures
        valid_message(m.model()) <==> r is Some,
        r matches Some(x) ==> ollama_line_model(
            OllamaLine { message: Some(x), content: None, done: false, done_reason: None },
        ).message == Some(message_model(m.model())),
{
    if !m.is_object() {
        return None;
    }
    if m.get_str("role").is_none() {
        return None;
    }
    let content = match m.get_str("content") {
        Some(c) => c,
        None => return None,
    };
    if !check_opt_str_list(m, "images") || !check_opt_str(m, "tool_call_id") {
        return None;
    }
    let tool_calls: Option<Vec<OllamaToolCall>> = match present_value(m, "tool_calls") {
        None => None,
        Some(JsonValue::Array(items)) => {
            proof {
                crate::json::lemma_array_model(*items);
            }
            let ghost vs = items@.map_values(|v: JsonValue| v.model());
            let mut out: Vec<OllamaToolCall> = Vec::new();
            let mut i: usize = 0;
            while i < items.len()
                invariant
                    i <= items.len(),
                    vs == items@.map_values(|v: JsonValue| v.model()),
                    forall|q: int| 0 <= q < i ==> valid_tool_call(#[trigger] vs[q]),
                    out@.map_values(|t: OllamaToolCall| ollama_tool_call_model(t)) =~= vs.subrange(
                        0,
                        i as int,
                    ).map_values(|t: Json| tool_call_model(t)),
                decreases items.len() - i,
            {
                match read_tool_call(&items[i]) {
                    Some(c) => {
                        let ghost before = out@.map_values(|t: OllamaToolCall| ollama_tool_call_model(t));
                        out.push(c);
                        assert(out@.map_values(|t: OllamaToolCall| ollama_tool_call_model(t)) =~= before.push(
                            tool_call_model(vs[i as int]),
                        ));
                        assert(vs.subrange(0, i + 1) =~= vs.subrange(0, i as int).push(vs[i as int]));
                    },
                    None => {
                        assert(!valid_tool_call(vs[i as int]));
                        assert(!valid_message(m.model()));
                        return None;
                    },
                }
                i = i + 1;
            }
            assert(vs.subrange(0, items.len() as int) =~= vs);
            Some(out)
        },
        Some(_) => return None,
    };
    Some(OllamaMessage { content, tool_calls })
}

/// Reads a line of a streamed answer (see `line_model`).
pub fn read_line(j: &JsonValue) -> (r: Option<OllamaLine>)
    ensures
        match line_model(j.model()) {
            Some(l) => r matches Some(x) && ollama_line_model(x) == l,
            None => r is None,
        },
{
    if !j.is_object() {
        return None;
    }
    let done = match j.get_key("done") {
        Some(JsonValue::Bool(b)) => *b,
        _ => return None,
    };
    if !check_opt_str(j, "content") || !check_opt_str(j, "done_reason") || !check_opt_u32(
        j,
        "prompt_eval_count",
    ) || !check_opt_u32(j, "eval_count") {
        return None;
    }
    let message = match present_value(j, "message") {
        None => None,
        Some(m) => match read_message(m) {
            Some(x) => Some(x),
            None => return None,
        },
    };
    let content = match present_value(j, "content") {
        Some(JsonValue::Str(c)) => Some(c.clone()),
        _ => None,
    };
    let done_reason = match present_value(j, "done_reason") {
        Some(JsonValue::Str(c)) => Some(c.clone()),
        _ => None,
    };
    Some(OllamaLine { message, content, done, done_reason })
}

/// What a stream reader remembers of the tool calls: the ids already
/// announced, and whether a tool call was announced at all.
pub struct AnnounceState {
    pub emitted: Seq<Seq<char>>,
    pub had: bool,
}

/// The state of a stream reader: the text received after the last full
/// line, and what it remembers of the tool calls.
pub struct DecoderModel {
    pub buffer: Seq<char>,
    pub announce: AnnounceState,
}

/// The id a tool call is known by: its own, else `call_` and its position
/// in the line.
pub open spec fn stable_id(t: ToolCallModel, idx: nat) -> Seq<char> {
    match t.id {
        Some(i) => i,
        None => "call_"@ + decimal(idx),
    }
}

/// The pieces for the tool calls of a line, in order: each call not yet
/// announced is announced (and remembered), then every call is given whole.
pub open spec fn tool_calls_chunks(st: AnnounceState, tcs: Seq<ToolCallModel>) -> (AnnounceState, Seq<ChunkModel>)
    decreases tcs.len(),
{
    if tcs.len() == 0 {
        (st, seq![])
    } else {
        let (s1, c1) = tool_calls_chunks(st, tcs.drop_last());
        let t = tcs.last();
        let id = stable_id(t, (tcs.len() - 1) as nat);
        let (s2, c2) = if s1.emitted.contains(id) {
            (s1, Seq::<ChunkModel>::empty())
        } else {
            (
                AnnounceState { emitted: s1.emitted.push(id), had: true },
                seq![ChunkModel::ToolCallStart(id, t.name)],
            )
        };
        (s2, c1 + c2 + seq![ChunkModel::ToolCallEnd(id, t.name, t.arguments)])
    }
}

/// Why the model stopped, once it said it was done: tool use when a tool
/// call was announced, else `length` means the token limit, anything else
/// the end of the turn.
pub open spec fn stop_of(reason: Option<Seq<char>>, had: bool) -> StopReasonModel {
    if had {
        StopReasonModel::ToolUse
    } else {
        match reason {
            Some(r) => if r == "length"@ {
                StopReasonModel::MaxTokens
            } else {
                StopReasonModel::EndTurn
            },
            None => StopReasonModel::EndTurn,
        }
    }
}

/// A text as a piece, when not empty.
pub open spec fn text_piece(t: Seq<char>) -> Seq<ChunkModel> {
    if t.len() > 0 {
        seq![ChunkModel::TextDelta(t)]
    } else {
        seq![]
    }
}

/// The pieces a line gives: the message's tool calls, else its text; the
/// top-level text when there is no message; then the end, when the line
/// says the answer is done.
pub open spec fn line_chunks(st: AnnounceState, l: LineModel) -> (AnnounceState, Seq<ChunkModel>) {
    let (s1, c1) = match l.message {
        Some(m) => match m.tool_calls {
            Some(tcs) => tool_calls_chunks(st, tcs),
            None => (st, text_piece(m.content)),
        },
        None => (
            st,
            match l.content {
                Some(c) => text_piece(c),
                None => seq![],
            },
        ),
    };
    if l.done {
        (s1, c1.push(ChunkModel::Done(stop_of(l.done_reason, s1.had))))
    } else {
        (s1, c1)
    }
}

/// The pieces a received line gives: nothing when blank, not JSON or not a
/// well-formed line.
pub open spec fn process_line(st: AnnounceState, line: Seq<char>) -> (AnnounceState, Seq<ChunkModel>) {
    let t = trim(line);
    if t.len() == 0 {
        (st, seq![])
    } else {
        match json_parse(t) {
            Some(j) => match line_model(j) {
                Some(l) => line_chunks(st, l),
                None => (st, seq![]),
            },
            None => (st, seq![]),
        }
    }
}

/// The pieces of received lines, in order.
pub open spec fn process_lines(st: AnnounceState, ls: Seq<Seq<char>>) -> (AnnounceState, Seq<ChunkModel>)
    decreases ls.len(),
{
    if ls.len() == 0 {
        (st, seq![])
    } else {
        let (s1, c1) = process_lines(st, ls.drop_last());
        let (s2, c2) = process_line(s1, ls.last());
        (s2, c1 + c2)
    }
}

/// The full lines of a text (each with its `\n`), and what follows the
/// last one.
pub open spec fn full_lines(buf: Seq<char>) -> (Seq<Seq<char>>, Seq<char>)
    decreases buf.len(),
{
    match find(buf, seq!['\n']) {
        None => (seq![], buf),
        Some(p) => {
            proof {
                crate::text::lemma_find_bounds(buf, seq!['\n']);
            }
            let (ls, rest) = full_lines(buf.subrange(p + 1, buf.len() as int));
            (seq![buf.subrange(0, p + 1)] + ls, rest)
        },
    }
}

/// Receiving text: appended to what was left, its full lines read in
/// order, the rest kept for later.
pub open spec fn feed_model(st: DecoderModel, text: Seq<char>) -> (DecoderModel, Seq<ChunkModel>) {
    let (ls, rest) = full_lines(st.buffer + text);
    let (a, cs) = process_lines(st.announce, ls);
    (DecoderModel { buffer: rest, announce: a }, cs)
}

/// Reads the stream of an Ollama chat answer, one line of JSON per event.
pub struct OllamaStreamDecoder {
    pub buffer: Vec<char>,
    pub emitted: Vec<String>,
    pub had_any_tool_call: bool,
}

impl OllamaStreamDecoder {
    pub open spec fn announce_model(&self) -> AnnounceState {
        AnnounceState { emitted: self.emitted@.map_values(|s: String| s@), had: self.had_any_tool_call }
    }

    pub open spec fn model(&self) -> DecoderModel {
        DecoderModel { buffer: self.buffer@, announce: self.announce_model() }
    }

    /// A reader that has received nothing.
    pub fn new() -> (r: OllamaStreamDecoder)
        ensures
            r.model() == (DecoderModel { buffer: seq![], announce: AnnounceState { emitted: seq![], had: false } }),
    {
        let r = OllamaStreamDecoder { buffer: Vec::new(), emitted: Vec::new(), had_any_tool_call: false };
        assert(r.model().announce.emitted =~= Seq::<Seq<char>>::empty());
        assert(r.model().buffer =~= Seq::<char>::empty());
        r
    }

    fn announced(&self, id: &str) -> (r: bool)
        ensures
            r == self.announce_model().emitted.contains(id@),
    {
        let ghost e = self.announce_model().emitted;
        let mut i: usize = 0;
        while i < self.emitted.len()
            invariant
                i <= self.emitted.len(),
                e == self.emitted@.map_values(|s: String| s@),
                forall|q: int| 0 <= q < i ==> e[q] != id@,
            decreases self.emitted.len() - i,
        {
            if crate::json::str_eq(self.emitted[i].as_str(), id) {
                assert(e[i as int] == id@);
                return true;
            }
            i = i + 1;
        }
        false
    }

    fn tool_calls_pieces(&mut self, tcs: &Vec<OllamaToolCall>, out: &mut Vec<StreamChunk>)
        ensures
            ({
                let (s2, c2) = tool_calls_chunks(
                    old(self).announce_model(),
                    tcs@.map_values(|t: OllamaToolCall| ollama_tool_call_model(t)),
                );
                &&& final(self).announce_model() == s2
                &&& final(self).buffer@ == old(self).buffer@
                &&& chunks_model(final(out)@) == chunks_model(old(out)@) + c2
            }),
    {
        let ghost st0 = self.announce_model();
        let ghost out0 = chunks_model(out@);
        let ghost ms = tcs@.map_values(|t: OllamaToolCall| ollama_tool_call_model(t));
        let mut i: usize = 0;
        assert(ms.subrange(0, 0) =~= Seq::<ToolCallModel>::empty());
        assert(chunks_model(out@) =~= out0 + Seq::<ChunkModel>::empty());
        while i < tcs.len()
            invariant
                i <= tcs.len(),
                ms == tcs@.map_values(|t: OllamaToolCall| ollama_tool_call_model(t)),
                self.announce_model() == tool_calls_chunks(st0, ms.subrange(0, i as int)).0,
                chunks_model(out@) == out0 + tool_calls_chunks(st0, ms.subrange(0, i as int)).1,
                self.buffer@ == old(self).buffer@,
            decreases tcs.len() - i,
        {
            let ghost before = chunks_model(out@);
            let ghost sub = ms.subrange(0, i + 1);
            assert(sub.drop_last() =~= ms.subrange(0, i as int));
            assert(sub.last() == ollama_tool_call_model(tcs@[i as int]));
            let tc = &tcs[i];
            let id: String = match &tc.id {
                Some(x) => x.clone(),
                None => {
                    let mut v = chars_of("call_");
                    let d = decimal_chars(i);
                    push_all(&mut v, &d);
                    string_of(&v)
                },
            };
            assert(id@ == stable_id(ms[i as int], i as nat));
            let ghost prev = tool_calls_chunks(st0, ms.subrange(0, i as int));
            let ghost t = ms[i as int];
            let was = self.announced(id.as_str());
            if !was {
                let ghost em = self.announce_model().emitted;
                self.emitted.push(id.clone());
                self.had_any_tool_call = true;
                assert(self.announce_model().emitted =~= em.push(id@));
                out.push(StreamChunk::ToolCallStart { id: id.clone(), name: tc.name.clone() });
                assert(chunks_model(out@) =~= before.push(ChunkModel::ToolCallStart(id@, t.name)));
            } else {
                assert(chunks_model(out@) =~= before);
            }
            let ghost mid = chunks_model(out@);
            out.push(StreamChunk::ToolCallEnd { id, name: tc.name.clone(), arguments: tc.arguments.duplicate() });
            assert(chunks_model(out@) =~= mid.push(ChunkModel::ToolCallEnd(stable_id(t, i as nat), t.name, t.arguments)));
            proof {
                let c2: Seq<ChunkModel> = if was {
                    Seq::<ChunkModel>::empty()
                } else {
                    seq![ChunkModel::ToolCallStart(stable_id(t, i as nat), t.name)]
                };
                assert(tool_calls_chunks(st0, sub).1 == prev.1 + c2 + seq![
                    ChunkModel::ToolCallEnd(stable_id(t, i as nat), t.name, t.arguments),
                ]);
                assert(chunks_model(out@) =~= out0 + tool_calls_chunks(st0, sub).1);
            }
            i = i + 1;
        }
        assert(ms.subrange(0, tcs.len() as int) =~= ms);
    }

    fn line_pieces(&mut self, l: &OllamaLine, out: &mut Vec<StreamChunk>)
        ensures
            ({
                let (s2, c2) = line_chunks(old(self).announce_model(), ollama_line_model(*l));
                &&& final(self).announce_model() == s2
                &&& final(self).buffer@ == old(self).buffer@
                &&& chunks_model(final(out)@) == chunks_model(old(out)@) + c2
            }),
    {
        let ghost st0 = self.announce_model();
        let ghost out0 = chunks_model(out@);
        match &l.message {
            Some(m) => match &m.tool_calls {
                Some(tcs) => {
                    self.tool_calls_pieces(tcs, out);
                },
                None => {
                    let c = chars_of(m.content.as_str());
                    if c.len() > 0 {
                        out.push(StreamChunk::TextDelta { text: m.content.clone() });
                    }
                    assert(chunks_model(out@) =~= out0 + text_piece(m.content@));
                },
            },
            None => match &l.content {
                Some(t) => {
                    let c = chars_of(t.as_str());
                    if c.len() > 0 {
                        out.push(StreamChunk::TextDelta { text: t.clone() });
                    }
                    assert(chunks_model(out@) =~= out0 + text_piece(t@));
                },
                None => {
                    assert(chunks_model(out@) =~= out0 + Seq::<ChunkModel>::empty());
                },
            },
        }
        if l.done {
            let ghost mid = chunks_model(out@);
            let stop = if self.had_any_tool_call {
                StopReason::ToolUse
            } else {
                match &l.done_reason {
                    Some(r) => {
                        if crate::json::str_eq(r.as_str(), "length") {
                            StopReason::MaxTokens
                        } else {
                            StopReason::EndTurn
                        }
                    },
                    None => StopReason::EndTurn,
                }
            };
            out.push(StreamChunk::Done { stop_reason: stop });
            assert(chunks_model(out@) =~= mid.push(ChunkModel::Done(crate::llm::stop_model(stop))));
        }
    }

    fn line_from_text(&mut self, line: &Vec<char>, out: &mut Vec<StreamChunk>)
        ensures
            ({
                let (s2, c2) = process_line(old(self).announce_model(), line@);
                &&& final(self).announce_model() == s2
                &&& final(self).buffer@ == old(self).buffer@
                &&& chunks_model(final(out)@) == chunks_model(old(out)@) + c2
            }),
    {
        let ghost out0 = chunks_model(out@);
        let t = trim_chars(line);
        if t.len() == 0 {
            assert(chunks_model(out@) =~= out0 + Seq::<ChunkModel>::empty());
            return;
        }
        let ts = string_of(&t);
        match parse_json(ts.as_str()) {
            Ok(j) => match read_line(&j) {
                Some(l) => {
                    self.line_pieces(&l, out);
                },
                None => {
                    assert(chunks_model(out@) =~= out0 + Seq::<ChunkModel>::empty());
                },
            },
            Err(_) => {
                assert(chunks_model(out@) =~= out0 + Seq::<ChunkModel>::empty());
            },
        }
    }
}

impl OllamaStreamDecoder {
    /// Receives bytes of the answer: the pieces of every line completed,
    /// in order (see `feed_model`).
    pub fn feed(&mut self, bytes: &[u8]) -> (r: Vec<StreamChunk>)
        ensures
            ({
                let (s2, c) = feed_model(old(self).model(), crate::text::utf8_lossy(bytes@));
                &&& final(self).model() == s2
                &&& chunks_model(r@) == c
            }),
    {
        let ghost st0 = self.model();
        let text = crate::text::utf8_lossy_chars(bytes);
        let mut rest: Vec<char> = Vec::new();
        std::mem::swap(&mut rest, &mut self.buffer);
        push_all(&mut rest, &text);
        let ghost all = rest@;
        let nl: Vec<char> = vec!['\n'];
        assert(nl@ =~= seq!['\n']);
        let mut out: Vec<StreamChunk> = Vec::new();
        let ghost mut done: Seq<Seq<char>> = seq![];
        let mut more = true;
        assert(done + full_lines(rest@).0 =~= full_lines(all).0);
        assert(chunks_model(out@) =~= Seq::<ChunkModel>::empty());
        while more
            invariant
                all == st0.buffer + crate::text::utf8_lossy(bytes@),
                nl@ == seq!['\n'],
                done + full_lines(rest@).0 == full_lines(all).0,
                full_lines(rest@).1 == full_lines(all).1,
                self.announce_model() == process_lines(st0.announce, done).0,
                chunks_model(out@) == process_lines(st0.announce, done).1,
                !more ==> find(rest@, nl@) is None,
            decreases rest@.len() + if more { 1int } else { 0int },
        {
            match find_chars(&rest, &nl) {
                None => {
                    more = false;
                },
                Some(p) => {
                    let n = rest.len();
                    proof {
                        crate::text::lemma_find_bounds(rest@, nl@);
                        assert(find(rest@, nl@) == Some(p as int));
                        assert(nl@.len() == 1);
                        assert(p + 1 <= rest@.len());
                        assert(p + 1 <= n);
                    }
                    let line = take_chars(&rest, p + 1);
                    let tail = skip_chars(&rest, p + 1);
                    let ghost prev = process_lines(st0.announce, done);
                    let ghost out_before = chunks_model(out@);
                    self.line_from_text(&line, &mut out);
                    proof {
                        let d2 = done.push(line@);
                        assert(d2.drop_last() =~= done);
                        assert(full_lines(rest@).0 =~= seq![line@] + full_lines(tail@).0);
                        assert(d2 + full_lines(tail@).0 =~= done + full_lines(rest@).0);
                        done = d2;
                    }
                    rest = tail;
                },
            }
        }
        proof {
            assert(full_lines(rest@).0 =~= Seq::<Seq<char>>::empty());
            assert(done =~= full_lines(all).0);
        }
        self.buffer = rest;
        out
    }
}

/// A structured answer's text once its Markdown fence is removed: trimmed,
/// and when it opens with three backquotes, without its leading
/// backquotes, a leading `json` (repeated), its trailing backquotes and
/// surrounding whitespace.
pub open spec fn fence_cleaned(content: Seq<char>) -> Seq<char> {
    let c = trim(content);
    if crate::text::starts_with(c, "```"@) {
        trim(
            crate::text::trim_char_end(
                crate::text::strip_prefix_repeat(crate::text::trim_char_start(c, '`'), "json"@),
                '`',
            ),
        )
    } else {
        c
    }
}

/// Removes the Markdown fence around a structured answer (see
/// `fence_cleaned`).
pub fn clean_fenced_json(content: &str) -> (r: String)
    ensures
        r@ == fence_cleaned(content@),
{
    let c0 = chars_of(content);
    let c = trim_chars(&c0);
    if !crate::intake::starts_with_str(&c, "```") {
        return string_of(&c);
    }
    let a = crate::text::trim_char_start_chars(&c, '`');
    let json = chars_of("json");
    let b = crate::text::strip_prefix_repeat_chars(&a, &json);
    let d = crate::text::trim_char_end_chars(&b, '`');
    let e = trim_chars(&d);
    string_of(&e)
}

/// Whether Ollama refused the JSON schema given as output format, so that
/// the call is made again asking for plain JSON.
pub open spec fn schema_refused(status: u16, raw: Seq<char>) -> bool {
    status == 500 && crate::text::contains(raw, "invalid JSON schema in format"@)
}

/// Whether to call again with plain JSON as output format (see
/// `schema_refused`).
pub fn should_retry_with_json_format(status: u16, raw: &str) -> (r: bool)
    ensures
        r == schema_refused(status, raw@),
{
    if status != 500 {
        return false;
    }
    let c = chars_of(raw);
    crate::intake::contains_str(&c, "invalid JSON schema in format")
}

/// The message used when Ollama's answer is JSON but not a chat answer.
pub open spec fn unreadable_answer() -> Seq<char> {
    "réponse Ollama illisible"@
}

/// The outcome of a structured call from Ollama's status and body: a
/// failure status is reported with the body; a body that is not JSON is
/// reported with the parser's message; an answer that is not a chat
/// answer, or that lacks its message, is unreadable; an answer cut at the
/// token limit is truncated; otherwise the message's text, once its fence
/// is removed, must be JSON.
pub open spec fn extraction_outcome(status: u16, raw: Seq<char>) -> Result<Json, ExtractionFailure> {
    if status != 200 {
        Err(ExtractionFailure::Status)
    } else {
        match json_parse(raw) {
            None => Err(ExtractionFailure::NotJsonBody),
            Some(j) => match line_model(j) {
                None => Err(ExtractionFailure::Unreadable),
                Some(l) => if l.done_reason == Some("length"@) {
                    Err(ExtractionFailure::Truncated)
                } else {
                    match l.message {
                        None => Err(ExtractionFailure::MissingMessage),
                        Some(m) => match json_parse(fence_cleaned(m.content)) {
                            Some(v) => Ok(v),
                            None => Err(ExtractionFailure::NotJson(fence_cleaned(m.content))),
                        },
                    }
                },
            },
        }
    }
}

/// Why a structured call failed.
pub enum ExtractionFailure {
    Status,
    NotJsonBody,
    Unreadable,
    Truncated,
    MissingMessage,
    NotJson(Seq<char>),
}

/// The outcome of a structured call (see `extraction_outcome`): the errors
/// carry the status and body, the step `schema_name`, or the cleaned text
/// and the parser's message.
pub fn extraction_result(status: u16, raw: &str, schema_name: &str) -> (r: Result<JsonValue, crate::llm::LlmError>)
    ensures
        match extraction_outcome(status, raw@) {
            Ok(v) => r matches Ok(x) && x.model() == v,
            Err(ExtractionFailure::Status) => r matches Err(crate::llm::LlmError::ProviderStatus { status: s, body })
                && s == status && body@ == raw@,
            Err(ExtractionFailure::NotJsonBody) => r matches Err(crate::llm::LlmError::Json(m)) && m@
                == crate::json::json_parse_error(raw@),
            Err(ExtractionFailure::Unreadable) => r matches Err(crate::llm::LlmError::Json(m)) && m@ == unreadable_answer(),
            Err(ExtractionFailure::Truncated) => r matches Err(crate::llm::LlmError::Truncated { step, partial_payload })
                && step@ == schema_name@ && partial_payload@ == raw@,
            Err(ExtractionFailure::MissingMessage) => r matches Err(crate::llm::LlmError::Json(m)) && m@ == "Missing message"@,
            Err(ExtractionFailure::NotJson(t)) => r matches Err(crate::llm::LlmError::ParseFailed { step, error, payload })
                && step@ == schema_name@ && payload@ == t && error@ == crate::json::json_parse_error(t),
        },
{
    if status != 200 {
        return Err(crate::llm::LlmError::ProviderStatus { status, body: raw.to_owned() });
    }
    let j = match parse_json(raw) {
        Ok(j) => j,
        Err(e) => return Err(crate::llm::LlmError::Json(e)),
    };
    let l = match read_line(&j) {
        Some(l) => l,
        None => return Err(crate::llm::LlmError::Json("réponse Ollama illisible".to_owned())),
    };
    match &l.done_reason {
        Some(reason) => {
            if crate::json::str_eq(reason.as_str(), "length") {
                return Err(
                    crate::llm::LlmError::Truncated { step: schema_name.to_owned(), partial_payload: raw.to_owned() },
                );
            }
        },
        None => {},
    }
    let m = match &l.message {
        Some(m) => m,
        None => return Err(crate::llm::LlmError::Json("Missing message".to_owned())),
    };
    let cleaned = clean_fenced_json(m.content.as_str());
    match parse_json(cleaned.as_str()) {
        Ok(v) => Ok(v),
        Err(e) => Err(crate::llm::LlmError::ParseFailed { step: schema_name.to_owned(), error: e, payload: cleaned }),
    }
}

/// The value of an optional `u32` member; 0 when it is absent.
pub open spec fn opt_u32_value(j: Json, k: Seq<char>) -> nat {
    match present(j, k) {
        Some(Json::Number(t)) => digits_value(t),
        _ => 0,
    }
}

fn opt_u32_of(j: &JsonValue, k: &str) -> (r: u32)
    requires
        valid_opt_u32(j.model(), k@),
    ensures
        r == opt_u32_value(j.model(), k@),
{
    match present_value(j, k) {
        Some(JsonValue::Number(t)) => {
            match crate::text::parse_u64(t.as_str()) {
                Some(v) => v as u32,
                None => 0,
            }
        },
        _ => 0,
    }
}

/// Why a complete answer could not be read.
pub enum CompletionFailure {
    Status,
    NotJsonBody,
    Unreadable,
    MissingMessage,
}

/// The outcome of a complete (not streamed) chat call from Ollama's status
/// and body: a failure status, a body that is not JSON, an answer that is
/// not a chat answer, or one without a message fail; otherwise the
/// message, and the prompt and answer token counts (0 when absent).
pub open spec fn completion_outcome(status: u16, raw: Seq<char>) -> Result<(MessageModel, nat, nat), CompletionFailure> {
    if status != 200 {
        Err(CompletionFailure::Status)
    } else {
        match json_parse(raw) {
            None => Err(CompletionFailure::NotJsonBody),
            Some(j) => match line_model(j) {
                None => Err(CompletionFailure::Unreadable),
                Some(l) => match l.message {
                    None => Err(CompletionFailure::MissingMessage),
                    Some(m) => Ok((m, opt_u32_value(j, "prompt_eval_count"@), opt_u32_value(j, "eval_count"@))),
                },
            },
        }
    }
}

/// The tool calls of a message, none when it has no list.
pub open spec fn message_calls(m: MessageModel) -> Seq<ToolCallModel> {
    match m.tool_calls {
        Some(cs) => cs,
        None => seq![],
    }
}

/// A tool call of the answer that keeps the name and arguments of the
/// call read, and its id when it had one.
pub open spec fn answers_call(c: crate::llm::ToolCall, t: ToolCallModel) -> bool {
    &&& c.name@ == t.name
    &&& c.arguments.model() == t.arguments
    &&& t.id matches Some(i) ==> c.id@ == i
}

/// Reads a complete chat answer of `model` from Ollama (see
/// `completion_outcome`): its text, its tool calls in order (a call
/// without an id gets a fresh random one), and its token counts. A failure
/// status carries the body, a body that is not JSON the parser's message.
#[verifier::loop_isolation(false)]
pub fn completion_result(status: u16, raw: &str, model: &str) -> (r: Result<
    crate::anthropic::Completion,
    crate::llm::LlmError,
>)
    ensures
        match completion_outcome(status, raw@) {
            Ok((m, tin, tout)) => r matches Ok(c) && {
                &&& c.text@ == m.content
                &&& c.model@ == model@
                &&& c.tokens_in == tin
                &&& c.tokens_out == tout
                &&& c.tool_calls@.len() == message_calls(m).len()
                &&& forall|i: int|
                    0 <= i < c.tool_calls@.len() ==> answers_call(#[trigger] c.tool_calls@[i], message_calls(m)[i])
            },
            Err(CompletionFailure::Status) => r matches Err(crate::llm::LlmError::ProviderStatus { status: s, body })
                && s == status && body@ == raw@,
            Err(CompletionFailure::NotJsonBody) => r matches Err(crate::llm::LlmError::Json(e)) && e@
                == crate::json::json_parse_error(raw@),
            Err(CompletionFailure::Unreadable) => r matches Err(crate::llm::LlmError::Json(e)) && e@
                == unreadable_answer(),
            Err(CompletionFailure::MissingMessage) => r matches Err(crate::llm::LlmError::Json(e)) && e@
                == "Missing message"@,
        },
{
    if status != 200 {
        return Err(crate::llm::LlmError::ProviderStatus { status, body: raw.to_owned() });
    }
    let j = match parse_json(raw) {
        Ok(j) => j,
        Err(e) => return Err(crate::llm::LlmError::Json(e)),
    };
    let l = match read_line(&j) {
        Some(l) => l,
        None => return Err(crate::llm::LlmError::Json("réponse Ollama illisible".to_owned())),
    };
    let OllamaLine { message, .. } = l;
    let m = match message {
        Some(m) => m,
        None => return Err(crate::llm::LlmError::Json("Missing message".to_owned())),
    };
    let tokens_in = opt_u32_of(&j, "prompt_eval_count");
    let tokens_out = opt_u32_of(&j, "eval_count");
    let OllamaMessage { content, tool_calls } = m;
    let read: Vec<OllamaToolCall> = match tool_calls {
        Some(cs) => cs,
        None => Vec::new(),
    };
    let ghost rm = read@.map_values(|t: OllamaToolCall| ollama_tool_call_model(t));
    let mut calls: Vec<crate::llm::ToolCall> = Vec::new();
    let mut i: usize = 0;
    while i < read.len()
        invariant
            i <= read.len(),
            rm == read@.map_values(|t: OllamaToolCall| ollama_tool_call_model(t)),
            calls@.len() == i,
            forall|q: int| 0 <= q < i ==> answers_call(#[trigger] calls@[q], rm[q]),
        decreases read.len() - i,
    {
        let t = &read[i];
        let id = match &t.id {
            Some(x) => x.clone(),
            None => crate::clock::new_uuid_v4(),
        };
        calls.push(crate::llm::ToolCall { id, name: t.name.clone(), arguments: t.arguments.duplicate() });
        i = i + 1;
    }
    Ok(crate::anthropic::Completion { text: content, tool_calls: calls, model: model.to_owned(), tokens_in, tokens_out })
}

/// The ids of the tool calls announced among pieces, in order.
pub open spec fn start_ids(cs: Seq<ChunkModel>) -> Seq<Seq<char>>
    decreases cs.len(),
{
    if cs.len() == 0 {
        seq![]
    } else {
        start_ids(cs.drop_last()) + match cs.last() {
            ChunkModel::ToolCallStart(id, _) => seq![id],
            _ => seq![],
        }
    }
}

proof fn lemma_start_ids_single(c: ChunkModel)
    ensures
        start_ids(seq![c]) == match c {
            ChunkModel::ToolCallStart(id, _) => seq![id],
            _ => Seq::<Seq<char>>::empty(),
        },
{
    assert(seq![c].drop_last() =~= Seq::<ChunkModel>::empty());
    assert(start_ids(Seq::<ChunkModel>::empty()) =~= Seq::<Seq<char>>::empty());
    assert(start_ids(seq![c]) =~= start_ids(Seq::<ChunkModel>::empty()) + match c {
        ChunkModel::ToolCallStart(id, _) => seq![id],
        _ => Seq::<Seq<char>>::empty(),
    });
}

proof fn lemma_start_ids_concat(a: Seq<ChunkModel>, b: Seq<ChunkModel>)
    ensures
        start_ids(a + b) == start_ids(a) + start_ids(b),
    decreases b.len(),
{
    if b.len() == 0 {
        assert(a + b =~= a);
        assert(start_ids(b) =~= Seq::<Seq<char>>::empty());
        assert(start_ids(a) + start_ids(b) =~= start_ids(a));
    } else {
        assert((a + b).drop_last() =~= a + b.drop_last());
        assert((a + b).last() == b.last());
        lemma_start_ids_concat(a, b.drop_last());
        assert(start_ids(a + b) =~= start_ids(a) + start_ids(b));
    }
}

proof fn lemma_tool_calls_announce(st: AnnounceState, tcs: Seq<ToolCallModel>)
    ensures
        tool_calls_chunks(st, tcs).0.emitted == st.emitted + start_ids(tool_calls_chunks(st, tcs).1),
        st.emitted.no_duplicates() ==> tool_calls_chunks(st, tcs).0.emitted.no_duplicates(),
        st.had ==> tool_calls_chunks(st, tcs).0.had,
    decreases tcs.len(),
{
    if tcs.len() == 0 {
        assert(st.emitted + start_ids(Seq::<ChunkModel>::empty()) =~= st.emitted);
    } else {
        lemma_tool_calls_announce(st, tcs.drop_last());
        let (s1, c1) = tool_calls_chunks(st, tcs.drop_last());
        let t = tcs.last();
        let id = stable_id(t, (tcs.len() - 1) as nat);
        let end = seq![ChunkModel::ToolCallEnd(id, t.name, t.arguments)];
        if s1.emitted.contains(id) {
            lemma_start_ids_concat(c1 + Seq::<ChunkModel>::empty(), end);
            assert(c1 + Seq::<ChunkModel>::empty() =~= c1);
            lemma_start_ids_single(ChunkModel::ToolCallEnd(id, t.name, t.arguments));
            assert(start_ids(end) =~= Seq::<Seq<char>>::empty());
            assert(start_ids(c1 + Seq::<ChunkModel>::empty() + end) =~= start_ids(c1));
            assert(s1.emitted =~= st.emitted + start_ids(c1 + Seq::<ChunkModel>::empty() + end));
        } else {
            let c2 = seq![ChunkModel::ToolCallStart(id, t.name)];
            lemma_start_ids_concat(c1, c2);
            lemma_start_ids_concat(c1 + c2, end);
            lemma_start_ids_single(ChunkModel::ToolCallStart(id, t.name));
            lemma_start_ids_single(ChunkModel::ToolCallEnd(id, t.name, t.arguments));
            assert(s1.emitted.push(id) =~= st.emitted + start_ids(c1 + c2 + end));
            if s1.emitted.no_duplicates() {
                assert(s1.emitted.push(id).no_duplicates()) by {
                    let e = s1.emitted.push(id);
                    assert forall|i: int, j: int| 0 <= i < e.len() && 0 <= j < e.len() && i != j implies e[i] != e[j] by {
                        if j == e.len() - 1 {
                            assert(e[i] == s1.emitted[i]);
                        } else if i == e.len() - 1 {
                            assert(e[j] == s1.emitted[j]);
                        }
                    }
                }
            }
        }
    }
}

proof fn lemma_line_announce(st: AnnounceState, l: LineModel)
    ensures
        line_chunks(st, l).0.emitted == st.emitted + start_ids(line_chunks(st, l).1),
        st.emitted.no_duplicates() ==> line_chunks(st, l).0.emitted.no_duplicates(),
{
    let (s1, c1): (AnnounceState, Seq<ChunkModel>) = match l.message {
        Some(m) => match m.tool_calls {
            Some(tcs) => tool_calls_chunks(st, tcs),
            None => (st, text_piece(m.content)),
        },
        None => (
            st,
            match l.content {
                Some(c) => text_piece(c),
                None => seq![],
            },
        ),
    };
    match l.message {
        Some(m) => match m.tool_calls {
            Some(tcs) => {
                lemma_tool_calls_announce(st, tcs);
            },
            None => {
                assert(start_ids(text_piece(m.content)) =~= Seq::<Seq<char>>::empty()) by {
                    if m.content.len() > 0 {
                        lemma_start_ids_single(ChunkModel::TextDelta(m.content));
                    }
                }
                assert(st.emitted + start_ids(c1) =~= st.emitted);
            },
        },
        None => {
            assert(start_ids(c1) =~= Seq::<Seq<char>>::empty()) by {
                match l.content {
                    Some(c) => {
                        if c.len() > 0 {
                            lemma_start_ids_single(ChunkModel::TextDelta(c));
                        }
                    },
                    None => {},
                }
            }
            assert(st.emitted + start_ids(c1) =~= st.emitted);
        },
    }
    if l.done {
        let d = seq![ChunkModel::Done(stop_of(l.done_reason, s1.had))];
        lemma_start_ids_concat(c1, d);
        assert(c1.push(ChunkModel::Done(stop_of(l.done_reason, s1.had))) =~= c1 + d);
        lemma_start_ids_single(ChunkModel::Done(stop_of(l.done_reason, s1.had)));
        assert(start_ids(c1) + start_ids(d) =~= start_ids(c1));
    }
}

proof fn lemma_lines_announce(st: AnnounceState, ls: Seq<Seq<char>>)
    ensures
        process_lines(st, ls).0.emitted == st.emitted + start_ids(process_lines(st, ls).1),
        st.emitted.no_duplicates() ==> process_lines(st, ls).0.emitted.no_duplicates(),
    decreases ls.len(),
{
    if ls.len() == 0 {
        assert(st.emitted + start_ids(Seq::<ChunkModel>::empty()) =~= st.emitted);
    } else {
        lemma_lines_announce(st, ls.drop_last());
        let (s1, c1) = process_lines(st, ls.drop_last());
        let (s2, c2) = process_line(s1, ls.last());
        let t = trim(ls.last());
        if t.len() > 0 && json_parse(t) is Some && line_model(json_parse(t)->Some_0) is Some {
            lemma_line_announce(s1, line_model(json_parse(t)->Some_0)->Some_0);
        } else {
            assert(start_ids(c2) =~= Seq::<Seq<char>>::empty());
            assert(s1.emitted + start_ids(c2) =~= s1.emitted);
        }
        lemma_start_ids_concat(c1, c2);
        assert(s2.emitted =~= st.emitted + start_ids(c1 + c2));
    }
}

/// A streamed Ollama answer announces each tool call once: what a reader
/// remembers afterwards is what it remembered before followed by the ids
/// it just announced, and when it started without repeats it still has
/// none, so every announced id is new and announced once.
pub proof fn lemma_feed_announces_once(st: DecoderModel, text: Seq<char>)
    requires
        st.announce.emitted.no_duplicates(),
    ensures
        feed_model(st, text).0.announce.emitted == st.announce.emitted + start_ids(feed_model(st, text).1),
        feed_model(st, text).0.announce.emitted.no_duplicates(),
{
    let (ls, rest) = full_lines(st.buffer + text);
    lemma_lines_announce(st.announce, ls);
}

proof fn lemma_full_lines_append(x: Seq<char>, y: Seq<char>)
    ensures
        full_lines(x + y) == (full_lines(x).0 + full_lines(full_lines(x).1 + y).0, full_lines(full_lines(x).1 + y).1),
    decreases x.len(),
{
    let nl = seq!['\n'];
    match find(x, nl) {
        None => {
            assert(full_lines(x).0 =~= Seq::<Seq<char>>::empty());
            assert(Seq::<Seq<char>>::empty() + full_lines(x + y).0 =~= full_lines(x + y).0);
        },
        Some(p) => {
            crate::text::lemma_find_bounds(x, nl);
            lemma_find_from_append(x, y, nl, 0);
            let rest = x.subrange(p + 1, x.len() as int);
            assert((x + y).subrange(p + 1, (x + y).len() as int) =~= rest + y);
            assert((x + y).subrange(0, p + 1) =~= x.subrange(0, p + 1));
            lemma_full_lines_append(rest, y);
            let head = seq![x.subrange(0, p + 1)];
            assert(head + (full_lines(rest).0 + full_lines(full_lines(rest).1 + y).0)
                =~= (head + full_lines(rest).0) + full_lines(full_lines(rest).1 + y).0);
        },
    }
}

proof fn lemma_process_lines_append(st: AnnounceState, a: Seq<Seq<char>>, b: Seq<Seq<char>>)
    ensures
        process_lines(st, a + b) == (
            process_lines(process_lines(st, a).0, b).0,
            process_lines(st, a).1 + process_lines(process_lines(st, a).0, b).1,
        ),
    decreases b.len(),
{
    if b.len() == 0 {
        assert(a + b =~= a);
        assert(process_lines(st, a).1 + Seq::<ChunkModel>::empty() =~= process_lines(st, a).1);
    } else {
        lemma_process_lines_append(st, a, b.drop_last());
        assert((a + b).drop_last() =~= a + b.drop_last());
        assert((a + b).last() == b.last());
        let s1 = process_lines(st, a).0;
        let c1 = process_lines(st, a).1;
        let mid = process_lines(s1, b.drop_last());
        let last = process_line(mid.0, b.last());
        assert((c1 + mid.1) + last.1 =~= c1 + (mid.1 + last.1));
    }
}

/// Text may arrive cut anywhere: receiving `a` and then `b` gives the same
/// pieces, and leaves the reader in the same state, as receiving `a`
/// followed by `b` at once.
pub proof fn lemma_feed_split_anywhere(st: DecoderModel, a: Seq<char>, b: Seq<char>)
    ensures
        feed_model(st, a + b) == (
            feed_model(feed_model(st, a).0, b).0,
            feed_model(st, a).1 + feed_model(feed_model(st, a).0, b).1,
        ),
{
    assert(st.buffer + (a + b) =~= (st.buffer + a) + b);
    lemma_full_lines_append(st.buffer + a, b);
    let first = full_lines(st.buffer + a);
    let second = full_lines(first.1 + b);
    lemma_process_lines_append(st.announce, first.0, second.0);
}

/// What the parts of a message add up to for Ollama: their texts joined (a
/// tool result replacing the text and naming the call it answers), their
/// images in base64, and their tool calls.
pub struct OllamaAcc {
    pub text: Seq<char>,
    pub images: Seq<Seq<char>>,
    pub calls: Seq<Json>,
    pub tool_call_id: Option<Seq<char>>,
}

/// A tool call as Ollama receives it.
pub open spec fn ollama_call_json(id: Seq<char>, name: Seq<char>, input: Json) -> Json {
    Json::Object(
        seq![
            ("id"@, Json::Str(id)),
            ("type"@, Json::Str("function"@)),
            ("function"@, Json::Object(seq![("name"@, Json::Str(name)), ("arguments"@, input)])),
        ],
    )
}

/// The parts of a message gathered in order (see `OllamaAcc`).
pub open spec fn ollama_acc(parts: Seq<crate::llm::MessageContent>) -> OllamaAcc
    decreases parts.len(),
{
    if parts.len() == 0 {
        OllamaAcc { text: seq![], images: seq![], calls: seq![], tool_call_id: None }
    } else {
        let a = ollama_acc(parts.drop_last());
        match parts.last() {
            crate::llm::MessageContent::Text(t) => OllamaAcc {
                text: a.text + t@,
                images: a.images,
                calls: a.calls,
                tool_call_id: a.tool_call_id,
            },
            crate::llm::MessageContent::Image { data, .. } => OllamaAcc {
                text: a.text,
                images: a.images.push(crate::llm::base64_standard_encode(data@)),
                calls: a.calls,
                tool_call_id: a.tool_call_id,
            },
            crate::llm::MessageContent::ToolUse { id, name, input } => OllamaAcc {
                text: a.text,
                images: a.images,
                calls: a.calls.push(ollama_call_json(id@, name@, input.model())),
                tool_call_id: a.tool_call_id,
            },
            crate::llm::MessageContent::ToolResult { tool_use_id, content } => OllamaAcc {
                text: content@,
                images: a.images,
                calls: a.calls,
                tool_call_id: Some(tool_use_id@),
            },
        }
    }
}

/// A message as Ollama receives it: its role and text, then its images,
/// tool calls and answered call when there are some.
pub open spec fn ollama_message_model(role: Seq<char>, parts: Seq<crate::llm::MessageContent>) -> Json {
    let a = ollama_acc(parts);
    Json::Object(
        seq![("role"@, Json::Str(role)), ("content"@, Json::Str(a.text))] + (if a.images.len() > 0 {
            seq![("images"@, Json::Array(a.images.map_values(|i: Seq<char>| Json::Str(i))))]
        } else {
            seq![]
        }) + (if a.calls.len() > 0 {
            seq![("tool_calls"@, Json::Array(a.calls))]
        } else {
            seq![]
        }) + match a.tool_call_id {
            Some(t) => seq![("tool_call_id"@, Json::Str(t))],
            None => seq![],
        },
    )
}

fn call_json(id: &String, name: &String, input: &JsonValue) -> (r: JsonValue)
    ensures
        r.model() == ollama_call_json(id@, name@, input.model()),
{
    let f = vec![
        crate::llm::member("name", JsonValue::Str(name.clone())),
        crate::llm::member("arguments", input.duplicate()),
    ];
    proof {
        crate::json::lemma_object_model(f);
        assert(crate::json::members_model(f@) =~= seq![("name"@, Json::Str(name@)), ("arguments"@, input.model())]);
    }
    let fo = JsonValue::Object(f);
    let ms = vec![
        crate::llm::member("id", JsonValue::Str(id.clone())),
        crate::llm::member("type", JsonValue::Str("function".to_owned())),
        crate::llm::member("function", fo),
    ];
    proof {
        crate::json::lemma_object_model(ms);
        assert(crate::json::members_model(ms@) =~= ollama_call_json(id@, name@, input.model())->Object_0);
    }
    JsonValue::Object(ms)
}

/// A message as Ollama receives it (see `ollama_message_model`); a tool
/// message keeps the role `tool`.
pub fn ollama_message(m: &crate::llm::LlmMessage) -> (r: JsonValue)
    ensures
        r.model() == ollama_message_model(crate::llm::role_name(m.role, "tool"@), m.content@),
{
    let mut text: Vec<char> = Vec::new();
    let mut images: Vec<JsonValue> = Vec::new();
    let mut calls: Vec<JsonValue> = Vec::new();
    let mut tool_call_id: Option<String> = None;
    let mut i: usize = 0;
    while i < m.content.len()
        invariant
            i <= m.content.len(),
            ({
                let a = ollama_acc(m.content@.subrange(0, i as int));
                &&& text@ == a.text
                &&& images@.map_values(|v: JsonValue| v.model()) == a.images.map_values(|t: Seq<char>| Json::Str(t))
                &&& calls@.map_values(|v: JsonValue| v.model()) == a.calls
                &&& crate::scrape::opt_str(tool_call_id) == a.tool_call_id
            }),
        decreases m.content.len() - i,
    {
        let ghost sub = m.content@.subrange(0, i + 1);
        assert(sub.drop_last() =~= m.content@.subrange(0, i as int));
        let ghost a0 = ollama_acc(m.content@.subrange(0, i as int));
        let ghost imgs0 = images@.map_values(|v: JsonValue| v.model());
        let ghost calls0 = calls@.map_values(|v: JsonValue| v.model());
        match &m.content[i] {
            crate::llm::MessageContent::Text(t) => {
                let tc = chars_of(t.as_str());
                push_all(&mut text, &tc);
            },
            crate::llm::MessageContent::Image { data, .. } => {
                let e = crate::llm::encode_base64(data.as_slice());
                images.push(JsonValue::Str(e));
                assert(images@.map_values(|v: JsonValue| v.model()) =~= imgs0.push(Json::Str(crate::llm::base64_standard_encode(data@))));
                assert(a0.images.push(crate::llm::base64_standard_encode(data@)).map_values(|t: Seq<char>| Json::Str(t))
                    =~= a0.images.map_values(|t: Seq<char>| Json::Str(t)).push(Json::Str(crate::llm::base64_standard_encode(data@))));
            },
            crate::llm::MessageContent::ToolUse { id, name, input } => {
                let c = call_json(id, name, input);
                calls.push(c);
                assert(calls@.map_values(|v: JsonValue| v.model()) =~= calls0.push(ollama_call_json(id@, name@, input.model())));
            },
            crate::llm::MessageContent::ToolResult { tool_use_id, content } => {
                text = chars_of(content.as_str());
                tool_call_id = Some(tool_use_id.clone());
            },
        }
        i = i + 1;
    }
    assert(m.content@.subrange(0, m.content.len() as int) =~= m.content@);
    let ghost a = ollama_acc(m.content@);
    let mut ms: Vec<crate::json::Member> = Vec::new();
    ms.push(crate::llm::member("role", JsonValue::Str(crate::llm::role_text(m.role, "tool"))));
    ms.push(crate::llm::member("content", JsonValue::Str(string_of(&text))));
    let ghost head = crate::json::members_model(ms@);
    assert(head =~= seq![("role"@, Json::Str(crate::llm::role_name(m.role, "tool"@))), ("content"@, Json::Str(a.text))]);
    if images.len() > 0 {
        proof {
            crate::json::lemma_array_model(images);
        }
        ms.push(crate::llm::member("images", JsonValue::Array(images)));
    }
    let ghost h2 = crate::json::members_model(ms@);
    assert(h2 =~= head + (if a.images.len() > 0 {
        seq![("images"@, Json::Array(a.images.map_values(|i: Seq<char>| Json::Str(i))))]
    } else {
        Seq::<(Seq<char>, Json)>::empty()
    }));
    if calls.len() > 0 {
        proof {
            crate::json::lemma_array_model(calls);
        }
        ms.push(crate::llm::member("tool_calls", JsonValue::Array(calls)));
    }
    let ghost h3 = crate::json::members_model(ms@);
    assert(h3 =~= h2 + (if a.calls.len() > 0 {
        seq![("tool_calls"@, Json::Array(a.calls))]
    } else {
        Seq::<(Seq<char>, Json)>::empty()
    }));
    match tool_call_id {
        Some(t) => {
            ms.push(crate::llm::member("tool_call_id", JsonValue::Str(t)));
        },
        None => {},
    }
    proof {
        crate::json::lemma_object_model(ms);
        assert(crate::json::members_model(ms@) =~= ollama_message_model(crate::llm::role_name(m.role, "tool"@), m.content@)->Object_0);
    }
    JsonValue::Object(ms)
}

/// The tool choice sent to Ollama: `auto`, none, `required`, or the named
/// function.
pub open spec fn ollama_tool_choice_model(c: crate::llm::ToolChoice) -> Option<Json> {
    match c {
        crate::llm::ToolChoice::Auto => Some(Json::Str("auto"@)),
        crate::llm::ToolChoice::Disabled => None,
        crate::llm::ToolChoice::Required => Some(Json::Str("required"@)),
        crate::llm::ToolChoice::Tool { name } => Some(
            Json::Object(
                seq![
                    ("type"@, Json::Str("function"@)),
                    ("function"@, Json::Object(seq![("name"@, Json::Str(name@))])),
                ],
            ),
        ),
    }
}

/// The tool choice sent to Ollama (see `ollama_tool_choice_model`).
pub fn ollama_tool_choice(c: &crate::llm::ToolChoice) -> (r: Option<JsonValue>)
    ensures
        crate::conversation::opt_model(r) == ollama_tool_choice_model(*c),
{
    match c {
        crate::llm::ToolChoice::Auto => Some(JsonValue::Str("auto".to_owned())),
        crate::llm::ToolChoice::Disabled => None,
        crate::llm::ToolChoice::Required => Some(JsonValue::Str("required".to_owned())),
        crate::llm::ToolChoice::Tool { name } => {
            let f = vec![crate::llm::member("name", JsonValue::Str(name.clone()))];
            proof {
                crate::json::lemma_object_model(f);
                assert(crate::json::members_model(f@) =~= seq![("name"@, Json::Str(name@))]);
            }
            let ms = vec![
                crate::llm::member("type", JsonValue::Str("function".to_owned())),
                crate::llm::member("function", JsonValue::Object(f)),
            ];
            proof {
                crate::json::lemma_object_model(ms);
                assert(crate::json::members_model(ms@) =~= ollama_tool_choice_model(*c)->Some_0->Object_0);
            }
            Some(JsonValue::Object(ms))
        },
    }
}

/// A tool as Ollama receives it: a function with its name, description and
/// parameter schema.
pub open spec fn ollama_tool_model(t: crate::llm::LlmTool) -> Json {
    Json::Object(
        seq![
            ("type"@, Json::Str("function"@)),
            (
                "function"@,
                Json::Object(
                    seq![
                        ("name"@, Json::Str(t.name@)),
                        ("description"@, Json::Str(t.description@)),
                        ("parameters"@, t.input_schema.model()),
                    ],
                ),
            ),
        ],
    )
}

/// A tool as Ollama receives it (see `ollama_tool_model`).
pub fn ollama_tool(t: &crate::llm::LlmTool) -> (r: JsonValue)
    ensures
        r.model() == ollama_tool_model(*t),
{
    let f = vec![
        crate::llm::member("name", JsonValue::Str(t.name.clone())),
        crate::llm::member("description", JsonValue::Str(t.description.clone())),
        crate::llm::member("parameters", t.input_schema.duplicate()),
    ];
    proof {
        crate::json::lemma_object_model(f);
        assert(crate::json::members_model(f@) =~= ollama_tool_model(*t)->Object_0[1].1->Object_0);
    }
    let ms = vec![
        crate::llm::member("type", JsonValue::Str("function".to_owned())),
        crate::llm::member("function", JsonValue::Object(f)),
    ];
    proof {
        crate::json::lemma_object_model(ms);
        assert(crate::json::members_model(ms@) =~= ollama_tool_model(*t)->Object_0);
    }
    JsonValue::Object(ms)
}

/// Whether a plain completion asks Ollama for JSON output: the system
/// prompt mentions `JSON`.
pub open spec fn wants_json_format(system: Option<Seq<char>>) -> bool {
    match system {
        Some(s) => crate::text::contains(s, "JSON"@),
        None => false,
    }
}

/// Whether a plain completion asks for JSON output (see
/// `wants_json_format`).
pub fn json_format_wanted(system: Option<&str>) -> (r: bool)
    ensures
        r == wants_json_format(crate::scrape::str_opt(system)),
{
    match system {
        Some(s) => {
            let c = chars_of(s);
            crate::intake::contains_str(&c, "JSON")
        },
        None => false,
    }
}

/// The generation options sent to Ollama: the temperature when one is
/// given, and a context of 16384 tokens.
pub open spec fn options_model(temperature: Option<Json>) -> Json {
    Json::Object(
        (match temperature {
            Some(t) => seq![("temperature"@, t)],
            None => seq![],
        }) + seq![("num_ctx"@, Json::Number("16384"@))],
    )
}

/// The generation options sent to Ollama (see `options_model`).
pub fn ollama_options(temperature: Option<JsonValue>) -> (r: JsonValue)
    ensures
        r.model() == options_model(crate::conversation::opt_model(temperature)),
{
    let mut ms: Vec<crate::json::Member> = Vec::new();
    match temperature {
        Some(t) => ms.push(crate::llm::member("temperature", t)),
        None => {},
    }
    ms.push(crate::llm::member("num_ctx", JsonValue::Number("16384".to_owned())));
    proof {
        crate::json::lemma_object_model(ms);
        assert(crate::json::members_model(ms@) =~= options_model(crate::conversation::opt_model(temperature))->Object_0);
    }
    JsonValue::Object(ms)
}

/// The messages of a chat request to Ollama: the system prompt first, when
/// there is one, then each message.
pub open spec fn ollama_messages_model(system: Option<Seq<char>>, msgs: Seq<crate::llm::LlmMessage>) -> Seq<Json> {
    (match system {
        Some(s) => seq![Json::Object(seq![("role"@, Json::Str("system"@)), ("content"@, Json::Str(s))])],
        None => seq![],
    }) + msgs.map_values(
        |m: crate::llm::LlmMessage| ollama_message_model(crate::llm::role_name(m.role, "tool"@), m.content@),
    )
}

/// The messages of a chat request to Ollama (see `ollama_messages_model`).
pub fn ollama_messages(system: Option<&str>, msgs: &Vec<crate::llm::LlmMessage>) -> (r: Vec<JsonValue>)
    ensures
        r@.map_values(|v: JsonValue| v.model()) == ollama_messages_model(crate::scrape::str_opt(system), msgs@),
{
    let mut out: Vec<JsonValue> = Vec::new();
    match system {
        Some(s) => {
            let ms = vec![
                crate::llm::member("role", JsonValue::Str("system".to_owned())),
                crate::llm::member("content", JsonValue::Str(s.to_owned())),
            ];
            proof {
                crate::json::lemma_object_model(ms);
                assert(crate::json::members_model(ms@) =~= seq![("role"@, Json::Str("system"@)), ("content"@, Json::Str(s@))]);
            }
            out.push(JsonValue::Object(ms));
        },
        None => {},
    }
    let ghost head = out@.map_values(|v: JsonValue| v.model());
    assert(head =~= match crate::scrape::str_opt(system) {
        Some(s) => seq![Json::Object(seq![("role"@, Json::Str("system"@)), ("content"@, Json::Str(s))])],
        None => Seq::<Json>::empty(),
    });
    let mut i: usize = 0;
    while i < msgs.len()
        invariant
            i <= msgs.len(),
            out@.map_values(|v: JsonValue| v.model()) =~= head + msgs@.subrange(0, i as int).map_values(
                |m: crate::llm::LlmMessage| ollama_message_model(crate::llm::role_name(m.role, "tool"@), m.content@),
            ),
        decreases msgs.len() - i,
    {
        let ghost before = out@.map_values(|v: JsonValue| v.model());
        let v = ollama_message(&msgs[i]);
        out.push(v);
        assert(out@.map_values(|v: JsonValue| v.model()) =~= before.push(
            ollama_message_model(crate::llm::role_name(msgs@[i as int].role, "tool"@), msgs@[i as int].content@),
        ));
        assert(msgs@.subrange(0, i + 1) =~= msgs@.subrange(0, i as int).push(msgs@[i as int]));
        i = i + 1;
    }
    assert(msgs@.subrange(0, msgs.len() as int) =~= msgs@);
    out
}

/// An optional member, when given.
pub open spec fn opt_member(k: Seq<char>, v: Option<Json>) -> Seq<(Seq<char>, Json)> {
    match v {
        Some(x) => seq![(k, x)],
        None => seq![],
    }
}

/// A chat request to Ollama: the model, the messages and whether to
/// stream, then the output format, options, tools (when there are some)
/// and tool choice when given.
pub open spec fn chat_body_model(
    model: Seq<char>,
    messages: Seq<Json>,
    stream: bool,
    format: Option<Json>,
    options: Option<Json>,
    tools: Seq<Json>,
    tool_choice: Option<Json>,
) -> Json {
    Json::Object(
        seq![("model"@, Json::Str(model)), ("messages"@, Json::Array(messages)), ("stream"@, Json::Bool(stream))]
            + opt_member("format"@, format) + opt_member("options"@, options) + (if tools.len() > 0 {
            seq![("tools"@, Json::Array(tools))]
        } else {
            seq![]
        }) + opt_member("tool_choice"@, tool_choice),
    )
}

fn push_opt(ms: &mut Vec<crate::json::Member>, k: &str, v: Option<JsonValue>)
    ensures
        crate::json::members_model(final(ms)@) == crate::json::members_model(old(ms)@) + opt_member(
            k@,
            crate::conversation::opt_model(v),
        ),
{
    let ghost before = crate::json::members_model(ms@);
    let ghost vm = crate::conversation::opt_model(v);
    match v {
        Some(x) => {
            ms.push(crate::llm::member(k, x));
        },
        None => {},
    }
    assert(crate::json::members_model(ms@) =~= before + opt_member(k@, vm));
}

/// A chat request to Ollama (see `chat_body_model`).
pub fn ollama_chat_body(
    model: &str,
    messages: Vec<JsonValue>,
    stream: bool,
    format: Option<JsonValue>,
    options: Option<JsonValue>,
    tools: Vec<JsonValue>,
    tool_choice: Option<JsonValue>,
) -> (r: JsonValue)
    ensures
        r.model() == chat_body_model(
            model@,
            messages@.map_values(|v: JsonValue| v.model()),
            stream,
            crate::conversation::opt_model(format),
            crate::conversation::opt_model(options),
            tools@.map_values(|v: JsonValue| v.model()),
            crate::conversation::opt_model(tool_choice),
        ),
{
    let ghost mm = messages@.map_values(|v: JsonValue| v.model());
    let ghost tm = tools@.map_values(|v: JsonValue| v.model());
    let ghost fm = crate::conversation::opt_model(format);
    let ghost om = crate::conversation::opt_model(options);
    let ghost cm = crate::conversation::opt_model(tool_choice);
    proof {
        crate::json::lemma_array_model(messages);
    }
    let mut ms: Vec<crate::json::Member> = vec![
        crate::llm::member("model", JsonValue::Str(model.to_owned())),
        crate::llm::member("messages", JsonValue::Array(messages)),
        crate::llm::member("stream", JsonValue::Bool(stream)),
    ];
    assert(crate::json::members_model(ms@) =~= seq![
        ("model"@, Json::Str(model@)),
        ("messages"@, Json::Array(mm)),
        ("stream"@, Json::Bool(stream)),
    ]);
    push_opt(&mut ms, "format", format);
    push_opt(&mut ms, "options", options);
    let ghost before = crate::json::members_model(ms@);
    if tools.len() > 0 {
        proof {
            crate::json::lemma_array_model(tools);
        }
        ms.push(crate::llm::member("tools", JsonValue::Array(tools)));
    }
    assert(crate::json::members_model(ms@) =~= before + (if tm.len() > 0 {
        seq![("tools"@, Json::Array(tm))]
    } else {
        Seq::<(Seq<char>, Json)>::empty()
    }));
    push_opt(&mut ms, "tool_choice", tool_choice);
    proof {
        crate::json::lemma_object_model(ms);
        assert(crate::json::members_model(ms@) =~= chat_body_model(model@, mm, stream, fm, om, tm, cm)->Object_0);
    }
    JsonValue::Object(ms)
}


/// The instruction of a structured call followed by the demand to answer
/// with JSON that follows the schema, written out indented.
pub open spec fn extraction_instruction_text(instruction: Seq<char>, schema: Json) -> Seq<char> {
    instruction + "\n\nTu DOIS répondre UNIQUEMENT avec un objet JSON valide respectant ce schéma :\n"@
        + crate::json::json_pretty_text(schema)
}

/// `text` followed by each text of the input, each after a separator.
pub open spec fn extraction_text_from(text: Seq<char>, input: Seq<crate::llm::MessageContent>) -> Seq<char>
    decreases input.len(),
{
    if input.len() == 0 {
        text
    } else {
        let t = extraction_text_from(text, input.drop_last());
        match input.last() {
            crate::llm::MessageContent::Text(x) => t + "\n\n---\n\n"@ + x@,
            _ => t,
        }
    }
}

/// The images of the input, in base64, in order.
pub open spec fn extraction_images_of(input: Seq<crate::llm::MessageContent>) -> Seq<Seq<char>>
    decreases input.len(),
{
    if input.len() == 0 {
        seq![]
    } else {
        let r = extraction_images_of(input.drop_last());
        match input.last() {
            crate::llm::MessageContent::Image { data, .. } => r.push(crate::llm::base64_standard_encode(data@)),
            _ => r,
        }
    }
}

/// The messages of a structured call to Ollama: the system prompt when
/// there is one, then one user message holding the instruction, the schema
/// and the input's texts, with the input's images when there are some.
pub open spec fn extraction_messages_model(
    system: Option<Seq<char>>,
    instruction: Seq<char>,
    schema: Json,
    input: Seq<crate::llm::MessageContent>,
) -> Seq<Json> {
    let text = extraction_text_from(extraction_instruction_text(instruction, schema), input);
    let imgs = extraction_images_of(input);
    let user = Json::Object(
        seq![("role"@, Json::Str("user"@)), ("content"@, Json::Str(text))] + (if imgs.len() > 0 {
            seq![("images"@, Json::Array(imgs.map_values(|i: Seq<char>| Json::Str(i))))]
        } else {
            seq![]
        }),
    );
    match system {
        Some(s) => seq![Json::Object(seq![("role"@, Json::Str("system"@)), ("content"@, Json::Str(s))]), user],
        None => seq![user],
    }
}

/// The messages of a structured call to Ollama (see
/// `extraction_messages_model`).
pub fn extraction_messages(
    system: Option<&str>,
    instruction: &str,
    schema: &JsonValue,
    input: &Vec<crate::llm::MessageContent>,
) -> (r: Vec<JsonValue>)
    ensures
        r@.map_values(|v: JsonValue| v.model()) == extraction_messages_model(
            crate::scrape::str_opt(system),
            instruction@,
            schema.model(),
            input@,
        ),
{
    let mut text = chars_of(instruction);
    let demand = chars_of("\n\nTu DOIS répondre UNIQUEMENT avec un objet JSON valide respectant ce schéma :\n");
    push_all(&mut text, &demand);
    let pretty = crate::json::pretty_json(schema);
    let pc = chars_of(pretty.as_str());
    push_all(&mut text, &pc);
    let ghost start = text@;
    assert(start =~= extraction_instruction_text(instruction@, schema.model()));
    let mut images: Vec<JsonValue> = Vec::new();
    let mut i: usize = 0;
    while i < input.len()
        invariant
            i <= input.len(),
            text@ == extraction_text_from(start, input@.subrange(0, i as int)),
            images@.map_values(|v: JsonValue| v.model()) =~= extraction_images_of(input@.subrange(0, i as int)).map_values(
                |x: Seq<char>| Json::Str(x),
            ),
        decreases input.len() - i,
    {
        let ghost sub = input@.subrange(0, i + 1);
        assert(sub.drop_last() =~= input@.subrange(0, i as int));
        assert(sub.last() == input@[i as int]);
        let ghost before = images@.map_values(|v: JsonValue| v.model());
        match &input[i] {
            crate::llm::MessageContent::Text(t) => {
                let sep = chars_of("\n\n---\n\n");
                push_all(&mut text, &sep);
                let tc = chars_of(t.as_str());
                push_all(&mut text, &tc);
            },
            crate::llm::MessageContent::Image { data, .. } => {
                let enc = crate::llm::encode_base64(data.as_slice());
                images.push(JsonValue::Str(enc));
                assert(images@.map_values(|v: JsonValue| v.model()) =~= before.push(
                    Json::Str(crate::llm::base64_standard_encode(data@)),
                ));
                assert(extraction_images_of(sub).map_values(|x: Seq<char>| Json::Str(x)) =~= extraction_images_of(
                    input@.subrange(0, i as int),
                ).map_values(|x: Seq<char>| Json::Str(x)).push(Json::Str(crate::llm::base64_standard_encode(data@))));
            },
            _ => {},
        }
        i = i + 1;
    }
    assert(input@.subrange(0, input.len() as int) =~= input@);
    let has_images = images.len() > 0;
    proof {
        crate::json::lemma_array_model(images);
    }
    let mut um = vec![
        crate::llm::member("role", JsonValue::Str("user".to_owned())),
        crate::llm::member("content", JsonValue::Str(string_of(&text))),
    ];
    let ghost imgs = extraction_images_of(input@);
    let ghost eu = seq![
        ("role"@, Json::Str("user"@)),
        ("content"@, Json::Str(extraction_text_from(extraction_instruction_text(instruction@, schema.model()), input@))),
    ] + (if imgs.len() > 0 {
        seq![("images"@, Json::Array(imgs.map_values(|x: Seq<char>| Json::Str(x))))]
    } else {
        seq![]
    });
    assert(imgs.len() > 0 <==> has_images);
    if has_images {
        um.push(crate::llm::member("images", JsonValue::Array(images)));
    }
    assert(crate::json::members_model(um@) =~= eu);
    proof {
        crate::json::lemma_object_model(um);
    }
    let user = JsonValue::Object(um);
    let ghost msgs = extraction_messages_model(crate::scrape::str_opt(system), instruction@, schema.model(), input@);
    assert(user.model() == Json::Object(eu));
    match system {
        Some(sys) => {
            let sm = vec![
                crate::llm::member("role", JsonValue::Str("system".to_owned())),
                crate::llm::member("content", JsonValue::Str(sys.to_owned())),
            ];
            assert(crate::json::members_model(sm@) =~= seq![("role"@, Json::Str("system"@)), ("content"@, Json::Str(sys@))]);
            proof {
                crate::json::lemma_object_model(sm);
            }
            let sys_msg = JsonValue::Object(sm);
            assert(crate::scrape::str_opt(system) == Some(sys@));
            let out = vec![sys_msg, user];
            assert(out@.map_values(|v: JsonValue| v.model()) =~= msgs);
            out
        },
        None => {
            let out = vec![user];
            assert(out@.map_values(|v: JsonValue| v.model()) =~= msgs);
            out
        },
    }
}

/// The output format asked of Ollama for a structured call: an object
/// schema without its `$schema` and `title` members, or just `json` when
/// that schema, written compactly, names a `"$ref"`; any other schema as it
/// is.
pub open spec fn extraction_format_model(schema: Json) -> Json {
    match schema {
        Json::Object(ms) => {
            let cleaned = Json::Object(crate::json::obj_remove(crate::json::obj_remove(ms, "$schema"@), "title"@));
            if crate::text::contains(crate::json::json_compact_text(cleaned), "\"$ref\""@) {
                Json::Str("json"@)
            } else {
                cleaned
            }
        },
        _ => schema,
    }
}

/// The output format asked of Ollama for a structured call (see
/// `extraction_format_model`).
pub fn extraction_format(schema: &JsonValue) -> (r: JsonValue)
    ensures
        r.model() == extraction_format_model(schema.model()),
{
    match schema {
        JsonValue::Object(ms) => {
            proof {
                crate::json::lemma_object_model(*ms);
            }
            let a = crate::chat::remove_members(ms, "$schema");
            let b = crate::chat::remove_members(&a, "title");
            proof {
                crate::json::lemma_object_model(b);
            }
            let cleaned = JsonValue::Object(b);
            let text = crate::json::compact_json(&cleaned);
            let tc = chars_of(text.as_str());
            let marker = chars_of("\"$ref\"");
            if crate::text::contains_chars(&tc, &marker) {
                JsonValue::Str("json".to_owned())
            } else {
                cleaned
            }
        },
        _ => schema.duplicate(),
    }
}

/// The generation options of a structured call: a context of 16384 tokens
/// and the token limit (`null` when none is given).
pub open spec fn extraction_options_model(max_tokens: Option<u32>) -> Json {
    Json::Object(
        seq![
            ("num_ctx"@, Json::Number("16384"@)),
            (
                "num_predict"@,
                match max_tokens {
                    Some(n) => Json::Number(decimal(n as nat)),
                    None => Json::Null,
                },
            ),
        ],
    )
}

/// The generation options of a structured call (see
/// `extraction_options_model`).
pub fn extraction_options(max_tokens: Option<u32>) -> (r: JsonValue)
    ensures
        r.model() == extraction_options_model(max_tokens),
{
    let limit = match max_tokens {
        Some(n) => {
            let d = decimal_chars(n as usize);
            JsonValue::Number(string_of(&d))
        },
        None => JsonValue::Null,
    };
    let ms = vec![
        crate::llm::member("num_ctx", JsonValue::Number("16384".to_owned())),
        crate::llm::member("num_predict", limit),
    ];
    proof {
        crate::json::lemma_object_model(ms);
    }
    assert(crate::json::members_model(ms@) =~= extraction_options_model(max_tokens)->Object_0);
    JsonValue::Object(ms)
}

} // verus!

//! The OpenAI chat-completions protocol: the request sent for a completion
//! or a structured extraction, and how the answer is read.

use vstd::prelude::*;
use crate::anthropic::{Completion, failure_body, failure_body_of, object_of, u32_member, u32_value, valid_u32};
use crate::json::{Json, JsonValue, get_arr, get_str, json_get, json_parse, parse_json};
use crate::llm::{LlmError, LlmMessage, MessageContent, base64_standard_encode, encode_base64, member, role_name, role_text};
use crate::ollama::{opt_member, opt_text, present, present_value, valid_opt_str};
use crate::text::{chars_of, push_all, string_of};

verus! {

/// An image as a `data:` URL holding its bytes in base64.
pub open spec fn data_url(content_type: Seq<char>, data: Seq<u8>) -> Seq<char> {
    "data:"@ + content_type + ";base64,"@ + base64_standard_encode(data)
}

/// An image part, given by its `data:` URL.
pub open spec fn image_block_model(content_type: Seq<char>, data: Seq<u8>) -> Json {
    Json::Object(
        seq![
            ("type"@, Json::Str("image_url"@)),
            ("image_url"@, Json::Object(seq![("url"@, Json::Str(data_url(content_type, data)))])),
        ],
    )
}

/// A part of a message as OpenAI receives it: text, or an image given by
/// URL; the other parts have no OpenAI form and are not sent.
pub open spec fn openai_block(c: MessageContent) -> Option<Json> {
    match c {
        MessageContent::Text(t) => Some(Json::Object(seq![("type"@, Json::Str("text"@)), ("text"@, Json::Str(t@))])),
        MessageContent::Image { data, content_type } => Some(image_block_model(content_type@, data@)),
        _ => None,
    }
}

/// The OpenAI parts of a message's parts, in order.
pub open spec fn openai_blocks(parts: Seq<MessageContent>) -> Seq<Json>
    decreases parts.len(),
{
    if parts.len() == 0 {
        seq![]
    } else {
        let before = openai_blocks(parts.drop_last());
        match openai_block(parts.last()) {
            Some(b) => before.push(b),
            None => before,
        }
    }
}

/// A message as OpenAI receives it: its role and its parts.
pub open spec fn openai_message_model(m: LlmMessage) -> Json {
    Json::Object(
        seq![
            ("role"@, Json::Str(role_name(m.role, "tool"@))),
            ("content"@, Json::Array(openai_blocks(m.content@))),
        ],
    )
}

/// The system message, holding its text as a plain string.
pub open spec fn system_message_model(s: Seq<char>) -> Json {
    Json::Object(seq![("role"@, Json::Str("system"@)), ("content"@, Json::Str(s))])
}

/// The messages of a request: the system prompt first when there is one,
/// then each message.
pub open spec fn openai_messages_model(system: Option<Seq<char>>, msgs: Seq<LlmMessage>) -> Seq<Json> {
    let head: Seq<Json> = match system {
        Some(s) => seq![system_message_model(s)],
        None => seq![],
    };
    head + msgs.map_values(|m: LlmMessage| openai_message_model(m))
}

fn text_block(t: &str) -> (r: JsonValue)
    ensures
        r.model() == Json::Object(seq![("type"@, Json::Str("text"@)), ("text"@, Json::Str(t@))]),
{
    let ms = vec![member("type", JsonValue::Str("text".to_owned())), member("text", JsonValue::Str(t.to_owned()))];
    assert(crate::json::members_model(ms@) =~= seq![("type"@, Json::Str("text"@)), ("text"@, Json::Str(t@))]);
    object_of(ms)
}

fn image_block(data: &Vec<u8>, content_type: &str) -> (r: JsonValue)
    ensures
        r.model() == image_block_model(content_type@, data@),
{
    let mut url = chars_of("data:");
    let ct = chars_of(content_type);
    push_all(&mut url, &ct);
    let mid = chars_of(";base64,");
    push_all(&mut url, &mid);
    let enc = encode_base64(data.as_slice());
    let ec = chars_of(enc.as_str());
    push_all(&mut url, &ec);
    let inner = vec![member("url", JsonValue::Str(string_of(&url)))];
    assert(crate::json::members_model(inner@) =~= seq![("url"@, Json::Str(data_url(content_type@, data@)))]);
    let io = object_of(inner);
    let ms = vec![member("type", JsonValue::Str("image_url".to_owned())), member("image_url", io)];
    assert(crate::json::members_model(ms@) =~= image_block_model(content_type@, data@)->Object_0);
    object_of(ms)
}

fn push_block(blocks: &mut Vec<JsonValue>, c: &MessageContent)
    ensures
        final(blocks)@.map_values(|v: JsonValue| v.model()) == match openai_block(*c) {
            Some(b) => old(blocks)@.map_values(|v: JsonValue| v.model()).push(b),
            None => old(blocks)@.map_values(|v: JsonValue| v.model()),
        },
{
    let ghost before = blocks@.map_values(|v: JsonValue| v.model());
    match c {
        MessageContent::Text(t) => {
            blocks.push(text_block(t.as_str()));
        },
        MessageContent::Image { data, content_type } => {
            let b = image_block(data, content_type.as_str());
            blocks.push(b);
        },
        _ => {},
    }
    assert(blocks@.map_values(|v: JsonValue| v.model()) =~= match openai_block(*c) {
        Some(b) => before.push(b),
        None => before,
    });
}

fn blocks_of(parts: &Vec<MessageContent>) -> (r: Vec<JsonValue>)
    ensures
        r@.map_values(|v: JsonValue| v.model()) == openai_blocks(parts@),
{
    let mut blocks: Vec<JsonValue> = Vec::new();
    let mut i: usize = 0;
    while i < parts.len()
        invariant
            i <= parts.len(),
            blocks@.map_values(|v: JsonValue| v.model()) == openai_blocks(parts@.subrange(0, i as int)),
        decreases parts.len() - i,
    {
        push_block(&mut blocks, &parts[i]);
        assert(parts@.subrange(0, i + 1).drop_last() =~= parts@.subrange(0, i as int));
        i = i + 1;
    }
    assert(parts@.subrange(0, parts.len() as int) =~= parts@);
    blocks
}

/// A message as OpenAI receives it (see `openai_message_model`).
pub fn openai_message(m: &LlmMessage) -> (r: JsonValue)
    ensures
        r.model() == openai_message_model(*m),
{
    let blocks = blocks_of(&m.content);
    proof {
        crate::json::lemma_array_model(blocks);
    }
    let ms = vec![member("role", JsonValue::Str(role_text(m.role, "tool"))), member("content", JsonValue::Array(blocks))];
    assert(crate::json::members_model(ms@) =~= openai_message_model(*m)->Object_0);
    object_of(ms)
}

/// The messages of a request (see `openai_messages_model`).
pub fn openai_messages(system: Option<String>, messages: &Vec<LlmMessage>) -> (r: Vec<JsonValue>)
    ensures
        r@.map_values(|v: JsonValue| v.model()) == openai_messages_model(opt_text(system), messages@),
{
    let mut out: Vec<JsonValue> = Vec::new();
    match system {
        Some(s) => {
            let ms = vec![member("role", JsonValue::Str("system".to_owned())), member("content", JsonValue::Str(s))];
            assert(crate::json::members_model(ms@) =~= system_message_model(opt_text(system)->Some_0)->Object_0);
            out.push(object_of(ms));
        },
        None => {},
    }
    let ghost head = out@.map_values(|v: JsonValue| v.model());
    assert(head =~= match opt_text(system) {
        Some(s) => seq![system_message_model(s)],
        None => Seq::<Json>::empty(),
    });
    let mut i: usize = 0;
    while i < messages.len()
        invariant
            i <= messages.len(),
            out@.map_values(|v: JsonValue| v.model()) =~= head + messages@.subrange(0, i as int).map_values(
                |m: LlmMessage| openai_message_model(m),
            ),
        decreases messages.len() - i,
    {
        let ghost before = out@.map_values(|v: JsonValue| v.model());
        out.push(openai_message(&messages[i]));
        assert(out@.map_values(|v: JsonValue| v.model()) =~= before.push(openai_message_model(messages@[i as int])));
        assert(messages@.subrange(0, i + 1) =~= messages@.subrange(0, i as int).push(messages@[i as int]));
        assert(messages@.subrange(0, i + 1).map_values(|m: LlmMessage| openai_message_model(m)) =~= messages@.subrange(
            0,
            i as int,
        ).map_values(|m: LlmMessage| openai_message_model(m)).push(openai_message_model(messages@[i as int])));
        i = i + 1;
    }
    assert(messages@.subrange(0, messages.len() as int) =~= messages@);
    out
}

/// The user message of a structured extraction: the instruction as a
/// text part when it is not empty, then the OpenAI parts of the input.
pub open spec fn extraction_message_model(instruction: Seq<char>, input: Seq<MessageContent>) -> Json {
    let head: Seq<Json> = if instruction.len() > 0 {
        seq![Json::Object(seq![("type"@, Json::Str("text"@)), ("text"@, Json::Str(instruction))])]
    } else {
        seq![]
    };
    Json::Object(seq![("role"@, Json::Str("user"@)), ("content"@, Json::Array(head + openai_blocks(input)))])
}

/// The user message of a structured extraction (see
/// `extraction_message_model`).
pub fn openai_extraction_message(instruction: &str, input: &Vec<MessageContent>) -> (r: JsonValue)
    ensures
        r.model() == extraction_message_model(instruction@, input@),
{
    let mut blocks: Vec<JsonValue> = Vec::new();
    let ic = chars_of(instruction);
    if ic.len() > 0 {
        blocks.push(text_block(instruction));
    }
    let ghost head = blocks@.map_values(|v: JsonValue| v.model());
    assert(head =~= if instruction@.len() > 0 {
        seq![Json::Object(seq![("type"@, Json::Str("text"@)), ("text"@, Json::Str(instruction@))])]
    } else {
        Seq::<Json>::empty()
    });
    let rest = blocks_of(input);
    let ghost tail = rest@.map_values(|v: JsonValue| v.model());
    let mut rest = rest;
    blocks.append(&mut rest);
    assert(blocks@.map_values(|v: JsonValue| v.model()) =~= head + tail);
    proof {
        crate::json::lemma_array_model(blocks);
    }
    assert(JsonValue::Array(blocks).model() == Json::Array(head + openai_blocks(input@)));
    let ms = vec![member("role", JsonValue::Str("user".to_owned())), member("content", JsonValue::Array(blocks))];
    assert(crate::json::members_model(ms@) =~= extraction_message_model(instruction@, input@)->Object_0);
    object_of(ms)
}

/// The answer format of a structured extraction: a bare JSON object when
/// the schema is the string `"json"`, else the named schema, not strict.
pub open spec fn response_format_model(schema: Json, name: Seq<char>, description: Seq<char>) -> Json {
    if schema == Json::Str("json"@) {
        Json::Object(seq![("type"@, Json::Str("json_object"@))])
    } else {
        Json::Object(
            seq![
                ("type"@, Json::Str("json_schema"@)),
                (
                    "json_schema"@,
                    Json::Object(
                        seq![
                            ("name"@, Json::Str(name)),
                            ("description"@, Json::Str(description)),
                            ("schema"@, schema),
                            ("strict"@, Json::Bool(false)),
                        ],
                    ),
                ),
            ],
        )
    }
}

/// The answer format of a structured extraction (see
/// `response_format_model`).
pub fn openai_response_format(schema: JsonValue, name: &str, description: &str) -> (r: JsonValue)
    ensures
        r.model() == response_format_model(schema.model(), name@, description@),
{
    let is_json = match &schema {
        JsonValue::Str(t) => crate::json::str_eq(t.as_str(), "json"),
        _ => false,
    };
    if is_json {
        let ms = vec![member("type", JsonValue::Str("json_object".to_owned()))];
        assert(crate::json::members_model(ms@) =~= seq![("type"@, Json::Str("json_object"@))]);
        object_of(ms)
    } else {
        let ghost sm = schema.model();
        assert(sm != Json::Str("json"@)) by {
            if sm == Json::Str("json"@) {
                assert(schema matches JsonValue::Str(t) && t@ == "json"@);
            }
        }
        let inner = vec![
            member("name", JsonValue::Str(name.to_owned())),
            member("description", JsonValue::Str(description.to_owned())),
            member("schema", schema),
            member("strict", JsonValue::Bool(false)),
        ];
        assert(crate::json::members_model(inner@) =~= response_format_model(sm, name@, description@)->Object_0[1].1->Object_0);
        let io = object_of(inner);
        let ms = vec![member("type", JsonValue::Str("json_schema".to_owned())), member("json_schema", io)];
        assert(crate::json::members_model(ms@) =~= response_format_model(sm, name@, description@)->Object_0);
        object_of(ms)
    }
}

/// A request to OpenAI: the model and messages, then the token limit, the
/// temperature and the answer format when given.
pub open spec fn openai_body_model(
    model: Seq<char>,
    messages: Seq<Json>,
    max_tokens: Option<u32>,
    temperature: Option<Json>,
    response_format: Option<Json>,
) -> Json {
    Json::Object(
        seq![("model"@, Json::Str(model)), ("messages"@, Json::Array(messages))] + opt_member(
            "max_tokens"@,
            match max_tokens {
                Some(n) => Some(Json::Number(crate::text::decimal(n as nat))),
                None => None,
            },
        ) + opt_member("temperature"@, temperature) + opt_member("response_format"@, response_format),
    )
}

fn push_opt_value(ms: &mut Vec<crate::json::Member>, k: &str, v: Option<JsonValue>)
    ensures
        crate::json::members_model(final(ms)@) == crate::json::members_model(old(ms)@) + opt_member(
            k@,
            crate::conversation::opt_model(v),
        ),
{
    let ghost before = crate::json::members_model(ms@);
    let ghost vm = crate::conversation::opt_model(v);
    match v {
        Some(x) => {
            ms.push(member(k, x));
        },
        None => {},
    }
    assert(crate::json::members_model(ms@) =~= before + opt_member(k@, vm));
}

/// A request to OpenAI (see `openai_body_model`).
pub fn openai_body(
    model: &str,
    messages: Vec<JsonValue>,
    max_tokens: Option<u32>,
    temperature: Option<JsonValue>,
    response_format: Option<JsonValue>,
) -> (r: JsonValue)
    ensures
        r.model() == openai_body_model(
            model@,
            messages@.map_values(|v: JsonValue| v.model()),
            max_tokens,
            crate::conversation::opt_model(temperature),
            crate::conversation::opt_model(response_format),
        ),
{
    let ghost mm = messages@.map_values(|v: JsonValue| v.model());
    let ghost tm = crate::conversation::opt_model(temperature);
    let ghost fm = crate::conversation::opt_model(response_format);
    proof {
        crate::json::lemma_array_model(messages);
    }
    let mut ms: Vec<crate::json::Member> = vec![
        member("model", JsonValue::Str(model.to_owned())),
        member("messages", JsonValue::Array(messages)),
    ];
    assert(crate::json::members_model(ms@) =~= seq![("model"@, Json::Str(model@)), ("messages"@, Json::Array(mm))]);
    let mt = match max_tokens {
        Some(n) => {
            let d = crate::text::decimal_chars_u64(n as u64);
            Some(JsonValue::Number(string_of(&d)))
        },
        None => None,
    };
    push_opt_value(&mut ms, "max_tokens", mt);
    push_opt_value(&mut ms, "temperature", temperature);
    push_opt_value(&mut ms, "response_format", response_format);
    proof {
        crate::json::lemma_object_model(ms);
        assert(crate::json::members_model(ms@) =~= openai_body_model(model@, mm, max_tokens, tm, fm)->Object_0);
    }
    object_of(ms)
}

/// A well-formed choice: an object whose `message` is an object with an
/// optional string `content`, with an optional string `finish_reason`.
pub open spec fn valid_choice(c: Json) -> bool {
    &&& c is Object
    &&& json_get(c, "message"@) matches Some(m) && m is Object && valid_opt_str(m, "content"@)
    &&& valid_opt_str(c, "finish_reason"@)
}

/// A well-formed answer: an object with a list of well-formed `choices`, a
/// `usage` object with `u32` token counts, and a string `model`.
pub open spec fn valid_answer(j: Json) -> bool {
    &&& j is Object
    &&& get_arr(j, "choices"@) matches Some(cs) && forall|i: int| 0 <= i < cs.len() ==> valid_choice(#[trigger] cs[i])
    &&& json_get(j, "usage"@) matches Some(u) && u is Object && valid_u32(u, "prompt_tokens"@) && valid_u32(
        u,
        "completion_tokens"@,
    )
    &&& get_str(j, "model"@) is Some
}

/// The text of a choice's message, when it has one.
pub open spec fn choice_content(c: Json) -> Option<Seq<char>> {
    match present(json_get(c, "message"@)->Some_0, "content"@) {
        Some(Json::Str(t)) => Some(t),
        _ => None,
    }
}

/// The finish reason of a choice, when it has one.
pub open spec fn choice_finish(c: Json) -> Option<Seq<char>> {
    match present(c, "finish_reason"@) {
        Some(Json::Str(t)) => Some(t),
        _ => None,
    }
}

/// The message used when an answer is JSON but not a well-formed OpenAI
/// answer.
pub open spec fn invalid_openai_answer() -> Seq<char> {
    "réponse OpenAI invalide"@
}

fn choice_ok(c: &JsonValue) -> (r: bool)
    ensures
        r == valid_choice(c.model()),
{
    if !c.is_object() {
        return false;
    }
    match c.get_key("message") {
        Some(m) => m.is_object() && crate::ollama::check_opt_str(m, "content") && crate::ollama::check_opt_str(
            c,
            "finish_reason",
        ),
        None => false,
    }
}

/// The choices of a well-formed answer, or nothing.
fn read_answer(j: &JsonValue) -> (r: Option<Vec<JsonValue>>)
    ensures
        valid_answer(j.model()) <==> r is Some,
        r matches Some(cs) ==> Some(cs@.map_values(|v: JsonValue| v.model())) == get_arr(j.model(), "choices"@),
{
    if !j.is_object() {
        return None;
    }
    let cs = match j.get_array("choices") {
        Some(cs) => cs,
        None => return None,
    };
    let ghost cm = cs@.map_values(|v: JsonValue| v.model());
    let mut i: usize = 0;
    while i < cs.len()
        invariant
            i <= cs.len(),
            cm == cs@.map_values(|v: JsonValue| v.model()),
            get_arr(j.model(), "choices"@) == Some(cm),
            forall|q: int| 0 <= q < i ==> valid_choice(#[trigger] cm[q]),
        decreases cs.len() - i,
    {
        assert(cm[i as int] == cs@[i as int].model());
        if !choice_ok(&cs[i]) {
            assert(!valid_choice(cm[i as int]));
            proof {
                let g = get_arr(j.model(), "choices"@)->Some_0;
                assert(g == cm);
                assert(!valid_choice(g[i as int]));
            }
            assert(!valid_answer(j.model()));
            return None;
        }
        i = i + 1;
    }
    assert(forall|q: int| 0 <= q < cm.len() ==> valid_choice(#[trigger] cm[q]));
    let usage_ok = match j.get_key("usage") {
        Some(u) => u.is_object() && u32_member(u, "prompt_tokens").is_some() && u32_member(
            u,
            "completion_tokens",
        ).is_some(),
        None => false,
    };
    if !usage_ok {
        return None;
    }
    if j.get_str("model").is_none() {
        return None;
    }
    assert(valid_answer(j.model()));
    Some(cs)
}

fn content_of(c: &JsonValue) -> (r: Option<String>)
    requires
        valid_choice(c.model()),
    ensures
        opt_text(r) == choice_content(c.model()),
{
    match c.get_key("message") {
        Some(m) => match present_value(m, "content") {
            Some(JsonValue::Str(t)) => Some(t.clone()),
            _ => None,
        },
        None => None,
    }
}

fn finish_of(c: &JsonValue) -> (r: Option<String>)
    ensures
        opt_text(r) == choice_finish(c.model()),
{
    match present_value(c, "finish_reason") {
        Some(JsonValue::Str(t)) => Some(t.clone()),
        _ => None,
    }
}

/// Reads a complete answer from OpenAI's status and body: a failure status
/// is reported with its message (`type: message` when the body is an
/// error, see `failure_body`); a body that is not JSON with the parser's
/// message; an answer that is not well-formed is invalid; otherwise the
/// text of the first choice (empty when there is none or it has no text),
/// no tool call, the model and the token counts.
pub fn openai_completion_result(status: u16, raw: &str) -> (r: Result<Completion, LlmError>)
    ensures
        status != 200 ==> (r matches Err(LlmError::ProviderStatus { status: s, body }) && s == status
            && body@ == failure_body(raw@)),
        status == 200 ==> match json_parse(raw@) {
            None => r matches Err(LlmError::Json(m)) && m@ == crate::json::json_parse_error(raw@),
            Some(j) => if !valid_answer(j) {
                r matches Err(LlmError::Json(m)) && m@ == invalid_openai_answer()
            } else {
                r matches Ok(c) && {
                    let cs = get_arr(j, "choices"@)->Some_0;
                    let u = json_get(j, "usage"@)->Some_0;
                    &&& c.text@ == if cs.len() > 0 && choice_content(cs[0]) is Some {
                        choice_content(cs[0])->Some_0
                    } else {
                        seq![]
                    }
                    &&& c.tool_calls@.len() == 0
                    &&& c.model@ == get_str(j, "model"@)->Some_0
                    &&& c.tokens_in == u32_value(u, "prompt_tokens"@)
                    &&& c.tokens_out == u32_value(u, "completion_tokens"@)
                }
            },
        },
{
    if status != 200 {
        return Err(LlmError::ProviderStatus { status, body: failure_body_of(raw) });
    }
    let j = match parse_json(raw) {
        Ok(j) => j,
        Err(e) => return Err(LlmError::Json(e)),
    };
    let cs = match read_answer(&j) {
        Some(cs) => cs,
        None => return Err(LlmError::Json("réponse OpenAI invalide".to_owned())),
    };
    let ghost cm = cs@.map_values(|v: JsonValue| v.model());
    let text = if cs.len() > 0 {
        assert(cm[0] == cs@[0].model());
        match content_of(&cs[0]) {
            Some(t) => t,
            None => String::new(),
        }
    } else {
        String::new()
    };
    let u = j.get_key("usage").unwrap();
    let tokens_in = u32_member(u, "prompt_tokens").unwrap();
    let tokens_out = u32_member(u, "completion_tokens").unwrap();
    let model = j.get_str("model").unwrap();
    Ok(Completion { text, tool_calls: Vec::new(), model, tokens_in, tokens_out })
}

/// The report of an answer without any choice.
pub open spec fn no_choice_message() -> Seq<char> {
    "Aucun choix renvoyé par OpenAI"@
}

/// The report of a choice without text.
pub open spec fn empty_answer_message() -> Seq<char> {
    "Réponse vide d'OpenAI"@
}

/// Reads a structured answer from OpenAI's status and body: failures as in
/// `openai_completion_result`; an answer without a choice, or whose first
/// choice has no text, is a bad structured output; one cut at the token
/// limit is truncated; otherwise the first choice's text must be JSON.
pub fn openai_structured_result(status: u16, raw: &str, schema_name: &str) -> (r: Result<JsonValue, LlmError>)
    ensures
        status != 200 ==> (r matches Err(LlmError::ProviderStatus { status: s, body }) && s == status
            && body@ == failure_body(raw@)),
        status == 200 ==> match json_parse(raw@) {
            None => r matches Err(LlmError::Json(m)) && m@ == crate::json::json_parse_error(raw@),
            Some(j) => if !valid_answer(j) {
                r matches Err(LlmError::Json(m)) && m@ == invalid_openai_answer()
            } else {
                let cs = get_arr(j, "choices"@)->Some_0;
                if cs.len() == 0 {
                    r matches Err(LlmError::BadStructuredOutput(m)) && m@ == no_choice_message()
                } else if choice_finish(cs[0]) == Some("length"@) {
                    r matches Err(LlmError::Truncated { step, partial_payload }) && step@ == schema_name@
                        && partial_payload@ == raw@
                } else {
                    match choice_content(cs[0]) {
                        None => r matches Err(LlmError::BadStructuredOutput(m)) && m@ == empty_answer_message(),
                        Some(t) => match json_parse(t) {
                            Some(v) => r matches Ok(x) && x.model() == v,
                            None => r matches Err(LlmError::Json(m)) && m@ == crate::json::json_parse_error(t),
                        },
                    }
                }
            },
        },
{
    if status != 200 {
        return Err(LlmError::ProviderStatus { status, body: failure_body_of(raw) });
    }
    let j = match parse_json(raw) {
        Ok(j) => j,
        Err(e) => return Err(LlmError::Json(e)),
    };
    let cs = match read_answer(&j) {
        Some(cs) => cs,
        None => return Err(LlmError::Json("réponse OpenAI invalide".to_owned())),
    };
    let ghost cm = cs@.map_values(|v: JsonValue| v.model());
    if cs.len() == 0 {
        return Err(LlmError::BadStructuredOutput("Aucun choix renvoyé par OpenAI".to_owned()));
    }
    assert(cm[0] == cs@[0].model());
    match finish_of(&cs[0]) {
        Some(reason) => {
            if crate::json::str_eq(reason.as_str(), "length") {
                return Err(LlmError::Truncated { step: schema_name.to_owned(), partial_payload: raw.to_owned() });
            }
        },
        None => {},
    }
    let content = match content_of(&cs[0]) {
        Some(t) => t,
        None => return Err(LlmError::BadStructuredOutput("Réponse vide d'OpenAI".to_owned())),
    };
    match parse_json(content.as_str()) {
        Ok(v) => Ok(v),
        Err(e) => Err(LlmError::Json(e)),
    }
}

/// The error of a streamed call: OpenAI answers are not streamed.
pub fn openai_stream_unsupported() -> (r: LlmError)
    ensures
        r matches LlmError::Other(m) && m@ == "Streaming non implémenté pour OpenAI"@,
{
    LlmError::Other("Streaming non implémenté pour OpenAI".to_owned())
}

} // verus!

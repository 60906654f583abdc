use candidature::anthropic::AnthropicStreamDecoder;
use candidature::json::JsonValue;
use candidature::llm::{LlmError, StopReason, StreamChunk};
use candidature::ollama::{
    clean_fenced_json, extraction_result, should_retry_with_json_format, OllamaStreamDecoder,
};

fn describe(c: &StreamChunk) -> String {
    match c {
        StreamChunk::TextDelta { text } => format!("text:{}", text),
        StreamChunk::ToolCallStart { id, name } => format!("start:{}:{}", id, name),
        StreamChunk::ToolCallArgsDelta { id, delta } => format!("args:{}:{}", id, delta),
        StreamChunk::ToolCallEnd { id, name, arguments } => {
            let kind = match arguments {
                JsonValue::Object(ms) => format!("object{}", ms.len()),
                JsonValue::Null => "null".to_string(),
                _ => "other".to_string(),
            };
            format!("end:{}:{}:{}", id, name, kind)
        },
        StreamChunk::Done { stop_reason } => format!("done:{:?}", stop_reason),
    }
}

#[test]
fn ollama_stream_splits_lines_across_chunks() {
    let mut d = OllamaStreamDecoder::new();
    let a = d.feed(br#"{"message":{"role":"assistant","content":"Bon"},"done":false}
{"message":{"role":"assis"#);
    assert_eq!(a.iter().map(describe).collect::<Vec<_>>(), vec!["text:Bon"]);
    let b = d.feed(br#"tant","content":"jour"},"done":false}
{"message":{"role":"assistant","content":""},"done":true,"done_reason":"stop"}
"#);
    assert_eq!(
        b.iter().map(describe).collect::<Vec<_>>(),
        vec!["text:jour".to_string(), "done:EndTurn".to_string()]
    );
}

#[test]
fn ollama_stream_announces_each_tool_call_once() {
    let mut d = OllamaStreamDecoder::new();
    let line = br#"{"message":{"role":"assistant","content":"","tool_calls":[{"type":"function","function":{"name":"update_documents","arguments":{"a":1}}}]},"done":false}
"#;
    let first = d.feed(line);
    assert_eq!(
        first.iter().map(describe).collect::<Vec<_>>(),
        vec!["start:call_0:update_documents".to_string(), "end:call_0:update_documents:object1".to_string()]
    );
    let second = d.feed(line);
    assert_eq!(second.iter().map(describe).collect::<Vec<_>>(), vec!["end:call_0:update_documents:object1"]);
    let last = d.feed(br#"{"done":true,"done_reason":"stop"}
"#);
    assert_eq!(last.iter().map(describe).collect::<Vec<_>>(), vec!["done:ToolUse"]);
}

#[test]
fn ollama_stream_skips_malformed_lines() {
    let mut d = OllamaStreamDecoder::new();
    let out = d.feed(b"pas du json\n{\"message\":{\"content\":\"x\"},\"done\":false}\n\n{\"content\":\"brut\",\"done\":true,\"done_reason\":\"length\"}\n");
    assert_eq!(
        out.iter().map(describe).collect::<Vec<_>>(),
        vec!["text:brut".to_string(), "done:MaxTokens".to_string()]
    );
}

#[test]
fn fenced_json_is_unwrapped() {
    assert_eq!(clean_fenced_json("  ```json\n{\"a\": 1}\n```  "), "{\"a\": 1}");
    assert_eq!(clean_fenced_json(" {\"a\": 1} "), "{\"a\": 1}");
}

#[test]
fn json_format_retry_is_detected() {
    assert!(should_retry_with_json_format(500, "error: invalid JSON schema in format"));
    assert!(!should_retry_with_json_format(400, "invalid JSON schema in format"));
}

#[test]
fn extraction_result_reads_structured_answer() {
    let raw = r#"{"message":{"role":"assistant","content":"```json\n{\"titre\":\"Dev\"}\n```"},"done":true,"done_reason":"stop"}"#;
    match extraction_result(200, raw, "offre") {
        Ok(JsonValue::Object(ms)) => assert_eq!(ms[0].key, "titre"),
        _ => panic!("expected an object"),
    }
    let truncated = r#"{"message":{"role":"assistant","content":"{"},"done":true,"done_reason":"length"}"#;
    assert!(matches!(extraction_result(200, truncated, "offre"), Err(LlmError::Truncated { .. })));
    assert_eq!(
        extraction_result(503, "busy", "offre"),
        Err(LlmError::ProviderStatus { status: 503, body: "busy".to_string() })
    );
    let bad = r#"{"message":{"role":"assistant","content":"pas du json"},"done":true}"#;
    assert!(matches!(extraction_result(200, bad, "offre"), Err(LlmError::ParseFailed { payload, .. }) if payload == "pas du json"));
    assert_eq!(
        extraction_result(200, r#"{"done":true}"#, "offre"),
        Err(LlmError::Json("Missing message".to_string()))
    );
}

fn describe_result(r: &Result<StreamChunk, LlmError>) -> String {
    match r {
        Ok(c) => describe(c),
        Err(e) => format!("error:{:?}", e),
    }
}

#[test]
fn anthropic_stream_reads_events_across_chunks() {
    let mut d = AnthropicStreamDecoder::new();
    let a = d.feed(b"event: content_block_delta\ndata: {\"type\":\"content_block_delta\",\"index\":0,\"delta\":{\"type\":\"text_delta\",\"text\":\"Bon\"}}\n\nevent: ping\ndata: {\"type\":\"pi");
    assert_eq!(a.iter().map(describe_result).collect::<Vec<_>>(), vec!["text:Bon"]);
    let b = d.feed(b"ng\"}\n\ndata: {\"type\":\"message_delta\",\"delta\":{\"stop_reason\":\"end_turn\"}}\n\n");
    assert_eq!(b.iter().map(describe_result).collect::<Vec<_>>(), vec!["done:EndTurn"]);
}

#[test]
fn anthropic_stream_gathers_tool_arguments() {
    let mut d = AnthropicStreamDecoder::new();
    let events: Vec<&str> = vec![
        "data: {\"type\":\"content_block_start\",\"index\":1,\"content_block\":{\"type\":\"tool_use\",\"id\":\"tu_1\",\"name\":\"edit_resume_list\",\"input\":{}}}\n\n",
        "data: {\"type\":\"content_block_delta\",\"index\":1,\"delta\":{\"type\":\"input_json_delta\",\"partial_json\":\"{\\\"target\\\":\"}}\n\n",
        "data: {\"type\":\"content_block_delta\",\"index\":1,\"delta\":{\"type\":\"input_json_delta\",\"partial_json\":\"\\\"langues\\\"}\"}}\n\n",
        "data: {\"type\":\"content_block_stop\",\"index\":1}\n\n",
        "data: {\"type\":\"message_delta\",\"delta\":{\"stop_reason\":\"tool_use\"},\"usage\":{\"output_tokens\":12}}\n\n",
        "data: {\"type\":\"error\",\"error\":{\"type\":\"overloaded_error\",\"message\":\"Overloaded\"}}\n\n",
    ];
    let out = d.feed(events.concat().as_bytes());
    assert_eq!(
        out.iter().map(describe_result).collect::<Vec<_>>(),
        vec![
            "start:tu_1:edit_resume_list".to_string(),
            "args:tu_1:{\"target\":".to_string(),
            "args:tu_1:\"langues\"}".to_string(),
            "end:tu_1:edit_resume_list:object1".to_string(),
            "done:ToolUse".to_string(),
            "error:Other(\"Overloaded\")".to_string(),
        ]
    );
}

#[test]
fn anthropic_stream_maps_unknown_stop_reason() {
    let mut d = AnthropicStreamDecoder::new();
    let out = d.feed(b"data: {\"type\":\"message_delta\",\"delta\":{\"stop_reason\":\"refusal\"}}\r\n\r\n\n");
    assert_eq!(out.len(), 1);
    assert!(matches!(&out[0], Ok(StreamChunk::Done { stop_reason: StopReason::Other(r) }) if r == "refusal"));
    let out = d.feed(b"data: {\"type\":\"message_delta\",\"delta\":{\"stop_reason\":5}}\n\n");
    assert!(out.is_empty());
}

use candidature::anthropic::{
    anthropic_body, anthropic_message, anthropic_tool_choice, completion_result, extraction_schema,
    rate_limit_error, structured_result,
};
use candidature::json::Member;
use candidature::llm::{LlmMessage, MessageContent, Role, ToolChoice};
use candidature::ollama::{ollama_chat_body, ollama_message, ollama_options, ollama_tool_choice};

fn render(v: &JsonValue) -> String {
    match v {
        JsonValue::Null => "null".to_string(),
        JsonValue::Bool(b) => b.to_string(),
        JsonValue::Number(n) => n.clone(),
        JsonValue::Str(t) => format!("{:?}", t),
        JsonValue::Array(items) => format!("[{}]", items.iter().map(render).collect::<Vec<_>>().join(",")),
        JsonValue::Object(ms) => format!(
            "{{{}}}",
            ms.iter().map(|m| format!("{:?}:{}", m.key, render(&m.value))).collect::<Vec<_>>().join(",")
        ),
    }
}

#[test]
fn anthropic_completion_gathers_text_and_tool_calls() {
    let raw = r#"{"content":[{"type":"text","text":"Bon"},{"type":"tool_use","id":"t1","name":"update_documents","input":{"a":1}},{"type":"text","text":"jour"}],"usage":{"input_tokens":10,"output_tokens":5},"model":"model-x","stop_reason":"tool_use"}"#;
    let c = completion_result(200, raw).unwrap();
    assert_eq!(c.text, "Bonjour");
    assert_eq!(c.tool_calls.len(), 1);
    assert_eq!(c.tool_calls[0].id, "t1");
    assert_eq!(c.model, "model-x");
    assert_eq!((c.tokens_in, c.tokens_out), (10, 5));
    assert!(matches!(completion_result(200, r#"{"content":[]}"#), Err(LlmError::Json(_))));
}

#[test]
fn anthropic_failure_reports_error_type_and_message() {
    let raw = r#"{"type":"error","error":{"type":"invalid_request_error","message":"bad"}}"#;
    assert!(matches!(
        completion_result(400, raw),
        Err(LlmError::ProviderStatus { status: 400, body }) if body == "invalid_request_error: bad"
    ));
    assert!(matches!(
        completion_result(502, "gateway"),
        Err(LlmError::ProviderStatus { status: 502, body }) if body == "gateway"
    ));
}

#[test]
fn anthropic_structured_result_takes_first_tool_input() {
    let raw = r#"{"content":[{"type":"text","text":"x"},{"type":"tool_use","id":"t","name":"s","input":{"titre":"Dev"}}],"usage":{"input_tokens":1,"output_tokens":2},"model":"m","stop_reason":"tool_use"}"#;
    let v = structured_result(200, raw, "offre").unwrap();
    assert_eq!(render(&v), r#"{"titre":"Dev"}"#);
    let none = r#"{"content":[{"type":"text","text":"x"}],"usage":{"input_tokens":1,"output_tokens":2},"model":"m","stop_reason":"end_turn"}"#;
    assert_eq!(
        structured_result(200, none, "offre"),
        Err(LlmError::BadStructuredOutput(
            "Aucun bloc tool_use trouvé dans la réponse Anthropic (stop_reason: Some(\"end_turn\"))".to_string()
        ))
    );
    let cut = r#"{"content":[],"usage":{"input_tokens":1,"output_tokens":2},"model":"m","stop_reason":"max_tokens"}"#;
    assert!(matches!(structured_result(200, cut, "offre"), Err(LlmError::Truncated { step, .. }) if step == "offre"));
}

#[test]
fn anthropic_rate_limit_uses_retry_after() {
    assert_eq!(rate_limit_error(Some("3")), LlmError::RateLimit { retry_after_ms: 3000 });
    assert_eq!(rate_limit_error(None), LlmError::RateLimit { retry_after_ms: 5_000_000 });
}

#[test]
fn tool_choices_follow_each_provider() {
    assert_eq!(render(&anthropic_tool_choice(&ToolChoice::Required).unwrap()), r#"{"type":"any"}"#);
    assert_eq!(
        render(&anthropic_tool_choice(&ToolChoice::Tool { name: "t".to_string() }).unwrap()),
        r#"{"type":"tool","name":"t"}"#
    );
    assert!(anthropic_tool_choice(&ToolChoice::Disabled).is_none());
    assert_eq!(render(&ollama_tool_choice(&ToolChoice::Auto).unwrap()), r#""auto""#);
    assert_eq!(
        render(&ollama_tool_choice(&ToolChoice::Tool { name: "t".to_string() }).unwrap()),
        r#"{"type":"function","function":{"name":"t"}}"#
    );
}

fn tool_message() -> LlmMessage {
    LlmMessage {
        role: Role::Tool,
        content: vec![
            MessageContent::Text("ignoré".to_string()),
            MessageContent::ToolResult { tool_use_id: "t1".to_string(), content: "ok".to_string() },
        ],
    }
}

#[test]
fn messages_are_written_for_each_provider() {
    assert_eq!(
        render(&ollama_message(&tool_message())),
        r#"{"role":"tool","content":"ok","tool_call_id":"t1"}"#
    );
    assert_eq!(
        render(&anthropic_message(&tool_message())),
        r#"{"role":"user","content":[{"type":"text","text":"ignoré"},{"type":"tool_result","tool_use_id":"t1","content":"ok"}]}"#
    );
    let image = LlmMessage {
        role: Role::User,
        content: vec![MessageContent::Image { data: b"hello".to_vec(), content_type: "image/png".to_string() }],
    };
    assert_eq!(render(&ollama_message(&image)), r#"{"role":"user","content":"","images":["aGVsbG8="]}"#);
}

#[test]
fn request_bodies_list_their_members() {
    let body = ollama_chat_body(
        "llama",
        vec![],
        false,
        Some(JsonValue::Str("json".to_string())),
        Some(ollama_options(None)),
        vec![],
        None,
    );
    assert_eq!(
        render(&body),
        r#"{"model":"llama","messages":[],"stream":false,"format":"json","options":{"num_ctx":16384}}"#
    );
    let body = anthropic_body("model-a", 4096, Some("sys".to_string()), vec![], None, None, None, Some(true));
    assert_eq!(
        render(&body),
        r#"{"model":"model-a","max_tokens":4096,"system":"sys","messages":[],"stream":true}"#
    );
    assert_eq!(render(&extraction_schema(JsonValue::Str("json".to_string()))), r#"{"type":"object"}"#);
    let m = Member { key: "k".to_string(), value: JsonValue::Null };
    assert_eq!(render(&extraction_schema(JsonValue::Object(vec![m]))), r#"{"k":null}"#);
}

#[test]
fn ollama_stream_gives_the_same_pieces_however_it_is_cut() {
    let whole = "{\"message\":{\"role\":\"assistant\",\"content\":\"Bon\"},\"done\":false}\n{\"message\":{\"role\":\"assistant\",\"content\":\"jour\"},\"done\":false}\n{\"message\":{\"role\":\"assistant\",\"content\":\"\"},\"done\":true,\"done_reason\":\"stop\"}\n";
    let mut one = OllamaStreamDecoder::new();
    let all: Vec<String> = one.feed(whole.as_bytes()).iter().map(describe).collect();
    for cut in 1..whole.len() {
        let mut d = OllamaStreamDecoder::new();
        let mut got: Vec<String> = d.feed(whole[..cut].as_bytes()).iter().map(describe).collect();
        got.extend(d.feed(whole[cut..].as_bytes()).iter().map(describe));
        assert_eq!(got, all, "cut at {}", cut);
    }
    assert_eq!(all, vec!["text:Bon".to_string(), "text:jour".to_string(), "done:EndTurn".to_string()]);
}

#[test]
fn anthropic_stream_gives_the_same_events_however_it_is_cut() {
    let whole = "event: content_block_delta\ndata: {\"type\":\"content_block_delta\",\"index\":0,\"delta\":{\"type\":\"text_delta\",\"text\":\"Bon\"}}\n\ndata: {\"type\":\"message_delta\",\"delta\":{\"stop_reason\":\"end_turn\"}}\n\n";
    let mut one = AnthropicStreamDecoder::new();
    let all: Vec<String> = one.feed(whole.as_bytes()).iter().map(describe_result).collect();
    assert_eq!(all, vec!["text:Bon".to_string(), "done:EndTurn".to_string()]);
    for cut in 1..whole.len() {
        let mut d = AnthropicStreamDecoder::new();
        let mut got: Vec<String> = d.feed(whole[..cut].as_bytes()).iter().map(describe_result).collect();
        got.extend(d.feed(whole[cut..].as_bytes()).iter().map(describe_result));
        assert_eq!(got, all, "cut at {}", cut);
    }
}

#[test]
fn anthropic_extraction_message_keeps_texts_and_images() {
    let input = vec![
        MessageContent::Text("texte".to_string()),
        MessageContent::ToolResult { tool_use_id: "t".to_string(), content: "ignoré".to_string() },
        MessageContent::Image { data: b"hi".to_vec(), content_type: "image/png".to_string() },
    ];
    let m = candidature::anthropic::extraction_message("Analyse", &input);
    assert_eq!(
        render(&m),
        "{\"role\":\"user\",\"content\":[{\"type\":\"text\",\"text\":\"Analyse\"},{\"type\":\"text\",\"text\":\"texte\"},{\"type\":\"image\",\"source\":{\"type\":\"base64\",\"media_type\":\"image/png\",\"data\":\"aGk=\"}}]}"
    );
    let m = candidature::anthropic::extraction_message("", &vec![]);
    assert_eq!(render(&m), "{\"role\":\"user\",\"content\":[]}");
}

fn jobj(members: Vec<(&str, JsonValue)>) -> JsonValue {
    JsonValue::Object(members.into_iter().map(|(k, v)| Member { key: k.to_string(), value: v }).collect())
}

#[test]
fn ollama_extraction_messages_carry_schema_texts_and_images() {
    let schema = jobj(vec![("type", JsonValue::Str("object".to_string()))]);
    let input = vec![
        MessageContent::Text("offre".to_string()),
        MessageContent::Image { data: b"hi".to_vec(), content_type: "image/png".to_string() },
        MessageContent::Text("suite".to_string()),
    ];
    let msgs = candidature::ollama::extraction_messages(Some("sys"), "Extrais", &schema, &input);
    assert_eq!(msgs.len(), 2);
    assert_eq!(render(&msgs[0]), "{\"role\":\"system\",\"content\":\"sys\"}");
    let expected_text = "Extrais\n\nTu DOIS répondre UNIQUEMENT avec un objet JSON valide respectant ce schéma :\n{\n  \"type\": \"object\"\n}\n\n---\n\noffre\n\n---\n\nsuite";
    assert_eq!(
        render(&msgs[1]),
        format!("{{\"role\":\"user\",\"content\":{:?},\"images\":[\"aGk=\"]}}", expected_text)
    );
    let msgs = candidature::ollama::extraction_messages(None, "", &schema, &vec![]);
    assert_eq!(msgs.len(), 1);
    assert!(!render(&msgs[0]).contains("images"));
}

#[test]
fn ollama_extraction_format_drops_metadata_and_refuses_refs() {
    let schema = jobj(vec![
        ("$schema", JsonValue::Str("http://json-schema.org/draft-07/schema#".to_string())),
        ("title", JsonValue::Str("Offre".to_string())),
        ("type", JsonValue::Str("object".to_string())),
    ]);
    assert_eq!(render(&candidature::ollama::extraction_format(&schema)), "{\"type\":\"object\"}");
    let with_ref = jobj(vec![
        ("title", JsonValue::Str("Multi".to_string())),
        ("properties", jobj(vec![("offres", jobj(vec![("$ref", JsonValue::Str("#/definitions/O".to_string()))]))])),
    ]);
    assert_eq!(render(&candidature::ollama::extraction_format(&with_ref)), "\"json\"");
    assert_eq!(
        render(&candidature::ollama::extraction_format(&JsonValue::Str("json".to_string()))),
        "\"json\""
    );
}

#[test]
fn ollama_extraction_options_pass_the_token_limit() {
    assert_eq!(
        render(&candidature::ollama::extraction_options(Some(4000))),
        "{\"num_ctx\":16384,\"num_predict\":4000}"
    );
    assert_eq!(
        render(&candidature::ollama::extraction_options(None)),
        "{\"num_ctx\":16384,\"num_predict\":null}"
    );
}

#[test]
fn ollama_completion_reads_text_calls_and_counts() {
    let raw = r#"{"message":{"role":"assistant","content":"Voici","tool_calls":[{"id":"c1","type":"function","function":{"name":"update_documents","arguments":{"a":1}}},{"type":"function","function":{"name":"edit_cover_list","arguments":{}}}]},"done":true,"prompt_eval_count":12,"eval_count":7}"#;
    let c = candidature::ollama::completion_result(200, raw, "llama3").unwrap();
    assert_eq!(c.text, "Voici");
    assert_eq!(c.model, "llama3");
    assert_eq!((c.tokens_in, c.tokens_out), (12, 7));
    assert_eq!(c.tool_calls.len(), 2);
    assert_eq!(c.tool_calls[0].id, "c1");
    assert_eq!(c.tool_calls[0].name, "update_documents");
    assert_eq!(c.tool_calls[1].name, "edit_cover_list");
    assert_eq!(c.tool_calls[1].id.len(), 36);
    let bare = r#"{"message":{"role":"assistant","content":"ok"},"done":true}"#;
    let c = candidature::ollama::completion_result(200, bare, "m").unwrap();
    assert_eq!((c.tokens_in, c.tokens_out), (0, 0));
    assert!(c.tool_calls.is_empty());
}

use candidature::ollama::completion_result as ollama_completion;

#[test]
fn ollama_completion_errors() {
    assert_eq!(
        ollama_completion(500, "boom", "m").err(),
        Some(LlmError::ProviderStatus { status: 500, body: "boom".to_string() })
    );
    assert_eq!(
        ollama_completion(200, r#"{"done":true}"#, "m").err(),
        Some(LlmError::Json("Missing message".to_string()))
    );
    assert_eq!(
        ollama_completion(200, "pas du json", "m").err(),
        Some(LlmError::Json("expected value at line 1 column 1".to_string()))
    );
    assert_eq!(
        ollama_completion(200, r#"{"message":1,"done":true}"#, "m").err(),
        Some(LlmError::Json("réponse Ollama illisible".to_string()))
    );
}

#[test]
fn provider_answers_that_are_not_json_carry_the_parser_message() {
    assert_eq!(
        completion_result(200, "pas du json").err(),
        Some(LlmError::Json("expected value at line 1 column 1".to_string()))
    );
    assert_eq!(
        extraction_result(200, "pas du json", "offre").err(),
        Some(LlmError::Json("expected value at line 1 column 1".to_string()))
    );
}

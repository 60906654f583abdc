use candidature::json::{JsonValue, Member};
use candidature::llm::{LlmError, LlmMessage, MessageContent, Role};
use candidature::openai::{
    openai_body, openai_completion_result, openai_extraction_message, openai_messages, openai_response_format,
    openai_stream_unsupported, openai_structured_result,
};

fn render(v: &JsonValue) -> String {
    match v {
        JsonValue::Null => "null".to_string(),
        JsonValue::Bool(b) => b.to_string(),
        JsonValue::Number(n) => n.clone(),
        JsonValue::Str(t) => format!("{:?}", t),
        JsonValue::Array(items) => format!("[{}]", items.iter().map(render).collect::<Vec<_>>().join(",")),
        JsonValue::Object(ms) => format!(
            "{{{}}}",
            ms.iter().map(|m| format!("{:?}:{}", m.key, render(&m.value))).collect::<Vec<_>>().join(",")
        ),
    }
}

fn obj(members: Vec<(&str, JsonValue)>) -> JsonValue {
    JsonValue::Object(members.into_iter().map(|(k, v)| Member { key: k.to_string(), value: v }).collect())
}

#[test]
fn openai_messages_put_the_system_prompt_first() {
    let msgs = vec![
        LlmMessage {
            role: Role::User,
            content: vec![
                MessageContent::Text("Bonjour".to_string()),
                MessageContent::Image { data: b"hi".to_vec(), content_type: "image/png".to_string() },
            ],
        },
        LlmMessage { role: Role::Assistant, content: vec![MessageContent::Text("Salut".to_string())] },
    ];
    let out = openai_messages(Some("Tu es utile".to_string()), &msgs);
    let rendered: Vec<String> = out.iter().map(render).collect();
    assert_eq!(
        rendered,
        vec![
            r#"{"role":"system","content":"Tu es utile"}"#.to_string(),
            r#"{"role":"user","content":[{"type":"text","text":"Bonjour"},{"type":"image_url","image_url":{"url":"data:image/png;base64,aGk="}}]}"#.to_string(),
            r#"{"role":"assistant","content":[{"type":"text","text":"Salut"}]}"#.to_string(),
        ]
    );
    assert_eq!(openai_messages(None, &vec![]).len(), 0);
}

#[test]
fn openai_extraction_message_leads_with_the_instruction() {
    let m = openai_extraction_message("Extrais", &vec![MessageContent::Text("offre".to_string())]);
    assert_eq!(
        render(&m),
        r#"{"role":"user","content":[{"type":"text","text":"Extrais"},{"type":"text","text":"offre"}]}"#
    );
    let m = openai_extraction_message("", &vec![MessageContent::Text("offre".to_string())]);
    assert_eq!(render(&m), r#"{"role":"user","content":[{"type":"text","text":"offre"}]}"#);
}

#[test]
fn openai_response_format_follows_the_schema() {
    let f = openai_response_format(JsonValue::Str("json".to_string()), "offre", "Une offre");
    assert_eq!(render(&f), r#"{"type":"json_object"}"#);
    let schema = obj(vec![("type", JsonValue::Str("object".to_string()))]);
    let f = openai_response_format(schema, "offre", "Une offre");
    assert_eq!(
        render(&f),
        r#"{"type":"json_schema","json_schema":{"name":"offre","description":"Une offre","schema":{"type":"object"},"strict":false}}"#
    );
}

#[test]
fn openai_body_holds_the_given_fields_only() {
    let b = openai_body("gpt-4o-2024-08-06", vec![], Some(4000), None, None);
    assert_eq!(render(&b), r#"{"model":"gpt-4o-2024-08-06","messages":[],"max_tokens":4000}"#);
    let b = openai_body("m", vec![], None, Some(JsonValue::Number("0.2".to_string())), Some(JsonValue::Null));
    assert_eq!(render(&b), r#"{"model":"m","messages":[],"temperature":0.2,"response_format":null}"#);
}

#[test]
fn openai_completion_reads_first_choice_and_usage() {
    let raw = r#"{"choices":[{"message":{"content":"Bonjour"},"finish_reason":"stop"}],"usage":{"prompt_tokens":11,"completion_tokens":3},"model":"gpt-x"}"#;
    let c = openai_completion_result(200, raw).unwrap();
    assert_eq!(c.text, "Bonjour");
    assert_eq!(c.model, "gpt-x");
    assert_eq!((c.tokens_in, c.tokens_out), (11, 3));
    assert!(c.tool_calls.is_empty());
    let none = r#"{"choices":[],"usage":{"prompt_tokens":1,"completion_tokens":0},"model":"gpt-x"}"#;
    assert_eq!(openai_completion_result(200, none).unwrap().text, "");
    assert_eq!(
        openai_completion_result(200, r#"{"choices":[]}"#).err(),
        Some(LlmError::Json("réponse OpenAI invalide".to_string()))
    );
    assert_eq!(
        openai_completion_result(200, "pas du json").err(),
        Some(LlmError::Json("expected value at line 1 column 1".to_string()))
    );
}

#[test]
fn openai_failure_reports_error_type_and_message() {
    let raw = r#"{"error":{"message":"Incorrect API key","type":"invalid_request_error"}}"#;
    assert_eq!(
        openai_completion_result(401, raw).err(),
        Some(LlmError::ProviderStatus { status: 401, body: "invalid_request_error: Incorrect API key".to_string() })
    );
    assert_eq!(
        openai_structured_result(500, "boom", "offre").err(),
        Some(LlmError::ProviderStatus { status: 500, body: "boom".to_string() })
    );
}

#[test]
fn openai_structured_result_branches() {
    let usage = r#""usage":{"prompt_tokens":1,"completion_tokens":1},"model":"gpt-x""#;
    let ok = format!(r#"{{"choices":[{{"message":{{"content":"{{\"a\":1}}"}}}}],{usage}}}"#);
    assert_eq!(render(&openai_structured_result(200, &ok, "offre").unwrap()), r#"{"a":1}"#);
    let empty = format!(r#"{{"choices":[],{usage}}}"#);
    assert_eq!(
        openai_structured_result(200, &empty, "offre").err(),
        Some(LlmError::BadStructuredOutput("Aucun choix renvoyé par OpenAI".to_string()))
    );
    let cut = format!(r#"{{"choices":[{{"message":{{"content":"{{"}},"finish_reason":"length"}}],{usage}}}"#);
    assert_eq!(
        openai_structured_result(200, &cut, "offre").err(),
        Some(LlmError::Truncated { step: "offre".to_string(), partial_payload: cut.clone() })
    );
    let no_text = format!(r#"{{"choices":[{{"message":{{"content":null}}}}],{usage}}}"#);
    assert_eq!(
        openai_structured_result(200, &no_text, "offre").err(),
        Some(LlmError::BadStructuredOutput("Réponse vide d'OpenAI".to_string()))
    );
    let bad = format!(r#"{{"choices":[{{"message":{{"content":"pas du json"}}}}],{usage}}}"#);
    assert_eq!(
        openai_structured_result(200, &bad, "offre").err(),
        Some(LlmError::Json("expected value at line 1 column 1".to_string()))
    );
}

#[test]
fn openai_does_not_stream() {
    assert_eq!(openai_stream_unsupported(), LlmError::Other("Streaming non implémenté pour OpenAI".to_string()));
}

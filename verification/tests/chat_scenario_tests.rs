use candidature::chat_turn::{
    begin_turn, change_record, gather_event, stored_messages, turn_step, ChatReply, RoundOutcome, TurnAction,
    TurnRecord,
};
use candidature::chat_history::MessageRole;
use candidature::conversation::{absorb_chunk, assistant_message, mutation_event, run_tool, ChatEvent, Turn};
use candidature::json::{JsonValue, Member};
use candidature::llm::{LlmMessage, MessageContent, Role, StopReason, StreamChunk, ToolCall};

fn s(v: &str) -> JsonValue {
    JsonValue::Str(v.to_string())
}

fn obj(members: Vec<(&str, JsonValue)>) -> JsonValue {
    JsonValue::Object(members.into_iter().map(|(k, v)| Member { key: k.to_string(), value: v }).collect())
}

fn titre(resume: &JsonValue) -> String {
    match resume.get_key("accroche").and_then(|a| a.get_key("titre")) {
        Some(JsonValue::Str(t)) => t.clone(),
        _ => panic!("no title"),
    }
}

fn resume() -> JsonValue {
    obj(vec![
        ("identite", obj(vec![("nom_complet", s("Romeo"))])),
        ("accroche", obj(vec![("titre", s("resume")), ("paragraphe", s("p"))])),
        ("contact", obj(vec![])),
        ("experiences", JsonValue::Array(vec![])),
        ("formations", JsonValue::Array(vec![])),
        ("projets", JsonValue::Array(vec![])),
        ("competences", JsonValue::Array(vec![])),
        ("langues", JsonValue::Array(vec![])),
    ])
}

fn cover() -> JsonValue {
    obj(vec![
        ("expediteur", obj(vec![])),
        ("destinataire", obj(vec![])),
        ("objet", obj(vec![])),
        ("paragraphes", JsonValue::Array(vec![])),
    ])
}

/// Runs a turn whose model answers round after round with `rounds`,
/// keeping what is stored and what is sent.
fn run(message: &str, rounds: Vec<Vec<StreamChunk>>) -> (Vec<ChatEvent>, Vec<TurnRecord>, JsonValue, ChatReply) {
    let mut doc = resume();
    let letter = cover();
    let user = LlmMessage { role: Role::User, content: vec![MessageContent::Text(format!("DEMANDE: {message}"))] };
    let (mut turn, _req) = begin_turn("s".to_string(), vec![user], vec![], message);
    let mut sent = Vec::new();
    let mut records = Vec::new();
    let mut full = String::new();
    for chunks in rounds {
        let mut answer = Turn::new();
        for c in chunks {
            if let Some(e) = absorb_chunk(&mut answer, &mut full, c) {
                sent.push(e);
            }
        }
        let mut results = Vec::new();
        for call in &answer.tool_calls {
            let effect = run_tool(call, &doc, &letter, message);
            if let Some(TurnRecord::Documents { resume, .. }) = change_record(&effect, &doc, &letter, message) {
                if let Some(e) = mutation_event(&effect, &doc, &letter) {
                    sent.push(e);
                }
                doc = resume.duplicate();
                records.push(TurnRecord::Documents { resume, cover: letter.duplicate(), snapshot_message: String::new() });
            }
            results.push(LlmMessage::tool_result(call.id.clone(), effect.reply));
        }
        let stop = answer.stop_reason.clone();
        let outcome = RoundOutcome { answer: assistant_message(&answer), tool_results: results, stop };
        let (next, action) = turn_step(turn, outcome);
        turn = next;
        if let TurnAction::End(evs) = action {
            records.extend(stored_messages(message, &full));
            sent.extend(evs);
            break;
        }
    }
    let mut reply = ChatReply::new();
    for e in &sent {
        let copy = match e {
            ChatEvent::Token(t) => ChatEvent::Token(t.clone()),
            ChatEvent::Mutation { resume, cover } => ChatEvent::Mutation { resume: resume.duplicate(), cover: cover.duplicate() },
            ChatEvent::Status(t) => ChatEvent::Status(t.clone()),
            ChatEvent::Error(t) => ChatEvent::Error(t.clone()),
            ChatEvent::Done => ChatEvent::Done,
        };
        gather_event(&mut reply, copy);
    }
    (sent, records, doc, reply)
}

fn messages_stored(records: &[TurnRecord]) -> Vec<(MessageRole, String)> {
    records
        .iter()
        .filter_map(|r| match r {
            TurnRecord::Message { role, content } => Some((*role, content.clone())),
            _ => None,
        })
        .collect()
}

#[test]
fn instance_chat_stream_keeps_read_only_requests_as_token_stream() {
    let (events, records, doc, _) = run(
        "quel est le poste ?",
        vec![vec![
            StreamChunk::TextDelta { text: "token1".to_string() },
            StreamChunk::TextDelta { text: "token2".to_string() },
            StreamChunk::Done { stop_reason: StopReason::EndTurn },
        ]],
    );
    let text: String = events
        .iter()
        .filter_map(|e| match e {
            ChatEvent::Token(t) => Some(t.as_str()),
            _ => None,
        })
        .collect();
    assert_eq!(text, "token1token2");
    assert!(matches!(events.last(), Some(ChatEvent::Done)));
    assert_eq!(titre(&doc), "resume");
    assert_eq!(
        messages_stored(&records),
        vec![(MessageRole::User, "quel est le poste ?".to_string()), (MessageRole::Assistant, "token1token2".to_string())]
    );
}

#[test]
fn instance_chat_updates_documents_for_explicit_mutations() {
    let args = obj(vec![("resume", obj(vec![("accroche", obj(vec![("titre", s("updated resume"))]))]))]);
    let (events, records, doc, reply) = run(
        "modifie mon CV",
        vec![
            vec![
                StreamChunk::ToolCallStart { id: "t1".to_string(), name: "update_documents".to_string() },
                StreamChunk::ToolCallEnd { id: "t1".to_string(), name: "update_documents".to_string(), arguments: args },
                StreamChunk::Done { stop_reason: StopReason::ToolUse },
            ],
            vec![
                StreamChunk::TextDelta { text: "mise à jour appliquée".to_string() },
                StreamChunk::Done { stop_reason: StopReason::EndTurn },
            ],
        ],
    );
    assert_eq!(reply.message, "mise à jour appliquée");
    assert_eq!(titre(&doc), "updated resume");
    match &reply.updated {
        Some((r, _)) => assert_eq!(titre(r), "updated resume"),
        None => panic!("the change should be reported"),
    }
    assert!(records.iter().any(|r| matches!(r, TurnRecord::Documents { .. })));
    assert_eq!(messages_stored(&records).len(), 2);
    assert!(matches!(events.last(), Some(ChatEvent::Done)));
}

#[test]
fn change_record_keeps_the_snapshot_message() {
    let args = obj(vec![
        ("resume", obj(vec![("accroche", obj(vec![("titre", s("nouveau"))]))])),
        ("commit_message", s("titre revu")),
    ]);
    let call = ToolCall { id: "t".to_string(), name: "update_documents".to_string(), arguments: args };
    let effect = run_tool(&call, &resume(), &cover(), "modifie mon titre");
    match change_record(&effect, &resume(), &cover(), "modifie mon titre") {
        Some(TurnRecord::Documents { resume, cover: c, snapshot_message }) => {
            assert_eq!(titre(&resume), "nouveau");
            assert_eq!(c, cover());
            assert_eq!(snapshot_message, "titre revu");
        }
        _ => panic!("expected documents"),
    }
    let none = run_tool(&ToolCall { id: "t".to_string(), name: "autre".to_string(), arguments: JsonValue::Null }, &resume(), &cover(), "x");
    assert!(change_record(&none, &resume(), &cover(), "x").is_none());
    assert_eq!(stored_messages("bonjour", "").len(), 1);
}

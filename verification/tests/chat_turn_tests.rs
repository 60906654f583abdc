use candidature::chat_turn::{gather_event, ChatReply, begin_turn, chat_tool_choice, closing_events, turn_step, RoundOutcome, TurnAction};
use candidature::conversation::{mutation_event, ChatEvent, ToolEffect};
use candidature::json::JsonValue;
use candidature::llm::{LlmMessage, LlmTool, MessageContent, Role, StopReason, ToolChoice};

fn user(text: &str) -> LlmMessage {
    LlmMessage { role: Role::User, content: vec![MessageContent::Text(text.to_string())] }
}

fn tool(name: &str) -> LlmTool {
    LlmTool { name: name.to_string(), description: String::new(), input_schema: JsonValue::Null }
}

fn tool_round() -> RoundOutcome {
    RoundOutcome {
        answer: None,
        tool_results: vec![LlmMessage::tool_result("t1".to_string(), "ok".to_string())],
        stop: StopReason::ToolUse,
    }
}

#[test]
fn tool_choice_follows_the_request() {
    assert!(matches!(chat_tool_choice("modifie mon CV pour mieux mettre mon titre"), ToolChoice::Required));
    assert!(matches!(chat_tool_choice("c'est quoi l'offre ?"), ToolChoice::Auto));
}

#[test]
fn first_request_carries_messages_tools_and_choice() {
    let (turn, req) = begin_turn(
        "système".to_string(),
        vec![user("DEMANDE: ajoute une expérience")],
        vec![tool("update_documents"), tool("edit_resume_list"), tool("edit_cover_list")],
        "ajoute une expérience",
    );
    assert_eq!(turn.round, 1);
    assert_eq!(req.system, Some("système".to_string()));
    assert_eq!(req.max_tokens, Some(4000));
    assert!(req.model.is_none());
    assert_eq!(req.messages.len(), 1);
    assert!(matches!(&req.messages[0].content[0], MessageContent::Text(t) if t == "DEMANDE: ajoute une expérience"));
    let names: Vec<&str> = req.tools.iter().map(|t| t.name.as_str()).collect();
    assert_eq!(names, vec!["update_documents", "edit_resume_list", "edit_cover_list"]);
    assert!(matches!(req.tool_choice, ToolChoice::Required));
}

#[test]
fn a_turn_without_tool_calls_ends_with_done() {
    let (turn, _) = begin_turn("s".to_string(), vec![user("bonjour")], vec![], "bonjour");
    let answer = LlmMessage { role: Role::Assistant, content: vec![MessageContent::Text("Salut".to_string())] };
    let (turn, action) =
        turn_step(turn, RoundOutcome { answer: Some(answer), tool_results: vec![], stop: StopReason::ToolUse });
    assert_eq!(turn.messages.len(), 2);
    match action {
        TurnAction::End(evs) => assert_eq!(evs, vec![ChatEvent::Done]),
        TurnAction::Ask(_) => panic!("the turn should end"),
    }
}

#[test]
fn a_turn_asks_five_times_at_most() {
    let (mut turn, _) = begin_turn("s".to_string(), vec![user("modifie mon titre")], vec![], "modifie mon titre");
    let mut asks = 1;
    loop {
        let (next, action) = turn_step(turn, tool_round());
        turn = next;
        match action {
            TurnAction::Ask(req) => {
                asks += 1;
                assert!(matches!(req.tool_choice, ToolChoice::Required));
                assert_eq!(req.messages.len(), turn.messages.len());
            },
            TurnAction::End(evs) => {
                assert_eq!(
                    evs,
                    vec![
                        ChatEvent::Error("Nombre maximal d'itérations atteint. Arrêt de sécurité.".to_string()),
                        ChatEvent::Done
                    ]
                );
                break;
            },
        }
    }
    assert_eq!(asks, 5);
    assert_eq!(turn.messages.len(), 6);
}

#[test]
fn a_turn_ends_when_the_model_stops_after_tools() {
    let (turn, _) = begin_turn("s".to_string(), vec![user("x")], vec![], "x");
    let mut round = tool_round();
    round.stop = StopReason::EndTurn;
    let (_, action) = turn_step(turn, round);
    assert!(matches!(action, TurnAction::End(evs) if evs == vec![ChatEvent::Done]));
}

#[test]
fn closing_events_put_done_last() {
    assert_eq!(closing_events(false), vec![ChatEvent::Done]);
    let evs = closing_events(true);
    assert_eq!(evs.len(), 2);
    assert_eq!(evs[1], ChatEvent::Done);
}

#[test]
fn mutation_event_carries_the_documents() {
    let effect = ToolEffect {
        announced: true,
        resume: Some(JsonValue::Str("nouveau".to_string())),
        cover: None,
        commit_message: Some("m".to_string()),
        reply: String::new(),
    };
    let e = mutation_event(&effect, &JsonValue::Null, &JsonValue::Bool(true));
    assert_eq!(
        e,
        Some(ChatEvent::Mutation { resume: JsonValue::Str("nouveau".to_string()), cover: JsonValue::Bool(true) })
    );
    let none = ToolEffect { announced: false, resume: None, cover: None, commit_message: None, reply: String::new() };
    assert_eq!(mutation_event(&none, &JsonValue::Null, &JsonValue::Null), None);
}

#[test]
fn the_reply_gathers_tokens_and_the_last_change() {
    let mut reply = ChatReply::new();
    gather_event(&mut reply, ChatEvent::Status("Application des modifications...".to_string()));
    gather_event(&mut reply, ChatEvent::Token("Bon".to_string()));
    gather_event(&mut reply, ChatEvent::Mutation { resume: JsonValue::Null, cover: JsonValue::Null });
    gather_event(&mut reply, ChatEvent::Token("jour".to_string()));
    gather_event(
        &mut reply,
        ChatEvent::Mutation { resume: JsonValue::Bool(true), cover: JsonValue::Str("l".to_string()) },
    );
    gather_event(&mut reply, ChatEvent::Error("x".to_string()));
    gather_event(&mut reply, ChatEvent::Done);
    assert_eq!(reply.message, "Bonjour");
    assert_eq!(reply.updated, Some((JsonValue::Bool(true), JsonValue::Str("l".to_string()))));
}

#[test]
fn an_application_turn_opens_with_the_request_and_the_three_tools() {
    let history: Vec<candidature::chat_history::HistoryEntry> = vec![];
    let (turn, req) = candidature::chat_turn::begin_instance_turn(
        "système".to_string(),
        "{}",
        "{}",
        "null",
        "",
        &history,
        "c'est quoi l'offre ?",
        "{}".to_string(),
        "{}".to_string(),
        JsonValue::Null,
        JsonValue::Null,
        JsonValue::Null,
    );
    assert_eq!(turn.round, 1);
    assert!(matches!(req.tool_choice, ToolChoice::Auto));
    let names: Vec<&str> = req.tools.iter().map(|t| t.name.as_str()).collect();
    assert_eq!(names, vec!["update_documents", "edit_resume_list", "edit_cover_list"]);
    assert!(matches!(req.messages[0].role, Role::User));
    assert!(matches!(&req.messages[0].content[0], MessageContent::Text(t) if t.contains("DEMANDE: c'est quoi l'offre ?")));
}

//! The course of one chat turn: the requests sent to the model, round
//! after round, and when the turn ends. The caller streams each request,
//! runs the tool calls and hands back how the round ended.

use vstd::prelude::*;
use crate::chat::{is_mutation_request, mutation_requested};
use crate::conversation::{ToolEffect, ChatEvent, MAX_TOOL_ITERATIONS, NextRound, next_round, next_round_model, too_many_rounds};
use crate::json::JsonValue;
use crate::chat_history::{entries_view, render_model, HistoryEntry, MessageRole};
use crate::conversation::{
    COVER_JSON_PROMPT_LIMIT, RESUME_JSON_PROMPT_LIMIT, chat_tools, cuttable, instance_chat_message, instance_chat_text,
    prompt_cut,
};
use crate::text::{chars_of, push_all, string_of};
use crate::llm::{
    CompletionRequest, LlmMessage, LlmTool, MessageContent, Role, StopReason, ToolChoice, copy_messages, copy_tools, same_choice,
    same_messages, same_tools,
};

verus! {

/// Token limit of each answer in a chat turn.
pub const CHAT_MAX_TOKENS: u32 = 4000;

/// The tool choice of a turn: a request to change the documents must be
/// answered with a tool call; any other leaves the model free.
pub fn chat_tool_choice(message: &str) -> (r: ToolChoice)
    ensures
        mutation_requested(message@) ==> r is Required,
        !mutation_requested(message@) ==> r is Auto,
{
    if is_mutation_request(message) {
        ToolChoice::Required
    } else {
        ToolChoice::Auto
    }
}

/// A chat turn under way.
pub struct ChatTurn {
    /// The system prompt of every request.
    pub system: String,
    /// The conversation so far.
    pub messages: Vec<LlmMessage>,
    /// The tools offered in every request.
    pub tools: Vec<LlmTool>,
    /// The tool choice of every request.
    pub tool_choice: ToolChoice,
    /// How many requests were sent.
    pub round: usize,
}

/// `req` asks the model about `turn` as it stands: its system prompt, its
/// messages, its tools and tool choice, the provider's default model, and
/// `CHAT_MAX_TOKENS` tokens.
pub open spec fn asks_about(req: CompletionRequest, turn: ChatTurn) -> bool {
    &&& req.system matches Some(s) && s@ == turn.system@
    &&& same_messages(req.messages@, turn.messages@)
    &&& req.model is None
    &&& req.max_tokens == Some(CHAT_MAX_TOKENS)
    &&& same_tools(req.tools@, turn.tools@)
    &&& same_choice(req.tool_choice, turn.tool_choice)
}

/// How a round ended, as the turn sees it.
pub struct RoundOutcome {
    /// What the model answered, as a message, when it said anything.
    pub answer: Option<LlmMessage>,
    /// The answer to each of its tool calls, in order.
    pub tool_results: Vec<LlmMessage>,
    /// Why the model stopped.
    pub stop: StopReason,
}

/// What the turn does next.
pub enum TurnAction {
    /// Send this request and stream the answer.
    Ask(CompletionRequest),
    /// The turn is over: these events are sent last, once the answer is
    /// stored.
    End(Vec<ChatEvent>),
}

/// What follows round `round` (from 1): the turn ends when the model made
/// no tool call; otherwise as `next_round_model` says.
pub open spec fn turn_next(round: nat, made_calls: bool, stop: StopReason) -> NextRound {
    if !made_calls {
        NextRound::Finish
    } else {
        next_round_model(stop, (round - 1) as nat)
    }
}

/// The events that close a turn: the limit error when the rounds ran out,
/// then `Done`.
pub open spec fn closes_with(events: Seq<ChatEvent>, limit_reached: bool) -> bool {
    &&& events.len() == if limit_reached { 2nat } else { 1nat }
    &&& events.last() is Done
    &&& limit_reached ==> (events[0] matches ChatEvent::Error(m) && m@ == too_many_rounds())
}

/// The events that close a turn (see `closes_with`).
pub fn closing_events(limit_reached: bool) -> (r: Vec<ChatEvent>)
    ensures
        closes_with(r@, limit_reached),
{
    if limit_reached {
        vec![crate::conversation::round_limit_error(), ChatEvent::Done]
    } else {
        vec![ChatEvent::Done]
    }
}

fn request_for(turn: &ChatTurn) -> (r: CompletionRequest)
    ensures
        asks_about(r, *turn),
{
    CompletionRequest {
        system: Some(turn.system.clone()),
        messages: copy_messages(&turn.messages),
        model: None,
        max_tokens: Some(CHAT_MAX_TOKENS),
        tools: copy_tools(&turn.tools),
        tool_choice: turn.tool_choice.duplicate(),
    }
}

/// Starts a turn on `message`: the first request carries the opening
/// messages and the tools, with a tool choice set by `chat_tool_choice`.
pub fn begin_turn(system: String, messages: Vec<LlmMessage>, tools: Vec<LlmTool>, message: &str) -> (r: (
    ChatTurn,
    CompletionRequest,
))
    ensures
        r.0.system == system,
        r.0.messages == messages,
        r.0.tools == tools,
        mutation_requested(message@) ==> r.0.tool_choice is Required,
        !mutation_requested(message@) ==> r.0.tool_choice is Auto,
        r.0.round == 1,
        asks_about(r.1, r.0),
{
    let turn = ChatTurn { system, messages, tools, tool_choice: chat_tool_choice(message), round: 1 };
    let req = request_for(&turn);
    (turn, req)
}

/// Starts a turn about one application: the opening message is the
/// user's message of `instance_chat_message`, the tools those of
/// `chat_tools` with the three schemas given, the tool choice that of
/// `chat_tool_choice`.
pub fn begin_instance_turn(
    system: String,
    profile_json: &str,
    offer_json: &str,
    restitution_json: &str,
    rag_context: &str,
    history: &Vec<HistoryEntry>,
    message: &str,
    resume_json: String,
    cover_json: String,
    update_schema: JsonValue,
    resume_list_schema: JsonValue,
    cover_list_schema: JsonValue,
) -> (r: (ChatTurn, CompletionRequest))
    requires
        cuttable(resume_json@, RESUME_JSON_PROMPT_LIMIT as nat),
        cuttable(cover_json@, COVER_JSON_PROMPT_LIMIT as nat),
    ensures
        r.0.system == system,
        r.0.messages@.len() == 1,
        r.0.messages@[0].role == Role::User,
        r.0.messages@[0].content@.len() == 1,
        r.0.messages@[0].content@[0] matches MessageContent::Text(t) && t@ == instance_chat_text(
            profile_json@,
            offer_json@,
            restitution_json@,
            rag_context@,
            history@,
            message@,
            resume_json@,
            cover_json@,
        ),
        r.0.tools@.len() == 3,
        r.0.tools@[0].name@ == "update_documents"@,
        r.0.tools@[0].input_schema == update_schema,
        r.0.tools@[1].name@ == "edit_resume_list"@,
        r.0.tools@[1].input_schema == resume_list_schema,
        r.0.tools@[2].name@ == "edit_cover_list"@,
        r.0.tools@[2].input_schema == cover_list_schema,
        mutation_requested(message@) ==> r.0.tool_choice is Required,
        !mutation_requested(message@) ==> r.0.tool_choice is Auto,
        r.0.round == 1,
        asks_about(r.1, r.0),
{
    let opening = instance_chat_message(
        profile_json,
        offer_json,
        restitution_json,
        rag_context,
        history,
        message,
        resume_json,
        cover_json,
    );
    let tools = chat_tools(update_schema, resume_list_schema, cover_list_schema);
    begin_turn(system, vec![opening], tools, message)
}

/// The opening message of a turn about one application holds the user's
/// request after `DEMANDE: `.
pub proof fn lemma_opening_holds_request(
    profile_json: Seq<char>,
    offer_json: Seq<char>,
    restitution_json: Seq<char>,
    rag_context: Seq<char>,
    history: Seq<HistoryEntry>,
    message: Seq<char>,
    resume_json: Seq<char>,
    cover_json: Seq<char>,
)
    ensures
        exists|i: int|
            0 <= i && i + 9 + message.len() <= instance_chat_text(
                profile_json,
                offer_json,
                restitution_json,
                rag_context,
                history,
                message,
                resume_json,
                cover_json,
            ).len() && #[trigger] instance_chat_text(
                profile_json,
                offer_json,
                restitution_json,
                rag_context,
                history,
                message,
                resume_json,
                cover_json,
            ).subrange(i, i + 9 + message.len()) == "DEMANDE: "@ + message,
{
    reveal_strlit("\n\nDEMANDE: ");
    reveal_strlit("DEMANDE: ");
    let head = "IDENTITÉ DE L'UTILISATEUR:\n"@ + profile_json + "\n\nOFFRE CIBLÉE:\n"@ + offer_json
        + "\n\nANALYSE DE L'OFFRE:\n"@ + restitution_json + "\n\nPARCOURS (RAG):\n"@ + rag_context
        + "\n\nHISTORIQUE:\n"@ + render_model(entries_view(history));
    let tail = "\n\nJSON CV (résumé): "@ + prompt_cut(resume_json, RESUME_JSON_PROMPT_LIMIT as nat)
        + "\n\nJSON LETTRE (résumé): "@ + prompt_cut(cover_json, COVER_JSON_PROMPT_LIMIT as nat);
    let text = instance_chat_text(
        profile_json,
        offer_json,
        restitution_json,
        rag_context,
        history,
        message,
        resume_json,
        cover_json,
    );
    assert(text =~= head + "\n\nDEMANDE: "@ + message + tail);
    let i: int = head.len() as int + 2;
    assert(text.subrange(i, i + 9 + message.len() as int) =~= "DEMANDE: "@ + message);
}

/// The conversation after a round: the model's answer, then, when it
/// called tools, their answers.
pub open spec fn after_round(messages: Seq<LlmMessage>, outcome: RoundOutcome) -> Seq<LlmMessage> {
    let answered = match outcome.answer {
        Some(m) => messages.push(m),
        None => messages,
    };
    answered + outcome.tool_results@
}

/// What `turn_step` makes of `turn` and `outcome`: the same system
/// prompt, tools and tool choice; the conversation after the round; then,
/// as `turn_next` says, the next request (one round more) or the end, with
/// the limit error when the rounds ran out.
pub open spec fn turn_step_rel(turn: ChatTurn, outcome: RoundOutcome, next: ChatTurn, action: TurnAction) -> bool {
    &&& next.system == turn.system
    &&& next.tools == turn.tools
    &&& next.tool_choice == turn.tool_choice
    &&& next.messages@ == after_round(turn.messages@, outcome)
    &&& match turn_next(turn.round as nat, outcome.tool_results@.len() > 0, outcome.stop) {
        NextRound::Continue => next.round == turn.round + 1 && (action matches TurnAction::Ask(req) && asks_about(
            req,
            next,
        )),
        NextRound::Finish => next.round == turn.round && (action matches TurnAction::End(evs) && closes_with(
            evs@,
            false,
        )),
        NextRound::Abort => next.round == turn.round && (action matches TurnAction::End(evs) && closes_with(
            evs@,
            true,
        )),
    }
}

/// Takes in how round `turn.round` ended: the answer and the tool answers
/// join the conversation; then the turn asks again, or ends as
/// `turn_next` says, with the limit error when the rounds ran out.
pub fn turn_step(turn: ChatTurn, outcome: RoundOutcome) -> (r: (ChatTurn, TurnAction))
    requires
        1 <= turn.round <= MAX_TOOL_ITERATIONS,
    ensures
        turn_step_rel(turn, outcome, r.0, r.1),
{
    let ChatTurn { system, mut messages, tools, tool_choice, round } = turn;
    let RoundOutcome { answer, mut tool_results, stop } = outcome;
    let made_calls = tool_results.len() > 0;
    match answer {
        Some(m) => messages.push(m),
        None => {},
    }
    messages.append(&mut tool_results);
    let next = if made_calls {
        next_round(&stop, round - 1)
    } else {
        NextRound::Finish
    };
    match next {
        NextRound::Continue => {
            let t = ChatTurn { system, messages, tools, tool_choice, round: round + 1 };
            let req = request_for(&t);
            (t, TurnAction::Ask(req))
        },
        NextRound::Finish => (ChatTurn { system, messages, tools, tool_choice, round }, TurnAction::End(
            closing_events(false),
        )),
        NextRound::Abort => (ChatTurn { system, messages, tools, tool_choice, round }, TurnAction::End(
            closing_events(true),
        )),
    }
}

/// The answer of a chat turn gathered from its events: the text of its
/// tokens, and the documents of its last change.
pub struct ChatReply {
    pub message: String,
    pub updated: Option<(JsonValue, JsonValue)>,
}

impl ChatReply {
    /// The answer before any event.
    pub fn new() -> (r: ChatReply)
        ensures
            r.message@.len() == 0,
            r.updated is None,
    {
        ChatReply { message: String::new(), updated: None }
    }
}

/// Takes in one event of a turn: a token's text is added to the message, a
/// change replaces the documents kept; status, error and end events leave
/// the answer as it is.
pub fn gather_event(reply: &mut ChatReply, event: ChatEvent)
    ensures
        match event {
            ChatEvent::Token(t) => {
                &&& final(reply).message@ == old(reply).message@ + t@
                &&& final(reply).updated == old(reply).updated
            },
            ChatEvent::Mutation { resume, cover } => {
                &&& final(reply).message@ == old(reply).message@
                &&& final(reply).updated == Some((resume, cover))
            },
            _ => {
                &&& final(reply).message@ == old(reply).message@
                &&& final(reply).updated == old(reply).updated
            },
        },
{
    match event {
        ChatEvent::Token(t) => {
            let mut m = chars_of(reply.message.as_str());
            let tc = chars_of(t.as_str());
            push_all(&mut m, &tc);
            reply.message = string_of(&m);
        },
        ChatEvent::Mutation { resume, cover } => {
            reply.updated = Some((resume, cover));
        },
        _ => {},
    }
}

/// What a chat turn writes to the store.
pub enum TurnRecord {
    /// A message of the conversation, kept with the application's messages
    /// and in the profile's chat history.
    Message { role: MessageRole, content: String },
    /// The documents after a change, written back once the documents as
    /// they were are kept as a snapshot under `snapshot_message`.
    Documents { resume: JsonValue, cover: JsonValue, snapshot_message: String },
}

/// `rec` stores a message of `role` saying `content`.
pub open spec fn records_message(rec: TurnRecord, role: MessageRole, content: Seq<char>) -> bool {
    rec matches TurnRecord::Message { role: r, content: c } && r == role && c@ == content
}

/// The messages a turn on `message` stores: the user's message, before the
/// first request, then the assistant's whole answer when it said anything.
pub fn stored_messages(message: &str, full_response: &str) -> (r: Vec<TurnRecord>)
    ensures
        r@.len() == if full_response@.len() > 0 { 2nat } else { 1nat },
        records_message(r@[0], MessageRole::User, message@),
        full_response@.len() > 0 ==> records_message(r@[1], MessageRole::Assistant, full_response@),
{
    let mut out: Vec<TurnRecord> = vec![TurnRecord::Message { role: MessageRole::User, content: message.to_owned() }];
    let f = chars_of(full_response);
    if f.len() > 0 {
        out.push(TurnRecord::Message { role: MessageRole::Assistant, content: full_response.to_owned() });
    }
    out
}

/// What a tool call's effect stores: when it changed the documents, the
/// résumé and cover letter as they now stand (the changed ones from
/// `effect`, the others as they were), with the snapshot message of the
/// change (the user's request when the call gave none); nothing otherwise.
pub fn change_record(effect: &ToolEffect, resume: &JsonValue, cover: &JsonValue, request: &str) -> (r: Option<
    TurnRecord,
>)
    ensures
        r is Some <==> (effect.resume is Some || effect.cover is Some),
        r matches Some(rec) ==> rec matches TurnRecord::Documents { resume: nr, cover: nc, snapshot_message: m } && {
            &&& nr.model() == match effect.resume {
                Some(x) => x.model(),
                None => resume.model(),
            }
            &&& nc.model() == match effect.cover {
                Some(x) => x.model(),
                None => cover.model(),
            }
            &&& m@ == match effect.commit_message {
                Some(c) => c@,
                None => request@,
            }
        },
{
    if effect.resume.is_none() && effect.cover.is_none() {
        return None;
    }
    let nr = match &effect.resume {
        Some(x) => x.duplicate(),
        None => resume.duplicate(),
    };
    let nc = match &effect.cover {
        Some(x) => x.duplicate(),
        None => cover.duplicate(),
    };
    let m = match &effect.commit_message {
        Some(c) => c.clone(),
        None => request.to_owned(),
    };
    Some(TurnRecord::Documents { resume: nr, cover: nc, snapshot_message: m })
}

/// The course of a turn from round `round` on, when its rounds end with
/// or without tool calls and with the stop reasons of `outcomes`: how many
/// requests were sent in all, and how the turn ended (`Some(true)` with
/// the limit error, `None` while it was still asking when the outcomes ran
/// out).
pub open spec fn turn_course(round: nat, outcomes: Seq<(bool, StopReason)>) -> (nat, Option<bool>)
    decreases outcomes.len(),
{
    if outcomes.len() == 0 {
        (round, None)
    } else {
        match turn_next(round, outcomes[0].0, outcomes[0].1) {
            NextRound::Continue => turn_course(round + 1, outcomes.drop_first()),
            NextRound::Finish => (round, Some(false)),
            NextRound::Abort => (round, Some(true)),
        }
    }
}

/// A turn sends at most `MAX_TOOL_ITERATIONS` requests; it has ended once
/// that many rounds came back; and it ends with the limit error only when
/// the last allowed round still stopped to use tools.
pub proof fn lemma_turn_is_bounded(round: nat, outcomes: Seq<(bool, StopReason)>)
    requires
        1 <= round <= MAX_TOOL_ITERATIONS,
    ensures
        turn_course(round, outcomes).0 <= MAX_TOOL_ITERATIONS,
        outcomes.len() + round > MAX_TOOL_ITERATIONS ==> turn_course(round, outcomes).1 is Some,
        turn_course(round, outcomes).1 == Some(true) ==> {
            let last = (turn_course(round, outcomes).0 - round) as int;
            &&& turn_course(round, outcomes).0 == MAX_TOOL_ITERATIONS
            &&& 0 <= last < outcomes.len()
            &&& outcomes[last].0
            &&& outcomes[last].1 == StopReason::ToolUse
        },
    decreases outcomes.len(),
{
    if outcomes.len() > 0 {
        match turn_next(round, outcomes[0].0, outcomes[0].1) {
            NextRound::Continue => {
                lemma_turn_is_bounded(round + 1, outcomes.drop_first());
                let k = (turn_course(round, outcomes).0 - round) as int;
                if turn_course(round, outcomes).1 == Some(true) {
                    assert(outcomes.drop_first()[k - 1] == outcomes[k]);
                }
            },
            _ => {},
        }
    }
}

/// A whole turn as run by the caller: from `first`, each state and action
/// comes from the state before and the round's outcome by `turn_step`, and
/// the caller went on only after a new request.
pub open spec fn turn_run(
    first: ChatTurn,
    outcomes: Seq<RoundOutcome>,
    states: Seq<ChatTurn>,
    actions: Seq<TurnAction>,
) -> bool {
    &&& states.len() == outcomes.len()
    &&& actions.len() == outcomes.len()
    &&& forall|i: int|
        0 <= i < outcomes.len() ==> turn_step_rel(
            if i == 0 {
                first
            } else {
                states[i - 1]
            },
            outcomes[i],
            #[trigger] states[i],
            actions[i],
        )
    &&& forall|i: int| 0 <= i < outcomes.len() - 1 ==> (#[trigger] actions[i]) is Ask
}

/// The state after step `i` of a run keeps what the turn began with, and
/// counts its requests.
pub open spec fn run_step_ok(first: ChatTurn, st: ChatTurn, action: TurnAction, i: int) -> bool {
    &&& st.system == first.system
    &&& st.tools == first.tools
    &&& st.tool_choice == first.tool_choice
    &&& (action is Ask ==> st.round == i + 2 && i + 2 <= MAX_TOOL_ITERATIONS)
    &&& (action is End ==> st.round == i + 1)
}

proof fn lemma_run_prefix(
    first: ChatTurn,
    outcomes: Seq<RoundOutcome>,
    states: Seq<ChatTurn>,
    actions: Seq<TurnAction>,
    n: int,
)
    requires
        turn_run(first, outcomes, states, actions),
        first.round == 1,
        0 <= n <= outcomes.len(),
    ensures
        forall|i: int| 0 <= i < n ==> run_step_ok(first, #[trigger] states[i], actions[i], i),
    decreases n,
{
    if n > 0 {
        lemma_run_prefix(first, outcomes, states, actions, n - 1);
        let i = n - 1;
        let prev = if i == 0 {
            first
        } else {
            states[i - 1]
        };
        assert(turn_step_rel(prev, outcomes[i], states[i], actions[i]));
        if i > 0 {
            assert(actions[i - 1] is Ask);
            assert(run_step_ok(first, states[i - 1], actions[i - 1], i - 1));
        }
        assert(prev.round == i + 1 && i + 1 <= MAX_TOOL_ITERATIONS);
        assert(run_step_ok(first, states[i], actions[i], i));
    }
}

/// Over a whole turn begun by `begin_turn` (or `begin_instance_turn`):
/// every later request carries the turn's system prompt, tools and tool
/// choice; at most `MAX_TOOL_ITERATIONS` requests are sent in all (the
/// first one and one per step that asks again); after that many rounds the
/// turn has ended; and whenever it ends, `Done` is the last event sent.
pub proof fn lemma_whole_turn(
    first: ChatTurn,
    outcomes: Seq<RoundOutcome>,
    states: Seq<ChatTurn>,
    actions: Seq<TurnAction>,
)
    requires
        turn_run(first, outcomes, states, actions),
        first.round == 1,
    ensures
        forall|i: int|
            0 <= i < actions.len() ==> (#[trigger] actions[i] matches TurnAction::Ask(req) ==> {
                &&& req.system matches Some(sy) && sy@ == first.system@
                &&& same_tools(req.tools@, first.tools@)
                &&& same_choice(req.tool_choice, first.tool_choice)
            }),
        actions.len() > 0 ==> 1 + actions.len() - (if actions.last() is Ask {
            0int
        } else {
            1int
        }) <= MAX_TOOL_ITERATIONS,
        actions.len() == MAX_TOOL_ITERATIONS ==> actions.last() is End,
        forall|i: int|
            0 <= i < actions.len() ==> (#[trigger] actions[i] matches TurnAction::End(evs) ==> evs@.len() > 0
                && evs@.last() is Done),
{
    lemma_run_prefix(first, outcomes, states, actions, outcomes.len() as int);
    assert forall|i: int| 0 <= i < actions.len() implies (#[trigger] actions[i] matches TurnAction::Ask(req) ==> {
        &&& req.system matches Some(sy) && sy@ == first.system@
        &&& same_tools(req.tools@, first.tools@)
        &&& same_choice(req.tool_choice, first.tool_choice)
    }) by {
        assert(run_step_ok(first, states[i], actions[i], i));
        let prev = if i == 0 {
            first
        } else {
            states[i - 1]
        };
        assert(turn_step_rel(prev, outcomes[i], states[i], actions[i]));
    }
    assert forall|i: int| 0 <= i < actions.len() implies (#[trigger] actions[i] matches TurnAction::End(evs) ==> evs@.len()
        > 0 && evs@.last() is Done) by {
        let prev = if i == 0 {
            first
        } else {
            states[i - 1]
        };
        assert(turn_step_rel(prev, outcomes[i], states[i], actions[i]));
    }
    if actions.len() > 0 {
        let l = actions.len() - 1;
        assert(run_step_ok(first, states[l], actions[l], l));
        if actions.len() >= 2 {
            assert(actions[l - 1] is Ask);
            assert(run_step_ok(first, states[l - 1], actions[l - 1], l - 1));
        }
    }
}

/// Every request of a turn on `message` keeps the tool choice that the
/// turn began with (`begin_turn`, kept by `turn_step`): it is "required"
/// exactly when the user asked for a change, and "auto" otherwise.
pub proof fn lemma_request_tool_choice(message: Seq<char>, turn: ChatTurn, req: CompletionRequest)
    requires
        mutation_requested(message) ==> turn.tool_choice is Required,
        !mutation_requested(message) ==> turn.tool_choice is Auto,
        asks_about(req, turn),
    ensures
        req.tool_choice is Required <==> mutation_requested(message),
        req.tool_choice is Auto <==> !mutation_requested(message),
{
}

} // verus!

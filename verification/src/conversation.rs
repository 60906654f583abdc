//! The decisions of a chat turn about one application: how a streamed
//! answer is gathered, what the model's tool calls do to the résumé and
//! cover letter, and when the exchange with the model stops.

use vstd::prelude::*;
use crate::chat::{
    ListEditError, ListOperation, apply_list_operation, child_path, list_edit_message,
    list_edit_model, merge_json_without_arrays, merge_model, merge_result_matches,
};
use crate::json::{Json, JsonValue, get_str, json_get, json_set, str_eq};
use crate::llm::{LlmMessage, LlmTool, MessageContent, Role, StopReason, StreamChunk, ToolCall};
use crate::chat::{
    append_attachments, attachment_images, is_image_content, truncate_for_prompt, truncated_marker,
    ChatAttachment,
};
use crate::chat_history::{entries_view, render_chat_history_for_prompt, render_model, HistoryEntry};
use crate::text::{byte_len, bytes_at_chars, chars_of, decimal, decimal_chars, push_all, string_of};

verus! {

/// Most rounds of tool calls in one chat turn.
pub const MAX_TOOL_ITERATIONS: usize = 5;

/// What the client is told while a turn runs.
#[derive(Debug, PartialEq, Eq)]
pub enum ChatEvent {
    /// Work in progress.
    Status(String),
    /// More text of the answer.
    Token(String),
    /// The application's documents changed: here they are as they now
    /// stand.
    Mutation { resume: JsonValue, cover: JsonValue },
    /// The turn is over.
    Done,
    /// The turn stopped on a failure.
    Error(String),
}

/// What one answer of the model has brought so far.
pub struct Turn {
    pub text: String,
    pub tool_calls: Vec<ToolCall>,
    pub stop_reason: StopReason,
}

/// Status shown when the model starts a tool call.
pub open spec fn preparing_status() -> Seq<char> {
    "L'IA prépare des modifications..."@
}

impl Turn {
    /// An answer before its first piece.
    pub fn new() -> (r: Turn)
        ensures
            r.text@.len() == 0,
            r.tool_calls@.len() == 0,
            r.stop_reason == StopReason::EndTurn,
    {
        Turn { text: String::new(), tool_calls: Vec::new(), stop_reason: StopReason::EndTurn }
    }
}

/// Takes in one piece of a streamed answer: text is added to the answer
/// (and to the whole turn's text) and forwarded; the start of a tool call
/// is announced; a complete tool call is kept; the end records why the
/// model stopped.
pub fn absorb_chunk(turn: &mut Turn, full_response: &mut String, chunk: StreamChunk) -> (r: Option<ChatEvent>)
    ensures
        match chunk {
            StreamChunk::TextDelta { text } => {
                &&& final(turn).text@ == old(turn).text@ + text@
                &&& final(full_response)@ == old(full_response)@ + text@
                &&& final(turn).tool_calls@ == old(turn).tool_calls@
                &&& final(turn).stop_reason == old(turn).stop_reason
                &&& r matches Some(ChatEvent::Token(t)) && t@ == text@
            },
            StreamChunk::ToolCallStart { .. } => {
                &&& final(turn).text@ == old(turn).text@
                &&& final(full_response)@ == old(full_response)@
                &&& final(turn).tool_calls@ == old(turn).tool_calls@
                &&& final(turn).stop_reason == old(turn).stop_reason
                &&& r matches Some(ChatEvent::Status(s)) && s@ == preparing_status()
            },
            StreamChunk::ToolCallArgsDelta { .. } => {
                &&& final(turn).text@ == old(turn).text@
                &&& final(full_response)@ == old(full_response)@
                &&& final(turn).tool_calls@ == old(turn).tool_calls@
                &&& final(turn).stop_reason == old(turn).stop_reason
                &&& r is None
            },
            StreamChunk::ToolCallEnd { id, name, arguments } => {
                &&& final(turn).text@ == old(turn).text@
                &&& final(full_response)@ == old(full_response)@
                &&& final(turn).tool_calls@ == old(turn).tool_calls@.push(
                    ToolCall { id: id, name: name, arguments: arguments },
                )
                &&& final(turn).stop_reason == old(turn).stop_reason
                &&& r is None
            },
            StreamChunk::Done { stop_reason } => {
                &&& final(turn).text@ == old(turn).text@
                &&& final(full_response)@ == old(full_response)@
                &&& final(turn).tool_calls@ == old(turn).tool_calls@
                &&& final(turn).stop_reason == stop_reason
                &&& r is None
            },
        },
{
    match chunk {
        StreamChunk::TextDelta { text } => {
            let mut a = chars_of(turn.text.as_str());
            let t = chars_of(text.as_str());
            push_all(&mut a, &t);
            turn.text = string_of(&a);
            let mut f = chars_of(full_response.as_str());
            push_all(&mut f, &t);
            *full_response = string_of(&f);
            Some(ChatEvent::Token(text))
        },
        StreamChunk::ToolCallStart { .. } => Some(ChatEvent::Status("L'IA prépare des modifications...".to_owned())),
        StreamChunk::ToolCallArgsDelta { .. } => None,
        StreamChunk::ToolCallEnd { id, name, arguments } => {
            turn.tool_calls.push(ToolCall { id, name, arguments });
            None
        },
        StreamChunk::Done { stop_reason } => {
            turn.stop_reason = stop_reason;
            None
        },
    }
}

/// A message part holding this text.
pub open spec fn is_text_part(c: MessageContent, t: Seq<char>) -> bool {
    c matches MessageContent::Text(x) && x@ == t
}

/// A message part recording this tool call.
pub open spec fn is_tool_use_part(c: MessageContent, call: ToolCall) -> bool {
    c matches MessageContent::ToolUse { id, name, input } && id@ == call.id@ && name@ == call.name@
        && input.model() == call.arguments.model()
}

/// The model's answer as a message of the conversation: its text when
/// there is some, then each tool call it made, in order; nothing when the
/// answer was empty.
pub fn assistant_message(turn: &Turn) -> (r: Option<LlmMessage>)
    ensures
        r is None <==> (turn.text@.len() == 0 && turn.tool_calls@.len() == 0),
        r matches Some(m) ==> {
            let off: int = if turn.text@.len() > 0 { 1 } else { 0 };
            &&& m.role == Role::Assistant
            &&& m.content@.len() == off + turn.tool_calls@.len()
            &&& turn.text@.len() > 0 ==> is_text_part(m.content@[0], turn.text@)
            &&& forall|i: int|
                0 <= i < turn.tool_calls@.len() ==> #[trigger] is_tool_use_part(
                    m.content@[off + i],
                    turn.tool_calls@[i],
                )
        },
{
    let mut content: Vec<MessageContent> = Vec::new();
    let tc = chars_of(turn.text.as_str());
    let has_text = tc.len() > 0;
    if has_text {
        content.push(MessageContent::Text(string_of(&tc)));
    }
    let off: usize = if has_text { 1 } else { 0 };
    let mut i: usize = 0;
    while i < turn.tool_calls.len()
        invariant
            i <= turn.tool_calls.len(),
            off == (if turn.text@.len() > 0 { 1usize } else { 0usize }),
            content@.len() == off + i,
            turn.text@.len() > 0 ==> is_text_part(content@[0], turn.text@),
            forall|j: int| 0 <= j < i ==> #[trigger] is_tool_use_part(content@[off + j], turn.tool_calls@[j]),
        decreases turn.tool_calls.len() - i,
    {
        let call = &turn.tool_calls[i];
        let id = chars_of(call.id.as_str());
        let name = chars_of(call.name.as_str());
        let input = call.arguments.duplicate();
        content.push(MessageContent::ToolUse { id: string_of(&id), name: string_of(&name), input });
        i = i + 1;
    }
    if content.len() == 0 {
        None
    } else {
        Some(LlmMessage { role: Role::Assistant, content })
    }
}

/// What follows a round of tool calls.
#[derive(Clone, Copy, Debug, PartialEq, Eq, Structural)]
pub enum NextRound {
    /// Ask the model again with the tool results.
    Continue,
    /// The turn is over.
    Finish,
    /// The turn stops with the error `too_many_rounds`.
    Abort,
}

/// Error sent when the rounds of tool calls run out.
pub open spec fn too_many_rounds() -> Seq<char> {
    "Nombre maximal d'itérations atteint. Arrêt de sécurité."@
}

/// After round `iteration` (from 0): the turn ends unless the model
/// stopped to use tools; it stops with an error after the last allowed
/// round.
pub open spec fn next_round_model(stop: StopReason, iteration: nat) -> NextRound {
    if stop != StopReason::ToolUse {
        NextRound::Finish
    } else if iteration + 1 == MAX_TOOL_ITERATIONS {
        NextRound::Abort
    } else {
        NextRound::Continue
    }
}

/// What follows round `iteration` (see `next_round_model`).
pub fn next_round(stop: &StopReason, iteration: usize) -> (r: NextRound)
    requires
        iteration < MAX_TOOL_ITERATIONS,
    ensures
        r == next_round_model(*stop, iteration as nat),
{
    match stop {
        StopReason::ToolUse => {
            if iteration + 1 == MAX_TOOL_ITERATIONS {
                NextRound::Abort
            } else {
                NextRound::Continue
            }
        },
        _ => NextRound::Finish,
    }
}

/// The event telling the client that a tool call changed the documents,
/// with the résumé and cover letter as they now stand (the changed ones
/// from `effect`, the others as they were); none when nothing changed.
pub fn mutation_event(effect: &ToolEffect, resume: &JsonValue, cover: &JsonValue) -> (r: Option<ChatEvent>)
    ensures
        r is Some <==> (effect.resume is Some || effect.cover is Some),
        r matches Some(ChatEvent::Mutation { resume: nr, cover: nc }) ==> {
            &&& nr.model() == match effect.resume {
                Some(x) => x.model(),
                None => resume.model(),
            }
            &&& nc.model() == match effect.cover {
                Some(x) => x.model(),
                None => cover.model(),
            }
        },
        r matches Some(e) ==> e is Mutation,
{
    if effect.resume.is_none() && effect.cover.is_none() {
        return None;
    }
    let nr = match &effect.resume {
        Some(x) => x.duplicate(),
        None => resume.duplicate(),
    };
    let nc = match &effect.cover {
        Some(x) => x.duplicate(),
        None => cover.duplicate(),
    };
    Some(ChatEvent::Mutation { resume: nr, cover: nc })
}

/// The error sent when the rounds of tool calls run out.
pub fn round_limit_error() -> (r: ChatEvent)
    ensures
        r matches ChatEvent::Error(m) && m@ == too_many_rounds(),
{
    ChatEvent::Error("Nombre maximal d'itérations atteint. Arrêt de sécurité.".to_owned())
}

/// What a tool call did.
pub struct ToolEffect {
    /// Whether the client is told that changes are being applied.
    pub announced: bool,
    /// The new résumé, when it changed.
    pub resume: Option<JsonValue>,
    /// The new cover letter, when it changed.
    pub cover: Option<JsonValue>,
    /// The message of the snapshot taken before the change, when the
    /// documents changed.
    pub commit_message: Option<String>,
    /// The answer given to the model.
    pub reply: String,
}

/// The model of a JSON value held in an option.
pub open spec fn opt_model(o: Option<JsonValue>) -> Option<Json> {
    match o {
        Some(v) => Some(v.model()),
        None => None,
    }
}

/// A patch given under `k`: present and not `null`.
pub open spec fn patch_of(args: Json, k: Seq<char>) -> Option<Json> {
    match json_get(args, k) {
        Some(p) => if p is Null {
            None
        } else {
            Some(p)
        },
        None => None,
    }
}

/// The outcome of `update_documents`.
pub enum UpdateModel {
    /// The new résumé and cover letter, each when patched.
    Changed(Option<Json>, Option<Json>),
    /// A patch was refused with this message; nothing changes.
    Failed(Seq<char>),
    /// No patch was given.
    Unchanged,
}

/// Whether `j` has the members of a résumé: an object whose `identite`,
/// `accroche` and `contact` are objects and whose `experiences`,
/// `formations`, `projets`, `competences` and `langues` are arrays.
pub open spec fn is_resume_shape(j: Json) -> bool {
    &&& j is Object
    &&& json_get(j, "identite"@) matches Some(x) && x is Object
    &&& json_get(j, "accroche"@) matches Some(x) && x is Object
    &&& json_get(j, "contact"@) matches Some(x) && x is Object
    &&& json_get(j, "experiences"@) matches Some(x) && x is Array
    &&& json_get(j, "formations"@) matches Some(x) && x is Array
    &&& json_get(j, "projets"@) matches Some(x) && x is Array
    &&& json_get(j, "competences"@) matches Some(x) && x is Array
    &&& json_get(j, "langues"@) matches Some(x) && x is Array
}

/// Whether `j` has the members of a cover letter: an object whose
/// `expediteur`, `destinataire` and `objet` are objects and whose
/// `paragraphes` is an array.
pub open spec fn is_cover_shape(j: Json) -> bool {
    &&& j is Object
    &&& json_get(j, "expediteur"@) matches Some(x) && x is Object
    &&& json_get(j, "destinataire"@) matches Some(x) && x is Object
    &&& json_get(j, "objet"@) matches Some(x) && x is Object
    &&& json_get(j, "paragraphes"@) matches Some(x) && x is Array
}

/// Why a patched résumé is refused when it no longer reads as a résumé.
pub open spec fn resume_shape_error() -> Seq<char> {
    "Désérialisation Resume échouée: le résultat n'a pas la forme d'un CV"@
}

/// Why a patched letter is refused when it no longer reads as a letter.
pub open spec fn cover_shape_error() -> Seq<char> {
    "Désérialisation CoverLetter échouée: le résultat n'a pas la forme d'une lettre"@
}

/// `update_documents`: the résumé patch (under `resume`) is merged first
/// and the result must read as a résumé; then, unless that was refused, the
/// cover-letter patch (under `cover`) is merged and must read as a letter.
/// Any refusal leaves both documents as they were.
pub open spec fn update_model(args: Json, resume: Json, cover: Json) -> UpdateModel {
    let r = match patch_of(args, "resume"@) {
        Some(p) => Some(merge_model(resume, p, "$.resume"@)),
        None => None,
    };
    match r {
        Some((_, Some(e))) => UpdateModel::Failed(e),
        Some((j, None)) if !is_resume_shape(j) => UpdateModel::Failed(resume_shape_error()),
        _ => {
            let c = match patch_of(args, "cover"@) {
                Some(p) => Some(merge_model(cover, p, "$.cover"@)),
                None => None,
            };
            match c {
                Some((_, Some(e))) => UpdateModel::Failed(e),
                Some((j, None)) if !is_cover_shape(j) => UpdateModel::Failed(cover_shape_error()),
                _ => {
                    let nr: Option<Json> = match r {
                        Some((j, _)) => Some(j),
                        None => None,
                    };
                    let nc: Option<Json> = match c {
                        Some((j, _)) => Some(j),
                        None => None,
                    };
                    if nr is None && nc is None {
                        UpdateModel::Unchanged
                    } else {
                        UpdateModel::Changed(nr, nc)
                    }
                },
            }
        },
    }
}

/// The snapshot message of `update_documents`: its `commit_message`
/// string, else the user's request.
pub open spec fn update_commit(args: Json, request: Seq<char>) -> Seq<char> {
    match get_str(args, "commit_message"@) {
        Some(m) => m,
        None => request,
    }
}

/// Answer to the model when its patches were applied.
pub open spec fn applied_reply() -> Seq<char> {
    "Modifications appliquées avec succès."@
}

/// Answer to the model when a patch was refused.
pub open spec fn refused_reply(e: Seq<char>) -> Seq<char> {
    "Erreur: "@ + e + " Utilise edit_resume_list/edit_cover_list pour les listes."@
}

/// Answer to the model when it patched nothing.
pub open spec fn unchanged_reply() -> Seq<char> {
    "Aucune modification détectée."@
}

fn patch_value<'a>(args: &'a JsonValue, k: &str) -> (r: Option<&'a JsonValue>)
    ensures
        match patch_of(args.model(), k@) {
            Some(p) => r matches Some(v) && v.model() == p,
            None => r is None,
        },
{
    match args.get_key(k) {
        Some(p) => {
            if p.is_null() {
                None
            } else {
                Some(p)
            }
        },
        None => None,
    }
}

fn member_is(v: &JsonValue, k: &str, object: bool) -> (r: bool)
    ensures
        r == (json_get(v.model(), k@) matches Some(x) && (if object { x is Object } else { x is Array })),
{
    match v.get_key(k) {
        Some(JsonValue::Object(_)) => object,
        Some(JsonValue::Array(_)) => !object,
        _ => false,
    }
}

fn resume_shaped(v: &JsonValue) -> (r: bool)
    ensures
        r == is_resume_shape(v.model()),
{
    v.is_object() && member_is(v, "identite", true) && member_is(v, "accroche", true) && member_is(v, "contact", true)
        && member_is(v, "experiences", false) && member_is(v, "formations", false) && member_is(v, "projets", false)
        && member_is(v, "competences", false) && member_is(v, "langues", false)
}

fn cover_shaped(v: &JsonValue) -> (r: bool)
    ensures
        r == is_cover_shape(v.model()),
{
    v.is_object() && member_is(v, "expediteur", true) && member_is(v, "destinataire", true) && member_is(v, "objet", true)
        && member_is(v, "paragraphes", false)
}

/// Applies the model's `update_documents` call to the current résumé and
/// cover letter (see `update_model`, `update_commit` and the replies).
pub fn update_documents(args: &JsonValue, resume: &JsonValue, cover: &JsonValue, request: &str) -> (r: ToolEffect)
    ensures
        r.announced,
        match update_model(args.model(), resume.model(), cover.model()) {
            UpdateModel::Changed(nr, nc) => {
                &&& opt_model(r.resume) == nr
                &&& opt_model(r.cover) == nc
                &&& r.commit_message matches Some(m) && m@ == update_commit(args.model(), request@)
                &&& r.reply@ == applied_reply()
            },
            UpdateModel::Failed(e) => {
                &&& r.resume is None && r.cover is None && r.commit_message is None
                &&& r.reply@ == refused_reply(e)
            },
            UpdateModel::Unchanged => {
                &&& r.resume is None && r.cover is None && r.commit_message is None
                &&& r.reply@ == unchanged_reply()
            },
        },
{
    let mut next_resume: Option<JsonValue> = None;
    let mut next_cover: Option<JsonValue> = None;
    match patch_value(args, "resume") {
        Some(p) => {
            let mut cur = resume.duplicate();
            match merge_json_without_arrays(&mut cur, p, "$.resume") {
                Err(e) => {
                    return refused(e);
                },
                Ok(()) => {
                    if !resume_shaped(&cur) {
                        return refused("Désérialisation Resume échouée: le résultat n'a pas la forme d'un CV".to_owned());
                    }
                    next_resume = Some(cur);
                },
            }
        },
        None => {},
    }
    match patch_value(args, "cover") {
        Some(p) => {
            let mut cur = cover.duplicate();
            match merge_json_without_arrays(&mut cur, p, "$.cover") {
                Err(e) => {
                    return refused(e);
                },
                Ok(()) => {
                    if !cover_shaped(&cur) {
                        return refused(
                            "Désérialisation CoverLetter échouée: le résultat n'a pas la forme d'une lettre".to_owned(),
                        );
                    }
                    next_cover = Some(cur);
                },
            }
        },
        None => {},
    }
    if next_resume.is_none() && next_cover.is_none() {
        return ToolEffect {
            announced: true,
            resume: None,
            cover: None,
            commit_message: None,
            reply: "Aucune modification détectée.".to_owned(),
        };
    }
    let commit = match args.get_str("commit_message") {
        Some(m) => m,
        None => request.to_owned(),
    };
    ToolEffect {
        announced: true,
        resume: next_resume,
        cover: next_cover,
        commit_message: Some(commit),
        reply: "Modifications appliquées avec succès.".to_owned(),
    }
}

fn refused(e: String) -> (r: ToolEffect)
    ensures
        r.announced,
        r.resume is None && r.cover is None && r.commit_message is None,
        r.reply@ == refused_reply(e@),
{
    let mut v = chars_of("Erreur: ");
    let ec = chars_of(e.as_str());
    push_all(&mut v, &ec);
    let t = chars_of(" Utilise edit_resume_list/edit_cover_list pour les listes.");
    push_all(&mut v, &t);
    ToolEffect { announced: true, resume: None, cover: None, commit_message: None, reply: string_of(&v) }
}

/// The operation named in a request.
pub open spec fn operation_named(t: Seq<char>) -> Option<ListOperation> {
    if t == "add"@ {
        Some(ListOperation::Add)
    } else if t == "update"@ {
        Some(ListOperation::Update)
    } else if t == "remove"@ {
        Some(ListOperation::Remove)
    } else if t == "replace"@ {
        Some(ListOperation::Replace)
    } else {
        None
    }
}

/// The arguments of a list edit, read.
pub struct ListEditArgs {
    pub target: String,
    pub operation: ListOperation,
    pub index: Option<usize>,
    pub item: Option<JsonValue>,
    pub items: Option<Vec<JsonValue>>,
    pub commit_message: String,
}

/// The mathematical form of list-edit arguments.
pub struct ListEditArgsModel {
    pub target: Seq<char>,
    pub operation: ListOperation,
    pub index: Option<usize>,
    pub item: Option<Json>,
    pub items: Option<Seq<Json>>,
    pub commit_message: Seq<char>,
}

/// An optional member: absent or `null` gives none.
pub open spec fn optional_member(args: Json, k: Seq<char>) -> Option<Json> {
    match json_get(args, k) {
        Some(Json::Null) => None,
        Some(v) => Some(v),
        None => None,
    }
}

/// Why list-edit arguments are refused: the member that is missing or has
/// the wrong form.
pub open spec fn bad_argument(k: Seq<char>) -> Seq<char> {
    "argument invalide : "@ + k
}

/// The arguments of a list edit: an object with `target` (one of
/// `targets`), `operation` (`add`, `update`, `remove` or `replace`), an
/// optional non-negative integer `index`, an optional `item`, optional
/// `items` (an array) and a `commit_message` string; checked in that order.
pub open spec fn list_edit_args_model(args: Json, targets: Seq<Seq<char>>) -> Result<ListEditArgsModel, Seq<char>> {
    if !(args is Object) {
        Err(bad_argument("arguments"@))
    } else {
        match get_str(args, "target"@) {
            None => Err(bad_argument("target"@)),
            Some(target) => if !targets.contains(target) {
                Err(bad_argument("target"@))
            } else {
                match (match get_str(args, "operation"@) {
                    Some(o) => operation_named(o),
                    None => None,
                }) {
                    None => Err(bad_argument("operation"@)),
                    Some(op) => {
                        let index: Result<Option<usize>, Seq<char>> = match optional_member(args, "index"@) {
                            None => Ok(None),
                            Some(Json::Number(t)) => match crate::text::parsed_usize(t) {
                                Some(n) => Ok(Some(n as usize)),
                                None => Err(bad_argument("index"@)),
                            },
                            Some(_) => Err(bad_argument("index"@)),
                        };
                        let items: Result<Option<Seq<Json>>, Seq<char>> = match optional_member(args, "items"@) {
                            None => Ok(None),
                            Some(Json::Array(vs)) => Ok(Some(vs)),
                            Some(_) => Err(bad_argument("items"@)),
                        };
                        match index {
                            Err(e) => Err(e),
                            Ok(ix) => match items {
                                Err(e) => Err(e),
                                Ok(its) => match get_str(args, "commit_message"@) {
                                    None => Err(bad_argument("commit_message"@)),
                                    Some(c) => Ok(
                                        ListEditArgsModel {
                                            target,
                                            operation: op,
                                            index: ix,
                                            item: optional_member(args, "item"@),
                                            items: its,
                                            commit_message: c,
                                        },
                                    ),
                                },
                            },
                        }
                    },
                }
            }
        }
    }
}

fn bad_argument_string(k: &str) -> (r: String)
    ensures
        r@ == bad_argument(k@),
{
    let mut v = chars_of("argument invalide : ");
    let kc = chars_of(k);
    push_all(&mut v, &kc);
    string_of(&v)
}

fn optional_member_value<'a>(args: &'a JsonValue, k: &str) -> (r: Option<&'a JsonValue>)
    ensures
        match optional_member(args.model(), k@) {
            Some(p) => r matches Some(v) && v.model() == p,
            None => r is None,
        },
{
    match args.get_key(k) {
        Some(p) => {
            if p.is_null() {
                None
            } else {
                Some(p)
            }
        },
        None => None,
    }
}

fn operation_from(t: &str) -> (r: Option<ListOperation>)
    ensures
        r == operation_named(t@),
{
    if str_eq(t, "add") {
        Some(ListOperation::Add)
    } else if str_eq(t, "update") {
        Some(ListOperation::Update)
    } else if str_eq(t, "remove") {
        Some(ListOperation::Remove)
    } else if str_eq(t, "replace") {
        Some(ListOperation::Replace)
    } else {
        None
    }
}

fn contains_name(names: &Vec<&str>, t: &str) -> (r: bool)
    ensures
        r == names@.map_values(|n: &str| n@).contains(t@),
{
    let ghost ns = names@.map_values(|n: &str| n@);
    let mut i: usize = 0;
    while i < names.len()
        invariant
            i <= names.len(),
            ns == names@.map_values(|n: &str| n@),
            forall|j: int| 0 <= j < i ==> ns[j] != t@,
        decreases names.len() - i,
    {
        if str_eq(names[i], t) {
            assert(ns[i as int] == t@);
            return true;
        }
        i = i + 1;
    }
    false
}

/// Reads the arguments of a list edit (see `list_edit_args_model`).
pub fn read_list_edit_args(args: &JsonValue, targets: &Vec<&str>) -> (r: Result<ListEditArgs, String>)
    ensures
        match list_edit_args_model(args.model(), targets@.map_values(|n: &str| n@)) {
            Err(e) => r matches Err(x) && x@ == e,
            Ok(m) => r matches Ok(a) && {
                &&& a.target@ == m.target
                &&& a.operation == m.operation
                &&& a.index == m.index
                &&& opt_model(a.item) == m.item
                &&& match m.items {
                    Some(vs) => a.items matches Some(v) && v@.map_values(|x: JsonValue| x.model()) == vs,
                    None => a.items is None,
                }
                &&& a.commit_message@ == m.commit_message
            },
        },
{
    if !args.is_object() {
        return Err(bad_argument_string("arguments"));
    }
    let target = match args.get_str("target") {
        Some(t) => t,
        None => return Err(bad_argument_string("target")),
    };
    if !contains_name(targets, target.as_str()) {
        return Err(bad_argument_string("target"));
    }
    let operation = match args.get_str("operation") {
        Some(o) => match operation_from(o.as_str()) {
            Some(op) => op,
            None => return Err(bad_argument_string("operation")),
        },
        None => return Err(bad_argument_string("operation")),
    };
    let index: Option<usize> = match optional_member_value(args, "index") {
        None => None,
        Some(JsonValue::Number(t)) => match crate::text::parse_usize(t.as_str()) {
            Some(n) => Some(n),
            None => return Err(bad_argument_string("index")),
        },
        Some(_) => return Err(bad_argument_string("index")),
    };
    let items: Option<Vec<JsonValue>> = match optional_member_value(args, "items") {
        None => None,
        Some(v) => match v.duplicate() {
            JsonValue::Array(vs) => {
                proof {
                    crate::json::lemma_array_model(vs);
                }
                Some(vs)
            },
            _ => return Err(bad_argument_string("items")),
        },
    };
    let commit_message = match args.get_str("commit_message") {
        Some(c) => c,
        None => return Err(bad_argument_string("commit_message")),
    };
    let item = match optional_member_value(args, "item") {
        Some(v) => Some(v.duplicate()),
        None => None,
    };
    Ok(ListEditArgs { target, operation, index, item, items, commit_message })
}

/// Items all accepted as elements.
pub open spec fn all_ok<T>(xs: Seq<T>) -> Seq<Result<T, String>> {
    xs.map_values(|x: T| Ok::<T, String>(x))
}

/// The models of a list of JSON values.
pub open spec fn models(xs: Seq<JsonValue>) -> Seq<Json> {
    xs.map_values(|x: JsonValue| x.model())
}

/// The list under `k` of a document; empty when there is none.
pub open spec fn list_at(doc: Json, k: Seq<char>) -> Seq<Json> {
    match json_get(doc, k) {
        Some(Json::Array(vs)) => vs,
        _ => seq![],
    }
}

/// A list edit on a JSON list, every given item being accepted as an
/// element (see `list_edit_model`).
pub open spec fn json_list_edit(list: Seq<Json>, a: ListEditArgsModel) -> Result<Seq<Json>, ListEditError> {
    list_edit_model::<Json>(
        list,
        a.operation,
        a.index,
        match a.item {
            Some(x) => Some(Ok::<Json, String>(x)),
            None => None,
        },
        match a.items {
            Some(vs) => Some(all_ok(vs)),
            None => None,
        },
    )
}

/// The mathematical form of read arguments.
pub open spec fn args_model(a: ListEditArgs) -> ListEditArgsModel {
    ListEditArgsModel {
        target: a.target@,
        operation: a.operation,
        index: a.index,
        item: opt_model(a.item),
        items: match a.items {
            Some(v) => Some(models(v@)),
            None => None,
        },
        commit_message: a.commit_message@,
    }
}

proof fn lemma_first_invalid_all_ok<T>(xs: Seq<T>)
    ensures
        crate::chat::first_invalid(all_ok(xs)) is None,
        crate::chat::parsed_items(all_ok(xs)) == xs,
    decreases xs.len(),
{
    if xs.len() > 0 {
        assert(all_ok(xs).drop_first() =~= all_ok(xs.drop_first()));
        lemma_first_invalid_all_ok(xs.drop_first());
    }
    assert(crate::chat::parsed_items(all_ok(xs)) =~= xs);
}

/// A list edit gives the same outcome on values and on their models.
proof fn lemma_list_edit_models(
    xs: Seq<JsonValue>,
    op: ListOperation,
    index: Option<usize>,
    item: Option<JsonValue>,
    items: Option<Seq<JsonValue>>,
)
    ensures
        ({
            let m1 = list_edit_model::<JsonValue>(
                xs,
                op,
                index,
                match item {
                    Some(x) => Some(Ok::<JsonValue, String>(x)),
                    None => None,
                },
                match items {
                    Some(vs) => Some(all_ok(vs)),
                    None => None,
                },
            );
            let m2 = list_edit_model::<Json>(
                models(xs),
                op,
                index,
                match item {
                    Some(x) => Some(Ok::<Json, String>(x.model())),
                    None => None,
                },
                match items {
                    Some(vs) => Some(all_ok(models(vs))),
                    None => None,
                },
            );
            &&& m1 is Ok <==> m2 is Ok
            &&& m1 matches Ok(a) ==> models(a) == m2->Ok_0
            &&& m1 matches Err(e) ==> m2 == Err::<Seq<Json>, ListEditError>(e)
        }),
{
    match items {
        Some(vs) => {
            lemma_first_invalid_all_ok(vs);
            lemma_first_invalid_all_ok(models(vs));
        },
        None => {},
    }
    match op {
        ListOperation::Add => {
            match item {
                Some(x) => {
                    assert(models(xs.push(x)) =~= models(xs).push(x.model()));
                },
                None => {},
            }
        },
        ListOperation::Update => {
            match (index, item) {
                (Some(i), Some(x)) => {
                    if i < xs.len() {
                        assert(models(xs.update(i as int, x)) =~= models(xs).update(i as int, x.model()));
                    }
                },
                _ => {},
            }
        },
        ListOperation::Remove => {
            match index {
                Some(i) => {
                    if i < xs.len() {
                        assert(models(xs.remove(i as int)) =~= models(xs).remove(i as int));
                    }
                },
                None => {},
            }
        },
        ListOperation::Replace => {},
    }
}

fn wrap_all_ok(vs: Vec<JsonValue>) -> (r: Vec<Result<JsonValue, String>>)
    ensures
        r@ == all_ok(vs@),
{
    let ghost v0 = vs@;
    let mut src = vs;
    let mut rev: Vec<JsonValue> = Vec::new();
    while src.len() > 0
        invariant
            src@.len() + rev@.len() == v0.len(),
            src@ =~= v0.subrange(0, src@.len() as int),
            forall|j: int| 0 <= j < rev@.len() ==> rev@[j] == v0[v0.len() - 1 - j],
        decreases src.len(),
    {
        let x = src.pop().unwrap();
        rev.push(x);
    }
    let mut out: Vec<Result<JsonValue, String>> = Vec::new();
    while rev.len() > 0
        invariant
            out@.len() + rev@.len() == v0.len(),
            forall|j: int| 0 <= j < rev@.len() ==> rev@[j] == v0[v0.len() - 1 - j],
            out@ =~= all_ok(v0.subrange(0, out@.len() as int)),
        decreases rev.len(),
    {
        let ghost k = out@.len() as int;
        let x = rev.pop().unwrap();
        assert(x == v0[k]);
        out.push(Ok(x));
        assert(v0.subrange(0, k + 1) =~= v0.subrange(0, k).push(v0[k]));
    }
    assert(v0.subrange(0, v0.len() as int) =~= v0);
    out
}

/// Applies a read list edit to the list `a.target` of a document (see
/// `json_list_edit`); the document is unchanged when the edit is refused.
pub fn edit_document_list(doc: &JsonValue, a: ListEditArgs) -> (r: Result<JsonValue, ListEditError>)
    ensures
        match json_list_edit(list_at(doc.model(), a.target@), args_model(a)) {
            Ok(nl) => r matches Ok(d) && d.model() == json_set(doc.model(), a.target@, Json::Array(nl)),
            Err(e) => r == Err::<JsonValue, ListEditError>(e),
        },
{
    let ghost am = args_model(a);
    let mut list: Vec<JsonValue> = match doc.get_key(a.target.as_str()) {
        Some(v) => match v.duplicate() {
            JsonValue::Array(vs) => {
                proof {
                    crate::json::lemma_array_model(vs);
                }
                vs
            },
            _ => Vec::new(),
        },
        None => Vec::new(),
    };
    assert(models(list@) == list_at(doc.model(), a.target@));
    let ghost l0 = list@;
    let ghost item0: Option<JsonValue> = match &a.item {
        Some(x) => Some(*x),
        None => None,
    };
    let ghost items0: Option<Seq<JsonValue>> = match &a.items {
        Some(v) => Some(v@),
        None => None,
    };
    let item: Option<Result<JsonValue, String>> = match a.item {
        Some(x) => Some(Ok(x)),
        None => None,
    };
    let items: Option<Vec<Result<JsonValue, String>>> = match a.items {
        Some(vs) => Some(wrap_all_ok(vs)),
        None => None,
    };
    let target = a.target;
    let res = apply_list_operation(&mut list, &a.operation, a.index, item, items);
    proof {
        lemma_list_edit_models(l0, a.operation, a.index, item0, items0);
    }
    match res {
        Err(e) => Err(e),
        Ok(()) => {
            let mut d = doc.duplicate();
            proof {
                crate::json::lemma_array_model(list);
            }
            d.set_key(target.as_str(), JsonValue::Array(list));
            Ok(d)
        },
    }
}

/// The lists of the résumé a list edit may target.
pub open spec fn resume_list_targets() -> Seq<Seq<char>> {
    seq!["competences"@, "experiences"@, "formations"@, "projets"@, "langues"@]
}

/// The lists of the cover letter a list edit may target.
pub open spec fn cover_list_targets() -> Seq<Seq<char>> {
    seq!["paragraphes"@]
}

/// A list edit on a document: the new document and the snapshot message,
/// or the reason it was refused.
pub open spec fn list_tool_model(args: Json, doc: Json, targets: Seq<Seq<char>>) -> Result<(Json, Seq<char>), Seq<char>> {
    match list_edit_args_model(args, targets) {
        Err(e) => Err(e),
        Ok(a) => match json_list_edit(list_at(doc, a.target), a) {
            Err(le) => Err(list_edit_message(le)),
            Ok(nl) => Ok((json_set(doc, a.target, Json::Array(nl)), a.commit_message)),
        },
    }
}

/// Answer to the model when a list of the résumé changed.
pub open spec fn resume_list_reply() -> Seq<char> {
    "Liste CV mise à jour avec succès."@
}

/// Answer to the model when a list of the cover letter changed.
pub open spec fn cover_list_reply() -> Seq<char> {
    "Liste lettre mise à jour avec succès."@
}

/// Answer to the model when a list edit was refused.
pub open spec fn validation_reply(e: Seq<char>) -> Seq<char> {
    "Erreur de validation: "@ + e
}

/// Answer to the model for a tool it does not have.
pub open spec fn unknown_tool_reply(name: Seq<char>) -> Seq<char> {
    "Tool inconnu: "@ + name
}

fn prefixed(prefix: &str, t: &str) -> (r: String)
    ensures
        r@ == prefix@ + t@,
{
    let mut v = chars_of(prefix);
    let tc = chars_of(t);
    push_all(&mut v, &tc);
    string_of(&v)
}

/// Applies a list edit call to one document (see `list_tool_model`).
fn list_tool(args: &JsonValue, doc: &JsonValue, targets: &Vec<&str>) -> (r: Result<(JsonValue, String), String>)
    ensures
        match list_tool_model(args.model(), doc.model(), targets@.map_values(|n: &str| n@)) {
            Ok((d, c)) => r matches Ok(x) && x.0.model() == d && x.1@ == c,
            Err(e) => r matches Err(x) && x@ == e,
        },
{
    let a = match read_list_edit_args(args, targets) {
        Ok(a) => a,
        Err(e) => return Err(e),
    };
    let commit = a.commit_message.clone();
    match edit_document_list(doc, a) {
        Ok(d) => Ok((d, commit)),
        Err(le) => Err(le.message()),
    }
}

/// What a tool call of the model does to the current résumé and cover
/// letter: `update_documents` patches them (see `update_documents`),
/// `edit_resume_list` and `edit_cover_list` edit one of their lists (see
/// `list_tool_model`), any other tool is unknown.
pub fn run_tool(call: &ToolCall, resume: &JsonValue, cover: &JsonValue, request: &str) -> (r: ToolEffect)
    ensures
        call.name@ == "update_documents"@ ==> r.announced && match update_model(
            call.arguments.model(),
            resume.model(),
            cover.model(),
        ) {
            UpdateModel::Changed(nr, nc) => {
                &&& opt_model(r.resume) == nr
                &&& opt_model(r.cover) == nc
                &&& r.commit_message matches Some(m) && m@ == update_commit(call.arguments.model(), request@)
                &&& r.reply@ == applied_reply()
            },
            UpdateModel::Failed(e) => {
                &&& r.resume is None && r.cover is None && r.commit_message is None
                &&& r.reply@ == refused_reply(e)
            },
            UpdateModel::Unchanged => {
                &&& r.resume is None && r.cover is None && r.commit_message is None
                &&& r.reply@ == unchanged_reply()
            },
        },
        call.name@ == "edit_resume_list"@ ==> r.announced && r.cover is None && match list_tool_model(
            call.arguments.model(),
            resume.model(),
            resume_list_targets(),
        ) {
            Ok((d, c)) => {
                &&& opt_model(r.resume) == Some(d)
                &&& r.commit_message matches Some(m) && m@ == c
                &&& r.reply@ == resume_list_reply()
            },
            Err(e) => r.resume is None && r.commit_message is None && r.reply@ == validation_reply(e),
        },
        call.name@ == "edit_cover_list"@ ==> r.announced && r.resume is None && match list_tool_model(
            call.arguments.model(),
            cover.model(),
            cover_list_targets(),
        ) {
            Ok((d, c)) => {
                &&& opt_model(r.cover) == Some(d)
                &&& r.commit_message matches Some(m) && m@ == c
                &&& r.reply@ == cover_list_reply()
            },
            Err(e) => r.cover is None && r.commit_message is None && r.reply@ == validation_reply(e),
        },
        call.name@ != "update_documents"@ && call.name@ != "edit_resume_list"@ && call.name@
            != "edit_cover_list"@ ==> !r.announced && r.resume is None && r.cover is None
            && r.commit_message is None && r.reply@ == unknown_tool_reply(call.name@),
{
    let name = call.name.as_str();
    proof {
        reveal_strlit("update_documents");
        reveal_strlit("edit_resume_list");
        reveal_strlit("edit_cover_list");
        assert("update_documents"@[0] != "edit_resume_list"@[0]);
        assert("update_documents"@[0] != "edit_cover_list"@[0]);
        assert("edit_resume_list"@[5] != "edit_cover_list"@[5]);
    }
    if str_eq(name, "update_documents") {
        return update_documents(&call.arguments, resume, cover, request);
    }
    if str_eq(name, "edit_resume_list") {
        let targets: Vec<&str> = vec!["competences", "experiences", "formations", "projets", "langues"];
        assert(targets@.map_values(|n: &str| n@) =~= resume_list_targets());
        return match list_tool(&call.arguments, resume, &targets) {
            Ok((d, c)) => ToolEffect {
                announced: true,
                resume: Some(d),
                cover: None,
                commit_message: Some(c),
                reply: "Liste CV mise à jour avec succès.".to_owned(),
            },
            Err(e) => ToolEffect {
                announced: true,
                resume: None,
                cover: None,
                commit_message: None,
                reply: prefixed("Erreur de validation: ", e.as_str()),
            },
        };
    }
    if str_eq(name, "edit_cover_list") {
        let targets: Vec<&str> = vec!["paragraphes"];
        assert(targets@.map_values(|n: &str| n@) =~= cover_list_targets());
        return match list_tool(&call.arguments, cover, &targets) {
            Ok((d, c)) => ToolEffect {
                announced: true,
                resume: None,
                cover: Some(d),
                commit_message: Some(c),
                reply: "Liste lettre mise à jour avec succès.".to_owned(),
            },
            Err(e) => ToolEffect {
                announced: true,
                resume: None,
                cover: None,
                commit_message: None,
                reply: prefixed("Erreur de validation: ", e.as_str()),
            },
        };
    }
    ToolEffect {
        announced: false,
        resume: None,
        cover: None,
        commit_message: None,
        reply: prefixed("Tool inconnu: ", name),
    }
}

/// Status shown while a tool call applies changes.
pub open spec fn applying_status() -> Seq<char> {
    "Application des modifications..."@
}

/// The status event sent before a known tool call is applied.
pub fn applying_event() -> (r: ChatEvent)
    ensures
        r matches ChatEvent::Status(m) && m@ == applying_status(),
{
    ChatEvent::Status("Application des modifications...".to_owned())
}

/// `update_documents` is all or nothing: when the cover-letter patch is
/// refused, the résumé is not changed either, whatever its own patch.
pub proof fn lemma_update_documents_is_atomic(args: Json, resume: Json, cover: Json)
    requires
        patch_of(args, "cover"@) matches Some(p) && merge_model(cover, p, "$.cover"@).1 is Some,
    ensures
        update_model(args, resume, cover) is Failed,
{
}

/// `update_documents` only ever writes documents that read as a résumé and
/// a cover letter: a patch whose result does not (such as a résumé patch
/// that is a bare string) is refused, and nothing changes.
pub proof fn lemma_update_documents_keeps_document_shapes(args: Json, resume: Json, cover: Json)
    ensures
        update_model(args, resume, cover) matches UpdateModel::Changed(nr, nc) ==> (nr matches Some(r) ==> is_resume_shape(r))
            && (nc matches Some(c) ==> is_cover_shape(c)),
        patch_of(args, "resume"@) matches Some(p) && !is_resume_shape(merge_model(resume, p, "$.resume"@).0)
            ==> update_model(args, resume, cover) is Failed,
{
}

/// `update_documents` never changes a list of the résumé: when it applies
/// an object patch to a résumé object, every list-named member keeps its
/// value.
pub proof fn lemma_update_documents_keeps_resume_lists(
    args: Json,
    rm: Seq<(Seq<char>, Json)>,
    cover: Json,
    k: Seq<char>,
)
    requires
        crate::chat::is_list_key(k),
        patch_of(args, "resume"@) matches Some(p) && p is Object,
        update_model(args, Json::Object(rm), cover) matches UpdateModel::Changed(Some(nr), _),
    ensures
        json_get(update_model(args, Json::Object(rm), cover)->Changed_0->Some_0, k) == crate::json::obj_get(rm, k),
{
    let p = patch_of(args, "resume"@)->Some_0;
    let bm = p->Object_0;
    assert(merge_model(Json::Object(rm), p, "$.resume"@) == crate::chat::merge_members(rm, bm, "$.resume"@));
    crate::chat::lemma_merge_ok_has_no_list_key(rm, bm, "$.resume"@);
    crate::chat::lemma_merge_keeps_untouched_keys(rm, bm, "$.resume"@, k);
}


/// `update_documents` never changes a list of the cover letter (such as
/// `paragraphes`): when it applies an object patch to a letter object,
/// every list-named member keeps its value.
pub proof fn lemma_update_documents_keeps_cover_lists(
    args: Json,
    resume: Json,
    cm: Seq<(Seq<char>, Json)>,
    k: Seq<char>,
)
    requires
        crate::chat::is_list_key(k),
        patch_of(args, "cover"@) matches Some(p) && p is Object,
        update_model(args, resume, Json::Object(cm)) matches UpdateModel::Changed(_, Some(nc)),
    ensures
        json_get(update_model(args, resume, Json::Object(cm))->Changed_1->Some_0, k) == crate::json::obj_get(cm, k),
{
    let p = patch_of(args, "cover"@)->Some_0;
    let bm = p->Object_0;
    assert(merge_model(Json::Object(cm), p, "$.cover"@) == crate::chat::merge_members(cm, bm, "$.cover"@));
    crate::chat::lemma_merge_ok_has_no_list_key(cm, bm, "$.cover"@);
    crate::chat::lemma_merge_keeps_untouched_keys(cm, bm, "$.cover"@, k);
}

/// Most bytes of the résumé's JSON shown in a chat prompt.
pub const RESUME_JSON_PROMPT_LIMIT: usize = 3000;

/// Most bytes of the cover letter's JSON shown in a chat prompt.
pub const COVER_JSON_PROMPT_LIMIT: usize = 2500;

/// Whether `text` can be cut at `limit` bytes: it fits, or a character
/// ends exactly there.
pub open spec fn cuttable(text: Seq<char>, limit: nat) -> bool {
    byte_len(text) <= limit || exists|k: int| bytes_at_chars(text, k, limit as int)
}

/// `text` as a prompt shows it: whole when it fits in `limit` bytes, else
/// its first `limit` bytes followed by the truncation marker.
pub open spec fn prompt_cut(text: Seq<char>, limit: nat) -> Seq<char> {
    if byte_len(text) <= limit {
        text
    } else {
        text.subrange(0, choose|k: int| bytes_at_chars(text, k, limit as int)) + truncated_marker()
    }
}

/// The text of the first message of a chat turn about an application.
pub open spec fn instance_chat_text(
    profile_json: Seq<char>,
    offer_json: Seq<char>,
    restitution_json: Seq<char>,
    rag_context: Seq<char>,
    history: Seq<HistoryEntry>,
    message: Seq<char>,
    resume_json: Seq<char>,
    cover_json: Seq<char>,
) -> Seq<char> {
    "IDENTITÉ DE L'UTILISATEUR:\n"@ + profile_json + "\n\nOFFRE CIBLÉE:\n"@ + offer_json
        + "\n\nANALYSE DE L'OFFRE:\n"@ + restitution_json + "\n\nPARCOURS (RAG):\n"@ + rag_context
        + "\n\nHISTORIQUE:\n"@ + render_model(entries_view(history)) + "\n\nDEMANDE: "@ + message
        + "\n\nJSON CV (résumé): "@ + prompt_cut(resume_json, RESUME_JSON_PROMPT_LIMIT as nat)
        + "\n\nJSON LETTRE (résumé): "@ + prompt_cut(cover_json, COVER_JSON_PROMPT_LIMIT as nat)
}

/// The text of the first message of a chat about all offers.
pub open spec fn global_chat_text(
    profile_json: Seq<char>,
    offer_count: nat,
    offers_json: Seq<char>,
    rag_context: Seq<char>,
    history: Seq<HistoryEntry>,
    message: Seq<char>,
) -> Seq<char> {
    "IDENTITÉ DE L'UTILISATEUR (Profil complet):\n"@ + profile_json + "\n\nOFFRES DISPONIBLES EN BASE ("@
        + decimal(offer_count) + " offres):\n"@ + offers_json + "\n\nDÉTAILS DU PARCOURS (RAG):\n"@
        + rag_context + "\n\nHISTORIQUE RÉCENT DU CHAT:\n"@ + render_model(entries_view(history))
        + "\n\nDEMANDE DE L'UTILISATEUR: "@ + message
}

fn cut_for_prompt(text: String, limit: usize) -> (r: String)
    requires
        cuttable(text@, limit as nat),
    ensures
        r@ == prompt_cut(text@, limit as nat),
{
    let ghost t = text@;
    let r = truncate_for_prompt(text, limit);
    proof {
        if byte_len(t) > limit {
            let k = choose|k: int| bytes_at_chars(t, k, limit as int);
            assert(bytes_at_chars(t, k, limit as int));
        }
    }
    r
}

fn push_str(v: &mut Vec<char>, s: &str)
    ensures
        final(v)@ == old(v)@ + s@,
{
    let c = chars_of(s);
    push_all(v, &c);
}

/// The first message of a chat turn about an application: one user text
/// made of the profile, the offer and its analysis (each as JSON text), the
/// retrieved context, the rendered history, the request, and the résumé and
/// letter JSON cut to their limits. A cut must fall between two characters.
pub fn instance_chat_message(
    profile_json: &str,
    offer_json: &str,
    restitution_json: &str,
    rag_context: &str,
    history: &Vec<HistoryEntry>,
    message: &str,
    resume_json: String,
    cover_json: String,
) -> (r: LlmMessage)
    requires
        cuttable(resume_json@, RESUME_JSON_PROMPT_LIMIT as nat),
        cuttable(cover_json@, COVER_JSON_PROMPT_LIMIT as nat),
    ensures
        r.role == Role::User,
        r.content@.len() == 1,
        r.content@[0] matches MessageContent::Text(t) && t@ == instance_chat_text(
            profile_json@,
            offer_json@,
            restitution_json@,
            rag_context@,
            history@,
            message@,
            resume_json@,
            cover_json@,
        ),
{
    let h = render_chat_history_for_prompt(history.as_slice());
    let resume = cut_for_prompt(resume_json, RESUME_JSON_PROMPT_LIMIT);
    let cover = cut_for_prompt(cover_json, COVER_JSON_PROMPT_LIMIT);
    let mut v = chars_of("IDENTITÉ DE L'UTILISATEUR:\n");
    push_str(&mut v, profile_json);
    push_str(&mut v, "\n\nOFFRE CIBLÉE:\n");
    push_str(&mut v, offer_json);
    push_str(&mut v, "\n\nANALYSE DE L'OFFRE:\n");
    push_str(&mut v, restitution_json);
    push_str(&mut v, "\n\nPARCOURS (RAG):\n");
    push_str(&mut v, rag_context);
    push_str(&mut v, "\n\nHISTORIQUE:\n");
    push_str(&mut v, h.as_str());
    push_str(&mut v, "\n\nDEMANDE: ");
    push_str(&mut v, message);
    push_str(&mut v, "\n\nJSON CV (résumé): ");
    push_str(&mut v, resume.as_str());
    push_str(&mut v, "\n\nJSON LETTRE (résumé): ");
    push_str(&mut v, cover.as_str());
    let text = string_of(&v);
    LlmMessage { role: Role::User, content: vec![MessageContent::Text(text)] }
}

/// The input of a chat about all offers: one text made of the profile (as
/// JSON text), the number and list of offers, the retrieved context, the
/// rendered history and the request, followed by the images attached to
/// the request (see `append_attachments`).
pub fn global_user_input(
    profile_json: &str,
    offer_count: usize,
    offers_json: &str,
    rag_context: &str,
    history: &Vec<HistoryEntry>,
    message: &str,
    attachments: &Vec<ChatAttachment>,
) -> (r: Vec<MessageContent>)
    ensures
        r@.len() == 1 + attachment_images(attachments@).len(),
        r@[0] matches MessageContent::Text(t) && t@ == global_chat_text(
            profile_json@,
            offer_count as nat,
            offers_json@,
            rag_context@,
            history@,
            message@,
        ),
        forall|k: int|
            0 <= k < attachment_images(attachments@).len() ==> is_image_content(
                #[trigger] r@[1 + k],
                attachment_images(attachments@)[k],
            ),
{
    let h = render_chat_history_for_prompt(history.as_slice());
    let mut v = chars_of("IDENTITÉ DE L'UTILISATEUR (Profil complet):\n");
    push_str(&mut v, profile_json);
    push_str(&mut v, "\n\nOFFRES DISPONIBLES EN BASE (");
    let n = decimal_chars(offer_count);
    push_all(&mut v, &n);
    push_str(&mut v, " offres):\n");
    push_str(&mut v, offers_json);
    push_str(&mut v, "\n\nDÉTAILS DU PARCOURS (RAG):\n");
    push_str(&mut v, rag_context);
    push_str(&mut v, "\n\nHISTORIQUE RÉCENT DU CHAT:\n");
    push_str(&mut v, h.as_str());
    push_str(&mut v, "\n\nDEMANDE DE L'UTILISATEUR: ");
    push_str(&mut v, message);
    let text = string_of(&v);
    let mut contents = vec![MessageContent::Text(text)];
    append_attachments(&mut contents, attachments);
    contents
}


/// The tools offered to the model in a chat about one application, with
/// the input schema of each: non-list document changes, résumé list edits
/// and letter list edits.
pub fn chat_tools(update_schema: JsonValue, resume_list_schema: JsonValue, cover_list_schema: JsonValue) -> (r: Vec<LlmTool>)
    ensures
        r@.len() == 3,
        r@[0].name@ == "update_documents"@,
        r@[0].description@ == "Modifie les champs non-listes du CV et/ou de la lettre. N'utilise pas cet outil pour les listes."@,
        r@[0].input_schema == update_schema,
        r@[1].name@ == "edit_resume_list"@,
        r@[1].description@ == "Modifie une liste du CV avec une sémantique explicite (add/update/remove/replace)."@,
        r@[1].input_schema == resume_list_schema,
        r@[2].name@ == "edit_cover_list"@,
        r@[2].description@
            == "Modifie la liste des paragraphes de la lettre avec une sémantique explicite (add/update/remove/replace)."@,
        r@[2].input_schema == cover_list_schema,
{
    vec![
        LlmTool {
            name: "update_documents".to_owned(),
            description: "Modifie les champs non-listes du CV et/ou de la lettre. N'utilise pas cet outil pour les listes.".to_owned(),
            input_schema: update_schema,
        },
        LlmTool {
            name: "edit_resume_list".to_owned(),
            description: "Modifie une liste du CV avec une sémantique explicite (add/update/remove/replace).".to_owned(),
            input_schema: resume_list_schema,
        },
        LlmTool {
            name: "edit_cover_list".to_owned(),
            description: "Modifie la liste des paragraphes de la lettre avec une sémantique explicite (add/update/remove/replace).".to_owned(),
            input_schema: cover_list_schema,
        },
    ]
}

} // verus!

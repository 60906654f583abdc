//! Conversation threads kept inside a profile's free-form notes.
//!
//! The notes are a JSON object. Conversations live under `chat_threads`, an
//! array of thread objects (`id`, `title`, `created_at`, `updated_at`,
//! `messages`); the thread in use is named by `active_chat_id`. An older
//! layout kept a single flat `chat_history` array, which is migrated into a
//! thread on the first write.

use vstd::prelude::*;
use crate::clock::{new_uuid_v4, now_rfc3339};
use crate::json::{
    Json, JsonValue, array_model, get_arr, get_str, json_set, lemma_array_model,
    lemma_json_set_get, str_eq,
};
use crate::text::{
    join, join_chars, keep_first, keep_last, push_all, split_words, string_of, chars_of, trim,
    trim_chars, words,
};

verus! {

/// Most recent messages kept per thread.
pub const MAX_THREAD_MESSAGES: usize = 100;

/// Most recent threads kept in the notes.
pub const MAX_CHAT_THREADS: usize = 50;

/// Most entries of the flat chat history (the older note layout).
pub const MAX_CHAT_HISTORY_ENTRIES: usize = 20;

/// Author of a history entry.
#[derive(Clone, Copy, Debug, PartialEq, Eq, Structural)]
pub enum MessageRole {
    User,
    Assistant,
    System,
}

/// One message read back from a thread.
#[derive(Clone, Debug)]
pub struct HistoryEntry {
    pub role: MessageRole,
    pub content: String,
}

/// The role a stored role name stands for.
pub open spec fn role_of(r: Seq<char>) -> MessageRole {
    if r == "user"@ {
        MessageRole::User
    } else if r == "assistant"@ {
        MessageRole::Assistant
    } else {
        MessageRole::System
    }
}

/// The mathematical view of a list of entries.
pub open spec fn entries_view(h: Seq<HistoryEntry>) -> Seq<(MessageRole, Seq<char>)> {
    h.map_values(|e: HistoryEntry| (e.role, e.content@))
}

/// Title of a new thread: the first eight words of its first message, or
/// `"Nouveau chat"` when the message has none.
pub open spec fn thread_title(content: Seq<char>) -> Seq<char> {
    let t = trim(join(keep_first(words(content), 8), seq![' ']));
    if t.len() == 0 {
        "Nouveau chat"@
    } else {
        t
    }
}

/// Index of the first thread whose `id` is `id`.
pub open spec fn thread_index(ts: Seq<Json>, id: Seq<char>) -> Option<int>
    decreases ts.len(),
{
    if ts.len() == 0 {
        None
    } else if get_str(ts[0], "id"@) == Some(id) {
        Some(0)
    } else {
        match thread_index(ts.drop_first(), id) {
            Some(i) => Some(i + 1),
            None => None,
        }
    }
}

/// The thread the older layout's flat history is moved into.
pub open spec fn legacy_thread(legacy: Seq<Json>, created: Seq<char>, updated: Seq<char>) -> Json {
    json_set(
        json_set(
            json_set(
                json_set(
                    json_set(Json::Object(seq![]), "id"@, Json::Str("legacy-default"@)),
                    "title"@,
                    Json::Str("Conversation"@),
                ),
                "created_at"@,
                Json::Str(created),
            ),
            "updated_at"@,
            Json::Str(updated),
        ),
        "messages"@,
        Json::Array(legacy),
    )
}

/// Notes after moving a non-empty flat `chat_history` into a thread; notes
/// that already hold threads are left as they are.
pub open spec fn migrate_model(n: Json, created: Seq<char>, updated: Seq<char>) -> Json {
    if get_arr(n, "chat_threads"@) is Some && get_arr(n, "chat_threads"@)->0.len() > 0 {
        n
    } else {
        let legacy = match get_arr(n, "chat_history"@) {
            Some(l) => l,
            None => seq![],
        };
        if legacy.len() == 0 {
            json_set(n, "chat_threads"@, Json::Array(seq![]))
        } else {
            json_set(
                json_set(n, "chat_threads"@, Json::Array(seq![legacy_thread(legacy, created, updated)])),
                "active_chat_id"@,
                Json::Str("legacy-default"@),
            )
        }
    }
}

/// A freshly opened thread.
pub open spec fn new_thread(id: Seq<char>, title: Seq<char>, now: Seq<char>) -> Json {
    json_set(
        json_set(
            json_set(
                json_set(
                    json_set(Json::Object(seq![]), "id"@, Json::Str(id)),
                    "title"@,
                    Json::Str(title),
                ),
                "created_at"@,
                Json::Str(now),
            ),
            "updated_at"@,
            Json::Str(now),
        ),
        "messages"@,
        Json::Array(seq![]),
    )
}

/// A stored message.
pub open spec fn message_model(
    role: Seq<char>,
    content: Seq<char>,
    now: Seq<char>,
    inst: Option<Seq<char>>,
) -> Json {
    let base = json_set(
        json_set(json_set(Json::Object(seq![]), "role"@, Json::Str(role)), "content"@, Json::Str(content)),
        "ts"@,
        Json::Str(now),
    );
    match inst {
        Some(i) => json_set(base, "instance_id"@, Json::Str(i)),
        None => base,
    }
}

/// A thread after a message is appended: the oldest messages beyond the
/// cap dropped, `updated_at` refreshed, a missing or empty title filled in.
pub open spec fn updated_thread(
    t: Json,
    role: Seq<char>,
    content: Seq<char>,
    now: Seq<char>,
    inst: Option<Seq<char>>,
) -> Json {
    let msgs = match get_arr(t, "messages"@) {
        Some(m) => m,
        None => seq![],
    };
    let t1 = json_set(
        t,
        "messages"@,
        Json::Array(keep_last(msgs.push(message_model(role, content, now, inst)), MAX_THREAD_MESSAGES as nat)),
    );
    let t2 = json_set(t1, "updated_at"@, Json::Str(now));
    if get_str(t2, "title"@) is Some && get_str(t2, "title"@)->0.len() > 0 {
        t2
    } else {
        json_set(t2, "title"@, Json::Str(thread_title(content)))
    }
}

/// The thread id a write goes to: the one asked for, else the active one,
/// else a fresh one.
pub open spec fn selected_id(n: Json, cid: Option<Seq<char>>, fresh: Seq<char>) -> Seq<char> {
    match cid {
        Some(c) => c,
        None => match get_str(n, "active_chat_id"@) {
            Some(a) => a,
            None => fresh,
        },
    }
}

/// The notes after appending a message, and the id of the thread written to.
/// `created`/`updated` stamp a migrated legacy thread, `now` stamps the
/// message and the thread, `fresh` names a new thread when none is selected.
pub open spec fn push_model(
    notes: Json,
    cid: Option<Seq<char>>,
    role: Seq<char>,
    content: Seq<char>,
    inst: Option<Seq<char>>,
    created: Seq<char>,
    updated: Seq<char>,
    now: Seq<char>,
    fresh: Seq<char>,
) -> (Json, Seq<char>) {
    let n0 = if notes is Object { notes } else { Json::Object(seq![]) };
    let n1 = migrate_model(n0, created, updated);
    let sel = selected_id(n1, cid, fresh);
    let ts = match get_arr(n1, "chat_threads"@) {
        Some(a) => a,
        None => seq![],
    };
    let ts1 = match thread_index(ts, sel) {
        Some(i) => ts,
        None => ts.push(new_thread(sel, thread_title(content), now)),
    };
    let idx = match thread_index(ts, sel) {
        Some(i) => i,
        None => ts.len() as int,
    };
    let ts2 = ts1.update(idx, updated_thread(ts1[idx], role, content, now, inst));
    let n2 = json_set(n1, "chat_threads"@, Json::Array(keep_last(ts2, MAX_CHAT_THREADS as nat)));
    (json_set(n2, "active_chat_id"@, Json::Str(sel)), sel)
}

/// The id of the thread a read goes to: the one asked for, else the active
/// one, else the first thread's, else `"default"`.
pub open spec fn active_thread_id(n: Json, cid: Option<Seq<char>>) -> Seq<char> {
    match cid {
        Some(c) => c,
        None => match get_str(n, "active_chat_id"@) {
            Some(a) => a,
            None => match get_arr(n, "chat_threads"@) {
                Some(ts) => if ts.len() > 0 && get_str(ts[0], "id"@) is Some {
                    get_str(ts[0], "id"@)->0
                } else {
                    "default"@
                },
                None => "default"@,
            },
        },
    }
}

/// A stored message read back, when it has a textual role and content.
pub open spec fn entry_model(e: Json) -> Option<(MessageRole, Seq<char>)> {
    match (get_str(e, "role"@), get_str(e, "content"@)) {
        (Some(r), Some(c)) => Some((role_of(r), c)),
        _ => None,
    }
}

/// The readable messages of a list, in order.
pub open spec fn entries_model(es: Seq<Json>) -> Seq<(MessageRole, Seq<char>)>
    decreases es.len(),
{
    if es.len() == 0 {
        seq![]
    } else {
        let rest = entries_model(es.drop_last());
        match entry_model(es.last()) {
            Some(x) => rest.push(x),
            None => rest,
        }
    }
}

/// The history of the selected thread.
pub open spec fn extract_model(n: Json, cid: Option<Seq<char>>) -> Seq<(MessageRole, Seq<char>)> {
    let id = active_thread_id(n, cid);
    match get_arr(n, "chat_threads"@) {
        Some(ts) => match thread_index(ts, id) {
            Some(i) => match get_arr(ts[i], "messages"@) {
                Some(ms) => entries_model(ms),
                None => seq![],
            },
            None => seq![],
        },
        None => seq![],
    }
}

/// Number of threads the notes hold.
pub open spec fn thread_count(n: Json) -> nat {
    match get_arr(n, "chat_threads"@) {
        Some(ts) => ts.len(),
        None => 0,
    }
}

pub open spec fn opt_chars(o: Option<&str>) -> Option<Seq<char>> {
    match o {
        Some(s) => Some(s@),
        None => None,
    }
}

/// Label of a role in a rendered history.
pub open spec fn role_label(r: MessageRole) -> Seq<char> {
    match r {
        MessageRole::Assistant => "IA"@,
        MessageRole::User => "UTILISATEUR"@,
        MessageRole::System => "SYSTEME"@,
    }
}

/// One rendered entry.
pub open spec fn render_line(e: (MessageRole, Seq<char>)) -> Seq<char> {
    role_label(e.0) + ": "@ + e.1
}

/// The last twelve entries, one `LABEL: content` line each; `"Aucun
/// historique"` for an empty history.
pub open spec fn render_model(h: Seq<(MessageRole, Seq<char>)>) -> Seq<char> {
    if h.len() == 0 {
        "Aucun historique"@
    } else {
        join(
            keep_last(h, 12).map_values(|e: (MessageRole, Seq<char>)| render_line(e)),
            seq!['\n'],
        )
    }
}

pub proof fn lemma_thread_index_bounds(ts: Seq<Json>, id: Seq<char>)
    ensures
        thread_index(ts, id) matches Some(i) ==> 0 <= i < ts.len() && get_str(ts[i], "id"@) == Some(id)
            && forall|j: int| 0 <= j < i ==> get_str(#[trigger] ts[j], "id"@) != Some(id),
        thread_index(ts, id) is None ==> forall|j: int| 0 <= j < ts.len() ==> get_str(#[trigger] ts[j], "id"@) != Some(id),
    decreases ts.len(),
{
    if ts.len() > 0 {
        lemma_thread_index_bounds(ts.drop_first(), id);
        assert forall|j: int| 1 <= j < ts.len() implies ts[j] == ts.drop_first()[j - 1] by {}
    }
}

pub proof fn lemma_thread_index_is(ts: Seq<Json>, id: Seq<char>, i: int)
    requires
        0 <= i < ts.len(),
        get_str(ts[i], "id"@) == Some(id),
        forall|j: int| 0 <= j < i ==> get_str(#[trigger] ts[j], "id"@) != Some(id),
    ensures
        thread_index(ts, id) == Some(i),
{
    lemma_thread_index_bounds(ts, id);
    match thread_index(ts, id) {
        Some(j) => {
            if j < i {
                assert(get_str(ts[j], "id"@) != Some(id));
            } else if j > i {
                assert(get_str(ts[i], "id"@) != Some(id));
            }
        },
        None => {
            assert(get_str(ts[i], "id"@) != Some(id));
        },
    }
}

/// Title for a thread opened by `content`: its first eight words.
pub fn build_thread_title(content: &str) -> (r: String)
    ensures
        r@ == thread_title(content@),
{
    let cs = chars_of(content);
    let mut ws = split_words(&cs);
    let ghost all = ws@.map_values(|w: Vec<char>| w@);
    if ws.len() > 8 {
        ws.truncate(8);
        assert(ws@.map_values(|w: Vec<char>| w@) =~= keep_first(all, 8));
    } else {
        assert(ws@.map_values(|w: Vec<char>| w@) =~= keep_first(all, 8));
    }
    let sep: Vec<char> = vec![' '];
    assert(sep@ =~= seq![' ']);
    let joined = join_chars(&ws, &sep);
    let t = trim_chars(&joined);
    if t.len() == 0 {
        "Nouveau chat".to_owned()
    } else {
        string_of(&t)
    }
}

/// Index of the first thread whose `id` is `id`.
fn find_thread(ts: &Vec<JsonValue>, id: &str) -> (r: Option<usize>)
    ensures
        r matches Some(i) ==> thread_index(array_model(ts@), id@) == Some(i as int) && i < ts.len(),
        r is None ==> thread_index(array_model(ts@), id@) is None,
{
    let ghost m = array_model(ts@);
    let mut i: usize = 0;
    while i < ts.len()
        invariant
            i <= ts.len(),
            m == array_model(ts@),
            forall|j: int| 0 <= j < i ==> get_str(#[trigger] m[j], "id"@) != Some(id@),
        decreases ts.len() - i,
    {
        match ts[i].get_str("id") {
            Some(t) => {
                if str_eq(t.as_str(), id) {
                    proof {
                        lemma_thread_index_is(m, id@, i as int);
                    }
                    return Some(i);
                }
            },
            None => {},
        }
        i = i + 1;
    }
    proof {
        lemma_thread_index_bounds(m, id@);
        if thread_index(m, id@) is Some {
            let j = thread_index(m, id@)->0;
            assert(get_str(m[j], "id"@) != Some(id@));
        }
    }
    None
}

/// An empty array value.
fn empty_array() -> (r: JsonValue)
    ensures
        r.model() == Json::Array(seq![]),
{
    let v: Vec<JsonValue> = Vec::new();
    proof {
        lemma_array_model(v);
        assert(array_model(v@) =~= Seq::<Json>::empty());
    }
    JsonValue::Array(v)
}

/// An array value holding `v`.
fn array_of(v: Vec<JsonValue>) -> (r: JsonValue)
    ensures
        r.model() == Json::Array(array_model(v@)),
{
    proof {
        lemma_array_model(v);
    }
    JsonValue::Array(v)
}

fn string_value(s: &str) -> (r: JsonValue)
    ensures
        r.model() == Json::Str(s@),
{
    JsonValue::Str(s.to_owned())
}

fn legacy_thread_value(legacy: Vec<JsonValue>, created: &str, updated: &str) -> (r: JsonValue)
    ensures
        r.model() == legacy_thread(array_model(legacy@), created@, updated@),
{
    let mut t = empty_object();
    t.set_key("id", string_value("legacy-default"));
    t.set_key("title", string_value("Conversation"));
    t.set_key("created_at", string_value(created));
    t.set_key("updated_at", string_value(updated));
    t.set_key("messages", array_of(legacy));
    t
}

fn empty_object() -> (r: JsonValue)
    ensures
        r.model() == Json::Object(seq![]),
{
    let v: Vec<crate::json::Member> = Vec::new();
    proof {
        crate::json::lemma_object_model(v);
        assert(crate::json::members_model(v@) =~= Seq::<(Seq<char>, Json)>::empty());
    }
    JsonValue::Object(v)
}

fn migrate_legacy_chat_history(notes: &mut JsonValue, created: &str, updated: &str)
    ensures
        final(notes).model() == migrate_model(old(notes).model(), created@, updated@),
{
    match notes.get_array("chat_threads") {
        Some(a) => {
            if a.len() > 0 {
                return;
            }
        },
        None => {},
    }
    let legacy = match notes.get_array("chat_history") {
        Some(l) => l,
        None => Vec::new(),
    };
    if legacy.len() == 0 {
        assert(array_model(legacy@) =~= Seq::<Json>::empty());
        notes.set_key("chat_threads", empty_array());
        return;
    }
    let t = legacy_thread_value(legacy, created, updated);
    let ghost tm = t.model();
    let v: Vec<JsonValue> = vec![t];
    assert(array_model(v@) =~= seq![tm]);
    notes.set_key("chat_threads", array_of(v));
    notes.set_key("active_chat_id", string_value("legacy-default"));
}

fn new_thread_value(id: &str, title: &str, now: &str) -> (r: JsonValue)
    ensures
        r.model() == new_thread(id@, title@, now@),
{
    let mut t = empty_object();
    t.set_key("id", string_value(id));
    t.set_key("title", string_value(title));
    t.set_key("created_at", string_value(now));
    t.set_key("updated_at", string_value(now));
    t.set_key("messages", empty_array());
    t
}

fn message_value(role: &str, content: &str, now: &str, instance_id: Option<&str>) -> (r: JsonValue)
    ensures
        r.model() == message_model(role@, content@, now@, opt_chars(instance_id)),
{
    let mut m = empty_object();
    m.set_key("role", string_value(role));
    m.set_key("content", string_value(content));
    m.set_key("ts", string_value(now));
    match instance_id {
        Some(i) => m.set_key("instance_id", string_value(i)),
        None => {},
    }
    m
}

fn updated_thread_value(
    t: JsonValue,
    role: &str,
    content: &str,
    now: &str,
    instance_id: Option<&str>,
) -> (r: JsonValue)
    ensures
        r.model() == updated_thread(t.model(), role@, content@, now@, opt_chars(instance_id)),
{
    let mut t = t;
    let ghost t0 = t.model();
    let mut msgs: Vec<JsonValue> = match t.get_array("messages") {
        Some(a) => a,
        None => Vec::new(),
    };
    let ghost m0 = match get_arr(t0, "messages"@) {
        Some(m) => m,
        None => seq![],
    };
    assert(array_model(msgs@) =~= m0);
    let msg = message_value(role, content, now, instance_id);
    let ghost mm = msg.model();
    msgs.push(msg);
    assert(array_model(msgs@) =~= m0.push(mm));
    if msgs.len() > MAX_THREAD_MESSAGES {
        let excess = msgs.len() - MAX_THREAD_MESSAGES;
        let ghost before = msgs@;
        msgs = msgs.split_off(excess);
        assert(array_model(msgs@) =~= keep_last(m0.push(mm), MAX_THREAD_MESSAGES as nat));
    } else {
        assert(array_model(msgs@) =~= keep_last(m0.push(mm), MAX_THREAD_MESSAGES as nat));
    }
    t.set_key("messages", array_of(msgs));
    t.set_key("updated_at", string_value(now));
    let has_title = match t.get_str("title") {
        Some(x) => !x.as_str().is_empty(),
        None => false,
    };
    if !has_title {
        let title = build_thread_title(content);
        t.set_key("title", string_value(title.as_str()));
    }
    t
}

/// Appends a message to a thread of `notes` and returns the thread's id.
/// `legacy_created`/`legacy_updated` stamp a thread migrated from the older
/// layout, `now` stamps the message and the thread, and `fresh_id` names the
/// thread when neither `conversation_id` nor an active thread selects one.
pub fn push_chat_history_at(
    notes: &mut JsonValue,
    conversation_id: Option<&str>,
    role: &str,
    content: &str,
    instance_id: Option<&str>,
    legacy_created: &str,
    legacy_updated: &str,
    now: &str,
    fresh_id: &str,
) -> (id: String)
    ensures
        (final(notes).model(), id@) == push_model(
            old(notes).model(),
            opt_chars(conversation_id),
            role@,
            content@,
            opt_chars(instance_id),
            legacy_created@,
            legacy_updated@,
            now@,
            fresh_id@,
        ),
{
    let mut n = if notes.is_object() {
        notes.duplicate()
    } else {
        empty_object()
    };
    let ghost n0 = n.model();
    assert(n0 == if old(notes).model() is Object { old(notes).model() } else { Json::Object(seq![]) });
    migrate_legacy_chat_history(&mut n, legacy_created, legacy_updated);
    let ghost n1 = n.model();
    let sel: String = match conversation_id {
        Some(c) => c.to_owned(),
        None => match n.get_str("active_chat_id") {
            Some(a) => a,
            None => fresh_id.to_owned(),
        },
    };
    let mut threads: Vec<JsonValue> = match n.get_array("chat_threads") {
        Some(a) => a,
        None => Vec::new(),
    };
    let ghost ts = array_model(threads@);
    assert(sel@ == selected_id(n1, opt_chars(conversation_id), fresh_id@));
    assert(ts == match get_arr(n1, "chat_threads"@) {
        Some(a) => a,
        None => seq![],
    });
    let idx: usize = match find_thread(&threads, sel.as_str()) {
        Some(i) => i,
        None => {
            let title = build_thread_title(content);
            let t = new_thread_value(sel.as_str(), title.as_str(), now);
            threads.push(t);
            threads.len() - 1
        },
    };
    let ghost ts1 = array_model(threads@);
    assert(idx as int == match thread_index(ts, sel@) {
        Some(i) => i,
        None => ts.len() as int,
    });
    assert(ts1 =~= match thread_index(ts, sel@) {
        Some(i) => ts,
        None => ts.push(new_thread(sel@, thread_title(content@), now@)),
    });
    let t = threads.remove(idx);
    let t2 = updated_thread_value(t, role, content, now, instance_id);
    threads.insert(idx, t2);
    let ghost ts2 = ts1.update(idx as int, updated_thread(ts1[idx as int], role@, content@, now@, opt_chars(instance_id)));
    assert(array_model(threads@) =~= ts2);
    if threads.len() > MAX_CHAT_THREADS {
        let excess = threads.len() - MAX_CHAT_THREADS;
        threads = threads.split_off(excess);
    }
    assert(array_model(threads@) =~= keep_last(ts2, MAX_CHAT_THREADS as nat));
    n.set_key("chat_threads", array_of(threads));
    n.set_key("active_chat_id", string_value(sel.as_str()));
    *notes = n;
    sel
}

/// Appends a message to a conversation thread of `notes`, stamped with the
/// current time, and returns the thread's id.
pub fn push_chat_history_for_conversation(
    notes: &mut JsonValue,
    conversation_id: Option<&str>,
    role: &str,
    content: &str,
    instance_id: Option<&str>,
) -> (id: String)
    ensures
        exists|created: Seq<char>, updated: Seq<char>, now: Seq<char>, fresh: Seq<char>|
            (final(notes).model(), id@) == #[trigger] push_model(
                old(notes).model(),
                opt_chars(conversation_id),
                role@,
                content@,
                opt_chars(instance_id),
                created,
                updated,
                now,
                fresh,
            ),
{
    let created = now_rfc3339();
    let updated = now_rfc3339();
    let now = now_rfc3339();
    let fresh = new_uuid_v4();
    push_chat_history_at(
        notes,
        conversation_id,
        role,
        content,
        instance_id,
        created.as_str(),
        updated.as_str(),
        now.as_str(),
        fresh.as_str(),
    )
}

/// The notes after a message is appended to their flat `chat_history`:
/// notes that are not an object start empty, a missing history starts
/// empty, and only the last `MAX_CHAT_HISTORY_ENTRIES` entries are kept.
/// Every other member is left as it was.
pub open spec fn flat_push_model(notes: Json, role: Seq<char>, content: Seq<char>, now: Seq<char>) -> Json {
    let h = match get_arr(notes, "chat_history"@) {
        Some(a) => a,
        None => seq![],
    };
    json_set(
        notes,
        "chat_history"@,
        Json::Array(keep_last(h.push(message_model(role, content, now, None)), MAX_CHAT_HISTORY_ENTRIES as nat)),
    )
}

/// Appends a message to the flat chat history of `notes`, stamped with the
/// current time (see `flat_push_model`).
pub fn push_chat_history(notes: &mut JsonValue, role: &str, content: &str)
    ensures
        exists|now: Seq<char>| final(notes).model() == #[trigger] flat_push_model(old(notes).model(), role@, content@, now),
{
    let now = now_rfc3339();
    let ghost n0 = notes.model();
    let mut h: Vec<JsonValue> = match notes.get_array("chat_history") {
        Some(a) => a,
        None => Vec::new(),
    };
    let ghost h0 = match get_arr(n0, "chat_history"@) {
        Some(a) => a,
        None => seq![],
    };
    assert(array_model(h@) =~= h0);
    let msg = message_value(role, content, now.as_str(), None);
    let ghost mm = msg.model();
    assert(opt_chars(None) == Option::<Seq<char>>::None);
    h.push(msg);
    assert(array_model(h@) =~= h0.push(mm));
    if h.len() > MAX_CHAT_HISTORY_ENTRIES {
        let excess = h.len() - MAX_CHAT_HISTORY_ENTRIES;
        h = h.split_off(excess);
    }
    assert(array_model(h@) =~= keep_last(h0.push(mm), MAX_CHAT_HISTORY_ENTRIES as nat));
    notes.set_key("chat_history", array_of(h));
    assert(notes.model() == flat_push_model(n0, role@, content@, now@));
}

fn role_from(r: &str) -> (m: MessageRole)
    ensures
        m == role_of(r@),
{
    if str_eq(r, "user") {
        MessageRole::User
    } else if str_eq(r, "assistant") {
        MessageRole::Assistant
    } else {
        MessageRole::System
    }
}

fn entry_from(e: &JsonValue) -> (r: Option<HistoryEntry>)
    ensures
        r matches Some(x) ==> entry_model(e.model()) == Some((x.role, x.content@)),
        r is None ==> entry_model(e.model()) is None,
{
    let role = match e.get_str("role") {
        Some(r) => r,
        None => return None,
    };
    let content = match e.get_str("content") {
        Some(c) => c,
        None => return None,
    };
    Some(HistoryEntry { role: role_from(role.as_str()), content })
}

/// The messages of the thread selected by `conversation_id` (else the active
/// thread, else the first one), skipping entries without a textual role and
/// content.
pub fn extract_chat_history_for_conversation(
    notes: &JsonValue,
    conversation_id: Option<&str>,
) -> (r: Vec<HistoryEntry>)
    ensures
        entries_view(r@) == extract_model(notes.model(), opt_chars(conversation_id)),
{
    let ghost n = notes.model();
    let threads = match notes.get_array("chat_threads") {
        Some(a) => a,
        None => return Vec::new(),
    };
    let id: String = match conversation_id {
        Some(c) => c.to_owned(),
        None => match notes.get_str("active_chat_id") {
            Some(a) => a,
            None => {
                if threads.len() > 0 {
                    match threads[0].get_str("id") {
                        Some(i) => i,
                        None => "default".to_owned(),
                    }
                } else {
                    "default".to_owned()
                }
            },
        },
    };
    assert(id@ == active_thread_id(n, opt_chars(conversation_id)));
    let i = match find_thread(&threads, id.as_str()) {
        Some(i) => i,
        None => return Vec::new(),
    };
    let msgs = match threads[i].get_array("messages") {
        Some(m) => m,
        None => return Vec::new(),
    };
    let ghost es = array_model(msgs@);
    let mut out: Vec<HistoryEntry> = Vec::new();
    let mut k: usize = 0;
    while k < msgs.len()
        invariant
            k <= msgs.len(),
            es == array_model(msgs@),
            entries_view(out@) == entries_model(es.subrange(0, k as int)),
        decreases msgs.len() - k,
    {
        let ghost before = out@;
        assert(es.subrange(0, k + 1).drop_last() =~= es.subrange(0, k as int));
        match entry_from(&msgs[k]) {
            Some(x) => {
                out.push(x);
                assert(entries_view(out@) =~= entries_view(before).push((x.role, x.content@)));
            },
            None => {},
        }
        k = k + 1;
    }
    assert(es.subrange(0, msgs.len() as int) =~= es);
    out
}

/// The history of the active thread.
pub fn extract_chat_history(notes: &JsonValue) -> (r: Vec<HistoryEntry>)
    ensures
        entries_view(r@) == extract_model(notes.model(), None),
{
    extract_chat_history_for_conversation(notes, None)
}

fn role_label_chars(r: MessageRole) -> (v: Vec<char>)
    ensures
        v@ == role_label(r),
{
    match r {
        MessageRole::Assistant => chars_of("IA"),
        MessageRole::User => chars_of("UTILISATEUR"),
        MessageRole::System => chars_of("SYSTEME"),
    }
}

/// The last twelve entries of `history` as `LABEL: content` lines, oldest
/// first; `"Aucun historique"` when there are none.
pub fn render_chat_history_for_prompt(history: &[HistoryEntry]) -> (r: String)
    ensures
        r@ == render_model(entries_view(history@)),
{
    if history.len() == 0 {
        return "Aucun historique".to_owned();
    }
    let ghost h = entries_view(history@);
    let start: usize = if history.len() > 12 { history.len() - 12 } else { 0 };
    let ghost last = keep_last(h, 12);
    assert(last =~= h.subrange(start as int, h.len() as int));
    let mut lines: Vec<Vec<char>> = Vec::new();
    let sep_label = chars_of(": ");
    let mut k: usize = start;
    while k < history.len()
        invariant
            start <= k <= history.len(),
            h == entries_view(history@),
            sep_label@ == ": "@,
            lines@.map_values(|w: Vec<char>| w@) =~= h.subrange(start as int, k as int).map_values(|e: (MessageRole, Seq<char>)| render_line(e)),
        decreases history.len() - k,
    {
        let mut line = role_label_chars(history[k].role);
        push_all(&mut line, &sep_label);
        let c = chars_of(history[k].content.as_str());
        push_all(&mut line, &c);
        let ghost before = lines@.map_values(|w: Vec<char>| w@);
        assert(h[k as int] == (history@[k as int].role, history@[k as int].content@));
        assert(line@ == render_line(h[k as int]));
        lines.push(line);
        assert(lines@.map_values(|w: Vec<char>| w@) =~= before.push(render_line(h[k as int])));
        assert(h.subrange(start as int, k + 1) =~= h.subrange(start as int, k as int).push(h[k as int]));
        k = k + 1;
    }
    let nl: Vec<char> = vec!['\n'];
    assert(nl@ =~= seq!['\n']);
    let joined = join_chars(&lines, &nl);
    string_of(&joined)
}

proof fn lemma_keys_distinct()
    ensures
        "chat_threads"@ != "active_chat_id"@,
        "chat_threads"@ != "chat_history"@,
        "id"@ != "messages"@,
        "id"@ != "updated_at"@,
        "id"@ != "title"@,
        "messages"@ != "updated_at"@,
        "messages"@ != "title"@,
        "role"@ != "content"@,
        "role"@ != "ts"@,
        "role"@ != "instance_id"@,
        "content"@ != "ts"@,
        "content"@ != "instance_id"@,
{
    reveal_strlit("chat_threads");
    reveal_strlit("active_chat_id");
    reveal_strlit("chat_history");
    reveal_strlit("id");
    reveal_strlit("messages");
    reveal_strlit("updated_at");
    reveal_strlit("title");
    reveal_strlit("role");
    reveal_strlit("content");
    reveal_strlit("ts");
    reveal_strlit("instance_id");
    assert("chat_threads"@.len() != "active_chat_id"@.len());
    assert("chat_threads"@[5] != "chat_history"@[5]);
    assert("id"@.len() != "messages"@.len());
    assert("id"@.len() != "updated_at"@.len());
    assert("id"@.len() != "title"@.len());
    assert("messages"@.len() != "updated_at"@.len());
    assert("messages"@.len() != "title"@.len());
    assert("role"@.len() != "content"@.len());
    assert("role"@.len() != "ts"@.len());
    assert("role"@.len() != "instance_id"@.len());
    assert("content"@.len() != "ts"@.len());
    assert("content"@.len() != "instance_id"@.len());
}

proof fn lemma_message_entry(role: Seq<char>, content: Seq<char>, now: Seq<char>, inst: Option<Seq<char>>)
    ensures
        entry_model(message_model(role, content, now, inst)) == Some((role_of(role), content)),
{
    lemma_keys_distinct();
    let b0 = json_set(Json::Object(seq![]), "role"@, Json::Str(role));
    let b1 = json_set(b0, "content"@, Json::Str(content));
    let base = json_set(b1, "ts"@, Json::Str(now));
    lemma_json_set_get(Json::Object(seq![]), "role"@, "role"@, Json::Str(role));
    lemma_json_set_get(b0, "content"@, "role"@, Json::Str(content));
    lemma_json_set_get(b0, "content"@, "content"@, Json::Str(content));
    lemma_json_set_get(b1, "ts"@, "role"@, Json::Str(now));
    lemma_json_set_get(b1, "ts"@, "content"@, Json::Str(now));
    match inst {
        Some(i) => {
            lemma_json_set_get(base, "instance_id"@, "role"@, Json::Str(i));
            lemma_json_set_get(base, "instance_id"@, "content"@, Json::Str(i));
        },
        None => {},
    }
}

proof fn lemma_updated_thread(t: Json, role: Seq<char>, content: Seq<char>, now: Seq<char>, inst: Option<Seq<char>>)
    ensures
        get_str(updated_thread(t, role, content, now, inst), "id"@) == get_str(t, "id"@),
        get_arr(updated_thread(t, role, content, now, inst), "messages"@) == Some(keep_last(
            (match get_arr(t, "messages"@) {
                Some(m) => m,
                None => seq![],
            }).push(message_model(role, content, now, inst)),
            MAX_THREAD_MESSAGES as nat,
        )),
{
    lemma_keys_distinct();
    let msgs = match get_arr(t, "messages"@) {
        Some(m) => m,
        None => seq![],
    };
    let a = Json::Array(keep_last(msgs.push(message_model(role, content, now, inst)), MAX_THREAD_MESSAGES as nat));
    let t1 = json_set(t, "messages"@, a);
    let t2 = json_set(t1, "updated_at"@, Json::Str(now));
    lemma_json_set_get(t, "messages"@, "id"@, a);
    lemma_json_set_get(t, "messages"@, "messages"@, a);
    lemma_json_set_get(t1, "updated_at"@, "id"@, Json::Str(now));
    lemma_json_set_get(t1, "updated_at"@, "messages"@, Json::Str(now));
    lemma_json_set_get(t2, "title"@, "id"@, Json::Str(thread_title(content)));
    lemma_json_set_get(t2, "title"@, "messages"@, Json::Str(thread_title(content)));
}

proof fn lemma_entries_len(es: Seq<Json>)
    ensures
        entries_model(es).len() <= es.len(),
    decreases es.len(),
{
    if es.len() > 0 {
        lemma_entries_len(es.drop_last());
    }
}

proof fn lemma_new_thread_id(id: Seq<char>, title: Seq<char>, now: Seq<char>)
    ensures
        get_str(new_thread(id, title, now), "id"@) == Some(id),
{
    reveal_strlit("id");
    reveal_strlit("title");
    reveal_strlit("created_at");
    reveal_strlit("updated_at");
    reveal_strlit("messages");
    let e = Json::Object(seq![]);
    let t0 = json_set(e, "id"@, Json::Str(id));
    let t1 = json_set(t0, "title"@, Json::Str(title));
    let t2 = json_set(t1, "created_at"@, Json::Str(now));
    let t3 = json_set(t2, "updated_at"@, Json::Str(now));
    assert("id"@.len() != "created_at"@.len());
    lemma_keys_distinct();
    lemma_json_set_get(e, "id"@, "id"@, Json::Str(id));
    lemma_json_set_get(t0, "title"@, "id"@, Json::Str(title));
    lemma_json_set_get(t1, "created_at"@, "id"@, Json::Str(now));
    lemma_json_set_get(t2, "updated_at"@, "id"@, Json::Str(now));
    lemma_json_set_get(t3, "messages"@, "id"@, Json::Array(seq![]));
}

proof fn lemma_migrate_count(n: Json, created: Seq<char>, updated: Seq<char>)
    requires
        thread_count(n) <= MAX_CHAT_THREADS,
    ensures
        thread_count(migrate_model(n, created, updated)) <= MAX_CHAT_THREADS,
        get_arr(migrate_model(n, created, updated), "chat_threads"@) is Some,
{
    lemma_keys_distinct();
    if get_arr(n, "chat_threads"@) is Some && get_arr(n, "chat_threads"@)->0.len() > 0 {
    } else {
        let legacy = match get_arr(n, "chat_history"@) {
            Some(l) => l,
            None => seq![],
        };
        if legacy.len() == 0 {
            lemma_json_set_get(n, "chat_threads"@, "chat_threads"@, Json::Array(seq![]));
        } else {
            let a = Json::Array(seq![legacy_thread(legacy, created, updated)]);
            let n1 = json_set(n, "chat_threads"@, a);
            lemma_json_set_get(n, "chat_threads"@, "chat_threads"@, a);
            lemma_json_set_get(n1, "active_chat_id"@, "chat_threads"@, Json::Str("legacy-default"@));
        }
    }
}

/// Reading a conversation back right after a write to it gives the written
/// message last, whether the thread is named by the returned id or reached
/// as the active thread; the returned id is the requested one when one is
/// given and becomes the active thread; the notes then hold at most
/// `MAX_CHAT_THREADS` threads and the thread at most `MAX_THREAD_MESSAGES`
/// readable messages. Holds when the notes held at most `MAX_CHAT_THREADS`
/// threads before the write (with more, the written thread can be among the
/// oldest ones dropped).
pub proof fn lemma_push_then_extract(
    notes: Json,
    cid: Option<Seq<char>>,
    role: Seq<char>,
    content: Seq<char>,
    inst: Option<Seq<char>>,
    created: Seq<char>,
    updated: Seq<char>,
    now: Seq<char>,
    fresh: Seq<char>,
)
    requires
        thread_count(notes) <= MAX_CHAT_THREADS,
    ensures
        ({
            let (n, id) = push_model(notes, cid, role, content, inst, created, updated, now, fresh);
            let h = extract_model(n, Some(id));
            &&& h.len() > 0
            &&& h.last() == (role_of(role), content)
            &&& h.len() <= MAX_THREAD_MESSAGES
            &&& extract_model(n, None) == h
            &&& (cid matches Some(c) ==> id == c)
            &&& get_str(n, "active_chat_id"@) == Some(id)
            &&& thread_count(n) <= MAX_CHAT_THREADS
        }),
{
    lemma_keys_distinct();
    let n0 = if notes is Object { notes } else { Json::Object(seq![]) };
    assert(thread_count(n0) <= MAX_CHAT_THREADS) by {
        if !(notes is Object) {
            assert(crate::json::first_index(Seq::<(Seq<char>, Json)>::empty(), "chat_threads"@) is None);
        }
    }
    let n1 = migrate_model(n0, created, updated);
    lemma_migrate_count(n0, created, updated);
    let sel = selected_id(n1, cid, fresh);
    let ts = get_arr(n1, "chat_threads"@)->0;
    let m = message_model(role, content, now, inst);
    lemma_message_entry(role, content, now, inst);
    lemma_thread_index_bounds(ts, sel);
    let ts1 = match thread_index(ts, sel) {
        Some(i) => ts,
        None => ts.push(new_thread(sel, thread_title(content), now)),
    };
    let idx = match thread_index(ts, sel) {
        Some(i) => i,
        None => ts.len() as int,
    };
    if thread_index(ts, sel) is None {
        lemma_new_thread_id(sel, thread_title(content), now);
    }
    assert(get_str(ts1[idx], "id"@) == Some(sel));
    let u = updated_thread(ts1[idx], role, content, now, inst);
    lemma_updated_thread(ts1[idx], role, content, now, inst);
    let ts2 = ts1.update(idx, u);
    let ts3 = keep_last(ts2, MAX_CHAT_THREADS as nat);
    let off: int = ts2.len() - ts3.len();
    assert(0 <= off <= 1);
    let p = idx - off;
    assert(0 <= p < ts3.len());
    assert(ts3[p] == u);
    assert forall|j: int| 0 <= j < p implies get_str(#[trigger] ts3[j], "id"@) != Some(sel) by {
        assert(ts3[j] == ts2[j + off]);
        assert(ts2[j + off] == ts1[j + off]);
        assert(ts1[j + off] == ts[j + off]);
    }
    lemma_thread_index_is(ts3, sel, p);
    let n2 = json_set(n1, "chat_threads"@, Json::Array(ts3));
    let n = json_set(n2, "active_chat_id"@, Json::Str(sel));
    lemma_json_set_get(n1, "chat_threads"@, "chat_threads"@, Json::Array(ts3));
    lemma_json_set_get(n2, "active_chat_id"@, "chat_threads"@, Json::Str(sel));
    lemma_json_set_get(n2, "active_chat_id"@, "active_chat_id"@, Json::Str(sel));
    let msgs = match get_arr(ts1[idx], "messages"@) {
        Some(mm) => mm,
        None => seq![],
    };
    let ms = keep_last(msgs.push(m), MAX_THREAD_MESSAGES as nat);
    assert(ms.len() > 0 && ms.last() == m);
    assert(get_arr(u, "messages"@) == Some(ms));
    lemma_entries_len(ms.drop_last());
    assert(extract_model(n, Some(sel)) == entries_model(ms));
    assert(entries_model(ms) == entries_model(ms.drop_last()).push((role_of(role), content)));
}

} // verus!

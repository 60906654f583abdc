//! Decisions of the document-editing chat: which requests ask for a change,
//! how a JSON patch is merged into a document, and how list edits apply.

use vstd::prelude::*;
use crate::llm::MessageContent;
use crate::profile::{base64_standard_decode, decode_data_url, second_comma_piece, second_piece};
use crate::json::{
    Json, JsonValue, Member, find_member, first_index, lemma_first_index_bounds,
    lemma_first_index_is, lemma_object_model, members_model, obj_get, obj_remove, obj_set,
    str_eq,
};
use crate::text::{
    alphanumeric, byte_len, byte_len_le, bytes_at_chars, char_utf8_width, chars_of, decimal, decimal_chars,
    is_alphanumeric, keep_first,
    lemma_byte_len_push, lemma_byte_len_prefix_le, lowercase_chars, push_all, split_words,
    starts_with, starts_with_chars, string_of, trim, trim_chars, unicode_lowercase, words,
};
use crate::records::InstanceStatus;

verus! {

/// A chat request as received from the client.
pub struct ChatRequest {
    pub message: String,
    pub instance_id: Option<String>,
    pub conversation_id: Option<String>,
    pub llm_provider: String,
    pub attachments: Vec<ChatAttachment>,
}

/// A file sent along with a chat message (`data` is base64, possibly as a
/// `data:` URL).
pub struct ChatAttachment {
    pub name: String,
    pub content_type: String,
    pub data: String,
}

/// What an answer of the model carries.
#[derive(Clone, Copy, Debug, PartialEq, Eq, Structural)]
pub enum ChatOutputKind {
    MessageOnly,
    Mutation,
}

/// A list of the résumé that a list edit targets.
#[derive(Clone, Copy, Debug, PartialEq, Eq, Structural)]
pub enum ResumeListTarget {
    Competences,
    Experiences,
    Formations,
    Projets,
    Langues,
}

/// A list of the cover letter that a list edit targets.
#[derive(Clone, Copy, Debug, PartialEq, Eq, Structural)]
pub enum CoverListTarget {
    Paragraphes,
}

/// The edit applied to a list.
#[derive(Clone, Copy, Debug, PartialEq, Eq, Structural)]
pub enum ListOperation {
    Add,
    Update,
    Remove,
    Replace,
}

/// Field names that hold lists in the résumé and the cover letter.
pub open spec fn is_list_key(k: Seq<char>) -> bool {
    k == "competences"@ || k == "experiences"@ || k == "formations"@ || k == "projets"@
        || k == "langues"@ || k == "paragraphes"@
}

/// Whether `field_name` names a list of the résumé or the cover letter.
pub fn is_list_field(field_name: &str) -> (r: bool)
    ensures
        r == is_list_key(field_name@),
{
    str_eq(field_name, "competences") || str_eq(field_name, "experiences") || str_eq(
        field_name,
        "formations",
    ) || str_eq(field_name, "projets") || str_eq(field_name, "langues") || str_eq(
        field_name,
        "paragraphes",
    )
}

/// The error reported for a list reached by a patch.
pub open spec fn list_error(path: Seq<char>) -> Seq<char> {
    "Mutation de liste non autorisée via update_documents sur "@ + path
}

/// Path of member `k` below `path`.
pub open spec fn child_path(path: Seq<char>, k: Seq<char>) -> Seq<char> {
    path + "."@ + k
}

/// Result of merging patch `b` into `a` at `path`: the merged value, and the
/// error message if the merge stopped on a list. Objects merge member by
/// member in the patch's order (a `null` member deletes the key, a missing
/// key is first created as `null`); two arrays, an array patch over an array
/// or a `null`, or a list-named key are refused; any other patch value
/// replaces the target. What was merged before the refusal stays merged.
pub open spec fn merge_model(a: Json, b: Json, path: Seq<char>) -> (Json, Option<Seq<char>>)
    decreases b,
{
    match b {
        Json::Object(bm) => match a {
            Json::Object(am) => {
                proof {
                    assert(decreases_to!(b => bm));
                }
                merge_members(am, bm, path)
            },
            _ => (b, None),
        },
        Json::Array(_) => match a {
            Json::Array(_) => (a, Some(list_error(path))),
            _ => (b, None),
        },
        _ => (b, None),
    }
}

/// Members `bm` of a patch merged, in order, into the members `am`.
pub open spec fn merge_members(
    am: Seq<(Seq<char>, Json)>,
    bm: Seq<(Seq<char>, Json)>,
    path: Seq<char>,
) -> (Json, Option<Seq<char>>)
    decreases bm,
{
    if bm.len() == 0 {
        (Json::Object(am), None)
    } else {
        let k = bm[0].0;
        let v = bm[0].1;
        let cp = child_path(path, k);
        if is_list_key(k) {
            (Json::Object(am), Some(list_error(cp)))
        } else if v is Null {
            merge_members(obj_remove(am, k), bm.drop_first(), path)
        } else {
            let am1 = match obj_get(am, k) {
                Some(_) => am,
                None => am.push((k, Json::Null)),
            };
            let e = match obj_get(am1, k) {
                Some(x) => x,
                None => Json::Null,
            };
            if v is Array && (e is Array || e is Null) {
                (Json::Object(am1), Some(list_error(cp)))
            } else {
                proof {
                    assert(decreases_to!(bm => bm[0]));
                    assert(decreases_to!(bm[0] => bm[0].1));
                }
                let (e2, r) = merge_model(e, v, cp);
                let am2 = obj_set(am1, k, e2);
                if r is Some {
                    (Json::Object(am2), r)
                } else {
                    merge_members(am2, bm.drop_first(), path)
                }
            }
        }
    }
}

fn list_error_string(path: &str) -> (r: String)
    ensures
        r@ == list_error(path@),
{
    let mut v = chars_of("Mutation de liste non autorisée via update_documents sur ");
    let p = chars_of(path);
    push_all(&mut v, &p);
    string_of(&v)
}

fn child_path_string(path: &str, k: &str) -> (r: String)
    ensures
        r@ == child_path(path@, k@),
{
    let mut v = chars_of(path);
    let dot = chars_of(".");
    push_all(&mut v, &dot);
    let kc = chars_of(k);
    push_all(&mut v, &kc);
    string_of(&v)
}

/// `ms` without its members whose key is `k`.
pub(crate) fn remove_members(ms: &Vec<Member>, k: &str) -> (r: Vec<Member>)
    ensures
        members_model(r@) == obj_remove(members_model(ms@), k@),
{
    let ghost mm = members_model(ms@);
    let ghost f = crate::json::key_is_not(k@);
    let mut out: Vec<Member> = Vec::new();
    let mut i: usize = 0;
    assert(mm.subrange(0, 0) =~= Seq::<(Seq<char>, Json)>::empty());
    assert(Seq::<(Seq<char>, Json)>::empty().filter(f) =~= Seq::<(Seq<char>, Json)>::empty()) by {
        reveal(Seq::filter);
    }
    while i < ms.len()
        invariant
            i <= ms.len(),
            mm == members_model(ms@),
            f == crate::json::key_is_not(k@),
            members_model(out@) == mm.subrange(0, i as int).filter(f),
        decreases ms.len() - i,
    {
        let ghost before = members_model(out@);
        proof {
            assert(mm.subrange(0, i + 1) =~= mm.subrange(0, i as int).push(mm[i as int]));
            mm.subrange(0, i as int).lemma_filter_push(mm[i as int], f);
        }
        if !str_eq(ms[i].key.as_str(), k) {
            let m = Member { key: ms[i].key.clone(), value: ms[i].value.duplicate() };
            out.push(m);
            assert(members_model(out@) =~= before.push(mm[i as int]));
        }
        i = i + 1;
    }
    assert(mm.subrange(0, ms.len() as int) =~= mm);
    out
}

pub open spec fn merge_result_matches(r: Result<(), String>, e: Option<Seq<char>>) -> bool {
    match r {
        Ok(()) => e is None,
        Err(s) => e == Some(s@),
    }
}

/// Merges the JSON patch `b` into `a` without touching lists (see
/// `merge_model`); `path` names `a` in error messages.
pub fn merge_json_without_arrays(a: &mut JsonValue, b: &JsonValue, path: &str) -> (r: Result<(), String>)
    ensures
        final(a).model() == merge_model(old(a).model(), b.model(), path@).0,
        merge_result_matches(r, merge_model(old(a).model(), b.model(), path@).1),
    decreases b,
{
    let mut cur = JsonValue::Null;
    std::mem::swap(&mut cur, a);
    let ghost a0 = cur.model();
    match b {
        JsonValue::Object(bms) => {
            match cur {
                JsonValue::Object(ams0) => {
                    proof {
                        lemma_object_model(ams0);
                        lemma_object_model(*bms);
                        assert forall|j: int| 0 <= j < bms@.len() implies decreases_to!(b => bms@[j].value) by {
                            assert(decreases_to!(b => bms));
                            assert(decreases_to!(bms => bms@));
                            assert(decreases_to!(bms@ => bms@[j]));
                            assert(decreases_to!(bms@[j] => bms@[j].value));
                        }
                    }
                    let ghost bm = members_model(bms@);
                    let ghost target = merge_members(members_model(ams0@), bm, path@);
                    assert(target == merge_model(old(a).model(), b.model(), path@));
                    let mut ams = ams0;
                    let mut i: usize = 0;
                    assert(bm.subrange(0, bm.len() as int) =~= bm);
                    while i < bms.len()
                        invariant
                            i <= bms.len(),
                            bm == members_model(bms@),
                            target == merge_model(old(a).model(), b.model(), path@),
                            forall|j: int| 0 <= j < bms@.len() ==> decreases_to!(b => bms@[j].value),
                            target == merge_members(members_model(ams@), bm.subrange(i as int, bm.len() as int), path@),
                        decreases bms.len() - i,
                    {
                        let ghost am = members_model(ams@);
                        let ghost rest = bm.subrange(i as int, bm.len() as int);
                        assert(rest[0] == bm[i as int]);
                        assert(rest.drop_first() =~= bm.subrange(i + 1, bm.len() as int));
                        let key = &bms[i].key;
                        let v = &bms[i].value;
                        let cp = child_path_string(path, key.as_str());
                        if is_list_field(key.as_str()) {
                            proof {
                                lemma_object_model(ams);
                            }
                            *a = JsonValue::Object(ams);
                            return Err(list_error_string(cp.as_str()));
                        }
                        if v.is_null() {
                            ams = remove_members(&ams, key.as_str());
                            i = i + 1;
                            continue;
                        }
                        let kc = chars_of(key.as_str());
                        let idx: usize = match find_member(&ams, &kc) {
                            Some(j) => j,
                            None => {
                                ams.push(Member { key: key.clone(), value: JsonValue::Null });
                                proof {
                                    assert(members_model(ams@) =~= am.push((key@, Json::Null)));
                                    lemma_first_index_bounds(am, key@);
                                    lemma_first_index_is(members_model(ams@), key@, am.len() as int);
                                }
                                ams.len() - 1
                            },
                        };
                        let ghost am1 = members_model(ams@);
                        proof {
                            lemma_first_index_bounds(am1, key@);
                            assert(am1 == match obj_get(am, key@) {
                                Some(_) => am,
                                None => am.push((key@, Json::Null)),
                            });
                            assert(first_index(am1, key@) == Some(idx as int));
                        }
                        let entry_is_list = match &ams[idx].value {
                            JsonValue::Array(_) => true,
                            JsonValue::Null => true,
                            _ => false,
                        };
                        let patch_is_array = match v {
                            JsonValue::Array(_) => true,
                            _ => false,
                        };
                        if patch_is_array && entry_is_list {
                            proof {
                                lemma_object_model(ams);
                            }
                            *a = JsonValue::Object(ams);
                            return Err(list_error_string(cp.as_str()));
                        }
                        let m = ams.remove(idx);
                        let mut e = m.value;
                        let r = merge_json_without_arrays(&mut e, v, cp.as_str());
                        let ghost e2 = e.model();
                        ams.insert(idx, Member { key: m.key, value: e });
                        proof {
                            assert(members_model(ams@) =~= am1.update(idx as int, (key@, e2)));
                            assert(members_model(ams@) == obj_set(am1, key@, e2));
                        }
                        match r {
                            Err(msg) => {
                                proof {
                                    lemma_object_model(ams);
                                }
                                *a = JsonValue::Object(ams);
                                return Err(msg);
                            },
                            Ok(()) => {},
                        }
                        i = i + 1;
                    }
                    proof {
                        lemma_object_model(ams);
                        assert(bm.subrange(i as int, bm.len() as int) =~= Seq::<(Seq<char>, Json)>::empty());
                    }
                    *a = JsonValue::Object(ams);
                    Ok(())
                },
                _ => {
                    *a = b.duplicate();
                    Ok(())
                },
            }
        },
        JsonValue::Array(_) => {
            match cur {
                JsonValue::Array(items) => {
                    *a = JsonValue::Array(items);
                    Err(list_error_string(path))
                },
                _ => {
                    *a = b.duplicate();
                    Ok(())
                },
            }
        },
        _ => {
            *a = b.duplicate();
            Ok(())
        },
    }
}

/// A merge that succeeds met no list-named key in the patch.
pub proof fn lemma_merge_ok_has_no_list_key(
    am: Seq<(Seq<char>, Json)>,
    bm: Seq<(Seq<char>, Json)>,
    path: Seq<char>,
)
    requires
        merge_members(am, bm, path).1 is None,
    ensures
        forall|i: int| 0 <= i < bm.len() ==> !is_list_key(#[trigger] bm[i].0),
    decreases bm.len(),
{
    if bm.len() > 0 {
        let k = bm[0].0;
        let v = bm[0].1;
        assert(!is_list_key(k));
        let rest = bm.drop_first();
        if v is Null {
            lemma_merge_ok_has_no_list_key(obj_remove(am, k), rest, path);
        } else {
            let am1 = match obj_get(am, k) {
                Some(_) => am,
                None => am.push((k, Json::Null)),
            };
            let e = match obj_get(am1, k) {
                Some(x) => x,
                None => Json::Null,
            };
            let (e2, r) = merge_model(e, v, child_path(path, k));
            lemma_merge_ok_has_no_list_key(obj_set(am1, k, e2), rest, path);
        }
        assert forall|i: int| 0 <= i < bm.len() implies !is_list_key(#[trigger] bm[i].0) by {
            if i > 0 {
                assert(bm[i] == rest[i - 1]);
            }
        }
    }
}

/// A merge that succeeds leaves every member whose key the patch does not
/// name as it was.
pub proof fn lemma_merge_keeps_untouched_keys(
    am: Seq<(Seq<char>, Json)>,
    bm: Seq<(Seq<char>, Json)>,
    path: Seq<char>,
    k: Seq<char>,
)
    requires
        merge_members(am, bm, path).1 is None,
        forall|i: int| 0 <= i < bm.len() ==> bm[i].0 != k,
    ensures
        crate::json::json_get(merge_members(am, bm, path).0, k) == obj_get(am, k),
    decreases bm.len(),
{
    if bm.len() == 0 {
    } else {
        let k0 = bm[0].0;
        let v = bm[0].1;
        assert(k0 != k);
        let rest = bm.drop_first();
        assert forall|i: int| 0 <= i < rest.len() implies rest[i].0 != k by {
            assert(rest[i] == bm[i + 1]);
        }
        if v is Null {
            crate::json::lemma_obj_remove_other(am, k0, k);
            lemma_merge_keeps_untouched_keys(obj_remove(am, k0), rest, path, k);
        } else {
            let am1 = match obj_get(am, k0) {
                Some(_) => am,
                None => am.push((k0, Json::Null)),
            };
            if obj_get(am, k0) is None {
                crate::json::lemma_obj_push_other(am, (k0, Json::Null), k);
            }
            let e = match obj_get(am1, k0) {
                Some(x) => x,
                None => Json::Null,
            };
            let (e2, r) = merge_model(e, v, child_path(path, k0));
            crate::json::lemma_obj_set_other(am1, k0, k, e2);
            lemma_merge_keeps_untouched_keys(obj_set(am1, k0, e2), rest, path, k);
        }
    }
}

/// Characters a request token keeps at its ends.
pub open spec fn token_char(c: char) -> bool {
    alphanumeric(c) || c == '\'' || c == '’'
}

/// `t` without leading characters that are not token characters.
pub open spec fn strip_token_start(t: Seq<char>) -> Seq<char>
    decreases t.len(),
{
    if t.len() > 0 && !token_char(t[0]) {
        strip_token_start(t.drop_first())
    } else {
        t
    }
}

/// `t` without trailing characters that are not token characters.
pub open spec fn strip_token_end(t: Seq<char>) -> Seq<char>
    decreases t.len(),
{
    if t.len() > 0 && !token_char(t.last()) {
        strip_token_end(t.drop_last())
    } else {
        t
    }
}

/// A word of the request with its surrounding punctuation removed.
pub open spec fn clean_token(t: Seq<char>) -> Seq<char> {
    strip_token_end(strip_token_start(t))
}

/// The non-empty cleaned tokens among the first six words of the
/// lower-cased request.
pub open spec fn request_tokens(message: Seq<char>) -> Seq<Seq<char>> {
    keep_first(words(unicode_lowercase(message)), 6).map_values(|w: Seq<char>| clean_token(w)).filter(
        |t: Seq<char>| t.len() > 0,
    )
}

/// Verbs that ask for a change.
pub open spec fn is_mutation_keyword(t: Seq<char>) -> bool {
    t == "modifie"@ || t == "modifier"@ || t == "change"@ || t == "changer"@ || t == "ajoute"@
        || t == "ajouter"@ || t == "supprime"@ || t == "supprimer"@ || t == "réécris"@
        || t == "reecris"@ || t == "réécrire"@
}

/// `met`/`mets` `a`/`à` `jour…` starting at token `i`.
pub open spec fn update_phrase_at(ts: Seq<Seq<char>>, i: int) -> bool {
    0 <= i && i + 2 < ts.len() && (ts[i] == "met"@ || ts[i] == "mets"@) && (ts[i + 1] == "a"@
        || ts[i + 1] == "à"@) && starts_with(ts[i + 2], "jour"@)
}

/// Whether a chat message asks for the documents to be changed: one of its
/// first six words is a change verb, or they hold "met(s) à jour".
pub open spec fn mutation_requested(message: Seq<char>) -> bool {
    let ts = request_tokens(message);
    ts.len() > 0 && ((exists|i: int| 0 <= i < ts.len() && is_mutation_keyword(#[trigger] ts[i]))
        || (exists|i: int| #[trigger] update_phrase_at(ts, i)))
}

proof fn lemma_strip_start_skip(t: Seq<char>, i: int)
    requires
        0 <= i <= t.len(),
        forall|k: int| 0 <= k < i ==> !token_char(#[trigger] t[k]),
    ensures
        strip_token_start(t) == strip_token_start(t.subrange(i, t.len() as int)),
    decreases i,
{
    if i > 0 {
        assert(t.drop_first().subrange(i - 1, t.drop_first().len() as int) =~= t.subrange(i, t.len() as int));
        lemma_strip_start_skip(t.drop_first(), i - 1);
    } else {
        assert(t.subrange(0, t.len() as int) =~= t);
    }
}

proof fn lemma_strip_end_skip(t: Seq<char>, j: int)
    requires
        0 <= j <= t.len(),
        forall|k: int| j <= k < t.len() ==> !token_char(#[trigger] t[k]),
    ensures
        strip_token_end(t) == strip_token_end(t.subrange(0, j)),
    decreases t.len() - j,
{
    if j < t.len() {
        assert(t.drop_last().subrange(0, j) =~= t.subrange(0, j));
        lemma_strip_end_skip(t.drop_last(), j);
    } else {
        assert(t.subrange(0, t.len() as int) =~= t);
    }
}

fn is_token_char(c: char) -> (r: bool)
    ensures
        r == token_char(c),
{
    is_alphanumeric(c) || c == '\'' || c == '’'
}

fn clean_token_exec(t: &Vec<char>) -> (r: Vec<char>)
    ensures
        r@ == clean_token(t@),
{
    let mut i: usize = 0;
    while i < t.len() && !is_token_char(t[i])
        invariant
            i <= t.len(),
            forall|k: int| 0 <= k < i ==> !token_char(#[trigger] t@[k]),
        decreases t.len() - i,
    {
        i = i + 1;
    }
    proof {
        lemma_strip_start_skip(t@, i as int);
    }
    let ghost u = t@.subrange(i as int, t.len() as int);
    assert(strip_token_start(u) == u);
    let mut j: usize = t.len();
    while j > i && !is_token_char(t[j - 1])
        invariant
            i <= j <= t.len(),
            forall|k: int| j <= k < t.len() ==> !token_char(#[trigger] t@[k]),
        decreases j,
    {
        j = j - 1;
    }
    proof {
        assert forall|k: int| j - i <= k < u.len() implies !token_char(#[trigger] u[k]) by {
            assert(u[k] == t@[k + i]);
        }
        lemma_strip_end_skip(u, j - i);
        assert(u.subrange(0, j - i) =~= t@.subrange(i as int, j as int));
    }
    let mut r: Vec<char> = Vec::new();
    let mut k: usize = i;
    while k < j
        invariant
            i <= k <= j,
            j <= t.len(),
            r@ =~= t@.subrange(i as int, k as int),
        decreases j - k,
    {
        r.push(t[k]);
        k = k + 1;
    }
    proof {
        let w = t@.subrange(i as int, j as int);
        if w.len() > 0 {
            assert(token_char(w.last()));
        }
    }
    r
}

fn is_mutation_keyword_exec(t: &Vec<char>) -> (r: bool)
    ensures
        r == is_mutation_keyword(t@),
{
    let s = string_of(t);
    let s = s.as_str();
    str_eq(s, "modifie") || str_eq(s, "modifier") || str_eq(s, "change") || str_eq(s, "changer")
        || str_eq(s, "ajoute") || str_eq(s, "ajouter") || str_eq(s, "supprime") || str_eq(
        s,
        "supprimer",
    ) || str_eq(s, "réécris") || str_eq(s, "reecris") || str_eq(s, "réécrire")
}

fn update_phrase_exec(ts: &Vec<Vec<char>>, i: usize) -> (r: bool)
    requires
        i + 2 < ts.len(),
    ensures
        r == update_phrase_at(ts@.map_values(|w: Vec<char>| w@), i as int),
{
    let a = string_of(&ts[i]);
    let b = string_of(&ts[i + 1]);
    let jour = chars_of("jour");
    (str_eq(a.as_str(), "met") || str_eq(a.as_str(), "mets")) && (str_eq(b.as_str(), "a") || str_eq(
        b.as_str(),
        "à",
    )) && starts_with_chars(&ts[i + 2], &jour)
}

/// Whether a chat message asks for the documents to be changed (see
/// `mutation_requested`).
pub fn is_mutation_request(message: &str) -> (r: bool)
    ensures
        r == mutation_requested(message@),
{
    let cs = chars_of(message);
    let lower = lowercase_chars(&cs);
    let mut ws = split_words(&lower);
    let ghost all = ws@.map_values(|w: Vec<char>| w@);
    if ws.len() > 6 {
        ws.truncate(6);
    }
    let ghost first = ws@.map_values(|w: Vec<char>| w@);
    assert(first =~= keep_first(all, 6));
    let ghost cleaned = first.map_values(|w: Seq<char>| clean_token(w));
    let ghost nonempty = |t: Seq<char>| t.len() > 0;
    let mut tokens: Vec<Vec<char>> = Vec::new();
    let mut i: usize = 0;
    assert(cleaned.subrange(0, 0).filter(nonempty) =~= Seq::<Seq<char>>::empty()) by {
        reveal(Seq::filter);
    }
    while i < ws.len()
        invariant
            i <= ws.len(),
            first == ws@.map_values(|w: Vec<char>| w@),
            cleaned == first.map_values(|w: Seq<char>| clean_token(w)),
            nonempty == (|t: Seq<char>| t.len() > 0),
            tokens@.map_values(|w: Vec<char>| w@) == cleaned.subrange(0, i as int).filter(nonempty),
        decreases ws.len() - i,
    {
        let t = clean_token_exec(&ws[i]);
        let ghost before = tokens@.map_values(|w: Vec<char>| w@);
        proof {
            assert(cleaned.subrange(0, i + 1) =~= cleaned.subrange(0, i as int).push(cleaned[i as int]));
            cleaned.subrange(0, i as int).lemma_filter_push(cleaned[i as int], nonempty);
        }
        if t.len() > 0 {
            tokens.push(t);
            assert(tokens@.map_values(|w: Vec<char>| w@) =~= before.push(cleaned[i as int]));
        }
        i = i + 1;
    }
    assert(cleaned.subrange(0, ws.len() as int) =~= cleaned);
    let ghost ts = tokens@.map_values(|w: Vec<char>| w@);
    assert(ts == request_tokens(message@));
    if tokens.len() == 0 {
        return false;
    }
    let mut k: usize = 0;
    while k < tokens.len()
        invariant
            k <= tokens.len(),
            ts == tokens@.map_values(|w: Vec<char>| w@),
            ts == request_tokens(message@),
            ts.len() > 0,
            forall|j: int| 0 <= j < k ==> !is_mutation_keyword(#[trigger] ts[j]),
        decreases tokens.len() - k,
    {
        if is_mutation_keyword_exec(&tokens[k]) {
            assert(is_mutation_keyword(ts[k as int]));
            return true;
        }
        k = k + 1;
    }
    let mut w: usize = 0;
    while w < tokens.len() && tokens.len() - w > 2
        invariant
            w <= tokens.len(),
            ts == tokens@.map_values(|w: Vec<char>| w@),
            ts == request_tokens(message@),
            ts.len() > 0,
            forall|j: int| 0 <= j < ts.len() ==> !is_mutation_keyword(#[trigger] ts[j]),
            forall|j: int| 0 <= j < w ==> !#[trigger] update_phrase_at(ts, j),
        decreases tokens.len() - w,
    {
        if update_phrase_exec(&tokens, w) {
            assert(update_phrase_at(ts, w as int));
            return true;
        }
        w = w + 1;
    }
    proof {
        assert forall|j: int| !#[trigger] update_phrase_at(ts, j) by {
            if 0 <= j < w {
            }
        }
    }
    false
}

/// Marker appended to a text cut for a prompt.
pub open spec fn truncated_marker() -> Seq<char> {
    " ...[truncated]"@
}

/// Cuts `text` to its first `limit` bytes and marks the cut; a text that
/// fits is returned as it is. The cut must fall between two characters.
pub fn truncate_for_prompt(text: String, limit: usize) -> (r: String)
    requires
        byte_len(text@) <= limit || exists|k: int| bytes_at_chars(text@, k, limit as int),
    ensures
        byte_len(text@) <= limit ==> r@ == text@,
        byte_len(text@) > limit ==> forall|k: int| #[trigger] bytes_at_chars(text@, k, limit as int)
            ==> r@ == text@.subrange(0, k) + truncated_marker(),
{
    let cs = chars_of(text.as_str());
    if byte_len_le(&cs, limit) {
        return text;
    }
    let ghost s = cs@;
    let mut total: usize = 0;
    let mut i: usize = 0;
    assert(s.subrange(0, 0) =~= Seq::<char>::empty());
    assert(crate::text::byte_len(Seq::<char>::empty()) == 0) by {
        assert(vstd::utf8::encode_utf8(Seq::<char>::empty()) =~= Seq::<u8>::empty());
    }
    let ghost kw = choose|k: int| bytes_at_chars(s, k, limit as int);
    while total < limit
        invariant
            s == cs@,
            s == text@,
            i <= cs.len(),
            total == byte_len(s.subrange(0, i as int)),
            total <= limit,
            bytes_at_chars(s, kw, limit as int),
            byte_len(s) > limit,
            kw >= i,
        decreases cs.len() - i,
    {
        proof {
            if i == cs.len() {
                assert(s.subrange(0, i as int) =~= s);
            }
            if kw == i {
                assert(false);
            }
        }
        let w = char_utf8_width(cs[i]);
        proof {
            lemma_byte_len_push(s.subrange(0, i as int), s[i as int]);
            assert(s.subrange(0, i as int).push(s[i as int]) =~= s.subrange(0, i + 1));
            if total + w > limit {
                lemma_byte_len_prefix_le(s.subrange(0, kw), i + 1);
                assert(s.subrange(0, kw).subrange(0, i + 1) =~= s.subrange(0, i + 1));
            }
        }
        total = total + w;
        i = i + 1;
        proof {
            if kw < i {
                lemma_byte_len_prefix_le(s.subrange(0, i as int), kw);
                assert(s.subrange(0, i as int).subrange(0, kw) =~= s.subrange(0, kw));
                lemma_byte_len_push(s.subrange(0, kw), s[kw]);
                assert(s.subrange(0, kw).push(s[kw]) =~= s.subrange(0, kw + 1));
                lemma_byte_len_prefix_le(s.subrange(0, i as int), kw + 1);
                assert(s.subrange(0, i as int).subrange(0, kw + 1) =~= s.subrange(0, kw + 1));
                vstd::utf8::char_is_scalar(s[kw]);
            }
        }
    }
    proof {
        assert forall|k: int| #[trigger] bytes_at_chars(s, k, limit as int) implies k == i by {
            if k < i {
                lemma_byte_len_prefix_le(s.subrange(0, k + 1), k);
                lemma_byte_len_push(s.subrange(0, k), s[k]);
                assert(s.subrange(0, k).push(s[k]) =~= s.subrange(0, k + 1));
                lemma_byte_len_prefix_le(s.subrange(0, i as int), k + 1);
                assert(s.subrange(0, i as int).subrange(0, k + 1) =~= s.subrange(0, k + 1));
                vstd::utf8::char_is_scalar(s[k]);
            } else if k > i {
                lemma_byte_len_push(s.subrange(0, i as int), s[i as int]);
                assert(s.subrange(0, i as int).push(s[i as int]) =~= s.subrange(0, i + 1));
                lemma_byte_len_prefix_le(s.subrange(0, k), i + 1);
                assert(s.subrange(0, k).subrange(0, i + 1) =~= s.subrange(0, i + 1));
                vstd::utf8::char_is_scalar(s[i as int]);
            }
        }
    }
    let mut out: Vec<char> = Vec::new();
    let mut j: usize = 0;
    while j < i
        invariant
            j <= i <= cs.len(),
            out@ =~= cs@.subrange(0, j as int),
        decreases i - j,
    {
        out.push(cs[j]);
        j = j + 1;
    }
    let marker = chars_of(" ...[truncated]");
    push_all(&mut out, &marker);
    string_of(&out)
}

/// Why a list edit was refused.
#[derive(Clone, Debug, PartialEq, Eq)]
pub enum ListEditError {
    /// `add` or `update` without an item.
    ItemRequired(ListOperation),
    /// `update` or `remove` without an index.
    IndexRequired(ListOperation),
    /// An index past the end of the list.
    OutOfBounds { index: usize, len: usize },
    /// `replace` without items.
    ItemsRequired,
    /// An item that does not describe an element of the list.
    Invalid(String),
}

/// Name of an operation as written in requests.
pub open spec fn operation_name(op: ListOperation) -> Seq<char> {
    match op {
        ListOperation::Add => "add"@,
        ListOperation::Update => "update"@,
        ListOperation::Remove => "remove"@,
        ListOperation::Replace => "replace"@,
    }
}

/// The message reported for a refused list edit.
pub open spec fn list_edit_message(e: ListEditError) -> Seq<char> {
    match e {
        ListEditError::ItemRequired(op) => "item requis pour "@ + operation_name(op),
        ListEditError::IndexRequired(op) => "index requis pour "@ + operation_name(op),
        ListEditError::OutOfBounds { index, len } => "index "@ + decimal(index as nat)
            + " hors limites (taille actuelle: "@ + decimal(len as nat) + ")"@,
        ListEditError::ItemsRequired => "items requis pour replace"@,
        ListEditError::Invalid(m) => m@,
    }
}

fn operation_name_chars(op: ListOperation) -> (r: Vec<char>)
    ensures
        r@ == operation_name(op),
{
    match op {
        ListOperation::Add => chars_of("add"),
        ListOperation::Update => chars_of("update"),
        ListOperation::Remove => chars_of("remove"),
        ListOperation::Replace => chars_of("replace"),
    }
}

impl ListEditError {
    /// The message of this error.
    pub fn message(&self) -> (r: String)
        ensures
            r@ == list_edit_message(*self),
    {
        match self {
            ListEditError::ItemRequired(op) => {
                let mut v = chars_of("item requis pour ");
                let o = operation_name_chars(*op);
                push_all(&mut v, &o);
                string_of(&v)
            },
            ListEditError::IndexRequired(op) => {
                let mut v = chars_of("index requis pour ");
                let o = operation_name_chars(*op);
                push_all(&mut v, &o);
                string_of(&v)
            },
            ListEditError::OutOfBounds { index, len } => {
                let mut v = chars_of("index ");
                let a = decimal_chars(*index);
                push_all(&mut v, &a);
                let m = chars_of(" hors limites (taille actuelle: ");
                push_all(&mut v, &m);
                let b = decimal_chars(*len);
                push_all(&mut v, &b);
                let c = chars_of(")");
                push_all(&mut v, &c);
                string_of(&v)
            },
            ListEditError::ItemsRequired => "items requis pour replace".to_owned(),
            ListEditError::Invalid(m) => m.clone(),
        }
    }
}

/// The first refused item of a parsed list, if any.
pub open spec fn first_invalid<T>(items: Seq<Result<T, String>>) -> Option<String>
    decreases items.len(),
{
    if items.len() == 0 {
        None
    } else {
        match items[0] {
            Err(e) => Some(e),
            Ok(_) => first_invalid(items.drop_first()),
        }
    }
}

/// The elements of a parsed list whose items were all accepted.
pub open spec fn parsed_items<T>(items: Seq<Result<T, String>>) -> Seq<T> {
    items.map_values(|r: Result<T, String>| r->Ok_0)
}

/// The outcome of a list edit on `target`: the list afterwards, or the
/// refusal (the list is then unchanged). `item` and `items` are the request's
/// items already read as elements, or the reason they could not be.
pub open spec fn list_edit_model<T>(
    target: Seq<T>,
    op: ListOperation,
    index: Option<usize>,
    item: Option<Result<T, String>>,
    items: Option<Seq<Result<T, String>>>,
) -> Result<Seq<T>, ListEditError> {
    match op {
        ListOperation::Add => match item {
            None => Err(ListEditError::ItemRequired(ListOperation::Add)),
            Some(Err(e)) => Err(ListEditError::Invalid(e)),
            Some(Ok(x)) => Ok(target.push(x)),
        },
        ListOperation::Update => match index {
            None => Err(ListEditError::IndexRequired(ListOperation::Update)),
            Some(i) => if i >= target.len() {
                Err(ListEditError::OutOfBounds { index: i, len: target.len() as usize })
            } else {
                match item {
                    None => Err(ListEditError::ItemRequired(ListOperation::Update)),
                    Some(Err(e)) => Err(ListEditError::Invalid(e)),
                    Some(Ok(x)) => Ok(target.update(i as int, x)),
                }
            },
        },
        ListOperation::Remove => match index {
            None => Err(ListEditError::IndexRequired(ListOperation::Remove)),
            Some(i) => if i >= target.len() {
                Err(ListEditError::OutOfBounds { index: i, len: target.len() as usize })
            } else {
                Ok(target.remove(i as int))
            },
        },
        ListOperation::Replace => match items {
            None => Err(ListEditError::ItemsRequired),
            Some(rs) => match first_invalid(rs) {
                Some(e) => Err(ListEditError::Invalid(e)),
                None => Ok(parsed_items(rs)),
            },
        },
    }
}

/// Removing the item an addition has just appended undoes the addition,
/// and updating an item with the value it already holds changes nothing.
pub proof fn lemma_list_edits_undo<T>(target: Seq<T>, x: T, i: usize)
    requires
        target.len() < usize::MAX,
    ensures
        ({
            let added = list_edit_model(target, ListOperation::Add, None, Some(Ok::<T, String>(x)), None);
            &&& added == Ok::<Seq<T>, ListEditError>(target.push(x))
            &&& list_edit_model(
                target.push(x),
                ListOperation::Remove,
                Some(target.len() as usize),
                None::<Result<T, String>>,
                None,
            ) == Ok::<Seq<T>, ListEditError>(target)
        }),
        i < target.len() ==> list_edit_model(
            target,
            ListOperation::Update,
            Some(i),
            Some(Ok::<T, String>(target[i as int])),
            None,
        ) == Ok::<Seq<T>, ListEditError>(target),
{
    assert(target.push(x).remove(target.len() as int) =~= target);
    if i < target.len() {
        assert(target.update(i as int, target[i as int]) =~= target);
    }
}

proof fn lemma_first_invalid_none<T>(rs: Seq<Result<T, String>>, i: int)
    requires
        first_invalid(rs) is None,
        0 <= i < rs.len(),
    ensures
        rs[i] is Ok,
    decreases rs.len(),
{
    if i > 0 {
        assert(rs.drop_first()[i - 1] == rs[i]);
        lemma_first_invalid_none(rs.drop_first(), i - 1);
    }
}

/// Applies a list edit to `target` (see `list_edit_model`).
pub fn apply_list_operation<T>(
    target: &mut Vec<T>,
    operation: &ListOperation,
    index: Option<usize>,
    item: Option<Result<T, String>>,
    items: Option<Vec<Result<T, String>>>,
) -> (r: Result<(), ListEditError>)
    ensures
        ({
            let m = list_edit_model(
                old(target)@,
                *operation,
                index,
                item,
                match items {
                    Some(v) => Some(v@),
                    None => None,
                },
            );
            &&& m is Ok ==> r is Ok && final(target)@ == m->Ok_0
            &&& m is Err ==> r == Err::<(), ListEditError>(m->Err_0) && final(target)@ == old(target)@
        }),
{
    match operation {
        ListOperation::Add => match item {
            None => Err(ListEditError::ItemRequired(ListOperation::Add)),
            Some(Err(e)) => Err(ListEditError::Invalid(e)),
            Some(Ok(x)) => {
                target.push(x);
                Ok(())
            },
        },
        ListOperation::Update => match index {
            None => Err(ListEditError::IndexRequired(ListOperation::Update)),
            Some(i) => {
                if i >= target.len() {
                    return Err(ListEditError::OutOfBounds { index: i, len: target.len() });
                }
                match item {
                    None => Err(ListEditError::ItemRequired(ListOperation::Update)),
                    Some(Err(e)) => Err(ListEditError::Invalid(e)),
                    Some(Ok(x)) => {
                        target.set(i, x);
                        Ok(())
                    },
                }
            },
        },
        ListOperation::Remove => match index {
            None => Err(ListEditError::IndexRequired(ListOperation::Remove)),
            Some(i) => {
                if i >= target.len() {
                    return Err(ListEditError::OutOfBounds { index: i, len: target.len() });
                }
                target.remove(i);
                Ok(())
            },
        },
        ListOperation::Replace => match items {
            None => Err(ListEditError::ItemsRequired),
            Some(rs) => {
                let ghost rv = rs@;
                let mut parsed: Vec<T> = Vec::new();
                let mut src = rs;
                let mut rev: Vec<Result<T, String>> = Vec::new();
                while src.len() > 0
                    invariant
                        src@.len() + rev@.len() == rv.len(),
                        src@ =~= rv.subrange(0, src@.len() as int),
                        forall|j: int| 0 <= j < rev@.len() ==> rev@[j] == rv[rv.len() - 1 - j],
                    decreases src.len(),
                {
                    let x = src.pop().unwrap();
                    rev.push(x);
                }
                assert(rv.subrange(0, rv.len() as int) =~= rv);
                while rev.len() > 0
                    invariant
                        target@ == old(target)@,
                        *operation == ListOperation::Replace,
                        (match items {
                            Some(v) => Some(v@),
                            None => None,
                        }) == Some(rv),
                        parsed@.len() + rev@.len() == rv.len(),
                        forall|j: int| 0 <= j < rev@.len() ==> rev@[j] == rv[rv.len() - 1 - j],
                        first_invalid(rv) == first_invalid(rv.subrange(parsed@.len() as int, rv.len() as int)),
                        forall|j: int| 0 <= j < parsed@.len() ==> rv[j] == Ok::<T, String>(#[trigger] parsed@[j]),
                    decreases rev.len(),
                {
                    let ghost p = parsed@.len() as int;
                    let x = rev.pop().unwrap();
                    assert(x == rv[p]);
                    let ghost tail = rv.subrange(p, rv.len() as int);
                    assert(tail[0] == rv[p]);
                    assert(tail.drop_first() =~= rv.subrange(p + 1, rv.len() as int));
                    match x {
                        Err(e) => {
                            assert(first_invalid(tail) == Some(e));
                            return Err(ListEditError::Invalid(e));
                        },
                        Ok(v) => {
                            assert(first_invalid(tail) == first_invalid(tail.drop_first()));
                            parsed.push(v);
                        },
                    }
                }
                proof {
                    assert(rv.subrange(rv.len() as int, rv.len() as int) =~= Seq::<Result<T, String>>::empty());
                    assert(parsed@ =~= parsed_items(rv));
                }
                *target = parsed;
                Ok(())
            },
        },
    }
}


/// The base64 text of an attachment: what follows the first comma of a
/// `data:` URL (up to a next comma), or the whole text when it has no comma.
pub open spec fn attachment_payload(data: Seq<char>) -> Seq<char> {
    match second_piece(data) {
        Some(p) => p,
        None => data,
    }
}

/// The image an attachment contributes to a model's input, as bytes and
/// media type: only attachments of an `image/` type whose payload decodes.
pub open spec fn attachment_image(a: ChatAttachment) -> Option<(Seq<u8>, Seq<char>)> {
    if starts_with(a.content_type@, "image/"@) {
        match base64_standard_decode(vstd::utf8::encode_utf8(attachment_payload(a.data@))) {
            Ok(b) => Some((b, a.content_type@)),
            Err(_) => None,
        }
    } else {
        None
    }
}

/// The images contributed by a list of attachments, in order.
pub open spec fn attachment_images(atts: Seq<ChatAttachment>) -> Seq<(Seq<u8>, Seq<char>)>
    decreases atts.len(),
{
    if atts.len() == 0 {
        seq![]
    } else {
        let rest = attachment_images(atts.drop_last());
        match attachment_image(atts.last()) {
            Some(x) => rest.push(x),
            None => rest,
        }
    }
}

/// Whether `c` is the image `img` (bytes and media type).
pub open spec fn is_image_content(c: MessageContent, img: (Seq<u8>, Seq<char>)) -> bool {
    c matches MessageContent::Image { data, content_type } && data@ == img.0 && content_type@ == img.1
}

/// Adds to `contents`, in order, the image of each attachment that has an
/// `image/` type and a payload that decodes; other attachments are left out.
pub fn append_attachments(contents: &mut Vec<MessageContent>, attachments: &Vec<ChatAttachment>)
    ensures
        final(contents)@.len() == old(contents)@.len() + attachment_images(attachments@).len(),
        forall|k: int| 0 <= k < old(contents)@.len() ==> final(contents)@[k] == old(contents)@[k],
        forall|k: int|
            0 <= k < attachment_images(attachments@).len() ==> is_image_content(
                #[trigger] final(contents)@[old(contents)@.len() + k],
                attachment_images(attachments@)[k],
            ),
{
    let ghost c0 = contents@;
    let mut i: usize = 0;
    while i < attachments.len()
        invariant
            i <= attachments.len(),
            contents@.len() == c0.len() + attachment_images(attachments@.subrange(0, i as int)).len(),
            forall|k: int| 0 <= k < c0.len() ==> contents@[k] == c0[k],
            forall|k: int|
                0 <= k < attachment_images(attachments@.subrange(0, i as int)).len() ==> is_image_content(
                    #[trigger] contents@[c0.len() + k],
                    attachment_images(attachments@.subrange(0, i as int))[k],
                ),
        decreases attachments.len() - i,
    {
        let att = &attachments[i];
        let ghost prev = attachment_images(attachments@.subrange(0, i as int));
        assert(attachments@.subrange(0, i + 1).drop_last() =~= attachments@.subrange(0, i as int));
        assert(attachments@.subrange(0, i + 1).last() == attachments@[i as int]);
        let ct = chars_of(att.content_type.as_str());
        if starts_with_chars(&ct, &chars_of("image/")) {
            let payload = match second_comma_piece(att.data.as_str()) {
                Some(p) => p,
                None => att.data.clone(),
            };
            match decode_data_url(payload.as_str()) {
                Ok(data) => {
                    let ghost img = (data@, att.content_type@);
                    assert(attachment_images(attachments@.subrange(0, i + 1)) == prev.push(img));
                    let ghost before = contents@;
                    contents.push(MessageContent::Image { data, content_type: att.content_type.clone() });
                    assert forall|k: int|
                        0 <= k < prev.push(img).len() implies is_image_content(
                            #[trigger] contents@[c0.len() + k],
                            prev.push(img)[k],
                        ) by {
                        if k < prev.len() {
                            assert(contents@[c0.len() + k] == before[c0.len() + k]);
                        }
                    }
                },
                Err(_) => {
                    assert(attachment_images(attachments@.subrange(0, i + 1)) == prev);
                },
            }
        } else {
            assert(attachment_images(attachments@.subrange(0, i + 1)) == prev);
        }
        i = i + 1;
    }
    assert(attachments@.subrange(0, attachments.len() as int) =~= attachments@);
}


/// The chat request goes to one application when it names a non-empty
/// application id; otherwise it is a chat about all offers.
pub fn chat_target(instance_id: &Option<String>) -> (r: Option<String>)
    ensures
        match instance_id {
            Some(id) => if id@.len() > 0 { r == Some(*id) } else { r is None },
            None => r is None,
        },
{
    match instance_id {
        Some(id) => {
            if id.as_str().is_empty() {
                None
            } else {
                Some(id.clone())
            }
        },
        None => None,
    }
}

/// What the model answers in a chat about one application: a message and,
/// when it changed them, the new résumé and letter.
pub struct ChatMutationOutput {
    pub message: String,
    pub resume: Option<JsonValue>,
    pub cover: Option<JsonValue>,
}

/// The message shown for an answer: the model's own, or a standard note
/// when it wrote nothing but blanks.
pub open spec fn answer_message(m: Seq<char>) -> Seq<char> {
    if trim(m).len() == 0 {
        "J'ai mis à jour les documents selon votre demande."@
    } else {
        m
    }
}

/// Whether an answer carries a new version of a document: present and not
/// `null`.
pub open spec fn carries_document(d: Option<JsonValue>) -> bool {
    d matches Some(v) && v.model() != Json::Null
}

/// Applies the model's answer to an application's documents: a résumé or
/// letter it carries replaces the current one and makes the application
/// ready; an absent or `null` one leaves it as it is. Returns the message
/// to show (see `answer_message`).
pub fn apply_chat_answer(
    resume_json: &mut Option<JsonValue>,
    cover_letter_json: &mut Option<JsonValue>,
    status: &mut InstanceStatus,
    answer: ChatMutationOutput,
) -> (r: String)
    ensures
        r@ == answer_message(answer.message@),
        *final(resume_json) == (if carries_document(answer.resume) { answer.resume } else { *old(resume_json) }),
        *final(cover_letter_json) == (if carries_document(answer.cover) { answer.cover } else { *old(cover_letter_json) }),
        *final(status) == (if carries_document(answer.resume) || carries_document(answer.cover) {
            InstanceStatus::Ready
        } else {
            *old(status)
        }),
{
    let ChatMutationOutput { message, resume, cover } = answer;
    let mc = chars_of(message.as_str());
    let t = trim_chars(&mc);
    let shown = if t.len() == 0 {
        "J'ai mis à jour les documents selon votre demande.".to_owned()
    } else {
        message
    };
    match resume {
        Some(res) => {
            if !res.is_null() {
                *resume_json = Some(res);
                *status = InstanceStatus::Ready;
            }
        },
        None => {},
    }
    match cover {
        Some(cov) => {
            if !cov.is_null() {
                *cover_letter_json = Some(cov);
                *status = InstanceStatus::Ready;
            }
        },
        None => {},
    }
    shown
}

} // verus!

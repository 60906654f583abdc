//! Which pieces of a profile are indexed for retrieval: its pitch, each
//! experience and each project, as titled chunks.

use vstd::prelude::*;
use crate::generate::{join_strings, Chunk};
use crate::json::{get_arr, get_str, json_get, Json, JsonValue};
use crate::records::ChunkKind;
use crate::text::{chars_of, join, push_all, string_of};

verus! {

/// The text under a key when it is a string, `d` otherwise.
pub open spec fn str_or(j: Option<Json>, d: Seq<char>) -> Seq<char> {
    match j {
        Some(Json::Str(s)) => s,
        _ => d,
    }
}

/// The text of a description item: a string as it is, anything else empty.
pub open spec fn item_text(j: Json) -> Seq<char> {
    match j {
        Json::Str(s) => s,
        _ => seq![],
    }
}

/// The description of an entry: its `description` items one per line, or
/// the empty text when it has no such array.
pub open spec fn description_text(entry: Json) -> Seq<char> {
    match get_arr(entry, "description"@) {
        Some(items) => join(items.map_values(|v: Json| item_text(v)), "\n"@),
        None => seq![],
    }
}

/// The chunk of an experience: titled with its role and company.
pub open spec fn experience_chunk(e: Json) -> (Seq<char>, Seq<char>, ChunkKind) {
    (
        "Expérience : "@ + str_or(json_get(e, "role"@), "Inconnu"@) + " chez "@ + str_or(
            json_get(e, "company"@),
            "Inconnue"@,
        ),
        description_text(e),
        ChunkKind::Experience,
    )
}

/// The chunk of a project: titled with its role and, in brackets, its
/// company field.
pub open spec fn project_chunk(p: Json) -> (Seq<char>, Seq<char>, ChunkKind) {
    (
        "Projet : "@ + str_or(json_get(p, "role"@), "Projet"@) + " ("@ + str_or(json_get(p, "company"@), seq![])
            + ")"@,
        description_text(p),
        ChunkKind::Projet,
    )
}

/// The chunks of a profile's content, in order: the pitch (when it is a
/// string), then every experience, then every project.
pub open spec fn profile_chunks_model(content: Json) -> Seq<(Seq<char>, Seq<char>, ChunkKind)> {
    (match get_str(content, "pitch"@) {
        Some(p) => seq![("Pitch personnel"@, p, ChunkKind::Experience)],
        None => seq![],
    }) + (match get_arr(content, "experiences"@) {
        Some(a) => a.map_values(|e: Json| experience_chunk(e)),
        None => seq![],
    }) + (match get_arr(content, "projects"@) {
        Some(a) => a.map_values(|p: Json| project_chunk(p)),
        None => seq![],
    })
}

/// What a chunk says: title, text and kind.
pub open spec fn chunk_view(c: Chunk) -> (Seq<char>, Seq<char>, ChunkKind) {
    (c.titre@, c.content@, c.kind)
}

fn str_field_or(v: &JsonValue, key: &str, d: &str) -> (r: String)
    ensures
        r@ == str_or(json_get(v.model(), key@), d@),
{
    match v.get_key(key) {
        Some(JsonValue::Str(s)) => s.clone(),
        _ => d.to_owned(),
    }
}

fn description_of(entry: &JsonValue) -> (r: String)
    ensures
        r@ == description_text(entry.model()),
{
    match entry.get_array("description") {
        Some(items) => {
            let ghost m = items@.map_values(|v: JsonValue| v.model());
            let mut texts: Vec<String> = Vec::new();
            let mut i: usize = 0;
            while i < items.len()
                invariant
                    i <= items.len(),
                    m == items@.map_values(|v: JsonValue| v.model()),
                    texts@.len() == i,
                    forall|k: int| 0 <= k < i ==> #[trigger] texts@[k]@ == item_text(m[k]),
                decreases items.len() - i,
            {
                let t = match &items[i] {
                    JsonValue::Str(s) => s.clone(),
                    _ => String::new(),
                };
                texts.push(t);
                i = i + 1;
            }
            assert(texts@.map_values(|s: String| s@) =~= m.map_values(|v: Json| item_text(v)));
            join_strings(&texts, "\n")
        },
        None => String::new(),
    }
}

fn titled(parts: &Vec<&str>) -> (r: String)
    ensures
        r@ == parts@.fold_left(Seq::<char>::empty(), |acc: Seq<char>, p: &str| acc + p@),
{
    let mut v: Vec<char> = Vec::new();
    let mut i: usize = 0;
    while i < parts.len()
        invariant
            i <= parts.len(),
            v@ == parts@.subrange(0, i as int).fold_left(Seq::<char>::empty(), |acc: Seq<char>, p: &str| acc + p@),
        decreases parts.len() - i,
    {
        let c = chars_of(parts[i]);
        push_all(&mut v, &c);
        proof {
            let f = |acc: Seq<char>, p: &str| acc + p@;
            let s = parts@.subrange(0, i + 1);
            assert(s.drop_last() =~= parts@.subrange(0, i as int));
            assert(s.last() == parts@[i as int]);
        }
        i = i + 1;
    }
    assert(parts@.subrange(0, parts.len() as int) =~= parts@);
    string_of(&v)
}

/// The chunks of a profile's content (see `profile_chunks_model`).
pub fn profile_chunks(content: &JsonValue) -> (r: Vec<Chunk>)
    ensures
        r@.map_values(|c: Chunk| chunk_view(c)) == profile_chunks_model(content.model()),
{
    let mut out: Vec<Chunk> = Vec::new();
    match content.get_str("pitch") {
        Some(p) => {
            out.push(Chunk { kind: ChunkKind::Experience, titre: "Pitch personnel".to_owned(), content: p });
        },
        None => {},
    }
    let ghost first = out@.map_values(|c: Chunk| chunk_view(c));
    assert(first =~= (match get_str(content.model(), "pitch"@) {
        Some(p) => seq![("Pitch personnel"@, p, ChunkKind::Experience)],
        None => seq![],
    }));
    let ghost exps: Seq<(Seq<char>, Seq<char>, ChunkKind)> = match get_arr(content.model(), "experiences"@) {
        Some(a) => a.map_values(|e: Json| experience_chunk(e)),
        None => seq![],
    };
    match content.get_array("experiences") {
        Some(items) => {
            let ghost m = items@.map_values(|v: JsonValue| v.model());
            let mut i: usize = 0;
            while i < items.len()
                invariant
                    i <= items.len(),
                    m == items@.map_values(|v: JsonValue| v.model()),
                    exps == m.map_values(|e: Json| experience_chunk(e)),
                    out@.map_values(|c: Chunk| chunk_view(c)) =~= first + exps.subrange(0, i as int),
                decreases items.len() - i,
            {
                let e = &items[i];
                let role = str_field_or(e, "role", "Inconnu");
                let company = str_field_or(e, "company", "Inconnue");
                let titre = titled(&vec!["Expérience : ", role.as_str(), " chez ", company.as_str()]);
                proof {
                    reveal_with_fuel(Seq::fold_left, 5);
                }
                let desc = description_of(e);
                let ghost before = out@.map_values(|c: Chunk| chunk_view(c));
                let ch = Chunk { kind: ChunkKind::Experience, titre, content: desc };
                out.push(ch);
                assert(out@.map_values(|c: Chunk| chunk_view(c)) =~= before.push(chunk_view(ch)));
                assert(exps.subrange(0, i + 1) =~= exps.subrange(0, i as int).push(exps[i as int]));
                i = i + 1;
            }
            assert(exps.subrange(0, items.len() as int) =~= exps);
        },
        None => {
            assert(exps =~= Seq::<(Seq<char>, Seq<char>, ChunkKind)>::empty());
        },
    }
    let ghost second = out@.map_values(|c: Chunk| chunk_view(c));
    assert(second =~= first + exps);
    let ghost projs: Seq<(Seq<char>, Seq<char>, ChunkKind)> = match get_arr(content.model(), "projects"@) {
        Some(a) => a.map_values(|p: Json| project_chunk(p)),
        None => seq![],
    };
    match content.get_array("projects") {
        Some(items) => {
            let ghost m = items@.map_values(|v: JsonValue| v.model());
            let mut i: usize = 0;
            while i < items.len()
                invariant
                    i <= items.len(),
                    m == items@.map_values(|v: JsonValue| v.model()),
                    projs == m.map_values(|p: Json| project_chunk(p)),
                    out@.map_values(|c: Chunk| chunk_view(c)) =~= second + projs.subrange(0, i as int),
                decreases items.len() - i,
            {
                let p = &items[i];
                let role = str_field_or(p, "role", "Projet");
                let company = str_field_or(p, "company", "");
                let titre = titled(&vec!["Projet : ", role.as_str(), " (", company.as_str(), ")"]);
                proof {
                    reveal_with_fuel(Seq::fold_left, 6);
                }
                proof {
                    reveal_strlit("");
                }
                let desc = description_of(p);
                let ghost before = out@.map_values(|c: Chunk| chunk_view(c));
                let ch = Chunk { kind: ChunkKind::Projet, titre, content: desc };
                out.push(ch);
                assert(out@.map_values(|c: Chunk| chunk_view(c)) =~= before.push(chunk_view(ch)));
                assert(projs.subrange(0, i + 1) =~= projs.subrange(0, i as int).push(projs[i as int]));
                i = i + 1;
            }
            assert(projs.subrange(0, items.len() as int) =~= projs);
        },
        None => {
            assert(projs =~= Seq::<(Seq<char>, Seq<char>, ChunkKind)>::empty());
        },
    }
    out
}

/// The chunks that are worth indexing: those with a non-empty text, in
/// order.
pub fn indexable_chunks(chunks: Vec<Chunk>) -> (r: Vec<Chunk>)
    ensures
        r@ == chunks@.filter(|c: Chunk| c.content@.len() > 0),
{
    let ghost keep = |c: Chunk| c.content@.len() > 0;
    let mut out: Vec<Chunk> = Vec::new();
    let mut i: usize = 0;
    assert(chunks@.subrange(0, 0).filter(keep) =~= Seq::<Chunk>::empty()) by {
        reveal(Seq::filter);
    }
    while i < chunks.len()
        invariant
            i <= chunks.len(),
            keep == (|c: Chunk| c.content@.len() > 0),
            out@ == chunks@.subrange(0, i as int).filter(keep),
        decreases chunks.len() - i,
    {
        proof {
            assert(chunks@.subrange(0, i + 1) =~= chunks@.subrange(0, i as int).push(chunks@[i as int]));
            chunks@.subrange(0, i as int).lemma_filter_push(chunks@[i as int], keep);
        }
        let c = &chunks[i];
        if !c.content.as_str().is_empty() {
            out.push(Chunk { kind: c.kind, titre: c.titre.clone(), content: c.content.clone() });
        }
        i = i + 1;
    }
    assert(chunks@.subrange(0, chunks.len() as int) =~= chunks@);
    out
}

} // verus!

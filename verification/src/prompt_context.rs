//! How an offer is shown to the chat model: its fields as a JSON object,
//! the raw text cut to a preview.

use vstd::prelude::*;
use crate::generate::truncate;
use crate::intake::{Offre, OffreStructured};
use crate::json::{lemma_array_model, lemma_object_model, members_model, Json, JsonValue, Member};
use crate::llm::member;
use crate::text::truncate_chars;

verus! {

/// Most characters of an offer's raw text shown in the chat prompt.
pub const RAW_TEXT_PREVIEW_LIMIT: usize = 4000;

/// An optional text as JSON: the string, or `null`.
pub open spec fn opt_text_json(o: Option<String>) -> Json {
    match o {
        Some(s) => Json::Str(s@),
        None => Json::Null,
    }
}

/// A list of texts as a JSON array of strings.
pub open spec fn texts_json(v: Seq<String>) -> Json {
    Json::Array(v.map_values(|s: String| Json::Str(s@)))
}

/// The structured fields of an offer as a JSON object.
pub open spec fn structured_json(s: OffreStructured) -> Json {
    Json::Object(
        seq![
            ("resume_court"@, Json::Str(s.resume_court@)),
            ("stack"@, texts_json(s.stack@)),
            ("missions"@, texts_json(s.missions@)),
            ("exigences"@, texts_json(s.exigences@)),
            ("soft_skills"@, texts_json(s.soft_skills@)),
            ("niveau_etudes"@, opt_text_json(s.niveau_etudes)),
            ("type_contrat"@, opt_text_json(s.type_contrat)),
            ("mots_cles"@, texts_json(s.mots_cles@)),
        ],
    )
}

/// What the chat model is shown of an offer: its identity, source, fields,
/// structured analysis, the first 4000 characters of its raw text (marked
/// with `…` when cut), its dates and category. The identifier and dates
/// are given as the text they are written with.
pub open spec fn offer_context_model(
    o: Offre,
    id: Seq<char>,
    scraped_at: Seq<char>,
    last_seen_at: Seq<char>,
    closed_at: Option<Seq<char>>,
) -> Json {
    Json::Object(
        seq![
            ("id"@, Json::Str(id)),
            ("slug"@, Json::Str(o.slug@)),
            ("source_url"@, Json::Str(o.source_url@)),
            ("source_host"@, Json::Str(o.source_host@)),
            ("entreprise"@, Json::Str(o.entreprise@)),
            ("intitule"@, Json::Str(o.intitule@)),
            ("localisation"@, opt_text_json(o.localisation)),
            ("contrat"@, opt_text_json(o.contrat)),
            ("structured"@, structured_json(o.structured)),
            ("raw_text_preview"@, Json::Str(truncate_chars(o.raw_text@, RAW_TEXT_PREVIEW_LIMIT as nat))),
            ("scraped_at"@, Json::Str(scraped_at)),
            ("last_seen_at"@, Json::Str(last_seen_at)),
            (
                "closed_at"@,
                match closed_at {
                    Some(c) => Json::Str(c),
                    None => Json::Null,
                },
            ),
            ("categorie"@, opt_text_json(o.categorie)),
        ],
    )
}

fn opt_text_value(o: &Option<String>) -> (r: JsonValue)
    ensures
        r.model() == opt_text_json(*o),
{
    match o {
        Some(s) => JsonValue::Str(s.clone()),
        None => JsonValue::Null,
    }
}

fn texts_value(v: &Vec<String>) -> (r: JsonValue)
    ensures
        r.model() == texts_json(v@),
{
    let mut items: Vec<JsonValue> = Vec::new();
    let mut i: usize = 0;
    while i < v.len()
        invariant
            i <= v.len(),
            items@.len() == i,
            forall|k: int| 0 <= k < i ==> #[trigger] items@[k].model() == Json::Str(v@[k]@),
        decreases v.len() - i,
    {
        items.push(JsonValue::Str(v[i].clone()));
        i = i + 1;
    }
    proof {
        lemma_array_model(items);
        assert(items@.map_values(|x: JsonValue| x.model()) =~= v@.map_values(|s: String| Json::Str(s@)));
    }
    JsonValue::Array(items)
}

fn structured_value(s: &OffreStructured) -> (r: JsonValue)
    ensures
        r.model() == structured_json(*s),
{
    let ms = vec![
        member("resume_court", JsonValue::Str(s.resume_court.clone())),
        member("stack", texts_value(&s.stack)),
        member("missions", texts_value(&s.missions)),
        member("exigences", texts_value(&s.exigences)),
        member("soft_skills", texts_value(&s.soft_skills)),
        member("niveau_etudes", opt_text_value(&s.niveau_etudes)),
        member("type_contrat", opt_text_value(&s.type_contrat)),
        member("mots_cles", texts_value(&s.mots_cles)),
    ];
    proof {
        lemma_object_model(ms);
        assert(members_model(ms@) =~= structured_json(*s)->Object_0);
    }
    JsonValue::Object(ms)
}

/// The offer as the chat model is shown it (see `offer_context_model`).
pub fn offer_prompt_context(
    offre: &Offre,
    id: &str,
    scraped_at: &str,
    last_seen_at: &str,
    closed_at: Option<&str>,
) -> (r: JsonValue)
    ensures
        r.model() == offer_context_model(
            *offre,
            id@,
            scraped_at@,
            last_seen_at@,
            match closed_at {
                Some(c) => Some(c@),
                None => None,
            },
        ),
{
    let closed = match closed_at {
        Some(c) => JsonValue::Str(c.to_owned()),
        None => JsonValue::Null,
    };
    let preview = truncate(offre.raw_text.as_str(), RAW_TEXT_PREVIEW_LIMIT);
    let ms: Vec<Member> = vec![
        member("id", JsonValue::Str(id.to_owned())),
        member("slug", JsonValue::Str(offre.slug.clone())),
        member("source_url", JsonValue::Str(offre.source_url.clone())),
        member("source_host", JsonValue::Str(offre.source_host.clone())),
        member("entreprise", JsonValue::Str(offre.entreprise.clone())),
        member("intitule", JsonValue::Str(offre.intitule.clone())),
        member("localisation", opt_text_value(&offre.localisation)),
        member("contrat", opt_text_value(&offre.contrat)),
        member("structured", structured_value(&offre.structured)),
        member("raw_text_preview", JsonValue::Str(preview)),
        member("scraped_at", JsonValue::Str(scraped_at.to_owned())),
        member("last_seen_at", JsonValue::Str(last_seen_at.to_owned())),
        member("closed_at", closed),
        member("categorie", opt_text_value(&offre.categorie)),
    ];
    proof {
        lemma_object_model(ms);
        assert(members_model(ms@) =~= offer_context_model(
            *offre,
            id@,
            scraped_at@,
            last_seen_at@,
            match closed_at {
                Some(c) => Some(c@),
                None => None,
            },
        )->Object_0);
    }
    JsonValue::Object(ms)
}

} // verus!

//! The profile as the HTTP layer serves and updates it: an update replaces
//! the whole content (already checked against the profile's schema), tidies
//! the location, keeps the photo and calendar it carries as files, and
//! marks them so.

use vstd::prelude::*;
use crate::errors::ApiError;
use crate::json::{get_str, json_get, Json, JsonValue};
use crate::location::{normalize_location, normalized_location};
use crate::profile::{
    apply_persisted_markers, content_calendar, content_photo, extract_calendar_pdf, extract_profile_photo,
    set_nested, with_persisted_markers, Profil,
};
use crate::text::{chars_of, push_all, string_of};

pub use crate::profile::{active_profile_content, build_annexe_from_request, build_download_response, decode_data_url};

verus! {

/// The document template stored under `documents.<key>`, when there is one
/// that is not `null`.
pub open spec fn stored_template(content: Json, key: Seq<char>) -> Option<Json> {
    match json_get(content, "documents"@) {
        Some(docs) => match json_get(docs, key) {
            Some(Json::Null) => None,
            Some(t) => Some(t),
            None => None,
        },
        None => None,
    }
}

fn template_of(content: &JsonValue, key: &str) -> (r: Option<JsonValue>)
    ensures
        match stored_template(content.model(), key@) {
            Some(t) => r matches Some(v) && v.model() == t,
            None => r is None,
        },
{
    match content.get_key("documents") {
        Some(docs) => match docs.get_key(key) {
            Some(t) => {
                if t.is_null() {
                    None
                } else {
                    Some(t.duplicate())
                }
            },
            None => None,
        },
        None => None,
    }
}

/// The résumé template stored with the profile, else the whole content.
pub fn active_profile_resume_template_or_content(profil: Profil) -> (r: JsonValue)
    ensures
        r.model() == match stored_template(profil.content.model(), "resume_template"@) {
            Some(t) => t,
            None => profil.content.model(),
        },
{
    match template_of(&profil.content, "resume_template") {
        Some(t) => t,
        None => profil.content,
    }
}

/// The cover-letter template stored with the profile; a 404 when there is
/// none.
pub fn active_profile_cover_letter_template(profil: Profil) -> (r: Result<JsonValue, ApiError>)
    ensures
        match stored_template(profil.content.model(), "cover_letter_template"@) {
            Some(t) => r matches Ok(v) && v.model() == t,
            None => r matches Err(e) && e is NotFound && e->NotFound_0@ == "Aucun modèle de lettre trouvé"@,
        },
{
    match template_of(&profil.content, "cover_letter_template") {
        Some(t) => Ok(t),
        None => Err(ApiError::NotFound("Aucun modèle de lettre trouvé".to_owned())),
    }
}

/// New content with its location tidied: `profile.location`, when it is a
/// text, replaced by its normalised form.
pub open spec fn with_normalized_location(content: Json) -> Json {
    match json_get(content, "profile"@) {
        Some(p) => match get_str(p, "location"@) {
            Some(loc) => set_nested(content, "profile"@, "location"@, Json::Str(normalized_location(loc))),
            None => content,
        },
        None => content,
    }
}

fn normalize_content_location(content: &mut JsonValue)
    ensures
        final(content).model() == with_normalized_location(old(content).model()),
{
    let loc = match content.get_key("profile") {
        Some(p) => p.get_str("location"),
        None => None,
    };
    match loc {
        Some(l) => {
            let n = normalize_location(l.as_str());
            let inner = match content.get_key("profile") {
                Some(x) => {
                    if x.is_object() {
                        Some(x.duplicate())
                    } else {
                        None
                    }
                },
                None => None,
            };
            match inner {
                Some(mut o) => {
                    o.set_key("location", JsonValue::Str(n));
                    content.set_key("profile", o);
                },
                None => {},
            }
        },
        None => {},
    }
}

/// Applies an update of the profile. `new_content` is the payload checked
/// against the profile's schema, or the reason it does not fit, which is
/// refused with `Invalid profile payload: <reason>` and changes nothing.
/// Otherwise the content is replaced by the new one with its location
/// tidied, the photo and calendar it carries are kept as files, and the
/// markers for the files are set.
pub fn apply_profile_update(profil: &mut Profil, new_content: Result<JsonValue, String>) -> (r: Result<(), ApiError>)
    ensures
        match new_content {
            Err(e) => r matches Err(x) && x is BadRequest && x->BadRequest_0@ == "Invalid profile payload: "@ + e@
                && *final(profil) == *old(profil),
            Ok(c) => r is Ok && {
                let content = with_normalized_location(c.model());
                let has_photo = content_photo(content) is Some || old(profil).profile_photo is Some;
                let has_calendar = content_calendar(content) is Some || old(profil).calendar_pdf is Some;
                &&& final(profil).content.model() == with_persisted_markers(content, has_photo, has_calendar)
                &&& match content_photo(content) {
                    Some(b) => final(profil).profile_photo matches Some(v) && v@ == b,
                    None => final(profil).profile_photo == old(profil).profile_photo,
                }
                &&& match content_calendar(content) {
                    Some(b) => final(profil).calendar_pdf matches Some(v) && v@ == b,
                    None => final(profil).calendar_pdf == old(profil).calendar_pdf,
                }
            },
        },
{
    match new_content {
        Err(e) => {
            let mut v = chars_of("Invalid profile payload: ");
            let ec = chars_of(e.as_str());
            push_all(&mut v, &ec);
            Err(ApiError::BadRequest(string_of(&v)))
        },
        Ok(c) => {
            let mut content = c;
            normalize_content_location(&mut content);
            profil.content = content;
            extract_profile_photo(profil);
            extract_calendar_pdf(profil);
            apply_persisted_markers(profil);
            Ok(())
        },
    }
}

} // verus!

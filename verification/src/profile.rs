//! The candidate profile as stored: its JSON content, updates to it, and
//! the photo and calendar files carried in it as `data:` URLs.

use vstd::prelude::*;
use crate::errors::ApiError;
use crate::json::{
    Json, JsonValue, get_str, json_get, json_set, members_of, obj_get, obj_set, str_eq,
};
use crate::text::{chars_of, find, find_chars, push_all, skip_chars, starts_with, string_of, take_chars};

verus! {

/// A request to attach a file to the profile.
pub struct UploadAnnexeRequest {
    pub label: String,
    pub filename: String,
    pub content_type: String,
    pub data_url: String,
}

/// A stored profile: its JSON content and the binary files kept beside it.
pub struct Profil {
    pub content: JsonValue,
    pub profile_photo: Option<Vec<u8>>,
    pub calendar_pdf: Option<Vec<u8>>,
}

/// A file attached to the profile, decoded.
pub struct AnnexeUpload {
    pub label: String,
    pub filename: String,
    pub content_type: String,
    pub content: Vec<u8>,
}

/// What `base64`'s standard engine (with padding) gives for these bytes:
/// the decoded bytes, or the text of the decoding error.
pub uninterp spec fn base64_standard_decode(input: Seq<u8>) -> Result<Seq<u8>, Seq<char>>;

/// Decodes base64 text with the standard alphabet and padding
/// (`base64::engine::general_purpose::STANDARD.decode`); the result, and
/// the error's text on failure, are named by `base64_standard_decode`.
#[verifier::external_body]
pub fn decode_data_url(payload: &str) -> (r: Result<Vec<u8>, String>)
    ensures
        match base64_standard_decode(vstd::utf8::encode_utf8(payload@)) {
            Ok(b) => r matches Ok(v) && v@ == b,
            Err(m) => r matches Err(e) && e@ == m,
        },
{
    base64::Engine::decode(&base64::engine::general_purpose::STANDARD, payload).map_err(|e| e.to_string())
}

/// The second comma-separated piece of `s` (what follows the first comma,
/// up to the next one), if `s` has a comma.
pub open spec fn second_piece(s: Seq<char>) -> Option<Seq<char>> {
    match find(s, ","@) {
        None => None,
        Some(i) => {
            let rest = s.subrange(i + 1, s.len() as int);
            match find(rest, ","@) {
                Some(j) => Some(rest.subrange(0, j)),
                None => Some(rest),
            }
        },
    }
}

/// The second comma-separated piece of `s` (see `second_piece`).
pub fn second_comma_piece(s: &str) -> (r: Option<String>)
    ensures
        match second_piece(s@) {
            Some(p) => r matches Some(x) && x@ == p,
            None => r is None,
        },
{
    let c = chars_of(s);
    let comma = chars_of(",");
    let i = match find_chars(&c, &comma) {
        Some(i) => i,
        None => return None,
    };
    let clen = c.len();
    proof {
        reveal_strlit(",");
        crate::text::lemma_find_bounds(c@, comma@);
        assert(find(c@, comma@) == Some(i as int));
        assert(i + 1 <= clen);
    }
    let rest = skip_chars(&c, i + 1);
    match find_chars(&rest, &comma) {
        Some(j) => {
            proof {
                crate::text::lemma_find_bounds(rest@, comma@);
            }
            let p = take_chars(&rest, j);
            Some(string_of(&p))
        },
        None => Some(string_of(&rest)),
    }
}

/// The payload of a `data:` URL: its second comma-separated piece; none for
/// other text.
pub open spec fn data_url_payload(s: Seq<char>) -> Option<Seq<char>> {
    if starts_with(s, "data:"@) {
        second_piece(s)
    } else {
        None
    }
}

/// The bytes a `data:` URL carries, when it is one and its payload decodes.
pub open spec fn data_url_bytes(s: Seq<char>) -> Option<Seq<u8>> {
    match data_url_payload(s) {
        Some(p) => match base64_standard_decode(vstd::utf8::encode_utf8(p)) {
            Ok(b) => Some(b),
            Err(_) => None,
        },
        None => None,
    }
}

fn data_url_decoded(s: &str) -> (r: Option<Vec<u8>>)
    ensures
        match data_url_bytes(s@) {
            Some(b) => r matches Some(v) && v@ == b,
            None => r is None,
        },
{
    let c = chars_of(s);
    if !crate::intake::starts_with_str(&c, "data:") {
        return None;
    }
    match second_comma_piece(s) {
        Some(p) => match decode_data_url(p.as_str()) {
            Ok(v) => Some(v),
            Err(_) => None,
        },
        None => None,
    }
}

/// The profile's content as stored.
pub fn active_profile_content(profil: Profil) -> (r: JsonValue)
    ensures
        r.model() == profil.content.model(),
{
    profil.content
}

/// The résumé template stored with the profile (`documents.resume_template`),
/// else the whole content.
pub fn active_profile_resume_template_or_content(profil: Profil) -> (r: JsonValue)
    ensures
        r.model() == match json_get(profil.content.model(), "documents"@) {
            Some(docs) => match json_get(docs, "resume_template"@) {
                Some(t) => t,
                None => profil.content.model(),
            },
            None => profil.content.model(),
        },
{
    match profil.content.get_key("documents") {
        Some(docs) => match docs.get_key("resume_template") {
            Some(t) => return t.duplicate(),
            None => {},
        },
        None => {},
    }
    profil.content
}

/// The cover-letter template stored with the profile
/// (`documents.cover_letter_template`); a 404 when there is none.
pub fn active_profile_cover_letter_template(profil: Profil) -> (r: Result<JsonValue, ApiError>)
    ensures
        match json_get(profil.content.model(), "documents"@) {
            Some(docs) => match json_get(docs, "cover_letter_template"@) {
                Some(t) => r matches Ok(v) && v.model() == t,
                None => r matches Err(e) && e is NotFound && e->NotFound_0@ == "Aucun modèle de lettre trouvé"@,
            },
            None => r matches Err(e) && e is NotFound && e->NotFound_0@ == "Aucun modèle de lettre trouvé"@,
        },
{
    match profil.content.get_key("documents") {
        Some(docs) => match docs.get_key("cover_letter_template") {
            Some(t) => return Ok(t.duplicate()),
            None => {},
        },
        None => {},
    }
    Err(ApiError::NotFound("Aucun modèle de lettre trouvé".to_owned()))
}

/// `j` with key `k` of its object under `outer` set to `v`, when that
/// member is an object; `j` unchanged otherwise.
pub open spec fn set_nested(j: Json, outer: Seq<char>, k: Seq<char>, v: Json) -> Json {
    match json_get(j, outer) {
        Some(Json::Object(ms)) => json_set(j, outer, Json::Object(obj_set(ms, k, v))),
        _ => j,
    }
}

/// The content after the markers saying the photo and the calendar are
/// kept as binary files: `profile.image` and
/// `documents.apprenticeship_calendar` become `"persisted:bytea"` when the
/// file is present and the enclosing member is an object.
pub open spec fn with_persisted_markers(content: Json, has_photo: bool, has_calendar: bool) -> Json {
    let c1 = if has_photo {
        set_nested(content, "profile"@, "image"@, Json::Str("persisted:bytea"@))
    } else {
        content
    };
    if has_calendar {
        set_nested(c1, "documents"@, "apprenticeship_calendar"@, Json::Str("persisted:bytea"@))
    } else {
        c1
    }
}

fn set_nested_value(j: &mut JsonValue, outer: &str, k: &str, v: JsonValue)
    ensures
        final(j).model() == set_nested(old(j).model(), outer@, k@, v.model()),
{
    let inner = match j.get_key(outer) {
        Some(x) => {
            if x.is_object() {
                Some(x.duplicate())
            } else {
                None
            }
        },
        None => None,
    };
    match inner {
        Some(mut o) => {
            o.set_key(k, v);
            j.set_key(outer, o);
        },
        None => {},
    }
}

/// Marks the files kept as binary in the profile's content (see
/// `with_persisted_markers`).
pub fn apply_persisted_markers(profil: &mut Profil)
    ensures
        final(profil).content.model() == with_persisted_markers(
            old(profil).content.model(),
            old(profil).profile_photo is Some,
            old(profil).calendar_pdf is Some,
        ),
        final(profil).profile_photo == old(profil).profile_photo,
        final(profil).calendar_pdf == old(profil).calendar_pdf,
{
    if profil.profile_photo.is_some() {
        set_nested_value(&mut profil.content, "profile", "image", JsonValue::Str("persisted:bytea".to_owned()));
    }
    if profil.calendar_pdf.is_some() {
        set_nested_value(
            &mut profil.content,
            "documents",
            "apprenticeship_calendar",
            JsonValue::Str("persisted:bytea".to_owned()),
        );
    }
}

/// The members `nd` of new documents written into `od`, skipping `null`s.
pub open spec fn insert_non_null(od: Seq<(Seq<char>, Json)>, nd: Seq<(Seq<char>, Json)>) -> Seq<(Seq<char>, Json)>
    decreases nd.len(),
{
    if nd.len() == 0 {
        od
    } else {
        let od1 = if nd[0].1 is Null { od } else { obj_set(od, nd[0].0, nd[0].1) };
        insert_non_null(od1, nd.drop_first())
    }
}

/// The members `nm` of new content written into `om`, in order; a
/// `documents` object is merged into the stored one (skipping `null`s)
/// instead of replacing it.
pub open spec fn merge_profile_members(om: Seq<(Seq<char>, Json)>, nm: Seq<(Seq<char>, Json)>) -> Seq<(Seq<char>, Json)>
    decreases nm.len(),
{
    if nm.len() == 0 {
        om
    } else {
        let k = nm[0].0;
        let v = nm[0].1;
        let om1 = if k == "documents"@ {
            match (obj_get(om, "documents"@), v) {
                (Some(Json::Object(od)), Json::Object(nd)) => obj_set(om, "documents"@, Json::Object(insert_non_null(od, nd))),
                _ => obj_set(om, k, v),
            }
        } else {
            obj_set(om, k, v)
        };
        merge_profile_members(om1, nm.drop_first())
    }
}

/// Stored content after an update: two objects merge member by member (see
/// `merge_profile_members`); otherwise the new content replaces the old.
pub open spec fn merged_profile(existing: Json, new_content: Json) -> Json {
    match (existing, new_content) {
        (Json::Object(om), Json::Object(nm)) => Json::Object(merge_profile_members(om, nm)),
        _ => new_content,
    }
}

fn insert_non_null_exec(od: &mut JsonValue, nd: &Vec<crate::json::Member>)
    requires
        old(od).model() is Object,
    ensures
        final(od).model() == Json::Object(insert_non_null(members_of(old(od).model()), crate::json::members_model(nd@))),
{
    let ghost target = insert_non_null(members_of(od.model()), crate::json::members_model(nd@));
    let ghost nm = crate::json::members_model(nd@);
    let mut i: usize = 0;
    assert(nm.subrange(0, nm.len() as int) =~= nm);
    while i < nd.len()
        invariant
            i <= nd.len(),
            nm == crate::json::members_model(nd@),
            od.model() is Object,
            target == insert_non_null(members_of(od.model()), nm.subrange(i as int, nm.len() as int)),
        decreases nd.len() - i,
    {
        let ghost rest = nm.subrange(i as int, nm.len() as int);
        assert(rest[0] == nm[i as int]);
        assert(rest.drop_first() =~= nm.subrange(i + 1, nm.len() as int));
        if !nd[i].value.is_null() {
            let v = nd[i].value.duplicate();
            od.set_key(nd[i].key.as_str(), v);
        }
        i = i + 1;
    }
    assert(nm.subrange(nd.len() as int, nm.len() as int) =~= Seq::<(Seq<char>, Json)>::empty());
}

/// Writes new profile content over the stored one (see `merged_profile`).
pub fn merge_profile_content(existing: &mut JsonValue, new_content: JsonValue)
    ensures
        final(existing).model() == merged_profile(old(existing).model(), new_content.model()),
{
    match &new_content {
        JsonValue::Object(nms) => {
            if existing.is_object() {
                proof {
                    crate::json::lemma_object_model(*nms);
                }
                let ghost nm = crate::json::members_model(nms@);
                let ghost target = merged_profile(existing.model(), new_content.model());
                let mut i: usize = 0;
                assert(nm.subrange(0, nm.len() as int) =~= nm);
                while i < nms.len()
                    invariant
                        i <= nms.len(),
                        nm == crate::json::members_model(nms@),
                        existing.model() is Object,
                        target == Json::Object(merge_profile_members(members_of(existing.model()), nm.subrange(i as int, nm.len() as int))),
                    decreases nms.len() - i,
                {
                    let ghost rest = nm.subrange(i as int, nm.len() as int);
                    assert(rest[0] == nm[i as int]);
                    assert(rest.drop_first() =~= nm.subrange(i + 1, nm.len() as int));
                    let key = &nms[i].key;
                    let value = &nms[i].value;
                    let mut handled = false;
                    if str_eq(key.as_str(), "documents") {
                        match value {
                            JsonValue::Object(nd) => {
                                match existing.get_key("documents") {
                                    Some(JsonValue::Object(_)) => {
                                        let mut docs = existing.get_key("documents").unwrap().duplicate();
                                        proof {
                                            crate::json::lemma_object_model(*nd);
                                        }
                                        insert_non_null_exec(&mut docs, nd);
                                        existing.set_key("documents", docs);
                                        handled = true;
                                    },
                                    _ => {},
                                }
                            },
                            _ => {},
                        }
                    }
                    if !handled {
                        let v = value.duplicate();
                        existing.set_key(key.as_str(), v);
                    }
                    i = i + 1;
                }
                assert(nm.subrange(nms.len() as int, nm.len() as int) =~= Seq::<(Seq<char>, Json)>::empty());
                return;
            }
        },
        _ => {},
    }
    *existing = new_content;
}

/// The photo carried in the content: the bytes of `profile.image` when it
/// is a `data:` URL whose payload decodes.
pub open spec fn content_photo(content: Json) -> Option<Seq<u8>> {
    match json_get(content, "profile"@) {
        Some(p) => match get_str(p, "image"@) {
            Some(img) => data_url_bytes(img),
            None => None,
        },
        None => None,
    }
}

/// The calendar carried in the content: the bytes of
/// `documents.apprenticeship_calendar`, given as an object with a
/// `data_url` or as a `data:` URL itself, when it decodes.
pub open spec fn content_calendar(content: Json) -> Option<Seq<u8>> {
    match json_get(content, "documents"@) {
        Some(d) => match json_get(d, "apprenticeship_calendar"@) {
            Some(cal) => match get_str(cal, "data_url"@) {
                Some(u) => data_url_bytes(u),
                None => match cal {
                    Json::Str(u) => data_url_bytes(u),
                    _ => None,
                },
            },
            None => None,
        },
        None => None,
    }
}

/// Keeps the photo carried in the content as a binary file (see
/// `content_photo`); the stored photo is kept when there is none.
pub fn extract_profile_photo(profil: &mut Profil)
    ensures
        final(profil).content == old(profil).content,
        final(profil).calendar_pdf == old(profil).calendar_pdf,
        match content_photo(old(profil).content.model()) {
            Some(b) => final(profil).profile_photo matches Some(v) && v@ == b,
            None => final(profil).profile_photo == old(profil).profile_photo,
        },
{
    let img = match profil.content.get_key("profile") {
        Some(p) => p.get_str("image"),
        None => None,
    };
    match img {
        Some(s) => match data_url_decoded(s.as_str()) {
            Some(b) => {
                profil.profile_photo = Some(b);
            },
            None => {},
        },
        None => {},
    }
}

/// Keeps the calendar carried in the content as a binary file (see
/// `content_calendar`); the stored calendar is kept when there is none.
pub fn extract_calendar_pdf(profil: &mut Profil)
    ensures
        final(profil).content == old(profil).content,
        final(profil).profile_photo == old(profil).profile_photo,
        match content_calendar(old(profil).content.model()) {
            Some(b) => final(profil).calendar_pdf matches Some(v) && v@ == b,
            None => final(profil).calendar_pdf == old(profil).calendar_pdf,
        },
{
    let url: Option<String> = match profil.content.get_key("documents") {
        Some(d) => match d.get_key("apprenticeship_calendar") {
            Some(cal) => match cal.get_str("data_url") {
                Some(u) => Some(u),
                None => match cal {
                    JsonValue::Str(u) => Some(u.clone()),
                    _ => None,
                },
            },
            None => None,
        },
        None => None,
    };
    match url {
        Some(s) => match data_url_decoded(s.as_str()) {
            Some(b) => {
                profil.calendar_pdf = Some(b);
            },
            None => {},
        },
        None => {},
    }
}

/// Applies new profile content: merged into the stored content, then the
/// photo and calendar it carries kept as files, then the markers for the
/// files set.
pub fn apply_profile_update(profil: &mut Profil, new_content: JsonValue)
    ensures
        ({
            let merged = merged_profile(old(profil).content.model(), new_content.model());
            let has_photo = content_photo(merged) is Some || old(profil).profile_photo is Some;
            let has_calendar = content_calendar(merged) is Some || old(profil).calendar_pdf is Some;
            &&& final(profil).content.model() == with_persisted_markers(merged, has_photo, has_calendar)
            &&& match content_photo(merged) {
                Some(b) => final(profil).profile_photo matches Some(v) && v@ == b,
                None => final(profil).profile_photo == old(profil).profile_photo,
            }
            &&& match content_calendar(merged) {
                Some(b) => final(profil).calendar_pdf matches Some(v) && v@ == b,
                None => final(profil).calendar_pdf == old(profil).calendar_pdf,
            }
        }),
{
    merge_profile_content(&mut profil.content, new_content);
    extract_profile_photo(profil);
    extract_calendar_pdf(profil);
    apply_persisted_markers(profil);
}

/// The file attached by an upload: the second comma-separated piece of its
/// data URL, decoded; refused when there is no such piece or it does not
/// decode.
pub fn build_annexe_from_request(req: UploadAnnexeRequest) -> (r: Result<AnnexeUpload, String>)
    ensures
        match second_piece(req.data_url@) {
            None => r matches Err(e) && e@ == "Format de donnée invalide"@,
            Some(p) => match base64_standard_decode(vstd::utf8::encode_utf8(p)) {
                Err(m) => r matches Err(e) && e@ == "Base64 invalide : "@ + m,
                Ok(b) => r matches Ok(a) && a.content@ == b && a.label == req.label
                    && a.filename == req.filename && a.content_type == req.content_type,
            },
        },
{
    let piece = match second_comma_piece(req.data_url.as_str()) {
        Some(p) => p,
        None => return Err("Format de donnée invalide".to_owned()),
    };
    let content = match decode_data_url(piece.as_str()) {
        Ok(c) => c,
        Err(e) => {
            let mut v = chars_of("Base64 invalide : ");
            let ec = chars_of(e.as_str());
            push_all(&mut v, &ec);
            return Err(string_of(&v));
        },
    };
    Ok(AnnexeUpload { label: req.label, filename: req.filename, content_type: req.content_type, content })
}

/// The headers and body with which an attached file is served inline.
pub fn build_download_response(annexe: AnnexeUpload) -> (r: ([(&'static str, String); 2], Vec<u8>))
    ensures
        r.0[0].0@ == "content-type"@,
        r.0[0].1 == annexe.content_type,
        r.0[1].0@ == "content-disposition"@,
        r.0[1].1@ == "inline; filename=\""@ + annexe.filename@ + "\""@,
        r.1 == annexe.content,
{
    let mut d = chars_of("inline; filename=\"");
    let f = chars_of(annexe.filename.as_str());
    push_all(&mut d, &f);
    let q = chars_of("\"");
    push_all(&mut d, &q);
    let headers = [("content-type", annexe.content_type), ("content-disposition", string_of(&d))];
    (headers, annexe.content)
}

} // verus!

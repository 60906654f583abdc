use candidature::errors::ApiError;
use candidature::json::{JsonValue, Member};
use candidature::profile::{AnnexeUpload, Profil, UploadAnnexeRequest};
use candidature::profile_mapping::{
    active_profile_content, active_profile_cover_letter_template,
    active_profile_resume_template_or_content, apply_profile_update, build_annexe_from_request,
    build_download_response, decode_data_url,
};

fn s(v: &str) -> JsonValue {
    JsonValue::Str(v.to_string())
}

fn obj(members: Vec<(&str, JsonValue)>) -> JsonValue {
    JsonValue::Object(
        members.into_iter().map(|(k, v)| Member { key: k.to_string(), value: v }).collect(),
    )
}

fn at<'a>(v: &'a JsonValue, path: &[&str]) -> Option<&'a JsonValue> {
    let mut cur = v;
    for k in path {
        cur = cur.get_key(k)?;
    }
    Some(cur)
}

fn profile_section(firstname: &str, location: &str, image: &str) -> JsonValue {
    obj(vec![
        ("firstname", s(firstname)),
        ("lastname", s("")),
        ("title", s("")),
        ("offer_type", s("")),
        ("pitch", s("")),
        ("location", s(location)),
        ("phone", s("")),
        ("email", s("")),
        ("linkedin", s("")),
        ("website", s("")),
        ("github", s("")),
        ("image", s(image)),
    ])
}

fn content(profile: JsonValue, documents: JsonValue) -> JsonValue {
    obj(vec![
        ("profile", profile),
        ("apprenticeship", obj(vec![("duration", s("")), ("rhythm", s(""))])),
        ("experiences", JsonValue::Array(vec![])),
        ("projects", JsonValue::Array(vec![])),
        ("education", JsonValue::Array(vec![])),
        ("skills", JsonValue::Array(vec![])),
        ("languages", JsonValue::Array(vec![])),
        ("documents", documents),
    ])
}

fn build_profile(with_resume_template: bool) -> Profil {
    let documents = if with_resume_template {
        obj(vec![
            ("resume_template", obj(vec![("foo", s("bar"))])),
            ("apprenticeship_calendar", JsonValue::Null),
            ("cover_letter_template", JsonValue::Null),
        ])
    } else {
        obj(vec![
            ("resume_template", JsonValue::Null),
            ("apprenticeship_calendar", JsonValue::Null),
            ("cover_letter_template", JsonValue::Null),
        ])
    };
    Profil { content: content(profile_section("Original", "", ""), documents), profile_photo: None, calendar_pdf: None }
}

#[test]
fn mapping_decode_data_url_decodes_payload() {
    let bytes = decode_data_url("aGVsbG8=").expect("base64 should decode");
    assert_eq!(bytes, b"hello");
}

#[test]
fn mapping_active_profile_content_returns_raw_content() {
    let profil = build_profile(true);
    assert_eq!(at(&active_profile_content(profil), &["profile", "firstname"]), Some(&s("Original")));
}

#[test]
fn mapping_active_profile_resume_template_prefers_template() {
    let profil = build_profile(true);
    assert_eq!(active_profile_resume_template_or_content(profil), obj(vec![("foo", s("bar"))]));
}

#[test]
fn mapping_active_profile_resume_template_falls_back_to_content() {
    let profil = build_profile(false);
    let res = active_profile_resume_template_or_content(profil);
    assert_eq!(at(&res, &["profile", "firstname"]), Some(&s("Original")));
}

#[test]
fn mapping_active_profile_cover_letter_template_errors_when_missing() {
    let profil = build_profile(true);
    let error = active_profile_cover_letter_template(profil).expect_err("missing template");
    assert!(matches!(error, ApiError::NotFound(_)));
}

#[test]
fn mapping_apply_persisted_markers_marks_binary_fields() {
    let mut profil = build_profile(true);
    profil.profile_photo = Some(vec![1, 2, 3]);
    profil.calendar_pdf = Some(vec![4, 5, 6]);

    candidature::profile::apply_persisted_markers(&mut profil);

    assert_eq!(at(&profil.content, &["profile", "image"]), Some(&s("persisted:bytea")));
    assert_eq!(at(&profil.content, &["documents", "apprenticeship_calendar"]), Some(&s("persisted:bytea")));
}

#[test]
fn mapping_apply_profile_update_merges_and_extracts_media() {
    let mut profil = build_profile(true);
    let new_content = content(
        profile_section("Updated", "", "data:image/png;base64,aGVsbG8="),
        obj(vec![
            ("resume_template", obj(vec![("foo", s("bar"))])),
            ("apprenticeship_calendar", obj(vec![("data_url", s("data:application/pdf;base64,d29ybGQ="))])),
        ]),
    );

    let _ = apply_profile_update(&mut profil, Ok(new_content));

    assert_eq!(at(&profil.content, &["profile", "firstname"]), Some(&s("Updated")));
    assert_eq!(at(&profil.content, &["documents", "resume_template"]), Some(&obj(vec![("foo", s("bar"))])));
    assert_eq!(at(&profil.content, &["profile", "image"]), Some(&s("persisted:bytea")));
    assert_eq!(at(&profil.content, &["documents", "apprenticeship_calendar"]), Some(&s("persisted:bytea")));
    assert_eq!(profil.profile_photo, Some(b"hello".to_vec()));
    assert_eq!(profil.calendar_pdf, Some(b"world".to_vec()));
}

#[test]
fn mapping_build_annexe_from_request_decodes_payload() {
    let req = UploadAnnexeRequest {
        label: "CV".to_string(),
        filename: "cv.pdf".to_string(),
        content_type: "application/pdf".to_string(),
        data_url: "data:application/pdf;base64,aGVsbG8=".to_string(),
    };

    let annexe = build_annexe_from_request(req).expect("annexe should build");

    assert_eq!(annexe.content, b"hello");
    assert_eq!(annexe.filename, "cv.pdf");
    assert_eq!(annexe.label, "CV");
}

#[test]
fn mapping_build_download_response_sets_inline_headers() {
    let annexe = AnnexeUpload {
        label: "CV".to_string(),
        filename: "cv.pdf".to_string(),
        content_type: "application/pdf".to_string(),
        content: b"hello".to_vec(),
    };

    let (headers, body) = build_download_response(annexe);

    assert_eq!(headers[0].0, "content-type");
    assert_eq!(headers[0].1, "application/pdf");
    assert_eq!(headers[1].0, "content-disposition");
    assert!(headers[1].1.contains("cv.pdf"));
    assert_eq!(body, b"hello");
}

#[test]
fn apply_profile_update_normalizes_paris_location() {
    let mut profil = build_profile(true);
    let new_content = content(
        profile_section("Updated", "paris 11e arrondissement", ""),
        obj(vec![("resume_template", obj(vec![("foo", s("bar"))]))]),
    );

    let _ = apply_profile_update(&mut profil, Ok(new_content));

    assert_eq!(at(&profil.content, &["profile", "location"]), Some(&s("Paris, 11e arr.")));
}

#[test]
fn invalid_profile_payload_is_refused_and_changes_nothing() {
    let mut profil = build_profile(true);
    let r = apply_profile_update(&mut profil, Err("missing field `profile`".to_string()));
    assert_eq!(r, Err(ApiError::BadRequest("Invalid profile payload: missing field `profile`".to_string())));
    assert_eq!(at(&profil.content, &["profile", "firstname"]), Some(&s("Original")));
}

#[test]
fn update_replaces_the_whole_content() {
    let mut profil = build_profile(true);
    let _ = apply_profile_update(&mut profil, Ok(obj(vec![("profile", profile_section("X", "Lyon", ""))])));
    assert_eq!(at(&profil.content, &["documents"]), None);
    assert_eq!(at(&profil.content, &["profile", "location"]), Some(&s("Lyon")));
}

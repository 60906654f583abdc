use candidature::errors::ApiError;
use candidature::json::{JsonValue, Member};
use candidature::profile::{
    active_profile_content, active_profile_cover_letter_template,
    active_profile_resume_template_or_content, apply_persisted_markers, apply_profile_update,
    build_annexe_from_request, build_download_response, decode_data_url, AnnexeUpload, Profil,
    UploadAnnexeRequest,
};

fn s(v: &str) -> JsonValue {
    JsonValue::Str(v.to_string())
}

fn obj(members: Vec<(&str, JsonValue)>) -> JsonValue {
    JsonValue::Object(
        members.into_iter().map(|(k, v)| Member { key: k.to_string(), value: v }).collect(),
    )
}

fn render(v: &JsonValue) -> String {
    match v {
        JsonValue::Null => "null".to_string(),
        JsonValue::Bool(b) => b.to_string(),
        JsonValue::Number(n) => n.clone(),
        JsonValue::Str(t) => format!("{:?}", t),
        JsonValue::Array(items) => {
            format!("[{}]", items.iter().map(render).collect::<Vec<_>>().join(","))
        },
        JsonValue::Object(ms) => format!(
            "{{{}}}",
            ms.iter()
                .map(|m| format!("{:?}:{}", m.key, render(&m.value)))
                .collect::<Vec<_>>()
                .join(",")
        ),
    }
}

fn at<'a>(v: &'a JsonValue, path: &[&str]) -> Option<&'a JsonValue> {
    let mut cur = v;
    for k in path {
        cur = cur.get_key(k)?;
    }
    Some(cur)
}

fn build_profile(with_resume_template: bool) -> Profil {
    let documents = if with_resume_template {
        obj(vec![("resume_template", obj(vec![("foo", s("bar"))]))])
    } else {
        obj(vec![])
    };
    Profil {
        content: obj(vec![("profile", obj(vec![])), ("documents", documents), ("title", s("Original"))]),
        profile_photo: None,
        calendar_pdf: None,
    }
}

#[test]
fn helpers_decode_data_url_decodes_payload() {
    let bytes = decode_data_url("aGVsbG8=").expect("base64 should decode");
    assert_eq!(bytes, b"hello");
}

#[test]
fn decode_data_url_reports_invalid_base64() {
    assert!(decode_data_url("@@@").is_err());
}

#[test]
fn helpers_active_profile_content_returns_raw_content() {
    let profil = build_profile(true);
    let content = active_profile_content(profil);
    assert_eq!(render(at(&content, &["title"]).unwrap()), render(&s("Original")));
}

#[test]
fn helpers_active_profile_resume_template_prefers_template() {
    let profil = build_profile(true);
    assert_eq!(
        render(&active_profile_resume_template_or_content(profil)),
        render(&obj(vec![("foo", s("bar"))]))
    );
}

#[test]
fn helpers_active_profile_resume_template_falls_back_to_content() {
    let profil = build_profile(false);
    assert_eq!(
        render(&active_profile_resume_template_or_content(profil)),
        render(&obj(vec![("profile", obj(vec![])), ("documents", obj(vec![])), ("title", s("Original"))]))
    );
}

#[test]
fn helpers_active_profile_cover_letter_template_errors_when_missing() {
    let mut profil = build_profile(true);
    profil.content.set_key("documents", obj(vec![]));
    let error = match active_profile_cover_letter_template(profil) {
        Err(e) => e,
        Ok(_) => panic!("missing template"),
    };
    assert!(matches!(error, ApiError::NotFound(_)));
}

#[test]
fn helpers_apply_persisted_markers_marks_binary_fields() {
    let mut profil = build_profile(true);
    profil.profile_photo = Some(vec![1, 2, 3]);
    profil.calendar_pdf = Some(vec![4, 5, 6]);

    apply_persisted_markers(&mut profil);

    assert_eq!(render(at(&profil.content, &["profile", "image"]).unwrap()), render(&s("persisted:bytea")));
    assert_eq!(
        render(at(&profil.content, &["documents", "apprenticeship_calendar"]).unwrap()),
        render(&s("persisted:bytea"))
    );
}

#[test]
fn helpers_apply_profile_update_merges_and_extracts_media() {
    let mut profil = build_profile(true);
    let new_content = obj(vec![
        ("profile", obj(vec![("image", s("data:image/png;base64,aGVsbG8="))])),
        (
            "documents",
            obj(vec![(
                "apprenticeship_calendar",
                obj(vec![("data_url", s("data:application/pdf;base64,d29ybGQ="))]),
            )]),
        ),
        ("title", s("Updated")),
    ]);

    apply_profile_update(&mut profil, new_content);

    assert_eq!(render(at(&profil.content, &["title"]).unwrap()), render(&s("Updated")));
    assert_eq!(
        render(at(&profil.content, &["documents", "resume_template"]).unwrap()),
        render(&obj(vec![("foo", s("bar"))]))
    );
    assert_eq!(render(at(&profil.content, &["profile", "image"]).unwrap()), render(&s("persisted:bytea")));
    assert_eq!(
        render(at(&profil.content, &["documents", "apprenticeship_calendar"]).unwrap()),
        render(&s("persisted:bytea"))
    );
    assert_eq!(profil.profile_photo, Some(b"hello".to_vec()));
    assert_eq!(profil.calendar_pdf, Some(b"world".to_vec()));
}

#[test]
fn apply_profile_update_ignores_null_documents() {
    let mut profil = build_profile(true);
    let new_content = obj(vec![("documents", obj(vec![("resume_template", JsonValue::Null)]))]);
    apply_profile_update(&mut profil, new_content);
    assert_eq!(
        render(at(&profil.content, &["documents", "resume_template"]).unwrap()),
        render(&obj(vec![("foo", s("bar"))]))
    );
    assert!(profil.profile_photo.is_none());
}

#[test]
fn helpers_build_annexe_from_request_decodes_payload() {
    let req = UploadAnnexeRequest {
        label: "CV".to_string(),
        filename: "cv.pdf".to_string(),
        content_type: "application/pdf".to_string(),
        data_url: "data:application/pdf;base64,aGVsbG8=".to_string(),
    };
    let annexe = build_annexe_from_request(req).expect("annexe should build");
    assert_eq!(annexe.content, b"hello");
    assert_eq!(annexe.filename, "cv.pdf");
    assert_eq!(annexe.label, "CV");
}

#[test]
fn build_annexe_from_request_refuses_missing_payload() {
    let req = UploadAnnexeRequest {
        label: "CV".to_string(),
        filename: "cv.pdf".to_string(),
        content_type: "application/pdf".to_string(),
        data_url: "pas une data url".to_string(),
    };
    assert_eq!(build_annexe_from_request(req).err(), Some("Format de donnée invalide".to_string()));
}

#[test]
fn build_annexe_from_request_refuses_bad_base64() {
    let req = UploadAnnexeRequest {
        label: "CV".to_string(),
        filename: "cv.pdf".to_string(),
        content_type: "application/pdf".to_string(),
        data_url: "data:application/pdf;base64,@@@".to_string(),
    };
    let e = build_annexe_from_request(req).err().unwrap();
    assert!(e.starts_with("Base64 invalide : "));
}

#[test]
fn helpers_build_download_response_sets_inline_headers() {
    let annexe = AnnexeUpload {
        label: "CV".to_string(),
        filename: "cv.pdf".to_string(),
        content_type: "application/pdf".to_string(),
        content: b"hello".to_vec(),
    };
    let (headers, body) = build_download_response(annexe);
    assert_eq!(headers[0].0, "content-type");
    assert_eq!(headers[0].1, "application/pdf");
    assert_eq!(headers[1].0, "content-disposition");
    assert!(headers[1].1.contains("cv.pdf"));
    assert_eq!(body, b"hello");
}

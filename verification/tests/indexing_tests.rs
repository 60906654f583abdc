use candidature::generate::Chunk;
use candidature::indexing::{indexable_chunks, profile_chunks};
use candidature::json::{JsonValue, Member};
use candidature::records::ChunkKind;

fn obj(members: Vec<(&str, JsonValue)>) -> JsonValue {
    JsonValue::Object(
        members
            .into_iter()
            .map(|(k, v)| Member { key: k.to_string(), value: v })
            .collect(),
    )
}

fn s(v: &str) -> JsonValue {
    JsonValue::Str(v.to_string())
}

fn chunk(kind: ChunkKind, titre: &str, content: &str) -> Chunk {
    Chunk { kind, titre: titre.to_string(), content: content.to_string() }
}

#[test]
fn profile_chunks_cover_pitch_experiences_and_projects() {
    let content = obj(vec![
        ("pitch", s("Développeur curieux")),
        (
            "experiences",
            JsonValue::Array(vec![
                obj(vec![
                    ("role", s("Stagiaire")),
                    ("company", s("Safran")),
                    ("description", JsonValue::Array(vec![s("Rust"), JsonValue::Null, s("SQL")])),
                ]),
                obj(vec![("company", JsonValue::Number("3".to_string()))]),
            ]),
        ),
        (
            "projects",
            JsonValue::Array(vec![
                obj(vec![("role", s("Site")), ("description", JsonValue::Array(vec![s("Web")]))]),
                s("pas un objet"),
            ]),
        ),
    ]);
    assert_eq!(
        profile_chunks(&content),
        vec![
            chunk(ChunkKind::Experience, "Pitch personnel", "Développeur curieux"),
            chunk(ChunkKind::Experience, "Expérience : Stagiaire chez Safran", "Rust\n\nSQL"),
            chunk(ChunkKind::Experience, "Expérience : Inconnu chez Inconnue", ""),
            chunk(ChunkKind::Projet, "Projet : Site ()", "Web"),
            chunk(ChunkKind::Projet, "Projet : Projet ()", ""),
        ]
    );
}

#[test]
fn profile_without_sections_has_no_chunk() {
    assert_eq!(profile_chunks(&obj(vec![("pitch", JsonValue::Bool(true))])), vec![]);
    assert_eq!(profile_chunks(&JsonValue::Null), vec![]);
}

#[test]
fn only_chunks_with_text_are_indexed() {
    let all = vec![
        chunk(ChunkKind::Experience, "a", ""),
        chunk(ChunkKind::Projet, "b", "texte"),
        chunk(ChunkKind::Experience, "c", ""),
    ];
    assert_eq!(indexable_chunks(all), vec![chunk(ChunkKind::Projet, "b", "texte")]);
}

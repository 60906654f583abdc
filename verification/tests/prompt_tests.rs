use candidature::chat::{append_attachments, ChatAttachment};
use candidature::generate::{
    build_generation_input, build_plan_input, build_rerank_input, build_restitution_input,
    CandidaturePlan, Chunk, RerankCandidate,
};
use candidature::intake::{Offre, OffreStructured};
use candidature::llm::MessageContent;
use candidature::records::ChunkKind;
use candidature::chat_history::{HistoryEntry, MessageRole};
use candidature::conversation::{global_user_input, instance_chat_message};
use candidature::json::{JsonValue, Member};
use candidature::llm::Role;
use candidature::prompt_context::offer_prompt_context;

fn build_test_offre() -> Offre {
    Offre {
        slug: "safran_alternance_ia".to_string(),
        source_url: "https://example.com/offre".to_string(),
        source_host: "example.com".to_string(),
        entreprise: "Safran".to_string(),
        intitule: "Alternance IA".to_string(),
        localisation: None,
        contrat: Some("alternance".to_string()),
        raw_text: "Offre brute".to_string(),
        structured: OffreStructured {
            resume_court: "Résumé court".to_string(),
            stack: vec!["Rust".to_string(), "PostgreSQL".to_string()],
            missions: vec!["Développer".to_string(), "Maintenir".to_string()],
            exigences: vec!["Curiosité".to_string()],
            soft_skills: vec![],
            niveau_etudes: Some("Bac+5".to_string()),
            type_contrat: Some("alternance".to_string()),
            mots_cles: vec!["IA".to_string()],
        },
        categorie: Some("data".to_string()),
    }
}

fn build_test_plan() -> CandidaturePlan {
    CandidaturePlan {
        angle: "Mettre en avant l'impact produit".to_string(),
        forces_a_souligner: vec!["Rust".to_string(), "SQLx".to_string()],
        mots_cles_critiques: vec!["RAG".to_string(), "LLM".to_string()],
        faiblesses_a_adresser: vec!["Manque d'expérience sectorielle".to_string()],
    }
}

#[test]
fn build_generation_input_includes_core_sections() {
    let offre = build_test_offre();
    let profile_json = "{\n  \"profile\": {\n    \"title\": \"Ingénieur logiciel\"\n  }\n}";
    let plan = build_test_plan();
    let retained = vec![Chunk {
        kind: ChunkKind::Experience,
        titre: "Stage Rust".to_string(),
        content: "Développement backend".to_string(),
    }];

    let output = build_generation_input(&offre, profile_json, &retained, &plan);

    assert!(output.contains("## OFFRE"));
    assert!(output.contains("Entreprise: Safran"));
    assert!(output.contains("Localisation: non précisé"));
    assert!(output.contains("## PLAN STRATÉGIQUE"));
    assert!(output.contains("Angle: Mettre en avant l'impact produit"));
    assert!(output.contains("### experience — Stage Rust"));
    assert!(output.contains("Développement backend"));
}

#[test]
fn generation_input_is_laid_out_section_by_section() {
    let offre = build_test_offre();
    let plan = build_test_plan();
    let retained = vec![
        Chunk { kind: ChunkKind::Projet, titre: "P".to_string(), content: "x".to_string() },
        Chunk { kind: ChunkKind::Competence, titre: "C".to_string(), content: "y".to_string() },
    ];
    let output = build_generation_input(&offre, "{}", &retained, &plan);
    assert_eq!(
        output,
        "## OFFRE\nEntreprise: Safran\nIntitulé: Alternance IA\nLocalisation: non précisé\n\n\
## RÉSUMÉ DE L'OFFRE\nRésumé court\n\n## STACK\nRust, PostgreSQL\n\n## MISSIONS\nDévelopper ; Maintenir\n\n\
## EXIGENCES\nCuriosité\n\n## PLAN STRATÉGIQUE\nAngle: Mettre en avant l'impact produit\n\
Forces à souligner: Rust ; SQLx\nMots-clés critiques: RAG, LLM\n\n## PROFIL CANDIDAT\n{}\n\n\
## CHUNKS PERTINENTS DU PROFIL\n### projet — P\nx\n\n### competence — C\ny"
    );
}

#[test]
fn restitution_input_marks_missing_fields_and_cuts_the_raw_text() {
    let mut offre = build_test_offre();
    offre.raw_text = "a".repeat(12001);
    let output = build_restitution_input(&offre);
    let expected = format!(
        "Entreprise: Safran\nIntitulé: Alternance IA\nLocalisation: ?\nContrat: alternance\n\nTexte brut de l'offre:\n{}…",
        "a".repeat(12000)
    );
    assert_eq!(output, expected);
}

#[test]
fn rerank_input_numbers_the_candidates() {
    let offre = build_test_offre();
    let candidates = vec![
        RerankCandidate {
            chunk: Chunk { kind: ChunkKind::Experience, titre: "Stage".to_string(), content: "Rust".to_string() },
            score: "0.91".to_string(),
        },
        RerankCandidate {
            chunk: Chunk { kind: ChunkKind::Formation, titre: "Master".to_string(), content: "b".repeat(301) },
            score: "0.50".to_string(),
        },
    ];
    let output = build_rerank_input(&offre, &candidates);
    let expected = format!(
        "## OFFRE\nEntreprise: Safran\nIntitulé: Alternance IA\nMissions: Développer ; Maintenir\nStack: Rust, PostgreSQL\nExigences: Curiosité\n\n## CHUNKS CANDIDATS\n[0] (experience, score=0.91) Stage — Rust\n\n[1] (formation, score=0.50) Master — {}…",
        "b".repeat(300)
    );
    assert_eq!(output, expected);
}

#[test]
fn plan_input_lists_retained_chunks() {
    let offre = build_test_offre();
    let retained = vec![
        Chunk { kind: ChunkKind::PhraseLettre, titre: "Intro".to_string(), content: "Bonjour".to_string() },
        Chunk { kind: ChunkKind::Projet, titre: "Site".to_string(), content: "Web".to_string() },
    ];
    assert_eq!(
        build_plan_input(&offre, &retained),
        "## OFFRE\nRésumé court\n## ENTREPRISE: Safran\n## INTITULÉ: Alternance IA\n\n## CHUNKS RETENUS\n- (phrase_lettre) Intro — Bonjour\n- (projet) Site — Web"
    );
    assert_eq!(
        build_plan_input(&offre, &vec![]),
        "## OFFRE\nRésumé court\n## ENTREPRISE: Safran\n## INTITULÉ: Alternance IA\n\n## CHUNKS RETENUS\n"
    );
}

#[test]
fn attachments_contribute_decoded_images_only() {
    let mut contents = vec![MessageContent::Text("demande".to_string())];
    let attachments = vec![
        ChatAttachment {
            name: "a.png".to_string(),
            content_type: "image/png".to_string(),
            data: "data:image/png;base64,aGVsbG8=".to_string(),
        },
        ChatAttachment {
            name: "b.pdf".to_string(),
            content_type: "application/pdf".to_string(),
            data: "aGVsbG8=".to_string(),
        },
        ChatAttachment {
            name: "c.png".to_string(),
            content_type: "image/png".to_string(),
            data: "pas du base64 !".to_string(),
        },
        ChatAttachment {
            name: "d.jpg".to_string(),
            content_type: "image/jpeg".to_string(),
            data: "d29ybGQ=".to_string(),
        },
    ];
    append_attachments(&mut contents, &attachments);
    assert_eq!(contents.len(), 3);
    assert!(matches!(&contents[0], MessageContent::Text(t) if t == "demande"));
    assert!(matches!(&contents[1], MessageContent::Image { data, content_type }
        if data.as_slice() == b"hello" && content_type == "image/png"));
    assert!(matches!(&contents[2], MessageContent::Image { data, content_type }
        if data.as_slice() == b"world" && content_type == "image/jpeg"));
}

#[test]
fn instance_chat_message_assembles_every_section() {
    let history = vec![HistoryEntry { role: MessageRole::User, content: "salut".to_string() }];
    let resume = "é".repeat(1600);
    let msg = instance_chat_message(
        "{\"p\":1}",
        "{\"o\":2}",
        "null",
        "rag",
        &history,
        "ajoute Rust",
        resume,
        "{}".to_string(),
    );
    assert!(matches!(msg.role, Role::User));
    assert_eq!(msg.content.len(), 1);
    let expected = format!(
        "IDENTITÉ DE L'UTILISATEUR:\n{{\"p\":1}}\n\nOFFRE CIBLÉE:\n{{\"o\":2}}\n\nANALYSE DE L'OFFRE:\nnull\n\nPARCOURS (RAG):\nrag\n\nHISTORIQUE:\nUTILISATEUR: salut\n\nDEMANDE: ajoute Rust\n\nJSON CV (résumé): {} ...[truncated]\n\nJSON LETTRE (résumé): {{}}",
        "é".repeat(1500)
    );
    assert!(matches!(&msg.content[0], MessageContent::Text(t) if *t == expected));
}

#[test]
fn global_user_input_counts_offers_and_appends_images() {
    let attachments = vec![ChatAttachment {
        name: "a.png".to_string(),
        content_type: "image/png".to_string(),
        data: "aGVsbG8=".to_string(),
    }];
    let contents = global_user_input("{}", 2, "[]", "", &vec![], "quelles offres ?", &attachments);
    assert_eq!(contents.len(), 2);
    assert!(matches!(&contents[0], MessageContent::Text(t) if t == "IDENTITÉ DE L'UTILISATEUR (Profil complet):\n{}\n\nOFFRES DISPONIBLES EN BASE (2 offres):\n[]\n\nDÉTAILS DU PARCOURS (RAG):\n\n\nHISTORIQUE RÉCENT DU CHAT:\nAucun historique\n\nDEMANDE DE L'UTILISATEUR: quelles offres ?"));
    assert!(matches!(&contents[1], MessageContent::Image { data, .. } if data.as_slice() == b"hello"));
}

fn member_of<'a>(v: &'a JsonValue, key: &str) -> &'a JsonValue {
    match v {
        JsonValue::Object(ms) => &ms.iter().find(|m: &&Member| m.key == key).unwrap().value,
        _ => panic!("not an object"),
    }
}

#[test]
fn offer_context_previews_the_raw_text() {
    let mut offre = build_test_offre();
    offre.raw_text = "x".repeat(4001);
    let ctx = offer_prompt_context(&offre, "id-1", "2024-01-01T00:00:00Z", "2024-01-02T00:00:00Z", None);
    assert_eq!(member_of(&ctx, "raw_text_preview"), &JsonValue::Str(format!("{}…", "x".repeat(4000))));
    assert_eq!(member_of(&ctx, "id"), &JsonValue::Str("id-1".to_string()));
    assert_eq!(member_of(&ctx, "localisation"), &JsonValue::Null);
    assert_eq!(member_of(&ctx, "closed_at"), &JsonValue::Null);
    assert_eq!(
        member_of(member_of(&ctx, "structured"), "stack"),
        &JsonValue::Array(vec![JsonValue::Str("Rust".to_string()), JsonValue::Str("PostgreSQL".to_string())])
    );
    offre.raw_text = "court".to_string();
    let ctx = offer_prompt_context(&offre, "id-1", "a", "b", Some("c"));
    assert_eq!(member_of(&ctx, "raw_text_preview"), &JsonValue::Str("court".to_string()));
    assert_eq!(member_of(&ctx, "closed_at"), &JsonValue::Str("c".to_string()));
}

#[test]
fn chat_tools_name_the_three_edits() {
    let tools = candidature::conversation::chat_tools(JsonValue::Null, JsonValue::Bool(true), JsonValue::Bool(false));
    let names: Vec<&str> = tools.iter().map(|t| t.name.as_str()).collect();
    assert_eq!(names, vec!["update_documents", "edit_resume_list", "edit_cover_list"]);
    assert_eq!(tools[1].input_schema, JsonValue::Bool(true));
    assert!(tools[0].description.starts_with("Modifie les champs non-listes"));
}

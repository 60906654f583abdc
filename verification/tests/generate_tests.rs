use candidature::generate::{
    build_query_text, build_slug, merge_generated_outputs, rerank_instruction, sanitize_title,
    select_retained, token_overlap, truncate, validate_outputs, Accroche, Contact, Experience,
    Formation, GenerateError, GeneratedDocuments, Identite, Livrables, Resume,
};
use candidature::generate::{
    harmonize_resume_contact_from_profile, Langue, ProfileContent, ProfileEducation, ProfileIdentity,
    ProfileLanguage,
};
use candidature::intake::{Offre, OffreStructured};

fn build_test_offre() -> Offre {
    Offre {
        slug: "safran_alternance_ia".to_string(),
        source_url: "https://example.com/offre".to_string(),
        source_host: "example.com".to_string(),
        entreprise: "Safran".to_string(),
        intitule: "Alternance IA".to_string(),
        localisation: None,
        contrat: Some("alternance".to_string()),
        raw_text: "Offre brute".to_string(),
        structured: OffreStructured {
            resume_court: "Résumé court".to_string(),
            stack: vec!["Rust".to_string(), "PostgreSQL".to_string()],
            missions: vec!["Développer".to_string(), "Maintenir".to_string()],
            exigences: vec!["Curiosité".to_string()],
            soft_skills: vec![],
            niveau_etudes: Some("Bac+5".to_string()),
            type_contrat: Some("alternance".to_string()),
            mots_cles: vec!["IA".to_string()],
        },
        categorie: Some("data".to_string()),
    }
}

fn build_test_resume(experiences: Vec<Experience>, formations: Vec<Formation>) -> Resume {
    Resume {
        identite: Identite { nom_complet: "Test User".to_string(), photo_url: None },
        accroche: Accroche {
            titre: "ALTERNANCE — DÉVELOPPEUR".to_string(),
            paragraphe: "Accroche".to_string(),
            duree: Some("24 mois".to_string()),
            rythme: Some("3j/2j".to_string()),
        },
        contact: Contact {
            email: "test@example.com".to_string(),
            telephone: None,
            localisation: "Paris".to_string(),
            linkedin: None,
            github: None,
            site_web: None,
        },
        experiences,
        formations,
        projets: vec![],
        competences: vec![],
        langues: vec![],
    }
}

#[test]
fn generate_truncate_court_inchange() {
    assert_eq!(truncate("hello", 10), "hello");
}

#[test]
fn generate_truncate_long_coupe() {
    let s = "a".repeat(100);
    let out = truncate(&s, 10);
    assert_eq!(out.chars().count(), 11);
    assert!(out.ends_with('…'));
}

#[test]
fn generate_livrables_par_defaut_tous_actifs() {
    let l = Livrables::default();
    assert!(l.restitution && l.resume && l.cover_letter);
    assert!(!l.aucun());
}

#[test]
fn generate_livrables_aucun_si_tout_off() {
    let l = Livrables { restitution: false, resume: false, cover_letter: false };
    assert!(l.aucun());
}

#[test]
fn tests_truncate_court_inchange() {
    assert_eq!(truncate("hello", 10), "hello");
}

#[test]
fn tests_truncate_long_coupe() {
    let s = "a".repeat(100);
    let out = truncate(&s, 10);
    assert_eq!(out.chars().count(), 11);
    assert!(out.ends_with('…'));
}

#[test]
fn tests_livrables_par_defaut_tous_actifs() {
    let l = Livrables::default();
    assert!(l.restitution && l.resume && l.cover_letter);
    assert!(!l.aucun());
}

#[test]
fn tests_livrables_aucun_si_tout_off() {
    let l = Livrables { restitution: false, resume: false, cover_letter: false };
    assert!(l.aucun());
}

#[test]
fn build_slug_uses_offer_slug_and_short_instance_id() {
    let offre = build_test_offre();
    let slug = build_slug(&offre, "12345678-90ab-cdef-0000-000000000000");
    assert_eq!(slug.as_str(), "safran_alternance_ia__12345678");
}

#[test]
fn validate_outputs_rejects_empty_resume() {
    let offre = build_test_offre();
    let resume = build_test_resume(vec![], vec![]);
    let result = validate_outputs::<()>(&offre, None, Some(&resume), None);
    assert!(matches!(result, Err(GenerateError::Invalide(message)) if message.contains("CV vide")));
}

#[test]
fn validate_outputs_rejects_incomplete_cover_letter() {
    let offre = build_test_offre();
    let result = validate_outputs::<()>(&offre, None, None, Some(false));
    assert!(
        matches!(result, Err(GenerateError::Invalide(message)) if message.contains("lettre incomplète"))
    );
}

#[test]
fn validate_outputs_accepts_complete_documents() {
    let offre = build_test_offre();
    let formation = Formation {
        etablissement: "EPITA".to_string(),
        localisation: None,
        periode: "2022 - 2025".to_string(),
        diplome: "Ingénieur".to_string(),
        details: None,
    };
    let resume = build_test_resume(vec![], vec![formation]);
    let result = validate_outputs::<()>(&offre, None, Some(&resume), Some(true));
    assert_eq!(result, Ok(()));
}

#[test]
fn merge_generated_outputs_preserves_existing_resume_and_cover_letter() {
    let mut instance = GeneratedDocuments {
        restitution: None::<String>,
        resume_json: Some(build_test_resume(vec![], vec![])),
        cover_letter_json: Some(3usize),
    };
    let previous_title = instance.resume_json.as_ref().map(|r| r.accroche.titre.clone());
    merge_generated_outputs(&mut instance, Some("analyse".to_string()), None, None);
    assert_eq!(instance.restitution.as_deref(), Some("analyse"));
    assert_eq!(instance.resume_json.as_ref().map(|r| r.accroche.titre.clone()), previous_title);
    assert_eq!(instance.cover_letter_json, Some(3));
}

#[test]
fn merge_generated_outputs_replaces_regenerated_documents() {
    let mut instance = GeneratedDocuments {
        restitution: Some(1u8),
        resume_json: Some(2u8),
        cover_letter_json: Some(3u8),
    };
    merge_generated_outputs(&mut instance, None, Some(20), Some(30));
    assert_eq!(instance.restitution, Some(1));
    assert_eq!(instance.resume_json, Some(20));
    assert_eq!(instance.cover_letter_json, Some(30));
}

#[test]
fn build_query_text_lists_offer_sections() {
    let offre = build_test_offre();
    assert_eq!(
        build_query_text(&offre),
        "Alternance IA chez Safran. Stack: Rust, PostgreSQL. Missions: Développer ; Maintenir. Exigences: Curiosité."
    );
}

#[test]
fn rerank_instruction_names_candidate_count() {
    let s = rerank_instruction(12);
    assert!(s.starts_with("Voici une offre. Voici 12 chunks candidats du profil."));
}

#[test]
fn select_retained_keeps_valid_indices_in_order() {
    let v = vec![4usize, 9, 1, 4, 2, 3, 0, 5];
    assert_eq!(select_retained(Some(&v), 6), vec![4, 1, 4, 2, 3, 0]);
}

#[test]
fn select_retained_falls_back_to_first_three() {
    let v = vec![10usize, 11];
    assert_eq!(select_retained(Some(&v), 5), vec![0, 1, 2]);
    assert_eq!(select_retained(None, 2), vec![0, 1]);
}

#[test]
fn sanitize_title_drops_gendered_forms() {
    let mut t = "ALTERNANCE — APPRENTI INGÉNIEUR(E)   LOGICIEL".to_string();
    sanitize_title(&mut t);
    assert_eq!(t, "ALTERNANCE — INGÉNIEUR LOGICIEL");
}

#[test]
fn token_overlap_counts_shared_words() {
    assert_eq!(token_overlap("Développeur Rust backend", "backend Rust junior rust"), 2);
}

#[test]
fn harmonize_copies_identity_contact_formations_and_languages() {
    let profil = ProfileContent {
        profile: ProfileIdentity {
            firstname: "Ada".to_string(),
            lastname: "Lovelace".to_string(),
            email: "ada@example.com".to_string(),
            phone: "0600000000".to_string(),
            location: "Paris".to_string(),
            linkedin: "in/ada".to_string(),
            github: "gh/ada".to_string(),
            website: "ada.dev".to_string(),
        },
        experiences: vec![],
        education: vec![
            ProfileEducation { school: "HarvardX".to_string(), degree: "CS50".to_string(), period: "".to_string() },
            ProfileEducation { school: "EPITA".to_string(), degree: "Ingénieur".to_string(), period: "2020-2025".to_string() },
            ProfileEducation { school: "edX".to_string(), degree: "ML".to_string(), period: "2023".to_string() },
        ],
        languages: vec![ProfileLanguage { name: "Anglais".to_string(), level: "C1".to_string() }],
    };
    let mut resume = build_test_resume(vec![], vec![]);
    harmonize_resume_contact_from_profile(&profil, &mut resume);
    assert_eq!(resume.identite.nom_complet, "Ada Lovelace");
    assert_eq!(resume.identite.photo_url.as_deref(), Some("/api/profile/active/photo"));
    assert_eq!(resume.contact.email, "ada@example.com");
    assert_eq!(resume.contact.telephone.as_deref(), Some("0600000000"));
    assert_eq!(resume.contact.site_web.as_deref(), Some("ada.dev"));
    assert_eq!(resume.formations.len(), 2);
    assert_eq!(resume.formations[0].etablissement, "EPITA");
    assert_eq!(resume.formations[0].diplome, "Ingénieur");
    assert_eq!(resume.formations[1].etablissement, "HarvardX, edX");
    assert_eq!(resume.formations[1].diplome, "CS50\nML");
    assert_eq!(resume.formations[1].periode, "2023");
    assert_eq!(resume.langues, vec![Langue { langue: "Anglais".to_string(), niveau: "C1".to_string() }]);
    assert_eq!(resume.accroche.titre, "ALTERNANCE — DÉVELOPPEUR");
}

#[test]
fn sanitized_title_holds_to_fifty_characters() {
    use_sanitize();
}

fn use_sanitize() {
    let mut r = build_test_resume(vec![], vec![]);
    r.accroche.titre = format!("ALTERNANCE — {}", "DÉVELOPPEUR LOGICIEL EMBARQUÉ ET SYSTÈMES TEMPS RÉEL");
    candidature::generate::sanitize_resume_structure(&mut r);
    assert!(r.accroche.titre.chars().count() <= 50);
    assert!(r.accroche.titre.starts_with("ALTERNANCE — "));
    assert!(r.accroche.titre.ends_with('…'));
    let mut r = build_test_resume(vec![], vec![]);
    r.accroche.titre = "X".repeat(51);
    candidature::generate::sanitize_resume_structure(&mut r);
    assert_eq!(r.accroche.titre.chars().count(), 50);
    let mut r = build_test_resume(vec![], vec![]);
    r.accroche.titre = "Y".repeat(50);
    candidature::generate::sanitize_resume_structure(&mut r);
    assert_eq!(r.accroche.titre, "Y".repeat(50));
}

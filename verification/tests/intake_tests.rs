use candidature::intake::{
    build_offre_slug, canonicalize_source_url, cap_items, clean_raw_text, extract_linkedin_job_id,
    extract_target_title, fallback_extraction, is_direct_prompt, is_just_markdown_link,
    looks_like_url, offer_fingerprint, plan_resolution, validate_quality, Deduplicator,
    ResolvePlan,
};

#[test]
fn tests_url_detection() {
    assert!(looks_like_url("https://example.com/job"));
    assert!(looks_like_url("http://foo.bar"));
    assert!(!looks_like_url("Ceci est du texte brut"));
}

#[test]
fn tests_slug_generation() {
    let slug = build_offre_slug("Safran", "Alternance Data Analyst (Roche la Molière)");
    assert!(slug.as_str().contains("safran"));
    assert!(slug.as_str().contains("data"));
}

#[test]
fn slug_generation_without_company() {
    let slug = build_offre_slug("Non spécifié", "Développeur Kotlin");
    assert!(!slug.as_str().contains("non_specifie"));
    assert!(slug.as_str().contains("developpeur"));
}

#[test]
fn slug_is_collapsed_and_accent_free() {
    assert_eq!(
        build_offre_slug("Safran", "Alternance Data Analyst (Roche la Molière)"),
        "safran_alternance_data_analyst_roche_la_moliere"
    );
}

#[test]
fn slug_is_cut_to_eighty_characters_without_trailing_underscore() {
    let title = format!("{} b", "a".repeat(79));
    let slug = build_offre_slug("", &title);
    assert_eq!(slug, "a".repeat(79));
}

#[test]
fn tests_fallback_gives_first_line() {
    let (intitule, entreprise, _, _, structured) =
        fallback_extraction("Mon offre cool\nAutre ligne\nEncore");
    assert_eq!(intitule, "Mon offre cool");
    assert_eq!(entreprise, "Non spécifié");
    assert!(structured.resume_court.contains("échouée"));
}

#[test]
fn fallback_on_empty_text_uses_placeholder_title() {
    let (intitule, _, loc, contrat, structured) = fallback_extraction("");
    assert_eq!(intitule, "Offre importée");
    assert!(loc.is_none() && contrat.is_none());
    assert!(structured.stack.is_empty());
}

#[test]
fn canonicalizes_linkedin_url() {
    let out = canonicalize_source_url(
        "https://www.linkedin.com/jobs/view/1234567890/?trk=public_jobs_topcard-title",
    );
    assert_eq!(out, "https://www.linkedin.com/jobs/view/1234567890");
}

#[test]
fn canonicalizes_indeed_url() {
    let out =
        canonicalize_source_url("https://www.indeed.com/viewjob?jk=abc123&from=shareddesktop_copy");
    assert_eq!(out, "https://www.indeed.com/viewjob?jk=abc123");
}

#[test]
fn canonicalize_drops_tracking_parameters_and_fragment() {
    let out = canonicalize_source_url("https://jobs.example.com/o/42?utm_source=x&id=7&ref=y#top");
    assert_eq!(out, "https://jobs.example.com/o/42?id=7");
}

#[test]
fn canonicalize_trims_text_that_is_not_a_url() {
    assert_eq!(canonicalize_source_url("  pas une url  "), "pas une url");
}

#[test]
fn linkedin_job_id_is_first_segment_after_marker() {
    assert_eq!(extract_linkedin_job_id("/jobs/view/42/extra"), Some("42".to_string()));
    assert_eq!(extract_linkedin_job_id("/jobs/view/"), None);
    assert_eq!(extract_linkedin_job_id("/company/acme"), None);
}

#[test]
fn fingerprint_differs_for_distinct_titles() {
    let raw = "Crée 2 candidatures en alternance.";
    let fp_1 = offer_fingerprint(raw, "Data Scientist", "Non spécifié");
    let fp_2 = offer_fingerprint(raw, "Data Engineer", "Non spécifié");
    assert_ne!(fp_1, fp_2);
}

#[test]
fn fingerprint_layout() {
    assert_eq!(
        offer_fingerprint(" texte ", " Titre ", " ACME "),
        "texte\n::title::titre\n::company::acme"
    );
}

#[test]
fn cap_items_enforces_limit_and_reports_dropped() {
    let (kept, dropped) = cap_items(vec![1, 2, 3, 4, 5, 6], 5);
    assert_eq!(kept, vec![1, 2, 3, 4, 5]);
    assert_eq!(dropped, 1);
}

#[test]
fn cap_items_keeps_short_lists() {
    let (kept, dropped) = cap_items(vec![1, 2], 5);
    assert_eq!(kept, vec![1, 2]);
    assert_eq!(dropped, 0);
}

#[test]
fn markdown_link_lines_are_detected() {
    assert!(is_just_markdown_link("- [Accueil](https://example.com)"));
    assert!(!is_just_markdown_link("Mission: [voir](x) plus bas"));
}

#[test]
fn clean_raw_text_drops_short_navigation_lines() {
    let out = clean_raw_text("Titre\n[Lien](x)\nOur Teams\n\nMission: data");
    assert_eq!(out, "Titre\n\nMission: data");
}

#[test]
fn clean_raw_text_keeps_long_lines_with_cookie_word() {
    let long = format!("Mission principale {} cookie", "x".repeat(230));
    assert_eq!(clean_raw_text(&long), long);
}

#[test]
fn validate_quality_rejects_short_text_without_signal() {
    assert!(validate_quality("Bonjour").is_err());
    assert!(validate_quality("Mission courte").is_ok());
    assert!(validate_quality(&"x".repeat(600)).is_ok());
}

#[test]
fn direct_prompts_are_detected() {
    assert!(is_direct_prompt("Genere un profil DevOps"));
    assert!(is_direct_prompt("une lettre svp"));
    assert!(!is_direct_prompt("Offre de poste : data analyst"));
}

#[test]
fn target_title_follows_the_opening_verb() {
    assert_eq!(extract_target_title("Génère un CV de développeur"), "CV de développeur");
    assert_eq!(extract_target_title("\"create a backend role\""), "backend role");
    assert_eq!(extract_target_title("Poste DevOps"), "Poste DevOps");
}

#[test]
fn resolution_plans() {
    assert!(matches!(plan_resolution("   "), ResolvePlan::Rejected(_)));
    assert!(matches!(plan_resolution(" https://x.org/a "), ResolvePlan::Scrape(ref u) if u == "https://x.org/a"));
    match plan_resolution("Genere un profil DevOps") {
        ResolvePlan::Text { text, source } => {
            assert_eq!(source, "manual_prompt");
            assert!(text.contains("__TARGET_TITLE__: profil DevOps"));
        }
        _ => panic!("expected text"),
    }
    assert!(matches!(plan_resolution("trop court"), ResolvePlan::Rejected(_)));
}

#[test]
fn deduplicator_hosts_and_hash() {
    let d = Deduplicator;
    assert_eq!(d.resolve_host("manual"), "manual");
    assert_eq!(d.resolve_host("https://www.example.com/x"), "www.example.com");
    assert_eq!(d.resolve_host("http//broken"), "external");
    let h = d.compute_hash("hello");
    assert_eq!(h.len(), 32);
    assert_eq!(h[0], 0x2c);
    assert!(!d.accepts_url_lookup("manual_prompt"));
}

fn extraction(intitule: &str, entreprise: &str) -> candidature::intake::OffreExtraction {
    candidature::intake::OffreExtraction {
        intitule: intitule.to_string(),
        entreprise: entreprise.to_string(),
        localisation: Some("Paris".to_string()),
        contrat: None,
        resume_court: "Résumé".to_string(),
        stack: vec!["Rust".to_string()],
        missions: vec![],
        exigences: vec![],
        soft_skills: vec![],
        niveau_etudes: None,
        type_contrat: None,
        mots_cles: vec![],
    }
}

#[test]
fn extraction_input_puts_the_source_first() {
    assert_eq!(
        candidature::intake::extraction_input("Texte", Some("https://a.fr/job")),
        "SOURCE URL: https://a.fr/job\n\n---\n\nTexte"
    );
    assert_eq!(candidature::intake::extraction_input("Texte", None), "Texte");
}

#[test]
fn extracted_offers_keep_the_model_answer_or_fall_back() {
    let ext = candidature::intake::MultiOffreExtraction {
        offres: vec![extraction("Dev", "Acme"), extraction("Data", "Beta")],
    };
    let out = candidature::intake::extracted_offers(Some(ext), "ignoré");
    assert_eq!(out.len(), 2);
    assert_eq!(out[0].0, "Dev");
    assert_eq!(out[0].1, "Acme");
    assert_eq!(out[0].2.as_deref(), Some("Paris"));
    assert_eq!(out[0].4.stack, vec!["Rust".to_string()]);
    assert_eq!(out[1].0, "Data");

    let empty = candidature::intake::MultiOffreExtraction { offres: vec![] };
    assert!(candidature::intake::extracted_offers(Some(empty), "x").is_empty());

    let fb = candidature::intake::extracted_offers(None, "Titre\nsuite");
    assert_eq!(fb.len(), 1);
    assert_eq!(fb[0].0, "Titre");
    assert_eq!(fb[0].1, "Non spécifié");
    assert_eq!(fb[0].4.resume_court, "Extraction LLM échouée.");
    assert_eq!(fallback_extraction("Titre\nsuite"), fb[0]);
}

fn is_slug_shaped(s: &str) -> bool {
    s.len() <= 80
        && s.chars().all(|c| c.is_ascii_lowercase() || c.is_ascii_digit() || c == '_')
        && !s.starts_with('_')
        && !s.ends_with('_')
        && !s.contains("__")
}

#[test]
fn slugs_have_the_shape_of_a_slug() {
    let a = build_offre_slug("  Société Générale!!", "__Dév__ Rust  (H/F) ");
    assert_eq!(a, "societe_generale_dev_rust_h_f");
    assert!(is_slug_shaped(&a));
    let long_title = "ab_".repeat(40);
    let b = build_offre_slug("Non spécifié", &long_title);
    assert!(is_slug_shaped(&b));
    assert_eq!(b.len(), 80);
    let c = build_offre_slug("Non spécifié", &"abc_".repeat(30));
    assert!(is_slug_shaped(&c));
    assert_eq!(c.len(), 79);
}

#[test]
fn an_intake_without_offers_is_refused() {
    let r = candidature::intake::finish_intake(vec![], 2);
    assert_eq!(
        r,
        Err(candidature::errors::AppError::Validation("Aucune offre n'a pu être extraite".to_string()))
    );
    let out = candidature::intake::IntakeOutput {
        offre_slug: "acme_dev".to_string(),
        instance_id: "id".to_string(),
        instance_slug: "acme_dev__12345678".to_string(),
        was_duplicate: false,
    };
    let ok = candidature::intake::finish_intake(vec![out.clone()], 1).unwrap();
    assert_eq!(ok.outputs, vec![out]);
    assert_eq!(ok.ignored_count, 1);
}

#[test]
fn canonicalize_form_encodes_kept_parameters() {
    let out = canonicalize_source_url("https://jobs.example.com/o?q=d%C3%A9v+rust&utm_medium=m&x=a*b");
    assert_eq!(out, "https://jobs.example.com/o?q=d%C3%A9v+rust&x=a*b");
}

fn resolve_direct(raw: &str) -> (String, String) {
    match plan_resolution(raw) {
        ResolvePlan::Text { text, source } => {
            candidature::intake::finish_resolution(&text, source).expect("direct prompt should be accepted")
        }
        _ => panic!("expected a direct prompt"),
    }
}

#[test]
fn resolver_accepts_direct_prompt() {
    let (text, source) = resolve_direct("Genere un profil DevOps");
    assert_eq!(source, "manual_prompt");
    assert!(text.to_lowercase().contains("__target_title__"));
    assert!(text.to_lowercase().contains("contexte de la demande"));
    assert!(text.to_lowercase().contains("description déduite"));
}

#[test]
fn resolver_prefers_quoted_title_for_direct_prompt() {
    let (text, source) =
        resolve_direct(r#"Fais-moi un CV pour un poste en alternance, intitulé exact "Data Engineer"."#);
    assert_eq!(source, "manual_prompt");
    assert!(text.contains("__TARGET_TITLE__: Data Engineer"));
}

#[test]
fn resolver_normalizes_noisy_cv_wording_in_target_title() {
    let (text, source) = resolve_direct("CV pour un poste de Développeur Python en alternance");
    assert_eq!(source, "manual_prompt");
    assert!(text.contains("__TARGET_TITLE__: Développeur Python"), "text réel: {text}");
}

#[test]
fn resolver_normalizes_embedded_target_title_marker() {
    let (text, source) = resolve_direct("__TARGET_TITLE__: CV pour un poste de Développeur Python en alternance");
    assert_eq!(source, "manual_prompt");
    assert!(text.contains("__TARGET_TITLE__: Développeur Python"), "text réel: {text}");
}

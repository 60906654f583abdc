use candidature::errors::AppError;
use candidature::generate::{
    Accroche, Contact, GenerateError, GeneratedDocuments, Identite, Livrables, Resume,
};
use candidature::generation_flow::{generation_step, GenerationAction, GenerationEvent, GenerationState};
use candidature::intake::{OffreStructured, MAX_EXTRACTED_OFFRES_PER_INPUT};
use candidature::intake_flow::{
    intake_step, Extracted, FoundInstance, FoundOffre, IntakeAction, IntakeEvent, IntakeState,
};
use candidature::json::JsonValue;

fn extracted(title: &str, company: &str) -> Extracted {
    (
        title.to_string(),
        company.to_string(),
        None,
        None,
        OffreStructured {
            resume_court: String::new(),
            stack: vec![],
            missions: vec![],
            exigences: vec![],
            soft_skills: vec![],
            niveau_etudes: None,
            type_contrat: None,
            mots_cles: vec![],
        },
    )
}

fn found(id: &str, slug: &str) -> FoundOffre {
    FoundOffre { id: id.to_string(), slug: slug.to_string() }
}

#[test]
fn intake_answers_known_offers_as_duplicates_and_stores_new_ones() {
    let s = IntakeState::new("Texte de l'offre".to_string(), "https://acme.fr/job".to_string());
    let (s, a) = intake_step(s, IntakeEvent::Begin);
    assert!(matches!(a, IntakeAction::FindByUrl { ref url } if url == "https://acme.fr/job"));
    assert_eq!(s.host, "acme.fr");
    let (s, a) = intake_step(s, IntakeEvent::UrlLookup(None));
    assert!(matches!(a, IntakeAction::Extract { .. }));
    let (s, a) = intake_step(s, IntakeEvent::Extracted(vec![extracted("Dev", "Acme"), extracted("Data", "Beta")]));
    assert!(matches!(a, IntakeAction::FindByHash { ref hash, .. } if hash.len() == 32));
    // The first offer is known by its content hash.
    let (s, a) = intake_step(s, IntakeEvent::HashLookup { found: Some(found("o1", "acme_dev")), fresh_id: "f".to_string() });
    assert!(matches!(a, IntakeAction::FindInstance { ref offre_id } if offre_id == "o1"));
    let (s, a) = intake_step(s, IntakeEvent::InstanceLookup(Some(FoundInstance { id: "i1".to_string(), slug: "acme_dev__1".to_string() })));
    assert!(matches!(a, IntakeAction::FindByHash { .. }));
    // The second is new.
    let (s, a) = intake_step(s, IntakeEvent::HashLookup { found: None, fresh_id: "f".to_string() });
    assert!(matches!(a, IntakeAction::FindBySlug { ref slug } if slug == "beta_data"));
    let (s, a) = intake_step(s, IntakeEvent::SlugLookup(None));
    match &a {
        IntakeAction::Persist { offre, hash } => {
            assert_eq!(offre.slug, "beta_data");
            assert_eq!(offre.intitule, "Data");
            assert_eq!(offre.source_host, "acme.fr");
            assert_eq!(hash.len(), 32);
        },
        _ => panic!("the new offer is stored"),
    }
    let (s, a) = intake_step(s, IntakeEvent::Persisted { offre_id: "o2".to_string() });
    assert!(matches!(a, IntakeAction::CreateDraft { ref offre_id, ref slug } if offre_id == "o2" && slug == "beta_data"));
    let (_, a) = intake_step(s, IntakeEvent::DraftCreated(FoundInstance { id: "i2".to_string(), slug: "beta_data__2".to_string() }));
    match a {
        IntakeAction::Finish(Ok(r)) => {
            assert_eq!(r.outputs.len(), 2);
            assert!(r.outputs[0].was_duplicate);
            assert_eq!(r.outputs[0].instance_slug, "acme_dev__1");
            assert!(!r.outputs[1].was_duplicate);
            assert_eq!(r.outputs[1].offre_slug, "beta_data");
            assert_eq!(r.ignored_count, 0);
        },
        _ => panic!("the intake is over"),
    }
}

#[test]
fn intake_of_a_known_address_ends_with_that_offer() {
    let s = IntakeState::new("t".to_string(), "https://acme.fr/job".to_string());
    let (s, _) = intake_step(s, IntakeEvent::Begin);
    let (s, a) = intake_step(s, IntakeEvent::UrlLookup(Some(found("o1", "acme_dev"))));
    assert!(matches!(a, IntakeAction::FindInstance { .. }));
    let (s, a) = intake_step(s, IntakeEvent::InstanceLookup(None));
    assert!(matches!(a, IntakeAction::CreateDraft { .. }));
    let (_, a) = intake_step(s, IntakeEvent::DraftCreated(FoundInstance { id: "i".to_string(), slug: "x".to_string() }));
    match a {
        IntakeAction::Finish(Ok(r)) => {
            assert_eq!(r.outputs.len(), 1);
            assert_eq!(r.outputs[0].offre_slug, "acme_dev");
            assert!(!r.outputs[0].was_duplicate);
        },
        _ => panic!("the intake is over"),
    }
}

#[test]
fn intake_keeps_at_most_the_cap_and_refuses_an_empty_extraction() {
    let s = IntakeState::new("t".to_string(), "__raw_text__".to_string());
    let (s, a) = intake_step(s, IntakeEvent::Begin);
    assert!(matches!(a, IntakeAction::Extract { .. }));
    assert_eq!(s.host, "manual");
    let many: Vec<Extracted> = (0..7).map(|i| extracted(&format!("T{i}"), "C")).collect();
    let (s, _) = intake_step(s, IntakeEvent::Extracted(many));
    assert_eq!(s.pending.len() + 1, MAX_EXTRACTED_OFFRES_PER_INPUT);
    assert_eq!(s.dropped, 2);

    let s = IntakeState::new("t".to_string(), "__raw_text__".to_string());
    let (s, _) = intake_step(s, IntakeEvent::Begin);
    let (_, a) = intake_step(s, IntakeEvent::Extracted(vec![]));
    assert!(matches!(a, IntakeAction::Finish(Err(AppError::Validation(ref m))) if m == "Aucune offre n'a pu être extraite"));
}

fn resume(n_exp: usize) -> Resume {
    Resume {
        identite: Identite { nom_complet: "A".to_string(), photo_url: None },
        accroche: Accroche { titre: "T".to_string(), paragraphe: "P".to_string(), duree: None, rythme: None },
        contact: Contact {
            email: "a@b.c".to_string(),
            telephone: None,
            localisation: "Paris".to_string(),
            linkedin: None,
            github: None,
            site_web: None,
        },
        experiences: (0..n_exp)
            .map(|_| candidature::generate::Experience {
                poste: "Dev".to_string(),
                entreprise: "X".to_string(),
                localisation: None,
                periode: "2024".to_string(),
                bullets: vec![],
            })
            .collect(),
        formations: vec![],
        projets: vec![],
        competences: vec![],
        langues: vec![],
    }
}

#[test]
fn generation_without_deliverable_is_refused_first() {
    let s = GenerationState::new(Livrables { restitution: false, resume: false, cover_letter: false });
    let (_, a) = generation_step(s, GenerationEvent::Begin);
    assert!(matches!(a, GenerationAction::Finish(Err(GenerateError::AucunLivrable))));
}

#[test]
fn generation_marks_ready_with_merged_documents() {
    let s = GenerationState::new(Livrables { restitution: false, resume: true, cover_letter: false });
    let (s, a) = generation_step(s, GenerationEvent::Begin);
    assert!(matches!(a, GenerationAction::LoadContext));
    let existing = GeneratedDocuments { restitution: Some(JsonValue::Bool(true)), resume_json: Some(resume(0)), cover_letter_json: None };
    let (s, a) = generation_step(s, GenerationEvent::ContextLoaded { existing: Some(existing) });
    match &a {
        GenerationAction::WriteGenerating(d) => {
            assert_eq!(d.restitution, Some(JsonValue::Bool(true)));
            assert!(d.resume_json.is_none());
        },
        _ => panic!("marked generating"),
    }
    let (s, a) = generation_step(s, GenerationEvent::Written);
    assert!(matches!(a, GenerationAction::RunSteps));
    let (s, a) = generation_step(s, GenerationEvent::StepsDone { produced: (None, Some(resume(1)), None), cover_complete: None });
    assert!(matches!(a, GenerationAction::Reload));
    let stored = GeneratedDocuments { restitution: Some(JsonValue::Bool(true)), resume_json: None, cover_letter_json: None };
    let (s, a) = generation_step(s, GenerationEvent::Reloaded(Some(stored)));
    match &a {
        GenerationAction::WriteReady(d) => {
            assert_eq!(d.restitution, Some(JsonValue::Bool(true)));
            assert_eq!(d.resume_json.as_ref().map(|r| r.experiences.len()), Some(1));
        },
        _ => panic!("marked ready"),
    }
    let (_, a) = generation_step(s, GenerationEvent::Written);
    assert!(matches!(a, GenerationAction::Finish(Ok(()))));
}

#[test]
fn generation_failure_after_marking_generating_marks_failed() {
    let s = GenerationState::new(Livrables::default());
    let (s, _) = generation_step(s, GenerationEvent::Begin);
    let (s, _) = generation_step(s, GenerationEvent::ContextLoaded { existing: None });
    let (s, _) = generation_step(s, GenerationEvent::Written);
    let (s, a) = generation_step(s, GenerationEvent::StepsDone { produced: (None, Some(resume(0)), None), cover_complete: Some(true) });
    assert!(matches!(a, GenerationAction::WriteFailed));
    let (_, a) = generation_step(s, GenerationEvent::Written);
    assert!(matches!(a, GenerationAction::Finish(Err(GenerateError::Invalide(ref m))) if m == "CV vide (ni expérience ni formation)"));

    let s = GenerationState::new(Livrables::default());
    let (s, _) = generation_step(s, GenerationEvent::Begin);
    let (_, a) = generation_step(s, GenerationEvent::Failed(GenerateError::OffreIntrouvable("o".to_string())));
    assert!(matches!(a, GenerationAction::Finish(Err(GenerateError::OffreIntrouvable(_)))));
}

use candidature::ingest::IngestConfig;
use candidature::ingest_flow::{item_step, ItemAction, ItemEvent, ItemState};
use candidature::intake::{IntakeExecutionResult, IntakeOutput};

fn output(slug: &str, id: &str, dup: bool) -> IntakeOutput {
    IntakeOutput {
        offre_slug: slug.to_string(),
        instance_id: id.to_string(),
        instance_slug: format!("{slug}__1"),
        was_duplicate: dup,
    }
}

#[test]
fn an_item_generates_only_new_offers_and_stops_at_the_first_failure() {
    let cfg = IngestConfig { resume: true, cover: false, restitution: false };
    let s = ItemState::new("https://a.fr/job".to_string(), Some(&cfg));
    let (s, a) = item_step(s, ItemEvent::Begin);
    assert!(matches!(a, ItemAction::RunIntake { .. }));
    let res = IntakeExecutionResult { outputs: vec![output("dup", "i0", true), output("new", "i1", false)], ignored_count: 1 };
    let (s, a) = item_step(s, ItemEvent::IntakeDone(Ok(res)));
    assert!(matches!(a, ItemAction::LoadInstance { ref instance_id } if instance_id == "i1"));
    let (s, a) = item_step(s, ItemEvent::InstanceFound(Ok(true)));
    assert!(matches!(a, ItemAction::Generate { ref instance_id } if instance_id == "i1"));
    let (_, a) = item_step(s, ItemEvent::Generated(Err("quota".to_string())));
    match a {
        ItemAction::Done(o) => {
            assert_eq!(o.results.len(), 1);
            assert!(o.results[0].duplicate);
            assert_eq!(o.ignored_count, 1);
            assert_eq!(o.error.unwrap().error, "Erreur de génération : quota");
        },
        _ => panic!("the item is over"),
    }

    let s = ItemState::new("x".to_string(), None);
    let (s, _) = item_step(s, ItemEvent::Begin);
    let (_, a) = item_step(s, ItemEvent::IntakeDone(Err(AppError::Validation("input vide".to_string()))));
    match a {
        ItemAction::Done(o) => {
            assert!(o.results.is_empty());
            assert_eq!(o.error.unwrap().error, "input vide");
        },
        _ => panic!("the item is over"),
    }
}

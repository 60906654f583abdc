use candidature::basic_intake::{
    build_offre_slug, check_content_quality, clean_raw_text, fallback_extraction,
    fallback_is_defined, looks_like_url, try_fallback_extraction,
};
use candidature::errors::AppError;

#[test]
fn intake_url_detection() {
    assert!(looks_like_url("https://example.com/job"));
    assert!(looks_like_url("http://foo.bar"));
    assert!(!looks_like_url("Ceci est du texte brut"));
    assert!(!looks_like_url(""));
}

#[test]
fn intake_slug_generation() {
    let slug = build_offre_slug("Safran", "Alternance Data Analyst (Roche la Molière)");
    assert!(slug.as_str().contains("safran"));
    assert!(slug.as_str().contains("data"));
}

#[test]
fn intake_fallback_gives_first_line() {
    let (intitule, entreprise, _, _, structured) =
        fallback_extraction("Mon offre cool\nAutre ligne\nEncore");
    assert_eq!(intitule, "Mon offre cool");
    assert_eq!(entreprise, "Autre ligne");
    assert!(structured.resume_court.contains("échouée"));
}

#[test]
fn url_detection_ignores_surrounding_spaces() {
    assert!(looks_like_url("   https://example.com  "));
}

#[test]
fn fallback_is_refused_when_title_cut_splits_a_character() {
    let title = "é".repeat(61);
    assert!(!fallback_is_defined(&title));
    assert!(try_fallback_extraction(&title).is_none());
    assert!(fallback_is_defined("Une seule ligne"));
    let (intitule, entreprise, _, _, _) = try_fallback_extraction("Une seule ligne").unwrap();
    assert_eq!(intitule, "Une seule ligne");
    assert_eq!(entreprise, "Non identifié");
}

#[test]
fn fallback_takes_company_from_chez_line() {
    let (_, entreprise, _, _, _) = fallback_extraction("Dev Rust
Poste chez Safran
Paris");
    assert_eq!(entreprise, "Poste  Safran");
}

#[test]
fn quality_check_refuses_short_text() {
    assert!(matches!(check_content_quality("trop court"), Err(AppError::Other(_))));
}

#[test]
fn clean_raw_text_keeps_meaningful_lines() {
    let out = clean_raw_text("Mission principale : développer des services Rust\n\n\nCookie");
    assert!(out.contains("Mission principale"));
}

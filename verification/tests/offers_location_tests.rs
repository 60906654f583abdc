use candidature::location::{
    extract_paris_arrondissement, format_arrondissement, normalize_location,
    parse_arrondissement_token, roman_to_int,
};
use candidature::offers::{
    clamp_list_limit, default_limit, infer_business_category, public_offer_category,
};

#[test]
fn list_limit_is_clamped() {
    assert_eq!(default_limit(), 50);
    assert_eq!(clamp_list_limit(0), 1);
    assert_eq!(clamp_list_limit(42), 42);
    assert_eq!(clamp_list_limit(1000), 100);
}

#[test]
fn category_is_inferred_from_slug_and_title() {
    assert_eq!(infer_business_category("safran_data_analyst", "Alternance Data Analyst"), "Data");
    assert_eq!(infer_business_category("x", "Développeur Kotlin"), "Software");
}

#[test]
fn stored_category_is_kept_unless_placeholder() {
    assert_eq!(public_offer_category("x", "Développeur Kotlin", Some("  Finance  ")), "Finance");
    assert_eq!(public_offer_category("x", "Data Scientist", Some("inbox")), "Data");
    assert_eq!(public_offer_category("x", "Data Scientist", None), "Data");
}

#[test]
fn long_stored_category_is_cut() {
    let long = "a".repeat(40);
    assert_eq!(public_offer_category("x", "y", Some(&long)), format!("{}...", "a".repeat(32)));
}

#[test]
fn arrondissement_is_formatted() {
    assert_eq!(format_arrondissement(1), "1er");
    assert_eq!(format_arrondissement(11), "11e");
}

#[test]
fn roman_numerals_are_read() {
    assert_eq!(roman_to_int("xi"), Some(11));
    assert_eq!(roman_to_int("XX"), Some(20));
    assert_eq!(roman_to_int("iv"), Some(4));
    assert_eq!(roman_to_int("abc"), None);
}

#[test]
fn arrondissement_tokens_are_read() {
    assert_eq!(parse_arrondissement_token("11e"), Some(11));
    assert_eq!(parse_arrondissement_token("1er"), Some(1));
    assert_eq!(parse_arrondissement_token("xie"), Some(11));
    assert_eq!(parse_arrondissement_token("25e"), None);
}

#[test]
fn paris_district_is_found() {
    assert_eq!(extract_paris_arrondissement("75011 Paris"), Some(11));
    assert_eq!(extract_paris_arrondissement("Paris XIe"), Some(11));
    assert_eq!(extract_paris_arrondissement("Lyon 3e"), None);
}

#[test]
fn location_is_normalized() {
    assert_eq!(normalize_location("paris 11e arrondissement"), "Paris, 11e arr.");
    assert_eq!(normalize_location("  Lyon   Part-Dieu "), "Lyon Part-Dieu");
    assert_eq!(normalize_location("   "), "");
}

use candidature::scrape::{
    extract_jobposting_json_ld, extract_main_text, extract_meta_job_description,
    is_antibot_page, normalize_inline_whitespace, normalize_text_nodes, scrapingant_config,
    scrapingant_next_step, scrapingant_query, scrapingant_retry_backoff,
    should_retry_scrapingant, should_try_scrapingant_fallback, strip_common_boilerplate,
    to_scrape_result, AttemptOutcome, RetryDecision, ScrapeError,
};

#[test]
fn detecte_cloudflare() {
    let html = r#"<html><body><h1>Just a Moment...</h1></body></html>"#;
    assert!(is_antibot_page(html));
}

#[test]
fn ignore_html_normal() {
    let html = r#"<html><body><article>contenu réel</article></body></html>"#;
    assert!(!is_antibot_page(html));
}

#[test]
fn fallback_is_triggered_on_antibot() {
    assert!(should_try_scrapingant_fallback(&ScrapeError::AntiBotDetected));
}

#[test]
fn fallback_is_triggered_on_forbidden_status() {
    assert!(should_try_scrapingant_fallback(&ScrapeError::BadStatus(403)));
}

#[test]
fn fallback_is_not_triggered_on_invalid_url() {
    assert!(!should_try_scrapingant_fallback(&ScrapeError::InvalidUrl("bad".into())));
}

#[test]
fn fallback_is_not_triggered_on_not_found() {
    assert!(!should_try_scrapingant_fallback(&ScrapeError::BadStatus(404)));
    assert!(should_try_scrapingant_fallback(&ScrapeError::BadStatus(503)));
}

#[test]
fn extracts_jobposting_description_from_json_ld() {
    let html = r#"
        <html><head>
            <script type="application/ld+json">
            {
              "@context": "https://schema.org",
              "@type": "JobPosting",
              "title": "Data Analyst Alternance",
              "description": "Mission: construire des dashboards et analyser des donnees pour les equipes metier."
            }
            </script>
        </head><body><div>Cookie settings</div></body></html>
        "#;

    let text = extract_main_text(html);
    assert!(text.contains("Data Analyst Alternance"));
    assert!(text.contains("dashboards"));
}

#[test]
fn keeps_meaningful_long_lines_even_with_cookie_words() {
    let noisy = "Mission principale analyser les donnees produit et construire des tableaux de bord pour les equipes metier. Cookie consent banner texte annexe. Cette meme ligne reste volontairement longue pour simuler un scrape monocorde qui contient aussi des mots de navigation.";
    let cleaned = strip_common_boilerplate(noisy);
    assert!(cleaned.contains("Mission principale"));
}

#[test]
fn retries_on_scrapingant_concurrency_limit() {
    let body = r#"{"detail":"Free user concurrency limit reached."}"#;
    assert!(should_retry_scrapingant(409, body));
}

#[test]
fn retry_is_refused_on_plain_client_error() {
    assert!(!should_retry_scrapingant(400, "bad request"));
    assert!(should_retry_scrapingant(400, "Please TRY AGAIN later"));
}

#[test]
fn short_cookie_lines_are_dropped() {
    let cleaned = strip_common_boilerplate("Accepter tout\n\n  Poste   en alternance  \nPrivacy policy");
    assert_eq!(cleaned, "Poste en alternance");
}

#[test]
fn whitespace_is_normalized() {
    assert_eq!(normalize_inline_whitespace("  a \t b\n c "), "a b c");
    let nodes = vec!["  x ".to_string(), "   ".to_string(), "y  z".to_string()];
    assert_eq!(normalize_text_nodes(&nodes), "x\ny z");
}

#[test]
fn long_json_ld_description_is_used() {
    let desc = "Vous rejoindrez une équipe produit. ".repeat(10);
    let html = format!(
        r#"<html><head><script type="application/ld+json">{{"@type": ["Thing", "JobPosting"], "title": "Dev Rust", "description": "{}"}}</script></head><body><p>autre</p></body></html>"#,
        desc
    );
    let found = extract_jobposting_json_ld(&html).expect("a job posting text");
    assert!(found.starts_with("Dev Rust\nVous rejoindrez"));
    assert_eq!(extract_main_text(&html), found);
}

#[test]
fn meta_description_is_used_when_long_enough() {
    let long = "Offre d'alternance en analyse de données au sein d'une équipe produit, missions variées et encadrement par des experts du domaine.";
    let html = format!(
        r#"<html><head><meta name="description" content="{}"><meta name="twitter:description" content="court"></head><body></body></html>"#,
        long
    );
    assert_eq!(extract_meta_job_description(&html), Some(long.to_string()));
}

#[test]
fn to_scrape_result_refuses_antibot_and_short_pages() {
    let r = to_scrape_result("u", "u", 200, b"<html><body>Just a moment...</body></html>");
    assert_eq!(r, Err(ScrapeError::AntiBotDetected));
    let r = to_scrape_result("u", "u", 200, b"<html><body><p>trop court</p></body></html>");
    assert_eq!(r, Err(ScrapeError::EmptyContent));
}

#[test]
fn to_scrape_result_keeps_long_article() {
    let body = "Texte de l'offre avec missions et profil recherché. ".repeat(12);
    let html = format!("<html><body><article>{}</article></body></html>", body);
    let r = to_scrape_result("https://a.fr/o", "https://a.fr/o2", 200, html.as_bytes()).unwrap();
    assert_eq!(r.url, "https://a.fr/o");
    assert_eq!(r.final_url, "https://a.fr/o2");
    assert_eq!(r.status, 200);
    assert_eq!(r.raw_text, body.trim());
}

#[test]
fn scrapingant_config_reads_settings() {
    assert!(scrapingant_config(None, None, None, None, None, None).is_none());
    assert!(scrapingant_config(Some("   "), None, None, None, None, None).is_none());
    let c = scrapingant_config(Some(" key "), Some(" "), Some("120"), Some(" OFF "), Some("Residential "), Some(" fr ")).unwrap();
    assert_eq!(c.api_key, "key");
    assert_eq!(c.endpoint, "https://api.scrapingant.com/v2/general");
    assert_eq!(c.timeout_secs, 60);
    assert!(!c.browser);
    assert_eq!(c.proxy_type.as_deref(), Some("residential"));
    assert_eq!(c.proxy_country.as_deref(), Some("fr"));
    let d = scrapingant_config(Some("k"), None, Some("abc"), None, Some("mobile"), None).unwrap();
    assert_eq!(d.timeout_secs, 45);
    assert!(d.browser);
    assert!(d.proxy_type.is_none());
}

#[test]
fn scrapingant_query_lists_parameters() {
    let c = scrapingant_config(Some("k"), None, Some("3"), Some("yes"), None, Some("fr")).unwrap();
    let q = scrapingant_query(&c, "https://a.fr");
    let expected: Vec<(String, String)> = vec![
        ("url".into(), "https://a.fr".into()),
        ("x-api-key".into(), "k".into()),
        ("browser".into(), "true".into()),
        ("timeout".into(), "5".into()),
        ("proxy_country".into(), "fr".into()),
    ];
    assert_eq!(q, expected);
}

#[test]
fn scrapingant_steps_follow_attempts() {
    assert_eq!(scrapingant_retry_backoff(0), 800);
    assert_eq!(scrapingant_retry_backoff(3), 2400);
    assert_eq!(scrapingant_next_step(&AttemptOutcome::Success, 1), RetryDecision::Done);
    assert_eq!(
        scrapingant_next_step(&AttemptOutcome::Status(429, String::new()), 2),
        RetryDecision::RetryAfter(1600)
    );
    assert_eq!(scrapingant_next_step(&AttemptOutcome::Status(429, String::new()), 4), RetryDecision::Fail);
    assert_eq!(scrapingant_next_step(&AttemptOutcome::Status(401, String::new()), 1), RetryDecision::Fail);
    assert_eq!(scrapingant_next_step(&AttemptOutcome::Transport, 3), RetryDecision::RetryAfter(2400));
}

use candidature::errors::ApiError;
use candidature::ingest::{
    host_key_for_item, livrables_for, parallelism_setting, parse_input_items,
    prepare_ingest_items, sanitize_url_token, should_generate, summarize_ingest, IngestConfig,
    IngestedItem, ItemFailure, ItemOutcome, MAX_INGEST_ITEMS,
};

#[test]
fn single_url() {
    let items = parse_input_items("https://example.com/job");
    assert_eq!(items.len(), 1);
    assert_eq!(items[0], "https://example.com/job");
}

#[test]
fn multiple_urls() {
    let input = "https://example.com/job1\nhttps://example.com/job2\nhttps://example.com/job3";
    let items = parse_input_items(input);
    assert_eq!(items.len(), 3);
}

#[test]
fn raw_text_is_single_item() {
    let input = "Alternance Data Analyst\nChez Safran\nMissions:\n- Analyser des données\n- Créer des dashboards";
    let items = parse_input_items(input);
    assert_eq!(items.len(), 1);
    assert!(items[0].contains("Safran"));
    assert!(items[0].contains("dashboards"));
}

#[test]
fn mixed_urls_and_text() {
    let input = "https://example.com/job1\nsome random text\nhttps://example.com/job2";
    let items = parse_input_items(input);
    assert_eq!(items.len(), 2);
}

#[test]
fn extracts_urls_inside_sentences() {
    let input = "LinkedIn: https://www.linkedin.com/jobs/view/1234567890/?trk=abc then Indeed https://www.indeed.com/viewjob?jk=abc123&from=share";
    let items = parse_input_items(input);
    assert_eq!(items.len(), 2);
    assert!(items[0].contains("linkedin.com/jobs/view/1234567890"));
    assert!(items[1].contains("indeed.com/viewjob?jk=abc123"));
}

#[test]
fn ignores_trailing_punctuation_for_urls() {
    let input = "- https://www.linkedin.com/jobs/view/12345/, \n(https://www.indeed.com/viewjob?jk=abcde);";
    let items = parse_input_items(input);
    assert_eq!(items.len(), 2);
    assert_eq!(items[0], "https://www.linkedin.com/jobs/view/12345/");
    assert_eq!(items[1], "https://www.indeed.com/viewjob?jk=abcde");
}

#[test]
fn should_generate_is_false_without_config() {
    assert!(!should_generate(None));
}

#[test]
fn should_generate_detects_true_flags() {
    assert!(should_generate(Some(&IngestConfig { resume: true, cover: false, restitution: false })));
}

#[test]
fn should_generate_is_false_when_every_flag_is_off() {
    assert!(!should_generate(Some(&IngestConfig { resume: false, cover: false, restitution: false })));
}

#[test]
fn parse_input_items_drops_repeated_urls() {
    let items = parse_input_items("https://a.fr/x https://a.fr/x \"https://b.fr/y\"");
    assert_eq!(items, vec!["https://a.fr/x".to_string(), "https://b.fr/y".to_string()]);
}

#[test]
fn raw_text_is_trimmed() {
    let items = parse_input_items("   Offre brute  \n");
    assert_eq!(items, vec!["Offre brute".to_string()]);
}

#[test]
fn sanitize_url_token_strips_wrapping_punctuation() {
    assert_eq!(sanitize_url_token("(<https://x.fr/a>);"), "https://x.fr/a");
    assert_eq!(sanitize_url_token("\"\""), "");
}

#[test]
fn livrables_for_copies_flags() {
    let l = livrables_for(&IngestConfig { resume: true, cover: false, restitution: true });
    assert!(l.restitution && l.resume && !l.cover_letter);
}

#[test]
fn prepare_ingest_items_rejects_blank_input() {
    assert_eq!(prepare_ingest_items("   \n "), Err(ApiError::BadRequest("input vide".to_string())));
}

#[test]
fn prepare_ingest_items_caps_at_limit() {
    let input = "https://a.fr/1 https://a.fr/2 https://a.fr/3 https://a.fr/4 https://a.fr/5 https://a.fr/6 https://a.fr/7";
    let (items, rejected) = prepare_ingest_items(input).unwrap();
    assert_eq!(items.len(), MAX_INGEST_ITEMS);
    assert_eq!(items[4], "https://a.fr/5");
    assert_eq!(rejected, 2);
}

#[test]
fn host_key_groups_by_lowercased_host() {
    assert_eq!(host_key_for_item("  https://WWW.Example.com/jobs/1 "), "www.example.com");
    assert_eq!(host_key_for_item("http://foo.bar"), "foo.bar");
    assert_eq!(host_key_for_item("Offre en texte brut"), "__raw_text__");
}

#[test]
fn parallelism_setting_reads_positive_values_only() {
    assert_eq!(parallelism_setting(Some("3"), 2, 8), 3);
    assert_eq!(parallelism_setting(Some("30"), 2, 8), 8);
    assert_eq!(parallelism_setting(Some("0"), 2, 8), 2);
    assert_eq!(parallelism_setting(Some("abc"), 2, 8), 2);
    assert_eq!(parallelism_setting(None, 2, 8), 2);
}

fn item(slug: &str) -> IngestedItem {
    IngestedItem {
        offer_slug: slug.to_string(),
        instance_slug: format!("{}__abcd1234", slug),
        duplicate: false,
    }
}

#[test]
fn summarize_ingest_refuses_when_nothing_recorded() {
    let outcomes = vec![ItemOutcome {
        results: vec![],
        ignored_count: 0,
        error: Some(ItemFailure { input: "x".to_string(), error: "contenu vide".to_string() }),
    }];
    let r = summarize_ingest(outcomes, 0);
    match r {
        Err(ApiError::BadRequest(m)) => {
            assert_eq!(m, "Aucune offre n'a pu être ingérée. contenu vide")
        },
        _ => panic!("expected a refusal"),
    }
}

#[test]
fn summarize_ingest_reports_first_offer_and_counts() {
    let outcomes = vec![
        ItemOutcome { results: vec![item("a"), item("b")], ignored_count: 1, error: None },
        ItemOutcome {
            results: vec![],
            ignored_count: 0,
            error: Some(ItemFailure { input: "y".to_string(), error: "boom".to_string() }),
        },
    ];
    let s = match summarize_ingest(outcomes, 3) {
        Ok(s) => s,
        Err(_) => panic!("expected a summary"),
    };
    assert_eq!(s.job_id, "a");
    assert_eq!(s.instance_id, "a__abcd1234");
    assert_eq!(s.items.len(), 2);
    assert_eq!(s.errors.len(), 1);
    assert_eq!(s.queue_limit, MAX_INGEST_ITEMS);
    assert_eq!(s.ignored_extracted_count, 1);
    assert_eq!(s.ignored_demands_count, 4);
    assert_eq!(s.failed_count, 1);
    assert_eq!(s.accepted_count, 2);
    assert!(s.warning.is_some());
}

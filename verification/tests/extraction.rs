use indeed_scraper::error::Error;
use indeed_scraper::scraper::{get_text_optional, get_text_or_default, CardSnapshot, IndeedScraper};
use indeed_scraper::text::{trim_str, trimmed_nonempty};

fn good_card(title: &str, jk: &str) -> CardSnapshot {
    CardSnapshot {
        title_primary: Some(title.to_string()),
        title_fallback: None,
        company_primary: Some("Acme Corp".to_string()),
        company_fallback: None,
        location_primary: Some("Remote".to_string()),
        location_fallback: None,
        salary_text: None,
        snippet_primary: Some("Build things.".to_string()),
        snippet_fallback: None,
        data_jk: Some(jk.to_string()),
        title_link: None,
        descendant_jk: None,
    }
}

#[test]
fn trimming_handles_unicode_whitespace() {
    assert_eq!(trim_str("  hi\t\n"), "hi");
    assert_eq!(trim_str("\u{3000}hi\u{a0}"), "hi");
    assert_eq!(trim_str(""), "");
    assert!(!trimmed_nonempty(" \t \n"));
    assert!(trimmed_nonempty(" x "));
}

#[test]
fn primary_text_wins_when_nonblank() {
    let r = get_text_or_default(
        &Some("  Engineer  ".to_string()),
        &Some("Fallback".to_string()),
    );
    assert_eq!(r, Some("Engineer".to_string()));
}

#[test]
fn blank_primary_falls_back() {
    let r = get_text_or_default(&Some("   ".to_string()), &Some(" Fallback ".to_string()));
    assert_eq!(r, Some("Fallback".to_string()));
    let r = get_text_or_default(&None, &Some("Fallback".to_string()));
    assert_eq!(r, Some("Fallback".to_string()));
    let r = get_text_or_default(&Some(" ".to_string()), &Some("\t".to_string()));
    assert_eq!(r, None);
}

#[test]
fn optional_text_is_trimmed_or_absent() {
    assert_eq!(get_text_optional(&Some(" $50k ".to_string())), Some("$50k".to_string()));
    assert_eq!(get_text_optional(&Some("  ".to_string())), None);
    assert_eq!(get_text_optional(&None), None);
}

#[test]
fn full_card_extracts_every_field() {
    let scraper = IndeedScraper::new();
    let mut card = good_card(" Software Engineer ", "abc123");
    card.salary_text = Some(" $100k - $120k ".to_string());
    let job = scraper.extract_job_data(&card).unwrap();
    assert_eq!(job.title, "Software Engineer");
    assert_eq!(job.company, "Acme Corp");
    assert_eq!(job.location, "Remote");
    assert_eq!(job.salary, Some("$100k - $120k".to_string()));
    assert_eq!(job.description_snippet, "Build things.");
    assert_eq!(job.indeed_job_key, "abc123");
    assert_eq!(job.url, "https://www.indeed.com/viewjob?jk=abc123");
}

#[test]
fn optional_fields_fall_back_to_defaults() {
    let scraper = IndeedScraper::new();
    let mut card = good_card("Engineer", "k1");
    card.company_primary = None;
    card.location_primary = Some(" \t".to_string());
    card.snippet_primary = None;
    let job = scraper.extract_job_data(&card).unwrap();
    assert_eq!(job.company, "Unknown Company");
    assert_eq!(job.location, "Unknown Location");
    assert_eq!(job.salary, None);
    assert_eq!(job.description_snippet, "");
}

#[test]
fn missing_title_fails_the_card() {
    let scraper = IndeedScraper::new();
    let mut card = good_card("  ", "k1");
    card.title_fallback = Some(" ".to_string());
    match scraper.extract_job_data(&card) {
        Err(Error::Scraper(m)) => assert_eq!(m, "Could not find job title"),
        _ => panic!("expected a scraper error"),
    }
}

#[test]
fn missing_key_fails_the_card() {
    let scraper = IndeedScraper::new();
    let mut card = good_card("Engineer", "k1");
    card.data_jk = None;
    match scraper.extract_job_data(&card) {
        Err(Error::Scraper(m)) => assert_eq!(m, "Could not find job key"),
        _ => panic!("expected a scraper error"),
    }
}

#[test]
fn title_fallback_selector_is_used() {
    let scraper = IndeedScraper::new();
    let mut card = good_card(" ", "k2");
    card.title_fallback = Some(" Backup Title ".to_string());
    let job = scraper.extract_job_data(&card).unwrap();
    assert_eq!(job.title, "Backup Title");
}

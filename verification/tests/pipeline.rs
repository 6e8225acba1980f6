use indeed_scraper::error::Error;
use indeed_scraper::report::{check_created, process_scraped, JobListing, ListingStore};
use indeed_scraper::scraper::{CardSnapshot, IndeedScraper, PageSnapshot};

fn card(title: Option<&str>, jk: Option<&str>) -> CardSnapshot {
    CardSnapshot {
        title_primary: title.map(|t| t.to_string()),
        title_fallback: None,
        company_primary: Some("Acme Corp".to_string()),
        company_fallback: None,
        location_primary: Some("Remote".to_string()),
        location_fallback: None,
        salary_text: None,
        snippet_primary: Some("Snippet.".to_string()),
        snippet_fallback: None,
        data_jk: jk.map(|k| k.to_string()),
        title_link: None,
        descendant_jk: None,
    }
}

fn page(primary: Vec<CardSnapshot>, fallback: Vec<CardSnapshot>) -> PageSnapshot {
    PageSnapshot { primary_cards: primary, fallback_cards: fallback, page_html: "<html>page</html>".to_string() }
}

fn three_good_one_bad() -> Vec<CardSnapshot> {
    vec![
        card(Some("Engineer A"), Some("k1")),
        card(Some("Engineer B"), Some("k2")),
        card(None, None),
        card(Some("Engineer C"), Some("k3")),
    ]
}

#[test]
fn failing_cards_are_omitted_not_fatal() {
    let scraper = IndeedScraper::new();
    let jobs = scraper
        .scrape("engineer", "remote", page(three_good_one_bad(), Vec::new()))
        .unwrap();
    assert_eq!(jobs.len(), 3);
    assert_eq!(jobs[0].indeed_job_key, "k1");
    assert_eq!(jobs[1].indeed_job_key, "k2");
    assert_eq!(jobs[2].indeed_job_key, "k3");
}

#[test]
fn all_cards_failing_still_succeeds_with_nothing() {
    let scraper = IndeedScraper::new();
    let jobs = scraper
        .scrape("engineer", "remote", page(vec![card(None, None)], Vec::new()))
        .unwrap();
    assert_eq!(jobs.len(), 0);
}

#[test]
fn fallback_selector_cards_are_used_when_primary_finds_none() {
    let scraper = IndeedScraper::new();
    let jobs = scraper
        .scrape(
            "engineer",
            "remote",
            page(Vec::new(), vec![card(Some("T"), Some("k9"))]),
        )
        .unwrap();
    assert_eq!(jobs.len(), 1);
    assert_eq!(jobs[0].indeed_job_key, "k9");
}

#[test]
fn no_cards_at_all_fails_with_page_diagnostics() {
    let scraper = IndeedScraper::new();
    let mut p = page(Vec::new(), Vec::new());
    p.page_html = "<html>blocked or redirected</html>".to_string();
    match scraper.scrape("engineer", "remote", p) {
        Err(Error::Scraper(m)) => {
            assert!(m.starts_with("No job cards found on page: "));
            assert!(m.contains("https://www.indeed.com/jobs?q=engineer&l=remote"));
            assert!(m.contains("<html>blocked or redirected</html>"));
        }
        _ => panic!("expected the run to fail hard"),
    }
}

#[test]
fn dedup_is_idempotent_for_one_record() {
    let scraper = IndeedScraper::new();
    let source = "indeed".to_string();
    let mut store = ListingStore::new();

    let jobs = scraper
        .scrape("engineer", "remote", page(vec![card(Some("T"), Some("k1"))], Vec::new()))
        .unwrap();
    let first = process_scraped(&jobs, &source, 1000, &mut store);
    assert_eq!(first.new_listings, 1);
    assert_eq!(first.duplicates_skipped, 0);
    assert_eq!(store.len(), 1);

    let jobs_again = scraper
        .scrape("engineer", "remote", page(vec![card(Some("T"), Some("k1"))], Vec::new()))
        .unwrap();
    let second = process_scraped(&jobs_again, &source, 2000, &mut store);
    assert_eq!(second.new_listings, 0);
    assert_eq!(second.duplicates_skipped, 1);
    assert_eq!(store.len(), 1);
    assert_eq!(store.get(0).indeed_job_key, "k1");
    assert_eq!(store.get(0).source, "indeed");
}

#[test]
fn report_counts_always_add_up() {
    let scraper = IndeedScraper::new();
    let source = "indeed".to_string();
    let mut store = ListingStore::new();
    let jobs = scraper
        .scrape(
            "engineer",
            "remote",
            page(
                vec![
                    card(Some("A"), Some("k1")),
                    card(Some("B"), Some("k1")),
                    card(Some("C"), Some("k2")),
                ],
                Vec::new(),
            ),
        )
        .unwrap();
    let report = process_scraped(&jobs, &source, 1000, &mut store);
    assert_eq!(report.total_scraped, 3);
    assert_eq!(report.new_listings, 2);
    assert_eq!(report.duplicates_skipped, 1);
    assert_eq!(report.new_listings + report.duplicates_skipped, report.total_scraped);
    assert_eq!(report.listings.len(), 2);
}

#[test]
fn end_to_end_first_run_persists_then_second_run_skips() {
    let scraper = IndeedScraper::new();
    let mut store = ListingStore::new();

    let first = scraper
        .scrape_and_report(
            "software engineer",
            "san francisco, ca",
            page(three_good_one_bad(), Vec::new()),
            1_700_000_000_000,
            &mut store,
        )
        .unwrap();
    assert_eq!(first.total_scraped, 3);
    assert_eq!(first.new_listings, 3);
    assert_eq!(first.duplicates_skipped, 0);
    assert_eq!(first.listings.len(), 3);
    assert_eq!(first.listings[0].source, "indeed");
    assert_eq!(first.listings[0].scraped_at, 1_700_000_000_000);

    let second = scraper
        .scrape_and_report(
            "software engineer",
            "san francisco, ca",
            page(three_good_one_bad(), Vec::new()),
            1_700_000_100_000,
            &mut store,
        )
        .unwrap();
    assert_eq!(second.total_scraped, 3);
    assert_eq!(second.new_listings, 0);
    assert_eq!(second.duplicates_skipped, 3);
    assert_eq!(store.len(), 3);
}

#[test]
fn blank_inputs_are_rejected_before_any_work() {
    let scraper = IndeedScraper::new();
    let mut store = ListingStore::new();
    match scraper.scrape_and_report("  ", "remote", page(three_good_one_bad(), Vec::new()), 0, &mut store) {
        Err(Error::BadRequest(m)) => assert_eq!(m, "job_title is required"),
        _ => panic!("expected a bad-request error"),
    }
    match scraper.scrape_and_report("engineer", "\t", page(three_good_one_bad(), Vec::new()), 0, &mut store) {
        Err(Error::BadRequest(m)) => assert_eq!(m, "location is required"),
        _ => panic!("expected a bad-request error"),
    }
    assert_eq!(store.len(), 0);
}

#[test]
fn a_store_that_returns_nothing_on_create_is_an_anomaly() {
    let listing = JobListing {
        id: None,
        title: "T".to_string(),
        company: "C".to_string(),
        location: "L".to_string(),
        salary: None,
        description_snippet: "".to_string(),
        url: "https://www.indeed.com/viewjob?jk=k1".to_string(),
        indeed_job_key: "k1".to_string(),
        source: "indeed".to_string(),
        scraped_at: 1,
        created_at: 1,
        updated_at: 1,
    };
    let saved = check_created(Some(listing)).unwrap();
    assert_eq!(saved.indeed_job_key, "k1");
    match check_created(None) {
        Err(Error::Database(m)) => assert_eq!(m, "Failed to create listing"),
        _ => panic!("expected a database error"),
    }
}

#[test]
fn selector_plan_is_fixed() {
    let scraper = IndeedScraper::new();
    let (primary, fallback) = scraper.card_selectors();
    assert_eq!(primary, "div.job_seen_beacon");
    assert_eq!(fallback, "div.jobsearch-ResultsList > div");
    let overlays = scraper.overlay_selectors();
    assert_eq!(
        overlays,
        vec![
            "button#onetrust-accept-btn-handler".to_string(),
            "button[data-testid='close-button']".to_string(),
            "button.icl-CloseButton".to_string(),
        ]
    );
    let fields = scraper.field_selectors();
    assert_eq!(fields.title_primary, "h2.jobTitle a span");
    assert_eq!(fields.identity_attr, "data-jk");
    assert_eq!(scraper.wait_plan_millis(), (2000, 1000, 500));
    assert_eq!(scraper.source_tag(), "indeed");
}

use indeed_scraper::ascii::usize_to_string;
use indeed_scraper::error::Error;
use indeed_scraper::models::{CreateUserRequest, JobQueryParams, UpdateUserRequest, User};
use indeed_scraper::queries::{
    build_listing_query, build_update_user_query, build_user_query, collect_present,
    empty_job_page, found_or_not_found, has_search_keyword, health_response, join_strings,
    new_user, paging_bounds, sum_counts, tally_sources, total_pages, user_response_of,
    user_update_clauses, validate_create_user,
};
use indeed_scraper::response::ApiResponse;

fn params() -> JobQueryParams {
    JobQueryParams {
        page: None,
        limit: None,
        title: None,
        company: None,
        location: None,
        source: None,
        salary_min: None,
        salary_max: None,
        sort_by: None,
        sort_order: None,
    }
}

#[test]
fn decimal_rendering_is_exact() {
    assert_eq!(usize_to_string(0), "0");
    assert_eq!(usize_to_string(7), "7");
    assert_eq!(usize_to_string(907), "907");
    assert_eq!(usize_to_string(100200), "100200");
}

#[test]
fn paging_defaults_and_caps() {
    assert_eq!(paging_bounds(None, None), (1, 10, 0));
    assert_eq!(paging_bounds(Some(3), Some(250)), (3, 100, 200));
    assert_eq!(paging_bounds(Some(2), Some(25)), (2, 25, 25));
}

#[test]
fn total_pages_rounds_up() {
    assert_eq!(total_pages(0, 10), 0);
    assert_eq!(total_pages(100, 10), 10);
    assert_eq!(total_pages(101, 10), 11);
    assert_eq!(total_pages(9, 10), 1);
    assert_eq!(total_pages(0, 0), 0);
    assert_eq!(total_pages(5, 0), usize::MAX);
}

#[test]
fn listing_query_with_no_filters() {
    let q = build_listing_query(&params(), 10, 0);
    assert_eq!(q, "SELECT * FROM listing ORDER BY created_at desc LIMIT 10 START 0");
}

#[test]
fn listing_query_with_filters_and_sorting() {
    let mut p = params();
    p.title = Some("rust".to_string());
    p.location = Some("NY".to_string());
    p.source = Some("indeed".to_string());
    p.sort_by = Some("title".to_string());
    p.sort_order = Some("asc".to_string());
    let q = build_listing_query(&p, 25, 50);
    assert_eq!(
        q,
        "SELECT * FROM listing WHERE title CONTAINS 'rust' AND location CONTAINS 'NY' \
         AND source = 'indeed' ORDER BY title asc LIMIT 25 START 50"
    );
}

#[test]
fn user_query_window() {
    assert_eq!(build_user_query(10, 20), "SELECT * FROM user LIMIT 10 START 20");
}

#[test]
fn search_needs_a_keyword() {
    assert!(!has_search_keyword(&params()));
    let mut p = params();
    p.company = Some("Acme".to_string());
    assert!(has_search_keyword(&p));
    let empty = empty_job_page();
    assert_eq!(empty.data.len(), 0);
    assert_eq!(empty.pagination.page, 1);
    assert_eq!(empty.pagination.limit, 10);
    assert_eq!(empty.pagination.total, 0);
    assert_eq!(empty.pagination.total_pages, 0);
}

#[test]
fn join_strings_handles_every_arity() {
    assert_eq!(join_strings(&vec![], ", "), "");
    assert_eq!(join_strings(&vec!["a".to_string()], ", "), "a");
    assert_eq!(join_strings(&vec!["a".to_string(), "b".to_string()], " AND "), "a AND b");
}

#[test]
fn user_creation_is_validated_field_by_field() {
    let req = CreateUserRequest {
        first_name: " ".to_string(),
        last_name: "Doe".to_string(),
        email: "d@example.com".to_string(),
    };
    match validate_create_user(&req) {
        Err(Error::BadRequest(m)) => assert_eq!(m, "first_name is required"),
        _ => panic!("expected a bad-request error"),
    }
    let req = CreateUserRequest {
        first_name: "Jo".to_string(),
        last_name: "Doe".to_string(),
        email: "\t".to_string(),
    };
    match validate_create_user(&req) {
        Err(Error::BadRequest(m)) => assert_eq!(m, "email is required"),
        _ => panic!("expected a bad-request error"),
    }
    let req = CreateUserRequest {
        first_name: "Jo".to_string(),
        last_name: "Doe".to_string(),
        email: "d@example.com".to_string(),
    };
    assert!(validate_create_user(&req).is_ok());
    let u = new_user(&req, 42);
    assert_eq!(u.first_name, "Jo");
    assert_eq!(u.created_at, 42);
    assert!(u.id.is_none());
}

#[test]
fn user_response_defaults_a_missing_id() {
    let u = User {
        id: None,
        first_name: "Jo".to_string(),
        last_name: "Doe".to_string(),
        email: "d@example.com".to_string(),
        created_at: 1,
        updated_at: 2,
    };
    let r = user_response_of(&u);
    assert_eq!(r.id, "");
    assert_eq!(r.email, "d@example.com");
    let u2 = User { id: Some("user:7".to_string()), ..u };
    assert_eq!(user_response_of(&u2).id, "user:7");
}

#[test]
fn update_clauses_skip_blank_fields_and_stamp_the_clock() {
    let req = UpdateUserRequest { first_name: Some("Ann".to_string()), last_name: Some("  ".to_string()) };
    let clauses = user_update_clauses(&req, 5000);
    assert_eq!(clauses, vec!["first_name = 'Ann'".to_string(), "updated_at = 5000".to_string()]);
    let q = build_update_user_query(&"u1".to_string(), &clauses);
    assert_eq!(q, "UPDATE user SET first_name = 'Ann', updated_at = 5000 WHERE id = 'u1'");
}

#[test]
fn store_answer_folds() {
    let sources = collect_present(&vec![Some("indeed".to_string()), None, Some("other".to_string())]);
    assert_eq!(sources, vec!["indeed".to_string(), "other".to_string()]);
    assert_eq!(sum_counts(&vec![Some(3), None, Some(4)]), 7);
    let tallied = tally_sources(&vec![
        (Some("indeed".to_string()), Some(12)),
        (None, Some(5)),
        (Some("other".to_string()), None),
        (Some("other".to_string()), Some(2)),
    ]);
    assert_eq!(tallied, vec![("indeed".to_string(), 12), ("other".to_string(), 2)]);
}

#[test]
fn missing_entities_get_a_named_not_found_error() {
    assert_eq!(found_or_not_found(Some(7), "Job listing", &"j1".to_string()).unwrap(), 7);
    match found_or_not_found::<u32>(None, "Job listing", &"j1".to_string()) {
        Err(Error::NotFound(m)) => assert_eq!(m, "Job listing with ID 'j1' not found"),
        _ => panic!("expected a not-found error"),
    }
    match found_or_not_found::<u32>(None, "User", &"u9".to_string()) {
        Err(Error::NotFound(m)) => assert_eq!(m, "User with ID 'u9' not found"),
        _ => panic!("expected a not-found error"),
    }
}

#[test]
fn health_report_reflects_the_probe() {
    let ok = health_response(true, 99);
    assert_eq!(ok.status, "healthy");
    assert_eq!(ok.database, "connected");
    assert_eq!(ok.timestamp, 99);
    let bad = health_response(false, 100);
    assert_eq!(bad.status, "unhealthy");
    assert_eq!(bad.database, "disconnected");
}

#[test]
fn error_status_codes_match_the_taxonomy() {
    assert_eq!(Error::BadRequest("x".to_string()).status_code(), 400);
    assert_eq!(Error::NotFound("x".to_string()).status_code(), 404);
    assert_eq!(Error::Unauthorized("x".to_string()).status_code(), 401);
    assert_eq!(Error::Forbidden("x".to_string()).status_code(), 403);
    assert_eq!(Error::Conflict("x".to_string()).status_code(), 409);
    assert_eq!(Error::Database("x".to_string()).status_code(), 500);
    assert_eq!(Error::Scraper("x".to_string()).status_code(), 500);
    assert_eq!(Error::WebDriver("x".to_string()).status_code(), 500);
    assert_eq!(Error::Api("x".to_string()).status_code(), 500);
    assert_eq!(Error::InternalServerError("x".to_string()).status_code(), 500);
    let parts = Error::Scraper("boom".to_string()).response_parts();
    assert_eq!(parts, (500, "boom".to_string()));
}

#[test]
fn response_envelopes() {
    let ok = ApiResponse::success(5u32);
    assert!(ok.success);
    assert_eq!(ok.data, Some(5));
    assert!(ok.error.is_none());
    let err = ApiResponse::<u32>::error(404, "missing".to_string());
    assert!(!err.success);
    assert!(err.data.is_none());
    let body = err.error.unwrap();
    assert_eq!(body.code, 404);
    assert_eq!(body.message, "missing");
    let from_err = ApiResponse::<u32>::of_error(&Error::NotFound("gone".to_string()));
    let body = from_err.error.unwrap();
    assert_eq!(body.code, 404);
    assert_eq!(body.message, "gone");
}

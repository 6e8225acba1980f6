//! Request, response and entity shapes used around the pipeline.
//!
//! Values that the surrounding system carries in collaborator-specific types
//! appear here as plain data: timestamps as Unix milliseconds, record ids as
//! strings.

use vstd::prelude::*;

verus! {

/// Pagination parameters for list queries.
pub struct PaginationParams {
    pub page: Option<usize>,
    pub limit: Option<usize>,
}

/// Query parameters for job-listing lists and searches.
pub struct JobQueryParams {
    pub page: Option<usize>,
    pub limit: Option<usize>,
    pub title: Option<String>,
    pub company: Option<String>,
    pub location: Option<String>,
    pub source: Option<String>,
    pub salary_min: Option<String>,
    pub salary_max: Option<String>,
    pub sort_by: Option<String>,
    pub sort_order: Option<String>,
}

/// Pagination metadata of one page of results.
pub struct PaginationMeta {
    pub page: usize,
    pub limit: usize,
    pub total: usize,
    pub total_pages: usize,
}

/// One page of job listings.
pub struct PaginatedJobResponse {
    pub data: Vec<crate::report::JobListing>,
    pub pagination: PaginationMeta,
}

/// One page of users.
pub struct PaginatedUserResponse {
    pub data: Vec<User>,
    pub pagination: PaginationMeta,
}

/// A user account.
pub struct User {
    pub id: Option<String>,
    pub first_name: String,
    pub last_name: String,
    pub email: String,
    pub created_at: i64,
    pub updated_at: i64,
}

/// The body of a user-creation request.
pub struct CreateUserRequest {
    pub first_name: String,
    pub last_name: String,
    pub email: String,
}

/// The body of a user-update request.
pub struct UpdateUserRequest {
    pub first_name: Option<String>,
    pub last_name: Option<String>,
}

/// A user as reported to clients.
pub struct UserResponse {
    pub id: String,
    pub first_name: String,
    pub last_name: String,
    pub email: String,
    pub created_at: i64,
    pub updated_at: i64,
}

/// The body of a scrape request.
pub struct ScrapeJobRequest {
    pub job_title: String,
    pub location: String,
}

/// The body of a multi-source scrape request.
pub struct ScrapeMultipleRequest {
    pub sources: Vec<String>,
    pub job_title: String,
    pub location: String,
}

/// Per-source counts of a multi-source run.
pub struct ScrapeSourceResult {
    pub source: String,
    pub scraped: usize,
    pub new: usize,
    pub duplicates: usize,
}

/// The aggregate report of a multi-source run.
pub struct ScrapeMultipleResponse {
    pub total_scraped: usize,
    pub new_listings: usize,
    pub duplicates_skipped: usize,
    pub by_source: Vec<(String, ScrapeSourceResult)>,
}

/// A health-check report.
pub struct HealthCheckResponse {
    pub status: String,
    pub database: String,
    pub timestamp: i64,
}

} // verus!

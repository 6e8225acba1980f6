//! The computations behind the CRUD handlers: pagination arithmetic, store
//! query strings, validation, and the pure folds over store answers.  The
//! handlers themselves only move these values to and from the store.

use crate::ascii::{chars_of_bytes, dec_bytes, usize_to_string};
use crate::error::Error;
use crate::models::{
    CreateUserRequest, HealthCheckResponse, JobQueryParams, PaginatedJobResponse, PaginationMeta,
    UpdateUserRequest, User, UserResponse,
};
use crate::text::{trim_spec, trimmed_nonempty};
use vstd::prelude::*;

verus! {

/// The page a query asks for: its `page` parameter, defaulting to 1.
pub open spec fn page_of(page: Option<usize>) -> int {
    match page {
        Some(n) => n as int,
        None => 1,
    }
}

/// The page size a query asks for: its `limit` parameter, defaulting to 10
/// and capped at 100.
pub open spec fn limit_of(limit: Option<usize>) -> int {
    let l = match limit {
        Some(n) => n as int,
        None => 10,
    };
    if l < 100 {
        l
    } else {
        100
    }
}

/// Resolves the page, page size and start offset of a list query.
pub fn paging_bounds(page: Option<usize>, limit: Option<usize>) -> (r: (usize, usize, usize))
    requires
        page_of(page) >= 1,
        (page_of(page) - 1) * limit_of(limit) <= usize::MAX,
    ensures
        r.0 == page_of(page),
        r.1 == limit_of(limit),
        r.2 == (page_of(page) - 1) * limit_of(limit),
{
    let p = match page {
        Some(n) => n,
        None => 1,
    };
    let l = match limit {
        Some(n) => if n < 100 {
            n
        } else {
            100
        },
        None => 10,
    };
    let start = (p - 1) * l;
    (p, l, start)
}

/// The number of pages `total` items fill at `limit` items a page.
pub open spec fn total_pages_spec(total: usize, limit: usize) -> int {
    if limit == 0 {
        if total == 0 {
            0
        } else {
            usize::MAX as int
        }
    } else {
        total as int / limit as int + (if total as int % limit as int != 0 {
            1int
        } else {
            0int
        })
    }
}

/// The number of pages `total` items fill at `limit` items a page, the last
/// page partial; a zero page size reads as no pages of nothing and as
/// unboundedly many pages of anything.
pub fn total_pages(total: usize, limit: usize) -> (r: usize)
    ensures
        r == total_pages_spec(total, limit),
{
    if limit == 0 {
        if total == 0 {
            0
        } else {
            usize::MAX
        }
    } else if total % limit != 0 {
        proof {
            assert(limit >= 2) by {
                if limit == 1 {
                    assert(total as int % 1int == 0);
                }
            }
            assert(total / limit < total) by (nonlinear_arith)
                requires
                    limit >= 2,
                    0 <= total,
                    total as int % limit as int != 0,
            ;
        }
        total / limit + 1
    } else {
        total / limit
    }
}

/// `parts` joined by `sep`.
pub open spec fn join_with(parts: Seq<Seq<char>>, sep: Seq<char>) -> Seq<char>
    decreases parts.len(),
{
    if parts.len() == 0 {
        Seq::empty()
    } else if parts.len() == 1 {
        parts[0]
    } else {
        join_with(parts.drop_last(), sep) + sep + parts.last()
    }
}

/// The views of a sequence of strings.
pub open spec fn str_views(parts: Seq<String>) -> Seq<Seq<char>> {
    parts.map_values(|s: String| s@)
}

/// Joins strings with a separator.
pub fn join_strings(parts: &Vec<String>, sep: &str) -> (r: String)
    ensures
        r@ == join_with(str_views(parts@), sep@),
{
    let mut acc = String::new();
    let mut i: usize = 0;
    proof {
        assert(str_views(parts@).take(0) =~= Seq::<Seq<char>>::empty());
    }
    while i < parts.len()
        invariant
            0 <= i <= parts@.len(),
            acc@ == join_with(str_views(parts@).take(i as int), sep@),
        decreases parts@.len() - i,
    {
        let ghost views = str_views(parts@);
        proof {
            assert(views.take(i + 1).drop_last() =~= views.take(i as int));
            assert(views.take(i + 1).last() == views[i as int]);
            assert(views[i as int] == parts@[i as int]@);
        }
        if i > 0 {
            acc.append(sep);
        }
        acc.append(parts[i].as_str());
        i = i + 1;
    }
    proof {
        assert(str_views(parts@).take(parts@.len() as int) =~= str_views(parts@));
    }
    acc
}

/// The filter conditions a job query carries, in fixed order.
pub open spec fn cond_strings(p: JobQueryParams) -> Seq<Seq<char>> {
    let c0: Seq<Seq<char>> = Seq::empty();
    let c1 = if p.title is Some {
        c0.push("title CONTAINS '"@ + p.title->0@ + "'"@)
    } else {
        c0
    };
    let c2 = if p.company is Some {
        c1.push("company CONTAINS '"@ + p.company->0@ + "'"@)
    } else {
        c1
    };
    let c3 = if p.location is Some {
        c2.push("location CONTAINS '"@ + p.location->0@ + "'"@)
    } else {
        c2
    };
    if p.source is Some {
        c3.push("source = '"@ + p.source->0@ + "'"@)
    } else {
        c3
    }
}

/// The full listing query a job query resolves to.
pub open spec fn listing_query_spec(p: JobQueryParams, limit: usize, start: usize) -> Seq<char> {
    let conds = cond_strings(p);
    let base = "SELECT * FROM listing"@ + (if conds.len() > 0 {
        " WHERE "@ + join_with(conds, " AND "@)
    } else {
        Seq::empty()
    });
    let sort_by = match p.sort_by {
        Some(s) => s@,
        None => "created_at"@,
    };
    let sort_order = match p.sort_order {
        Some(s) => s@,
        None => "desc"@,
    };
    base + " ORDER BY "@ + sort_by + " "@ + sort_order + " LIMIT "@ + chars_of_bytes(
        dec_bytes(limit as nat),
    ) + " START "@ + chars_of_bytes(dec_bytes(start as nat))
}

fn push_cond(conds: &mut Vec<String>, prefix: &str, value: &String, suffix: &str)
    ensures
        final(conds)@.len() == old(conds)@.len() + 1,
        str_views(final(conds)@) == str_views(old(conds)@).push(prefix@ + value@ + suffix@),
{
    let mut c = String::from_str(prefix);
    c.append(value.as_str());
    c.append(suffix);
    conds.push(c);
    proof {
        assert(str_views(conds@) =~= str_views(old(conds)@).push(prefix@ + value@ + suffix@));
    }
}

/// Builds the listing query for the resolved page bounds: the filters the
/// parameters carry, the requested or default ordering, and the page window.
pub fn build_listing_query(p: &JobQueryParams, limit: usize, start: usize) -> (q: String)
    ensures
        q@ == listing_query_spec(*p, limit, start),
{
    let mut conds: Vec<String> = Vec::new();
    proof {
        assert(str_views(conds@) =~= Seq::<Seq<char>>::empty());
    }
    if let Some(title) = &p.title {
        push_cond(&mut conds, "title CONTAINS '", title, "'");
    }
    if let Some(company) = &p.company {
        push_cond(&mut conds, "company CONTAINS '", company, "'");
    }
    if let Some(location) = &p.location {
        push_cond(&mut conds, "location CONTAINS '", location, "'");
    }
    if let Some(source) = &p.source {
        push_cond(&mut conds, "source = '", source, "'");
    }
    proof {
        assert(str_views(conds@) =~= cond_strings(*p));
    }
    let mut q = String::from_str("SELECT * FROM listing");
    if conds.len() > 0 {
        q.append(" WHERE ");
        let joined = join_strings(&conds, " AND ");
        q.append(joined.as_str());
    }
    q.append(" ORDER BY ");
    match &p.sort_by {
        Some(s) => q.append(s.as_str()),
        None => q.append("created_at"),
    }
    q.append(" ");
    match &p.sort_order {
        Some(s) => q.append(s.as_str()),
        None => q.append("desc"),
    }
    q.append(" LIMIT ");
    let limit_str = usize_to_string(limit);
    q.append(limit_str.as_str());
    q.append(" START ");
    let start_str = usize_to_string(start);
    q.append(start_str.as_str());
    q
}

/// Builds the user list query for the resolved page bounds.
pub fn build_user_query(limit: usize, start: usize) -> (q: String)
    ensures
        q@ == "SELECT * FROM user LIMIT "@ + chars_of_bytes(dec_bytes(limit as nat)) + " START "@
            + chars_of_bytes(dec_bytes(start as nat)),
{
    let mut q = String::from_str("SELECT * FROM user LIMIT ");
    let limit_str = usize_to_string(limit);
    q.append(limit_str.as_str());
    q.append(" START ");
    let start_str = usize_to_string(start);
    q.append(start_str.as_str());
    q
}

/// Whether a search query carries a keyword at all.
pub fn has_search_keyword(p: &JobQueryParams) -> (b: bool)
    ensures
        b == (p.title is Some || p.company is Some),
{
    p.title.is_some() || p.company.is_some()
}

/// The empty page a keyword-less search returns.
pub fn empty_job_page() -> (r: PaginatedJobResponse)
    ensures
        r.data@.len() == 0,
        r.pagination.page == 1,
        r.pagination.limit == 10,
        r.pagination.total == 0,
        r.pagination.total_pages == 0,
{
    PaginatedJobResponse {
        data: Vec::new(),
        pagination: PaginationMeta { page: 1, limit: 10, total: 0, total_pages: 0 },
    }
}

/// Turns a store lookup into the handler's answer: the entity when the
/// store found one, or a not-found error naming the entity and the id.
pub fn found_or_not_found<T>(found: Option<T>, entity: &str, id: &String) -> (r: Result<T, Error>)
    ensures
        match r {
            Ok(v) => found == Some(v),
            Err(e) => found is None && (e matches Error::NotFound(m) && m@ == entity@
                + " with ID '"@ + id@ + "' not found"@),
        },
{
    match found {
        Some(v) => Ok(v),
        None => {
            let mut m = String::from_str(entity);
            m.append(" with ID '");
            m.append(id.as_str());
            m.append("' not found");
            Err(Error::NotFound(m))
        },
    }
}

/// Rejects a user-creation request with a blank required field, naming the
/// first one missing.
pub fn validate_create_user(req: &CreateUserRequest) -> (r: Result<(), Error>)
    ensures
        (r is Err) == (trim_spec(req.first_name@).len() == 0 || trim_spec(req.last_name@).len()
            == 0 || trim_spec(req.email@).len() == 0),
        r matches Err(e) ==> (e matches Error::BadRequest(m) && m@ == (if trim_spec(
            req.first_name@,
        ).len() == 0 {
            "first_name is required"@
        } else if trim_spec(req.last_name@).len() == 0 {
            "last_name is required"@
        } else {
            "email is required"@
        })),
{
    if !trimmed_nonempty(req.first_name.as_str()) {
        return Err(Error::BadRequest(String::from_str("first_name is required")));
    }
    if !trimmed_nonempty(req.last_name.as_str()) {
        return Err(Error::BadRequest(String::from_str("last_name is required")));
    }
    if !trimmed_nonempty(req.email.as_str()) {
        return Err(Error::BadRequest(String::from_str("email is required")));
    }
    Ok(())
}

/// The user a valid creation request makes, stamped with the run's clock.
pub fn new_user(req: &CreateUserRequest, now: i64) -> (u: User)
    ensures
        u.id is None,
        u.first_name@ == req.first_name@,
        u.last_name@ == req.last_name@,
        u.email@ == req.email@,
        u.created_at == now,
        u.updated_at == now,
{
    User {
        id: None,
        first_name: req.first_name.clone(),
        last_name: req.last_name.clone(),
        email: req.email.clone(),
        created_at: now,
        updated_at: now,
    }
}

/// The user as clients see it: a missing id reads as the empty string.
pub fn user_response_of(u: &User) -> (r: UserResponse)
    ensures
        r.id@ == (match u.id {
            Some(s) => s@,
            None => Seq::<char>::empty(),
        }),
        r.first_name@ == u.first_name@,
        r.last_name@ == u.last_name@,
        r.email@ == u.email@,
        r.created_at == u.created_at,
        r.updated_at == u.updated_at,
{
    let id = match &u.id {
        Some(s) => s.clone(),
        None => String::new(),
    };
    UserResponse {
        id,
        first_name: u.first_name.clone(),
        last_name: u.last_name.clone(),
        email: u.email.clone(),
        created_at: u.created_at,
        updated_at: u.updated_at,
    }
}

/// The update clauses a user-update request resolves to: one per field that
/// is present and non-blank, and the new update stamp last.
pub open spec fn update_clauses_spec(req: UpdateUserRequest, now_millis: usize) -> Seq<Seq<char>> {
    let c0: Seq<Seq<char>> = Seq::empty();
    let c1 = if req.first_name is Some && trim_spec(req.first_name->0@).len() > 0 {
        c0.push("first_name = '"@ + req.first_name->0@ + "'"@)
    } else {
        c0
    };
    let c2 = if req.last_name is Some && trim_spec(req.last_name->0@).len() > 0 {
        c1.push("last_name = '"@ + req.last_name->0@ + "'"@)
    } else {
        c1
    };
    c2.push("updated_at = "@ + chars_of_bytes(dec_bytes(now_millis as nat)))
}

/// Builds the update clauses of a user-update request.
pub fn user_update_clauses(req: &UpdateUserRequest, now_millis: usize) -> (r: Vec<String>)
    ensures
        str_views(r@) == update_clauses_spec(*req, now_millis),
{
    let mut clauses: Vec<String> = Vec::new();
    proof {
        assert(str_views(clauses@) =~= Seq::<Seq<char>>::empty());
    }
    if let Some(first_name) = &req.first_name {
        if trimmed_nonempty(first_name.as_str()) {
            push_cond(&mut clauses, "first_name = '", first_name, "'");
        }
    }
    if let Some(last_name) = &req.last_name {
        if trimmed_nonempty(last_name.as_str()) {
            push_cond(&mut clauses, "last_name = '", last_name, "'");
        }
    }
    let mut stamp = String::from_str("updated_at = ");
    let millis = usize_to_string(now_millis);
    stamp.append(millis.as_str());
    let ghost before = str_views(clauses@);
    clauses.push(stamp);
    proof {
        assert(str_views(clauses@) =~= before.push(
            "updated_at = "@ + chars_of_bytes(dec_bytes(now_millis as nat)),
        ));
        assert(str_views(clauses@) =~= update_clauses_spec(*req, now_millis));
    }
    clauses
}

/// Builds the user-update query from the resolved clauses.
pub fn build_update_user_query(id: &String, clauses: &Vec<String>) -> (q: String)
    ensures
        q@ == "UPDATE user SET "@ + join_with(str_views(clauses@), ", "@) + " WHERE id = '"@ + id@
            + "'"@,
{
    let mut q = String::from_str("UPDATE user SET ");
    let joined = join_strings(clauses, ", ");
    q.append(joined.as_str());
    q.append(" WHERE id = '");
    q.append(id.as_str());
    q.append("'");
    q
}

/// The values present in a sequence of optional answers, in order.
pub open spec fn present_values(items: Seq<Option<String>>) -> Seq<Seq<char>>
    decreases items.len(),
{
    if items.len() == 0 {
        Seq::empty()
    } else {
        present_values(items.drop_last()) + (match items.last() {
            Some(s) => seq![s@],
            None => Seq::<Seq<char>>::empty(),
        })
    }
}

/// Keeps the answers that are present, dropping the rest.
pub fn collect_present(items: &Vec<Option<String>>) -> (r: Vec<String>)
    ensures
        str_views(r@) == present_values(items@),
{
    let mut out: Vec<String> = Vec::new();
    let mut i: usize = 0;
    proof {
        assert(str_views(out@) =~= present_values(items@.take(0)));
    }
    while i < items.len()
        invariant
            0 <= i <= items@.len(),
            str_views(out@) == present_values(items@.take(i as int)),
        decreases items@.len() - i,
    {
        let ghost before = str_views(out@);
        proof {
            assert(items@.take(i + 1).drop_last() =~= items@.take(i as int));
            assert(items@.take(i + 1).last() == items@[i as int]);
        }
        match &items[i] {
            Some(s) => {
                out.push(s.clone());
                proof {
                    assert(str_views(out@) =~= before.push(items@[i as int]->0@));
                    assert(before.push(items@[i as int]->0@) =~= before + seq![
                        items@[i as int]->0@,
                    ]);
                }
            },
            None => {
                proof {
                    assert(before + Seq::<Seq<char>>::empty() =~= before);
                }
            },
        }
        i = i + 1;
    }
    proof {
        assert(items@.take(items@.len() as int) =~= items@);
    }
    out
}

/// The sum of the counts present in a sequence of optional answers.
pub open spec fn sum_present(items: Seq<Option<u64>>) -> int
    decreases items.len(),
{
    if items.len() == 0 {
        0
    } else {
        sum_present(items.drop_last()) + (match items.last() {
            Some(n) => n as int,
            None => 0,
        })
    }
}

/// Sums the counts that are present, dropping the rest.
pub fn sum_counts(items: &Vec<Option<u64>>) -> (r: u64)
    requires
        sum_present(items@) <= u64::MAX,
    ensures
        r == sum_present(items@),
{
    let mut acc: u64 = 0;
    let mut i: usize = 0;
    proof {
        assert(sum_present(items@.take(0)) == 0);
    }
    while i < items.len()
        invariant
            0 <= i <= items@.len(),
            acc == sum_present(items@.take(i as int)),
            sum_present(items@) <= u64::MAX,
        decreases items@.len() - i,
    {
        proof {
            assert(items@.take(i + 1).drop_last() =~= items@.take(i as int));
            assert(items@.take(i + 1).last() == items@[i as int]);
            lemma_sum_prefix_bound(items@, i + 1);
            lemma_sum_nonneg(items@.take(i as int));
        }
        match &items[i] {
            Some(n) => {
                acc = acc + *n;
            },
            None => {
            },
        }
        i = i + 1;
    }
    proof {
        assert(items@.take(items@.len() as int) =~= items@);
    }
    acc
}

/// Sums of present counts are non-negative.
proof fn lemma_sum_nonneg(items: Seq<Option<u64>>)
    ensures
        sum_present(items) >= 0,
    decreases items.len(),
{
    if items.len() > 0 {
        lemma_sum_nonneg(items.drop_last());
    }
}

/// A prefix never sums to more than the whole.
proof fn lemma_sum_prefix_bound(items: Seq<Option<u64>>, n: int)
    requires
        0 <= n <= items.len(),
    ensures
        sum_present(items.take(n)) <= sum_present(items),
    decreases items.len() - n,
{
    if n == items.len() {
        assert(items.take(n) =~= items);
    } else {
        lemma_sum_prefix_bound(items, n + 1);
        assert(items.take(n + 1).drop_last() =~= items.take(n));
        match items.take(n + 1).last() {
            Some(v) => {
                assert(sum_present(items.take(n)) <= sum_present(items.take(n + 1)));
            },
            None => {
                assert(sum_present(items.take(n)) == sum_present(items.take(n + 1)));
            },
        }
    }
}

/// The per-source rows whose source and count are both present, in order.
pub open spec fn tally_spec(rows: Seq<(Option<String>, Option<u64>)>) -> Seq<(Seq<char>, u64)>
    decreases rows.len(),
{
    if rows.len() == 0 {
        Seq::empty()
    } else {
        tally_spec(rows.drop_last()) + (if rows.last().0 is Some && rows.last().1 is Some {
            seq![(rows.last().0->0@, rows.last().1->0)]
        } else {
            Seq::<(Seq<char>, u64)>::empty()
        })
    }
}

/// The views of tallied pairs.
pub open spec fn pair_views(pairs: Seq<(String, u64)>) -> Seq<(Seq<char>, u64)> {
    pairs.map_values(|p: (String, u64)| (p.0@, p.1))
}

/// Keeps the per-source rows that carry both a source and a count.
pub fn tally_sources(rows: &Vec<(Option<String>, Option<u64>)>) -> (r: Vec<(String, u64)>)
    ensures
        pair_views(r@) == tally_spec(rows@),
{
    let mut out: Vec<(String, u64)> = Vec::new();
    let mut i: usize = 0;
    proof {
        assert(pair_views(out@) =~= tally_spec(rows@.take(0)));
    }
    while i < rows.len()
        invariant
            0 <= i <= rows@.len(),
            pair_views(out@) == tally_spec(rows@.take(i as int)),
        decreases rows@.len() - i,
    {
        let ghost before = pair_views(out@);
        proof {
            assert(rows@.take(i + 1).drop_last() =~= rows@.take(i as int));
            assert(rows@.take(i + 1).last() == rows@[i as int]);
        }
        let row = &rows[i];
        if row.0.is_some() && row.1.is_some() {
            let source = match &row.0 {
                Some(s) => s.clone(),
                None => String::new(),
            };
            let count = match &row.1 {
                Some(n) => *n,
                None => 0,
            };
            out.push((source, count));
            proof {
                assert(pair_views(out@) =~= before.push(
                    (rows@[i as int].0->0@, rows@[i as int].1->0),
                ));
                assert(before.push((rows@[i as int].0->0@, rows@[i as int].1->0)) =~= before
                    + seq![(rows@[i as int].0->0@, rows@[i as int].1->0)]);
            }
        } else {
            proof {
                assert(before + Seq::<(Seq<char>, u64)>::empty() =~= before);
            }
        }
        i = i + 1;
    }
    proof {
        assert(rows@.take(rows@.len() as int) =~= rows@);
    }
    out
}

/// The health report of one probe: what the database answered, stamped with
/// the probe's clock.
pub fn health_response(db_healthy: bool, now: i64) -> (r: HealthCheckResponse)
    ensures
        db_healthy ==> r.status@ == "healthy"@ && r.database@ == "connected"@,
        !db_healthy ==> r.status@ == "unhealthy"@ && r.database@ == "disconnected"@,
        r.timestamp == now,
{
    if db_healthy {
        HealthCheckResponse {
            status: String::from_str("healthy"),
            database: String::from_str("connected"),
            timestamp: now,
        }
    } else {
        HealthCheckResponse {
            status: String::from_str("unhealthy"),
            database: String::from_str("disconnected"),
            timestamp: now,
        }
    }
}

} // verus!

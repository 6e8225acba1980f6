//! The dedup/report stage.
//!
//! Every extracted record is checked against the store by its natural key —
//! the pair of identity key and source — and persisted only when absent.
//! The run returns a report whose counts always add up: every input record
//! is either a new listing or a skipped duplicate.  `process_spec` is the
//! mathematical model of the stage; the idempotence law is proved over it.

use crate::error::Error;
use crate::scraper::{
    card_models, chosen_cards, job_model, job_models, no_cards_message, ok_cards, url_spec,
    IndeedScraper, JobModel, PageSnapshot, ScrapedJob,
};
use crate::text::{trim_spec, trimmed_nonempty};
use vstd::prelude::*;

verus! {

/// A listing as the store keeps it.  Timestamps are Unix milliseconds; the
/// surrogate id is assigned by the store and absent until then.
pub struct JobListing {
    pub id: Option<String>,
    pub title: String,
    pub company: String,
    pub location: String,
    pub salary: Option<String>,
    pub description_snippet: String,
    pub url: String,
    pub indeed_job_key: String,
    pub source: String,
    pub scraped_at: i64,
    pub created_at: i64,
    pub updated_at: i64,
}

/// The mathematical content of a persisted listing.
pub struct ListingModel {
    pub id: Option<Seq<char>>,
    pub job: JobModel,
    pub source: Seq<char>,
    pub scraped_at: i64,
    pub created_at: i64,
    pub updated_at: i64,
}

/// The content of a `JobListing` value.
pub open spec fn model_of(l: JobListing) -> ListingModel {
    ListingModel {
        id: match l.id {
            Some(s) => Some(s@),
            None => None,
        },
        job: JobModel {
            title: l.title@,
            company: l.company@,
            location: l.location@,
            salary: match l.salary {
                Some(s) => Some(s@),
                None => None,
            },
            description_snippet: l.description_snippet@,
            url: l.url@,
            key: l.indeed_job_key@,
        },
        source: l.source@,
        scraped_at: l.scraped_at,
        created_at: l.created_at,
        updated_at: l.updated_at,
    }
}

/// The models of a sequence of listings.
pub open spec fn listing_models(s: Seq<JobListing>) -> Seq<ListingModel> {
    s.map_values(|l: JobListing| model_of(l))
}

/// The listing an extracted record is promoted to, stamped with the run's
/// source and clock.
pub open spec fn promoted_model(j: JobModel, source: Seq<char>, now: i64) -> ListingModel {
    ListingModel { id: None, job: j, source, scraped_at: now, created_at: now, updated_at: now }
}

/// Some listing carries this natural key.
pub open spec fn model_has_key(s: Seq<ListingModel>, key: Seq<char>, source: Seq<char>) -> bool {
    exists|i: int| 0 <= i < s.len() && s[i].job.key == key && s[i].source == source
}

/// The natural key is unique across the store.
pub open spec fn model_wf(s: Seq<ListingModel>) -> bool {
    forall|i: int, j: int|
        0 <= i < j < s.len() ==> !(s[i].job.key == s[j].job.key && s[i].source == s[j].source)
}

/// The dedup stage, mathematically: walk the records in order; a record
/// whose key the store already holds is skipped, any other is appended to
/// both the store and the run's new listings.  Returns the new listings and
/// the final store.
pub open spec fn process_spec(
    jobs: Seq<JobModel>,
    source: Seq<char>,
    now: i64,
    store: Seq<ListingModel>,
) -> (Seq<ListingModel>, Seq<ListingModel>)
    decreases jobs.len(),
{
    if jobs.len() == 0 {
        (Seq::empty(), store)
    } else if model_has_key(store, jobs[0].key, source) {
        process_spec(jobs.drop_first(), source, now, store)
    } else {
        let m = promoted_model(jobs[0], source, now);
        let rest = process_spec(jobs.drop_first(), source, now, store.push(m));
        (seq![m] + rest.0, rest.1)
    }
}

/// Keys present in the store stay present through a run.
proof fn lemma_process_monotone(
    jobs: Seq<JobModel>,
    source: Seq<char>,
    now: i64,
    store: Seq<ListingModel>,
    key: Seq<char>,
    ksource: Seq<char>,
)
    requires
        model_has_key(store, key, ksource),
    ensures
        model_has_key(process_spec(jobs, source, now, store).1, key, ksource),
    decreases jobs.len(),
{
    if jobs.len() > 0 {
        if model_has_key(store, jobs[0].key, source) {
            lemma_process_monotone(jobs.drop_first(), source, now, store, key, ksource);
        } else {
            let m = promoted_model(jobs[0], source, now);
            let i = choose|i: int|
                0 <= i < store.len() && store[i].job.key == key && store[i].source == ksource;
            assert(store.push(m)[i].job.key == key && store.push(m)[i].source == ksource);
            lemma_process_monotone(jobs.drop_first(), source, now, store.push(m), key, ksource);
        }
    }
}

/// After a run, the store holds every processed record's key.
proof fn lemma_process_covers(
    jobs: Seq<JobModel>,
    source: Seq<char>,
    now: i64,
    store: Seq<ListingModel>,
)
    ensures
        forall|i: int|
            0 <= i < jobs.len() ==> model_has_key(
                process_spec(jobs, source, now, store).1,
                #[trigger] jobs[i].key,
                source,
            ),
    decreases jobs.len(),
{
    if jobs.len() > 0 {
        let j0 = jobs[0];
        if model_has_key(store, j0.key, source) {
            lemma_process_covers(jobs.drop_first(), source, now, store);
            lemma_process_monotone(jobs.drop_first(), source, now, store, j0.key, source);
            assert(forall|i: int| 1 <= i < jobs.len() ==> jobs[i] == jobs.drop_first()[i - 1]);
        } else {
            let m = promoted_model(j0, source, now);
            lemma_process_covers(jobs.drop_first(), source, now, store.push(m));
            assert(store.push(m)[store.len() as int].job.key == j0.key && store.push(m)[store.len() as int].source
                == source);
            lemma_process_monotone(jobs.drop_first(), source, now, store.push(m), j0.key, source);
            assert(forall|i: int| 1 <= i < jobs.len() ==> jobs[i] == jobs.drop_first()[i - 1]);
        }
    }
}

/// A run over records whose keys the store all holds changes nothing.
proof fn lemma_process_all_duplicates(
    jobs: Seq<JobModel>,
    source: Seq<char>,
    now: i64,
    store: Seq<ListingModel>,
)
    requires
        forall|i: int| 0 <= i < jobs.len() ==> model_has_key(store, #[trigger] jobs[i].key, source),
    ensures
        process_spec(jobs, source, now, store) == (Seq::<ListingModel>::empty(), store),
    decreases jobs.len(),
{
    if jobs.len() > 0 {
        assert(model_has_key(store, jobs[0].key, source));
        assert(forall|i: int| 1 <= i < jobs.len() ==> jobs[i] == jobs.drop_first()[i - 1]);
        assert(forall|i: int|
            0 <= i < jobs.drop_first().len() ==> model_has_key(
                store,
                #[trigger] jobs.drop_first()[i].key,
                source,
            ));
        lemma_process_all_duplicates(jobs.drop_first(), source, now, store);
    }
}

/// Uniqueness of the natural key survives a run.
proof fn lemma_process_wf(
    jobs: Seq<JobModel>,
    source: Seq<char>,
    now: i64,
    store: Seq<ListingModel>,
)
    requires
        model_wf(store),
    ensures
        model_wf(process_spec(jobs, source, now, store).1),
    decreases jobs.len(),
{
    if jobs.len() > 0 {
        if model_has_key(store, jobs[0].key, source) {
            lemma_process_wf(jobs.drop_first(), source, now, store);
        } else {
            let m = promoted_model(jobs[0], source, now);
            assert(model_wf(store.push(m))) by {
                assert forall|i: int, j: int| 0 <= i < j < store.push(m).len() implies !(
                store.push(m)[i].job.key == store.push(m)[j].job.key && store.push(m)[i].source
                    == store.push(m)[j].source) by {
                    if j == store.len() {
                        assert(!(store[i].job.key == jobs[0].key && store[i].source == source));
                    }
                }
            }
            lemma_process_wf(jobs.drop_first(), source, now, store.push(m));
        }
    }
}

/// Law: idempotence of the dedup stage.  Submitting the same records a
/// second time — at any later clock — creates nothing: every record counts
/// as a duplicate, the store is unchanged, and each record's key names
/// exactly one persisted listing (the store's key uniqueness is preserved).
pub proof fn lemma_dedup_idempotent(
    jobs: Seq<JobModel>,
    source: Seq<char>,
    now1: i64,
    now2: i64,
    store: Seq<ListingModel>,
)
    requires
        model_wf(store),
    ensures
        ({
            let first = process_spec(jobs, source, now1, store);
            let second = process_spec(jobs, source, now2, first.1);
            second.0.len() == 0 && second.1 == first.1 && model_wf(first.1) && forall|i: int|
                0 <= i < jobs.len() ==> model_has_key(first.1, #[trigger] jobs[i].key, source)
        }),
{
    let first = process_spec(jobs, source, now1, store);
    lemma_process_covers(jobs, source, now1, store);
    lemma_process_wf(jobs, source, now1, store);
    lemma_process_all_duplicates(jobs, source, now2, first.1);
}

impl JobListing {
    /// A value-equal copy of this listing.
    pub fn duplicate(&self) -> (r: JobListing)
        ensures
            r == *self,
    {
        JobListing {
            id: clone_opt(&self.id),
            title: self.title.clone(),
            company: self.company.clone(),
            location: self.location.clone(),
            salary: clone_opt(&self.salary),
            description_snippet: self.description_snippet.clone(),
            url: self.url.clone(),
            indeed_job_key: self.indeed_job_key.clone(),
            source: self.source.clone(),
            scraped_at: self.scraped_at,
            created_at: self.created_at,
            updated_at: self.updated_at,
        }
    }
}

fn clone_opt(o: &Option<String>) -> (r: Option<String>)
    ensures
        r == *o,
{
    match o {
        Some(s) => Some(s.clone()),
        None => None,
    }
}

/// Promotes an extracted record to the listing the store will keep,
/// stamping the run's source and clock.
pub fn promote(job: &ScrapedJob, source: &String, now: i64) -> (r: JobListing)
    ensures
        model_of(r) == promoted_model(job_model(*job), source@, now),
{
    JobListing {
        id: None,
        title: job.title.clone(),
        company: job.company.clone(),
        location: job.location.clone(),
        salary: clone_opt(&job.salary),
        description_snippet: job.description_snippet.clone(),
        url: job.url.clone(),
        indeed_job_key: job.indeed_job_key.clone(),
        source: source.clone(),
        scraped_at: now,
        created_at: now,
        updated_at: now,
    }
}

/// The dedup lookup target: listings keyed by identity key and source.
/// Callers that keep listings elsewhere mirror its answers; tests and the
/// bundled driver use it directly.
pub struct ListingStore {
    items: Vec<JobListing>,
}

impl ListingStore {
    /// The listings the store holds, in insertion order.
    pub closed spec fn contents(&self) -> Seq<JobListing> {
        self.items@
    }

    /// The natural key is unique across the store.
    pub open spec fn wf(&self) -> bool {
        model_wf(listing_models(self.contents()))
    }

    /// An empty store.
    pub fn new() -> (r: Self)
        ensures
            r.contents() == Seq::<JobListing>::empty(),
            r.wf(),
    {
        ListingStore { items: Vec::new() }
    }

    /// How many listings the store holds.
    pub fn len(&self) -> (n: usize)
        ensures
            n == self.contents().len(),
    {
        self.items.len()
    }

    /// The listing at a position.
    pub fn get(&self, i: usize) -> (r: &JobListing)
        requires
            i < self.contents().len(),
        ensures
            *r == self.contents()[i as int],
    {
        &self.items[i]
    }

    /// Whether some listing carries this natural key.
    pub fn contains_key(&self, key: &String, source: &String) -> (b: bool)
        ensures
            b == model_has_key(listing_models(self.contents()), key@, source@),
    {
        let models = Ghost(listing_models(self.contents()));
        let mut i: usize = 0;
        while i < self.items.len()
            invariant
                0 <= i <= self.items@.len(),
                models@ == listing_models(self.items@),
                forall|k: int|
                    0 <= k < i ==> !(models@[k].job.key == key@ && models@[k].source == source@),
            decreases self.items@.len() - i,
        {
            if self.items[i].indeed_job_key == *key && self.items[i].source == *source {
                proof {
                    assert(models@[i as int].job.key == key@ && models@[i as int].source
                        == source@);
                }
                return true;
            }
            proof {
                assert(models@[i as int] == model_of(self.items@[i as int]));
            }
            i = i + 1;
        }
        false
    }

    /// Appends a listing whose natural key the store does not hold — the
    /// exec side of one `process_spec` insertion.
    pub fn insert(&mut self, listing: JobListing)
        requires
            old(self).wf(),
            !model_has_key(
                listing_models(old(self).contents()),
                listing.indeed_job_key@,
                listing.source@,
            ),
        ensures
            final(self).contents() == old(self).contents().push(listing),
            final(self).wf(),
    {
        let ghost before = listing_models(self.items@);
        let ghost m = model_of(listing);
        self.items.push(listing);
        proof {
            assert(listing_models(self.items@) =~= before.push(m));
            assert forall|i: int, j: int| 0 <= i < j < before.push(m).len() implies !(
            before.push(m)[i].job.key == before.push(m)[j].job.key && before.push(m)[i].source
                == before.push(m)[j].source) by {
                if j == before.len() {
                    assert(!(before[i].job.key == m.job.key && before[i].source == m.source));
                }
            }
        }
    }
}

/// Judges a creation answer from an external store: a store that accepts a
/// create yet returns no entity breaks its contract, and that anomaly is
/// surfaced for the record rather than silently dropped.
pub fn check_created(created: Option<JobListing>) -> (r: Result<JobListing, Error>)
    ensures
        match r {
            Ok(l) => created == Some(l),
            Err(e) => created is None && (e matches Error::Database(m) && m@
                == "Failed to create listing"@),
        },
{
    match created {
        Some(l) => Ok(l),
        None => Err(Error::Database(String::from_str("Failed to create listing"))),
    }
}

/// The report of one full run: how many records came out of extraction, how
/// many were persisted, how many were skipped as duplicates, and the newly
/// created listings themselves.
pub struct ScrapeJobResponse {
    pub total_scraped: usize,
    pub new_listings: usize,
    pub duplicates_skipped: usize,
    pub listings: Vec<JobListing>,
}

/// Runs the dedup stage over the extracted records: each record already in
/// the store by natural key is skipped, any other is persisted and
/// reported; the counts always add up to the number of records.
pub fn process_scraped(
    records: &Vec<ScrapedJob>,
    source: &String,
    now: i64,
    store: &mut ListingStore,
) -> (r: ScrapeJobResponse)
    requires
        old(store).wf(),
    ensures
        ({
            let outcome = process_spec(
                job_models(records@),
                source@,
                now,
                listing_models(old(store).contents()),
            );
            r.total_scraped == records@.len() && r.new_listings == outcome.0.len()
                && r.duplicates_skipped == records@.len() - outcome.0.len() && r.new_listings
                + r.duplicates_skipped == r.total_scraped && listing_models(r.listings@)
                == outcome.0 && listing_models(final(store).contents()) == outcome.1
                && final(store).wf()
        }),
{
    let ghost models = job_models(records@);
    let ghost store0 = listing_models(old(store).contents());
    let mut listings: Vec<JobListing> = Vec::new();
    let mut new_count: usize = 0;
    let mut dup_count: usize = 0;
    let mut idx: usize = 0;
    proof {
        assert(models.skip(0) =~= models);
        assert(listing_models(listings@) =~= Seq::<ListingModel>::empty());
    }
    while idx < records.len()
        invariant
            0 <= idx <= records@.len(),
            models == job_models(records@),
            store.wf(),
            new_count == listings@.len(),
            new_count + dup_count == idx,
            process_spec(models, source@, now, store0).0 =~= listing_models(listings@)
                + process_spec(
                models.skip(idx as int),
                source@,
                now,
                listing_models(store.contents()),
            ).0,
            process_spec(models, source@, now, store0).1 =~= process_spec(
                models.skip(idx as int),
                source@,
                now,
                listing_models(store.contents()),
            ).1,
        decreases records@.len() - idx,
    {
        let ghost rest = models.skip(idx as int);
        let ghost cur = listing_models(store.contents());
        proof {
            assert(rest[0] == models[idx as int]);
            assert(models[idx as int] == job_model(records@[idx as int]));
            assert(rest.drop_first() =~= models.skip(idx + 1));
        }
        let job = &records[idx];
        if store.contains_key(&job.indeed_job_key, source) {
            dup_count = dup_count + 1;
            proof {
                assert(model_has_key(cur, rest[0].key, source@));
                assert(process_spec(rest, source@, now, cur) == process_spec(
                    rest.drop_first(),
                    source@,
                    now,
                    cur,
                ));
            }
        } else {
            let listing = promote(job, source, now);
            let ghost m = model_of(listing);
            proof {
                assert(m == promoted_model(rest[0], source@, now));
                assert(!model_has_key(cur, rest[0].key, source@));
                assert(listing.indeed_job_key@ == rest[0].key && listing.source@ == source@);
            }
            store.insert(listing.duplicate());
            listings.push(listing);
            new_count = new_count + 1;
            proof {
                assert(listing_models(store.contents()) =~= cur.push(m));
                assert(listing_models(listings@) =~= listing_models(listings@.drop_last()).push(
                    m,
                ));
                let rec = process_spec(rest.drop_first(), source@, now, cur.push(m));
                assert(process_spec(rest, source@, now, cur).0 == seq![m] + rec.0);
                assert(listing_models(listings@.drop_last()) + (seq![m] + rec.0)
                    =~= listing_models(listings@) + rec.0);
            }
        }
        idx = idx + 1;
    }
    proof {
        assert(models.skip(models.len() as int) =~= Seq::<JobModel>::empty());
        let fin = process_spec(
            Seq::<JobModel>::empty(),
            source@,
            now,
            listing_models(store.contents()),
        );
        assert(fin.0 =~= Seq::<ListingModel>::empty());
        assert(listing_models(listings@) + Seq::<ListingModel>::empty() =~= listing_models(
            listings@,
        ));
    }
    ScrapeJobResponse {
        total_scraped: records.len(),
        new_listings: new_count,
        duplicates_skipped: dup_count,
        listings,
    }
}

impl IndeedScraper {
    /// The produced contract of the whole pipeline: validate the inputs,
    /// extract the records the page yields, then dedup and persist them.
    /// Inputs blank after trimming are rejected; a page with no cards at all
    /// fails the run with full page diagnostics; otherwise the report's
    /// counts describe exactly what was persisted and what was skipped.
    pub fn scrape_and_report(
        &self,
        job_title: &str,
        location: &str,
        page: PageSnapshot,
        now: i64,
        store: &mut ListingStore,
    ) -> (r: Result<ScrapeJobResponse, Error>)
        requires
            old(store).wf(),
        ensures
            ({
                let title_bad = trim_spec(job_title@).len() == 0;
                let loc_bad = trim_spec(location@).len() == 0;
                let chosen = chosen_cards(page);
                let models = card_models(ok_cards(chosen));
                let outcome = process_spec(
                    models,
                    "indeed"@,
                    now,
                    listing_models(old(store).contents()),
                );
                &&& (r is Err) == (title_bad || loc_bad || chosen.len() == 0)
                &&& match r {
                    Ok(resp) => resp.total_scraped == ok_cards(chosen).len()
                        && resp.new_listings == outcome.0.len() && resp.duplicates_skipped
                        == ok_cards(chosen).len() - outcome.0.len() && listing_models(
                        resp.listings@,
                    ) == outcome.0 && listing_models(final(store).contents()) == outcome.1
                        && final(store).wf(),
                    Err(e) => *final(store) == *old(store) && (if title_bad {
                        e matches Error::BadRequest(msg) && msg@ == "job_title is required"@
                    } else if loc_bad {
                        e matches Error::BadRequest(msg) && msg@ == "location is required"@
                    } else {
                        e matches Error::Scraper(msg) && msg@ == no_cards_message(
                            url_spec(job_title@, location@),
                            page.page_html@,
                        )
                    }),
                }
            }),
    {
        if !trimmed_nonempty(job_title) {
            return Err(Error::BadRequest(String::from_str("job_title is required")));
        }
        if !trimmed_nonempty(location) {
            return Err(Error::BadRequest(String::from_str("location is required")));
        }
        let jobs = match self.scrape(job_title, location, page) {
            Ok(jobs) => jobs,
            Err(e) => {
                return Err(e);
            },
        };
        let source = self.source_tag();
        let report = process_scraped(&jobs, &source, now, store);
        Ok(report)
    }
}

} // verus!

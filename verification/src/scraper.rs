//! The resilient structured-extraction pipeline for one job-board source.
//!
//! The browser session is a caller-owned resource: callers navigate to the
//! URL built here, query the page, and hand the answers in as plain data
//! (`PageSnapshot` and `CardSnapshot`).  Everything that decides — which
//! cards count, which fallback wins a field, when a card fails — is verified
//! here.

use crate::ascii::{bytes_of_chars, lemma_ascii_round_trip};
use crate::error::Error;
use crate::text::{trim_spec, trim_str};
use crate::urlenc::{
    encode_component, encoded_chars, is_url_safe_byte, lemma_decode_encode, lemma_encode_url_safe,
    percent_decode, percent_encode,
};
use vstd::prelude::*;
use vstd::utf8::{decode_utf8, encode_utf8, encode_utf8_decode_utf8};

verus! {

/// A job listing extracted from one result card, not yet persisted.
pub struct ScrapedJob {
    pub title: String,
    pub company: String,
    pub location: String,
    pub salary: Option<String>,
    pub description_snippet: String,
    pub url: String,
    pub indeed_job_key: String,
}

/// What the page reported about the title link of one card: its `href` and
/// its own identity attribute, when present.
pub struct LinkSnapshot {
    pub href: Option<String>,
    pub data_jk: Option<String>,
}

/// What the page reported about one result card.  Each field holds the
/// answer of one selector query: `None` when the element was missing or the
/// query failed, otherwise the raw text or attribute value.
pub struct CardSnapshot {
    pub title_primary: Option<String>,
    pub title_fallback: Option<String>,
    pub company_primary: Option<String>,
    pub company_fallback: Option<String>,
    pub location_primary: Option<String>,
    pub location_fallback: Option<String>,
    pub salary_text: Option<String>,
    pub snippet_primary: Option<String>,
    pub snippet_fallback: Option<String>,
    pub data_jk: Option<String>,
    pub title_link: Option<LinkSnapshot>,
    pub descendant_jk: Option<String>,
}

/// Everything a scrape run reads from the results page: the cards each
/// selector located and the full page markup kept for diagnostics.
pub struct PageSnapshot {
    pub primary_cards: Vec<CardSnapshot>,
    pub fallback_cards: Vec<CardSnapshot>,
    pub page_html: String,
}

/// The canonical search URL for a title and a location.
pub open spec fn url_spec(title: Seq<char>, location: Seq<char>) -> Seq<char> {
    "https://www.indeed.com/jobs?q="@ + encoded_chars(title) + "&l="@ + encoded_chars(location)
}

/// A character that percent-encoded output may hold.
pub open spec fn url_safe_char(c: char) -> bool {
    (c as u32) < 0x80 && is_url_safe_byte(c as u8)
}

/// An encoded query segment holds only URL-safe characters.
proof fn lemma_encoded_chars_safe(s: Seq<char>)
    ensures
        forall|i: int| 0 <= i < encoded_chars(s).len() ==> url_safe_char(#[trigger] encoded_chars(s)[i]),
{
    lemma_encode_url_safe(encode_utf8(s));
    let bs = percent_encode(encode_utf8(s));
    assert forall|i: int| 0 <= i < encoded_chars(s).len() implies url_safe_char(
        #[trigger] encoded_chars(s)[i],
    ) by {
        assert(encoded_chars(s)[i] == bs[i] as char);
        assert(is_url_safe_byte(bs[i]));
    }
}

/// Law: lossless encoding.  For every job title and location — spaces,
/// commas and all — the canonical URL holds no literal space or comma, and
/// percent-decoding the two encoded query segments recovers the original
/// inputs exactly.
pub proof fn lemma_build_url_round_trip(title: Seq<char>, location: Seq<char>)
    ensures
        forall|i: int|
            0 <= i < url_spec(title, location).len() ==> #[trigger] url_spec(title, location)[i]
                != ' ' && url_spec(title, location)[i] != ',',
        percent_decode(bytes_of_chars(encoded_chars(title))) == encode_utf8(title),
        percent_decode(bytes_of_chars(encoded_chars(location))) == encode_utf8(location),
        decode_utf8(encode_utf8(title)) == title,
        decode_utf8(encode_utf8(location)) == location,
{
    let p = "https://www.indeed.com/jobs?q="@;
    let m = "&l="@;
    let et = encoded_chars(title);
    let el = encoded_chars(location);
    reveal_strlit("https://www.indeed.com/jobs?q=");
    reveal_strlit("&l=");
    lemma_encoded_chars_safe(title);
    lemma_encoded_chars_safe(location);
    assert(forall|i: int| 0 <= i < p.len() ==> #[trigger] p[i] != ' ' && p[i] != ',');
    assert(forall|i: int| 0 <= i < m.len() ==> #[trigger] m[i] != ' ' && m[i] != ',');
    assert forall|i: int| 0 <= i < url_spec(title, location).len() implies #[trigger] url_spec(
        title,
        location,
    )[i] != ' ' && url_spec(title, location)[i] != ',' by {
        let u = url_spec(title, location);
        if i < p.len() {
            assert(u[i] == p[i]);
        } else if i < p.len() + et.len() {
            assert(u[i] == et[i - p.len()]);
            assert(url_safe_char(et[i - p.len()]));
        } else if i < p.len() + et.len() + m.len() {
            assert(u[i] == m[i - p.len() - et.len()]);
        } else {
            assert(u[i] == el[i - p.len() - et.len() - m.len()]);
            assert(url_safe_char(el[i - p.len() - et.len() - m.len()]));
        }
    }
    lemma_encode_url_safe(encode_utf8(title));
    lemma_encode_url_safe(encode_utf8(location));
    lemma_ascii_round_trip(percent_encode(encode_utf8(title)));
    lemma_ascii_round_trip(percent_encode(encode_utf8(location)));
    lemma_decode_encode(encode_utf8(title));
    lemma_decode_encode(encode_utf8(location));
    encode_utf8_decode_utf8(title);
    encode_utf8_decode_utf8(location);
}

/// `jk=` spells an identity parameter at position `i` of `s`.
pub open spec fn jk_marker_at(s: Seq<char>, i: int) -> bool {
    0 <= i && i + 3 <= s.len() && s[i] == 'j' && s[i + 1] == 'k' && s[i + 2] == '='
}

/// The first position at or after `from` where `jk=` occurs, or -1.
pub open spec fn first_jk_marker(s: Seq<char>, from: int) -> int
    decreases s.len() - from,
    when 0 <= from <= s.len()
{
    if from + 3 > s.len() {
        -1
    } else if jk_marker_at(s, from) {
        from
    } else {
        first_jk_marker(s, from + 1)
    }
}

/// The first position at or after `from` holding `&`, or the end of `s`.
pub open spec fn amp_or_end(s: Seq<char>, from: int) -> int
    decreases s.len() - from,
    when 0 <= from <= s.len()
{
    if from >= s.len() {
        from
    } else if s[from] == '&' {
        from
    } else {
        amp_or_end(s, from + 1)
    }
}

/// The identity parameter of a URL: the non-empty substring between the
/// first `jk=` and the next `&` or the end of the string.
pub open spec fn jk_from_url_spec(s: Seq<char>) -> Option<Seq<char>> {
    let i = first_jk_marker(s, 0);
    if i >= 0 {
        let v = s.subrange(i + 3, amp_or_end(s, i + 3));
        if v.len() > 0 {
            Some(v)
        } else {
            None
        }
    } else {
        None
    }
}

proof fn lemma_first_jk_marker(s: Seq<char>, from: int)
    requires
        0 <= from <= s.len(),
    ensures
        first_jk_marker(s, from) == -1 || first_jk_marker(s, from) >= from,
        first_jk_marker(s, from) == -1 ==> forall|k: int| from <= k ==> !jk_marker_at(s, k),
        first_jk_marker(s, from) >= 0 ==> from <= first_jk_marker(s, from) && jk_marker_at(
            s,
            first_jk_marker(s, from),
        ) && forall|k: int| from <= k < first_jk_marker(s, from) ==> !jk_marker_at(s, k),
    decreases s.len() - from,
{
    if from + 3 > s.len() {
    } else if jk_marker_at(s, from) {
    } else {
        lemma_first_jk_marker(s, from + 1);
    }
}

proof fn lemma_amp_or_end(s: Seq<char>, from: int)
    requires
        0 <= from <= s.len(),
    ensures
        from <= amp_or_end(s, from) <= s.len(),
        forall|k: int| from <= k < amp_or_end(s, from) ==> s[k] != '&',
        amp_or_end(s, from) < s.len() ==> s[amp_or_end(s, from)] == '&',
    decreases s.len() - from,
{
    if from >= s.len() {
    } else if s[from] == '&' {
    } else {
        lemma_amp_or_end(s, from + 1);
    }
}

/// The scraper for one job board; the browser session it reads through is
/// caller-owned and handed in as `PageSnapshot` data.
pub struct IndeedScraper {}

impl IndeedScraper {
    pub fn new() -> Self {
        IndeedScraper {  }
    }

    /// The constant source tag stamped on every listing of this board.
    pub fn source_tag(&self) -> (s: String)
        ensures
            s@ == "indeed"@,
    {
        String::from_str("indeed")
    }

    /// Builds the canonical search URL: both inputs percent-encoded
    /// independently and substituted into the fixed query template.
    pub fn build_url(job_title: &str, location: &str) -> (url: String)
        ensures
            url@ == url_spec(job_title@, location@),
    {
        let mut url = String::from_str("https://www.indeed.com/jobs?q=");
        let q = encode_component(job_title);
        url.append(q.as_str());
        url.append("&l=");
        let l = encode_component(location);
        url.append(l.as_str());
        url
    }

    /// Extracts the identity parameter from a card link's URL: the substring
    /// between the first `jk=` and the next `&` or the end of the string,
    /// when it is non-empty.
    pub fn extract_jk_from_url(url: &str) -> (r: Option<String>)
        ensures
            match r {
                Some(v) => jk_from_url_spec(url@) == Some(v@),
                None => jk_from_url_spec(url@) is None,
            },
    {
        let n = url.unicode_len();
        let mut i: usize = 0;
        while n - i >= 3 && !(url.get_char(i) == 'j' && url.get_char(i + 1) == 'k' && url.get_char(
            i + 2,
        ) == '=')
            invariant
                n == url@.len(),
                0 <= i <= n,
                forall|k: int| 0 <= k < i ==> !jk_marker_at(url@, k),
            decreases n - i,
        {
            i = i + 1;
        }
        proof {
            lemma_first_jk_marker(url@, 0);
        }
        if n - i < 3 {
            proof {
                assert(forall|k: int| 0 <= k ==> !jk_marker_at(url@, k));
                assert(first_jk_marker(url@, 0) == -1) by {
                    if first_jk_marker(url@, 0) >= 0 {
                        assert(jk_marker_at(url@, first_jk_marker(url@, 0)));
                    }
                }
            }
            return None;
        }
        proof {
            assert(jk_marker_at(url@, i as int));
            assert(first_jk_marker(url@, 0) == i) by {
                let f = first_jk_marker(url@, 0);
                if f == -1 {
                    assert(!jk_marker_at(url@, i as int));
                } else if f < i {
                    assert(!jk_marker_at(url@, f));
                } else if f > i {
                    assert(!jk_marker_at(url@, i as int));
                }
            }
        }
        let start = i + 3;
        let mut e = start;
        while e < n && url.get_char(e) != '&'
            invariant
                n == url@.len(),
                start <= e <= n,
                forall|k: int| start <= k < e ==> url@[k] != '&',
            decreases n - e,
        {
            e = e + 1;
        }
        proof {
            lemma_amp_or_end(url@, start as int);
            assert(amp_or_end(url@, start as int) == e) by {
                let a = amp_or_end(url@, start as int);
                if a < e {
                    assert(url@[a] != '&');
                } else if a > e {
                    assert(url@[e as int] != '&');
                }
            }
        }
        if e == start {
            return None;
        }
        let piece = url.substring_char(start, e);
        Some(piece.to_owned())
    }
}

/// The first of two selector answers whose text is non-empty once trimmed,
/// trimmed; `None` when both are missing or blank.
pub open spec fn pick_trimmed(primary: Option<String>, fallback: Option<String>) -> Option<
    Seq<char>,
> {
    if primary is Some && trim_spec(primary->0@).len() > 0 {
        Some(trim_spec(primary->0@))
    } else if fallback is Some && trim_spec(fallback->0@).len() > 0 {
        Some(trim_spec(fallback->0@))
    } else {
        None
    }
}

/// An attribute answer that is present and non-empty.
pub open spec fn present_nonempty(o: Option<String>) -> bool {
    o is Some && o->0@.len() > 0
}

/// The identity key offered by a card's title link: the `jk=` parameter of
/// its `href` first, its own identity attribute second.
pub open spec fn link_key_spec(link: LinkSnapshot) -> Option<Seq<char>> {
    if link.href is Some && jk_from_url_spec(link.href->0@) is Some {
        jk_from_url_spec(link.href->0@)
    } else if present_nonempty(link.data_jk) {
        Some(link.data_jk->0@)
    } else {
        None
    }
}

/// The identity key of a card, by the fallback precedence: the card's own
/// identity attribute, then the title link (href parameter, then the link's
/// attribute), then the attribute on any descendant.
pub open spec fn job_key_spec(card: CardSnapshot) -> Option<Seq<char>> {
    if present_nonempty(card.data_jk) {
        Some(card.data_jk->0@)
    } else if card.title_link is Some && link_key_spec(card.title_link->0) is Some {
        link_key_spec(card.title_link->0)
    } else if present_nonempty(card.descendant_jk) {
        Some(card.descendant_jk->0@)
    } else {
        None
    }
}

/// The title a card yields, when any.
pub open spec fn title_spec(card: CardSnapshot) -> Option<Seq<char>> {
    pick_trimmed(card.title_primary, card.title_fallback)
}

/// The company a card yields, or the sentinel for an unresolved company.
pub open spec fn company_spec(card: CardSnapshot) -> Seq<char> {
    match pick_trimmed(card.company_primary, card.company_fallback) {
        Some(v) => v,
        None => "Unknown Company"@,
    }
}

/// The location a card yields, or the sentinel for an unresolved location.
pub open spec fn location_spec(card: CardSnapshot) -> Seq<char> {
    match pick_trimmed(card.location_primary, card.location_fallback) {
        Some(v) => v,
        None => "Unknown Location"@,
    }
}

/// The salary a card yields; absence is not an error.
pub open spec fn salary_spec(card: CardSnapshot) -> Option<Seq<char>> {
    if card.salary_text is Some && trim_spec(card.salary_text->0@).len() > 0 {
        Some(trim_spec(card.salary_text->0@))
    } else {
        None
    }
}

/// The description snippet a card yields, or the empty string.
pub open spec fn snippet_spec(card: CardSnapshot) -> Seq<char> {
    match pick_trimmed(card.snippet_primary, card.snippet_fallback) {
        Some(v) => v,
        None => Seq::empty(),
    }
}

/// The detail-page URL derived from an identity key.
pub open spec fn viewjob_url(key: Seq<char>) -> Seq<char> {
    "https://www.indeed.com/viewjob?jk="@ + key
}

/// A card that yields a full record: both required fields derive.
pub open spec fn card_ok(card: CardSnapshot) -> bool {
    title_spec(card) is Some && job_key_spec(card) is Some
}

/// The mathematical content of an extracted record.
pub struct JobModel {
    pub title: Seq<char>,
    pub company: Seq<char>,
    pub location: Seq<char>,
    pub salary: Option<Seq<char>>,
    pub description_snippet: Seq<char>,
    pub url: Seq<char>,
    pub key: Seq<char>,
}

/// The record an extractable card yields.
pub open spec fn job_model_of_card(card: CardSnapshot) -> JobModel {
    JobModel {
        title: title_spec(card)->0,
        company: company_spec(card),
        location: location_spec(card),
        salary: salary_spec(card),
        description_snippet: snippet_spec(card),
        url: viewjob_url(job_key_spec(card)->0),
        key: job_key_spec(card)->0,
    }
}

/// The content of a `ScrapedJob` value.
pub open spec fn job_model(j: ScrapedJob) -> JobModel {
    JobModel {
        title: j.title@,
        company: j.company@,
        location: j.location@,
        salary: match j.salary {
            Some(s) => Some(s@),
            None => None,
        },
        description_snippet: j.description_snippet@,
        url: j.url@,
        key: j.indeed_job_key@,
    }
}

/// Takes the first selector answer that is non-empty after trimming.
pub fn get_text_or_default(primary: &Option<String>, fallback: &Option<String>) -> (r: Option<
    String,
>)
    ensures
        match r {
            Some(v) => pick_trimmed(*primary, *fallback) == Some(v@),
            None => pick_trimmed(*primary, *fallback) is None,
        },
{
    if let Some(t) = primary {
        let trimmed = trim_str(t.as_str());
        if !trimmed.as_str().is_empty() {
            return Some(trimmed);
        }
    }
    if let Some(t) = fallback {
        let trimmed = trim_str(t.as_str());
        if !trimmed.as_str().is_empty() {
            return Some(trimmed);
        }
    }
    None
}

/// Takes a lone selector answer when it is non-empty after trimming.
pub fn get_text_optional(text: &Option<String>) -> (r: Option<String>)
    ensures
        match r {
            Some(v) => text is Some && trim_spec(text->0@).len() > 0 && v@ == trim_spec(text->0@),
            None => !(text is Some && trim_spec(text->0@).len() > 0),
        },
{
    if let Some(t) = text {
        let trimmed = trim_str(t.as_str());
        if !trimmed.as_str().is_empty() {
            return Some(trimmed);
        }
    }
    None
}

impl IndeedScraper {
    /// Derives the stable identity key of one card through the ordered
    /// fallback chain, or fails the card.
    pub fn extract_job_key(&self, card: &CardSnapshot) -> (r: Result<String, Error>)
        ensures
            match r {
                Ok(k) => job_key_spec(*card) == Some(k@),
                Err(e) => job_key_spec(*card) is None && (e matches Error::Scraper(m) && m@
                    == "Could not find job key"@),
            },
    {
        if let Some(jk) = &card.data_jk {
            if !jk.as_str().is_empty() {
                return Ok(jk.clone());
            }
        }
        if let Some(link) = &card.title_link {
            if let Some(href) = &link.href {
                if let Some(k) = Self::extract_jk_from_url(href.as_str()) {
                    return Ok(k);
                }
            }
            if let Some(jk) = &link.data_jk {
                if !jk.as_str().is_empty() {
                    return Ok(jk.clone());
                }
            }
        }
        if let Some(jk) = &card.descendant_jk {
            if !jk.as_str().is_empty() {
                return Ok(jk.clone());
            }
        }
        Err(Error::Scraper(String::from_str("Could not find job key")))
    }

    /// Extracts the full record of one card, or fails that card alone: a
    /// missing title or identity key fails the card, the other fields fall
    /// back to their defaults.
    pub fn extract_job_data(&self, card: &CardSnapshot) -> (r: Result<ScrapedJob, Error>)
        ensures
            match r {
                Ok(job) => card_ok(*card) && job_model(job) == job_model_of_card(*card),
                Err(e) => !card_ok(*card) && (e matches Error::Scraper(m) && m@ == (if title_spec(
                    *card,
                ) is None {
                    "Could not find job title"@
                } else {
                    "Could not find job key"@
                })),
            },
    {
        let title = match get_text_or_default(&card.title_primary, &card.title_fallback) {
            Some(t) => t,
            None => {
                return Err(Error::Scraper(String::from_str("Could not find job title")));
            },
        };
        let company = match get_text_or_default(&card.company_primary, &card.company_fallback) {
            Some(c) => c,
            None => String::from_str("Unknown Company"),
        };
        let location = match get_text_or_default(&card.location_primary, &card.location_fallback) {
            Some(l) => l,
            None => String::from_str("Unknown Location"),
        };
        let salary = get_text_optional(&card.salary_text);
        let description_snippet = match get_text_or_default(
            &card.snippet_primary,
            &card.snippet_fallback,
        ) {
            Some(d) => d,
            None => String::new(),
        };
        let indeed_job_key = match self.extract_job_key(card) {
            Ok(k) => k,
            Err(e) => {
                return Err(e);
            },
        };
        let mut url = String::from_str("https://www.indeed.com/viewjob?jk=");
        url.append(indeed_job_key.as_str());
        Ok(
            ScrapedJob {
                title,
                company,
                location,
                salary,
                description_snippet,
                url,
                indeed_job_key,
            },
        )
    }
}

/// The selector queries that fill one `CardSnapshot`, scoped to the card.
pub struct FieldSelectors {
    pub title_primary: String,
    pub title_fallback: String,
    pub company_primary: String,
    pub company_fallback: String,
    pub location_primary: String,
    pub location_fallback: String,
    pub salary: String,
    pub snippet_primary: String,
    pub snippet_fallback: String,
    pub identity_attr: String,
    pub title_link: String,
    pub identity_bearer: String,
}

impl IndeedScraper {
    /// The selectors that locate the result cards: the primary one and the
    /// fallback tried when the primary finds nothing.
    pub fn card_selectors(&self) -> (r: (String, String))
        ensures
            r.0@ == "div.job_seen_beacon"@,
            r.1@ == "div.jobsearch-ResultsList > div"@,
    {
        (
            String::from_str("div.job_seen_beacon"),
            String::from_str("div.jobsearch-ResultsList > div"),
        )
    }

    /// The per-field selector plan of this board's cards.
    pub fn field_selectors(&self) -> (r: FieldSelectors)
        ensures
            r.title_primary@ == "h2.jobTitle a span"@,
            r.title_fallback@ == "h2.jobTitle span"@,
            r.company_primary@ == "span[data-testid='company-name']"@,
            r.company_fallback@ == "span.companyName"@,
            r.location_primary@ == "div[data-testid='text-location']"@,
            r.location_fallback@ == "div.companyLocation"@,
            r.salary@ == "div.salary-snippet-container"@,
            r.snippet_primary@ == "div.job-snippet"@,
            r.snippet_fallback@ == "div.underShelfFooter"@,
            r.identity_attr@ == "data-jk"@,
            r.title_link@ == "h2.jobTitle a"@,
            r.identity_bearer@ == "[data-jk]"@,
    {
        FieldSelectors {
            title_primary: String::from_str("h2.jobTitle a span"),
            title_fallback: String::from_str("h2.jobTitle span"),
            company_primary: String::from_str("span[data-testid='company-name']"),
            company_fallback: String::from_str("span.companyName"),
            location_primary: String::from_str("div[data-testid='text-location']"),
            location_fallback: String::from_str("div.companyLocation"),
            salary: String::from_str("div.salary-snippet-container"),
            snippet_primary: String::from_str("div.job-snippet"),
            snippet_fallback: String::from_str("div.underShelfFooter"),
            identity_attr: String::from_str("data-jk"),
            title_link: String::from_str("h2.jobTitle a"),
            identity_bearer: String::from_str("[data-jk]"),
        }
    }

    /// The fixed, ordered overlay-dismissal selectors the stabilizer tries;
    /// a failed lookup or click of any of them is ignored by design.
    pub fn overlay_selectors(&self) -> (r: Vec<String>)
        ensures
            r@.len() == 3,
            r@[0]@ == "button#onetrust-accept-btn-handler"@,
            r@[1]@ == "button[data-testid='close-button']"@,
            r@[2]@ == "button.icl-CloseButton"@,
    {
        let mut selectors: Vec<String> = Vec::new();
        selectors.push(String::from_str("button#onetrust-accept-btn-handler"));
        selectors.push(String::from_str("button[data-testid='close-button']"));
        selectors.push(String::from_str("button.icl-CloseButton"));
        selectors
    }

    /// The fixed pauses of a run, in milliseconds: after navigation, before
    /// extraction, and after a successful overlay dismissal.
    pub fn wait_plan_millis(&self) -> (r: (u64, u64, u64))
        ensures
            r.0 == 2000,
            r.1 == 1000,
            r.2 == 500,
    {
        (2000, 1000, 500)
    }
}

/// The cards a page offers: the primary selector's answer when it found
/// any, else the fallback selector's.
pub open spec fn chosen_cards(page: PageSnapshot) -> Seq<CardSnapshot> {
    if page.primary_cards@.len() > 0 {
        page.primary_cards@
    } else {
        page.fallback_cards@
    }
}

/// The cards whose extraction succeeds, in page order.
pub open spec fn ok_cards(cards: Seq<CardSnapshot>) -> Seq<CardSnapshot>
    decreases cards.len(),
{
    if cards.len() == 0 {
        Seq::empty()
    } else if card_ok(cards.last()) {
        ok_cards(cards.drop_last()).push(cards.last())
    } else {
        ok_cards(cards.drop_last())
    }
}

/// How many cards fail extraction.
pub open spec fn failed_cards(cards: Seq<CardSnapshot>) -> nat
    decreases cards.len(),
{
    if cards.len() == 0 {
        0
    } else {
        failed_cards(cards.drop_last()) + if card_ok(cards.last()) {
            0nat
        } else {
            1nat
        }
    }
}

/// Law: failure isolation.  A run over N cards of which M fail field
/// extraction yields exactly N − M records; the failing cards are omitted,
/// never the run.
pub proof fn lemma_partial_success(cards: Seq<CardSnapshot>)
    ensures
        ok_cards(cards).len() + failed_cards(cards) == cards.len(),
    decreases cards.len(),
{
    if cards.len() > 0 {
        lemma_partial_success(cards.drop_last());
    }
}

/// The records of a card sequence, as models.
pub open spec fn card_models(cards: Seq<CardSnapshot>) -> Seq<JobModel> {
    cards.map_values(|c: CardSnapshot| job_model_of_card(c))
}

/// The models of extracted records.
pub open spec fn job_models(jobs: Seq<ScrapedJob>) -> Seq<JobModel> {
    jobs.map_values(|j: ScrapedJob| job_model(j))
}

/// The diagnostic message of a run that located no cards at all.
pub open spec fn no_cards_message(url: Seq<char>, html: Seq<char>) -> Seq<char> {
    "No job cards found on page: "@ + url + "\n\nPage HTML:\n"@ + html
}

/// Law: diagnostics.  The message of a run that located no cards carries the
/// full captured page markup: it occurs verbatim at a known offset.
pub proof fn lemma_no_cards_message_carries_markup(url: Seq<char>, html: Seq<char>)
    ensures
        ({
            let m = no_cards_message(url, html);
            let k = m.len() - html.len();
            0 <= k <= m.len() && m.subrange(k, m.len() as int) =~= html
        }),
{
    let m = no_cards_message(url, html);
    let k = m.len() - html.len();
    assert(m.subrange(k as int, m.len() as int) =~= html);
}

/// Locates the result cards: the primary selector's cards if it found any,
/// else the fallback selector's; when both found none the run fails hard,
/// with the page markup attached for diagnosis.
pub fn locate_cards(page: PageSnapshot, url: &String) -> (r: Result<Vec<CardSnapshot>, Error>)
    ensures
        match r {
            Ok(cards) => chosen_cards(page).len() > 0 && cards@ == chosen_cards(page),
            Err(e) => page.primary_cards@.len() == 0 && page.fallback_cards@.len() == 0 && (
            e matches Error::Scraper(m) && m@ == no_cards_message(url@, page.page_html@)),
        },
{
    if page.primary_cards.len() > 0 {
        Ok(page.primary_cards)
    } else if page.fallback_cards.len() > 0 {
        Ok(page.fallback_cards)
    } else {
        let mut m = String::from_str("No job cards found on page: ");
        m.append(url.as_str());
        m.append("\n\nPage HTML:\n");
        m.append(page.page_html.as_str());
        Err(Error::Scraper(m))
    }
}

impl IndeedScraper {
    /// Runs extraction over every located card, collecting the records of
    /// the cards that succeed and dropping the ones that fail; fails as a
    /// whole only when no cards were located at all.
    pub fn scrape(&self, job_title: &str, location: &str, page: PageSnapshot) -> (r: Result<
        Vec<ScrapedJob>,
        Error,
    >)
        ensures
            match r {
                Ok(jobs) => chosen_cards(page).len() > 0 && job_models(jobs@) == card_models(
                    ok_cards(chosen_cards(page)),
                ),
                Err(e) => page.primary_cards@.len() == 0 && page.fallback_cards@.len() == 0 && (
                e matches Error::Scraper(m) && m@ == no_cards_message(
                    url_spec(job_title@, location@),
                    page.page_html@,
                )),
            },
    {
        let url = Self::build_url(job_title, location);
        let ghost chosen = chosen_cards(page);
        let cards = match locate_cards(page, &url) {
            Ok(c) => c,
            Err(e) => {
                return Err(e);
            },
        };
        let mut jobs: Vec<ScrapedJob> = Vec::new();
        let mut idx: usize = 0;
        proof {
            assert(ok_cards(cards@.take(0)) =~= Seq::empty());
            assert(job_models(jobs@) =~= card_models(ok_cards(cards@.take(0))));
        }
        while idx < cards.len()
            invariant
                0 <= idx <= cards@.len(),
                job_models(jobs@) == card_models(ok_cards(cards@.take(idx as int))),
            decreases cards@.len() - idx,
        {
            let ghost prefix = cards@.take(idx as int);
            let ghost card = cards@[idx as int];
            match self.extract_job_data(&cards[idx]) {
                Ok(job) => {
                    proof {
                        assert(cards@.take(idx + 1).drop_last() =~= prefix);
                        assert(cards@.take(idx + 1).last() == card);
                        assert(ok_cards(cards@.take(idx + 1)) =~= ok_cards(prefix).push(card));
                        assert(card_models(ok_cards(prefix).push(card)) =~= card_models(
                            ok_cards(prefix),
                        ).push(job_model_of_card(card)));
                    }
                    jobs.push(job);
                    proof {
                        assert(job_models(jobs@) =~= card_models(
                            ok_cards(cards@.take(idx + 1)),
                        ));
                    }
                },
                Err(_) => {
                    proof {
                        assert(cards@.take(idx + 1).drop_last() =~= prefix);
                        assert(cards@.take(idx + 1).last() == card);
                        assert(ok_cards(cards@.take(idx + 1)) =~= ok_cards(prefix));
                    }
                },
            }
            idx = idx + 1;
        }
        proof {
            assert(cards@.take(cards@.len() as int) =~= cards@);
        }
        Ok(jobs)
    }
}

} // verus!

//! Subscriptions: standing search rules, and the choice of a URL for each of their matches.
use vstd::prelude::*;
use crate::decoder::Date;

verus! {

/// The preferred variant of a broadcast.
#[derive(Clone, Copy, Debug, PartialEq, Eq, Structural)]
pub enum Quality {
    Low,
    Medium,
    High,
}

pub open spec fn quality_name(q: Quality) -> Seq<char> {
    match q {
        Quality::Low => "low"@,
        Quality::Medium => "medium"@,
        Quality::High => "high"@,
    }
}

/// The URL to fetch for quality `q`: the small or HD variant when it is preferred and
/// present, the canonical URL otherwise.
pub open spec fn resolved(q: Quality, url: Seq<char>, small: Seq<char>, hd: Seq<char>) -> Seq<char> {
    match q {
        Quality::Low => if small.len() > 0 { small } else { url },
        Quality::Medium => url,
        Quality::High => if hd.len() > 0 { hd } else { url },
    }
}

impl Quality {
    /// The lower-case name used in subscription files and prompts.
    pub fn name(&self) -> (r: &'static str)
        ensures
            r@ == quality_name(*self),
    {
        match self {
            Quality::Low => "low",
            Quality::Medium => "medium",
            Quality::High => "high",
        }
    }

    /// Picks the URL to download for this quality; an empty variant falls back to `url`.
    pub fn resolve_url(&self, url: &str, url_small: &str, url_hd: &str) -> (r: String)
        ensures
            r@ == resolved(*self, url@, url_small@, url_hd@),
    {
        match self {
            Quality::Low => if url_small.is_empty() {
                String::from_str(url)
            } else {
                String::from_str(url_small)
            },
            Quality::Medium => String::from_str(url),
            Quality::High => if url_hd.is_empty() {
                String::from_str(url)
            } else {
                String::from_str(url_hd)
            },
        }
    }
}

/// The quality a subscription gets when its file names none.
pub fn default_quality() -> (r: Quality)
    ensures
        r == Quality::Medium,
{
    Quality::Medium
}

/// A standing search rule.
#[derive(Clone, Debug, PartialEq, Eq)]
pub struct Subscription {
    /// The search term, a pattern over title or topic.
    pub term: String,
    /// Matches must last longer than this many seconds.
    pub minimum_length: i64,
    pub quality: Quality,
    /// Names both the subscription's file and its download folder.
    pub identifier: String,
}

/// What the catalog returns for one entry that a subscription's search finds.
#[derive(Clone, Debug, PartialEq, Eq)]
pub struct CatalogRow {
    pub title: String,
    pub date: Option<Date>,
    pub url: String,
    pub url_small: String,
    pub url_hd: String,
}

/// A match of a subscription, with the URL chosen for its quality.
#[derive(Clone, Debug, PartialEq, Eq)]
pub struct Match {
    pub title: String,
    pub date: Option<Date>,
    pub url: String,
}

/// `m` is what `row` becomes under quality `q`.
pub open spec fn matched_as(m: Match, row: CatalogRow, q: Quality) -> bool {
    &&& m.title@ == row.title@
    &&& m.date == row.date
    &&& m.url@ == resolved(q, row.url@, row.url_small@, row.url_hd@)
}

impl Subscription {
    /// The matches for the rows the catalog found, in the same order, one per row, each with
    /// the URL of this subscription's quality.
    pub fn matches_for(&self, rows: &Vec<CatalogRow>) -> (r: Vec<Match>)
        ensures
            r.len() == rows.len(),
            forall|i: int| 0 <= i < r.len() ==> matched_as(#[trigger] r@[i], rows@[i], self.quality),
    {
        let mut out: Vec<Match> = Vec::new();
        let mut i: usize = 0;
        while i < rows.len()
            invariant
                i <= rows.len(),
                out.len() == i,
                forall|j: int| 0 <= j < i ==> matched_as(#[trigger] out@[j], rows@[j], self.quality),
            decreases rows.len() - i,
        {
            let row = &rows[i];
            let url = self.quality.resolve_url(row.url.as_str(), row.url_small.as_str(), row.url_hd.as_str());
            out.push(Match { title: row.title.clone(), date: row.date, url });
            i = i + 1;
        }
        out
    }
}

/// Quality fallback: every quality yields a non-empty URL when the canonical URL is non-empty,
/// and Medium always yields the canonical URL.
pub proof fn fallback_law(q: Quality, url: Seq<char>, small: Seq<char>, hd: Seq<char>)
    requires
        url.len() > 0,
    ensures
        resolved(q, url, small, hd).len() > 0,
        resolved(Quality::Medium, url, small, hd) == url,
        small.len() == 0 ==> resolved(Quality::Low, url, small, hd) == url,
        hd.len() == 0 ==> resolved(Quality::High, url, small, hd) == url,
{
}

} // verus!

//! The bibliographic record and what belongs to it.
//!
//! Instants are milliseconds since the Unix epoch.

use crate::text::{join, joined, str_eq, texts};
use vstd::prelude::*;
use vstd::string::*;

verus! {

/// Where a record stands in its life cycle.
#[derive(Clone, Copy, Debug, PartialEq, Eq, Structural)]
pub enum PaperStatus {
    Discovered,
    Wanted,
    Queued,
    Downloaded,
    Summarized,
    Failed,
}

impl Default for PaperStatus {
    fn default() -> (status: Self)
        ensures
            status == PaperStatus::Discovered,
    {
        PaperStatus::Discovered
    }
}

/// The name under which a status is stored.
pub open spec fn status_name(status: PaperStatus) -> Seq<char> {
    match status {
        PaperStatus::Discovered => "discovered"@,
        PaperStatus::Wanted => "wanted"@,
        PaperStatus::Queued => "queued"@,
        PaperStatus::Downloaded => "downloaded"@,
        PaperStatus::Summarized => "summarized"@,
        PaperStatus::Failed => "failed"@,
    }
}

/// The status stored under a name; an unknown name reads as `Discovered`.
pub open spec fn status_named(name: Seq<char>) -> PaperStatus {
    if name == "wanted"@ {
        PaperStatus::Wanted
    } else if name == "queued"@ {
        PaperStatus::Queued
    } else if name == "downloaded"@ {
        PaperStatus::Downloaded
    } else if name == "summarized"@ {
        PaperStatus::Summarized
    } else if name == "failed"@ {
        PaperStatus::Failed
    } else {
        PaperStatus::Discovered
    }
}

/// The name under which `status` is stored.
pub fn status_to_string(status: &PaperStatus) -> (name: &'static str)
    ensures
        name@ == status_name(*status),
{
    match status {
        PaperStatus::Discovered => "discovered",
        PaperStatus::Wanted => "wanted",
        PaperStatus::Queued => "queued",
        PaperStatus::Downloaded => "downloaded",
        PaperStatus::Summarized => "summarized",
        PaperStatus::Failed => "failed",
    }
}

/// The status stored under `name`; an unknown name reads as `Discovered`.
pub fn string_to_status(name: &str) -> (status: PaperStatus)
    ensures
        status == status_named(name@),
{
    if str_eq(name, "wanted") {
        PaperStatus::Wanted
    } else if str_eq(name, "queued") {
        PaperStatus::Queued
    } else if str_eq(name, "downloaded") {
        PaperStatus::Downloaded
    } else if str_eq(name, "summarized") {
        PaperStatus::Summarized
    } else if str_eq(name, "failed") {
        PaperStatus::Failed
    } else {
        PaperStatus::Discovered
    }
}

/// Every status is read back from its own name.
pub proof fn lemma_status_name_round_trip(status: PaperStatus)
    ensures
        status_named(status_name(status)) == status,
{
    reveal_strlit("discovered");
    reveal_strlit("wanted");
    reveal_strlit("queued");
    reveal_strlit("downloaded");
    reveal_strlit("summarized");
    reveal_strlit("failed");
    assert("wanted"@[0] != "discovered"@[0]);
    assert("queued"@[0] != "discovered"@[0]);
    assert("downloaded"@[1] != "discovered"@[1]);
    assert("summarized"@[0] != "discovered"@[0]);
    assert("failed"@[0] != "discovered"@[0]);
    assert("wanted"@[0] != "queued"@[0]);
    assert("wanted"@[0] != "downloaded"@[0]);
    assert("wanted"@[0] != "summarized"@[0]);
    assert("wanted"@[0] != "failed"@[0]);
    assert("queued"@[0] != "downloaded"@[0]);
    assert("queued"@[0] != "summarized"@[0]);
    assert("queued"@[0] != "failed"@[0]);
    assert("downloaded"@[0] != "summarized"@[0]);
    assert("downloaded"@[0] != "failed"@[0]);
    assert("summarized"@[0] != "failed"@[0]);
}

/// A work that a record cites.
#[derive(Clone, Debug)]
pub struct Citation {
    pub citekey: String,
    pub title: Option<String>,
    pub authors: Option<String>,
    pub year: Option<i32>,
    pub doi: Option<String>,
    pub status: String,
}

/// A work named as related to a record.
#[derive(Clone, Debug)]
pub struct RelatedPaper {
    pub title: String,
    pub authors: Vec<String>,
    pub year: Option<i32>,
    pub why_related: String,
    pub vault_citekey: Option<String>,
}

/// A link between two records of the vault.
#[derive(Clone, Debug)]
pub struct PaperConnection {
    pub source: String,
    pub target: String,
    pub reason: String,
    pub created_at: i64,
}

/// A bibliographic record.
#[derive(Clone, Debug)]
pub struct Paper {
    pub citekey: String,
    pub title: String,
    pub authors: Vec<String>,
    pub year: Option<i32>,
    pub journal: Option<String>,
    pub volume: Option<String>,
    pub number: Option<String>,
    pub pages: Option<String>,
    pub doi: Option<String>,
    pub url: Option<String>,
    pub abstract_text: Option<String>,
    pub status: PaperStatus,
    pub pdf_path: Option<String>,
    pub summary_path: Option<String>,
    pub notes_path: Option<String>,
    pub added_at: i64,
    pub downloaded_at: Option<i64>,
    pub summarized_at: Option<i64>,
    pub citations: Vec<Citation>,
    pub cited_by: Vec<String>,
    pub related_papers: Vec<RelatedPaper>,
    pub search_attempts: i32,
    pub last_search_error: Option<String>,
    pub manual_download_links: Vec<String>,
}

impl Paper {
    /// A newly discovered record with a key and a title and nothing else,
    /// added at the instant `added_at`.
    pub fn new(citekey: String, title: String, added_at: i64) -> (paper: Self)
        ensures
            paper.citekey == citekey,
            paper.title == title,
            paper.added_at == added_at,
            paper.authors@.len() == 0,
            paper.year is None,
            paper.journal is None,
            paper.volume is None,
            paper.number is None,
            paper.pages is None,
            paper.doi is None,
            paper.url is None,
            paper.abstract_text is None,
            paper.status == PaperStatus::Discovered,
            paper.pdf_path is None,
            paper.summary_path is None,
            paper.notes_path is None,
            paper.downloaded_at is None,
            paper.summarized_at is None,
            paper.citations@.len() == 0,
            paper.cited_by@.len() == 0,
            paper.related_papers@.len() == 0,
            paper.search_attempts == 0,
            paper.last_search_error is None,
            paper.manual_download_links@.len() == 0,
    {
        Paper {
            citekey,
            title,
            authors: Vec::new(),
            year: None,
            journal: None,
            volume: None,
            number: None,
            pages: None,
            doi: None,
            url: None,
            abstract_text: None,
            status: PaperStatus::Discovered,
            pdf_path: None,
            summary_path: None,
            notes_path: None,
            added_at,
            downloaded_at: None,
            summarized_at: None,
            citations: Vec::new(),
            cited_by: Vec::new(),
            related_papers: Vec::new(),
            search_attempts: 0,
            last_search_error: None,
            manual_download_links: Vec::new(),
        }
    }

    /// The authors in order, separated by a comma and a space.
    pub fn authors_str(&self) -> (text: String)
        ensures
            text@ == joined(texts(self.authors@), ", "@),
    {
        join(&self.authors, ", ")
    }

    /// Puts a successful download on record: the record becomes
    /// `Downloaded`, with the stored file's path and the instant of the
    /// download. Nothing else changes.
    pub fn record_download(&mut self, pdf_path: String, now: i64)
        ensures
            *final(self) == (Paper {
                status: PaperStatus::Downloaded,
                pdf_path: Some(pdf_path),
                downloaded_at: Some(now),
                ..*old(self)
            }),
    {
        self.status = PaperStatus::Downloaded;
        self.pdf_path = Some(pdf_path);
        self.downloaded_at = Some(now);
    }

    /// Puts a search that found nothing on record: one more search
    /// attempt, and the manual links that stand in for a download. Nothing
    /// else changes; the status in particular stays.
    pub fn record_not_found(&mut self, manual_links: Vec<String>)
        requires
            old(self).search_attempts < i32::MAX,
        ensures
            *final(self) == (Paper {
                search_attempts: (old(self).search_attempts + 1) as i32,
                manual_download_links: manual_links,
                ..*old(self)
            }),
    {
        self.search_attempts = self.search_attempts + 1;
        self.manual_download_links = manual_links;
    }
}

/// The statuses in the order of the life cycle.
pub open spec fn status_at(place: int) -> PaperStatus {
    if place <= 0 {
        PaperStatus::Discovered
    } else if place == 1 {
        PaperStatus::Wanted
    } else if place == 2 {
        PaperStatus::Queued
    } else if place == 3 {
        PaperStatus::Downloaded
    } else if place == 4 {
        PaperStatus::Summarized
    } else {
        PaperStatus::Failed
    }
}

/// How many of the records have the status.
pub open spec fn count_with_status(papers: Seq<Paper>, status: PaperStatus) -> nat
    decreases papers.len(),
{
    if papers.len() == 0 {
        0
    } else if papers.last().status == status {
        count_with_status(papers.drop_last(), status) + 1
    } else {
        count_with_status(papers.drop_last(), status)
    }
}

/// How many records a vault holds, in all and in each status.
#[derive(Debug)]
pub struct VaultStats {
    pub total: usize,
    /// The count for each status, in the order of the life cycle.
    pub by_status: [usize; 6],
    pub last_updated: String,
}

proof fn lemma_count_fits(papers: Seq<Paper>, status: PaperStatus)
    ensures
        count_with_status(papers, status) <= papers.len(),
    decreases papers.len(),
{
    if papers.len() > 0 {
        lemma_count_fits(papers.drop_last(), status);
    }
}

fn status_place(status: PaperStatus) -> (place: usize)
    ensures
        place < 6,
        status_at(place as int) == status,
{
    match status {
        PaperStatus::Discovered => 0,
        PaperStatus::Wanted => 1,
        PaperStatus::Queued => 2,
        PaperStatus::Downloaded => 3,
        PaperStatus::Summarized => 4,
        PaperStatus::Failed => 5,
    }
}

/// Counts the records of a vault, in all and by status.
pub fn stats(papers: &Vec<Paper>, last_updated: String) -> (stats: VaultStats)
    ensures
        stats.total == papers@.len(),
        forall|place: int|
            0 <= place < 6 ==> #[trigger] stats.by_status@[place] == count_with_status(
                papers@,
                status_at(place),
            ),
        stats.last_updated == last_updated,
{
    let mut by_status: [usize; 6] = [0, 0, 0, 0, 0, 0];
    let mut i: usize = 0;
    while i < papers.len()
        invariant
            i <= papers@.len(),
            forall|place: int|
                0 <= place < 6 ==> #[trigger] by_status@[place] == count_with_status(
                    papers@.take(i as int),
                    status_at(place),
                ),
        decreases papers@.len() - i,
    {
        let place = status_place(papers[i].status);
        proof {
            let upto = papers@.take(i + 1);
            assert(upto.drop_last() =~= papers@.take(i as int));
            assert(upto.last() == papers@[i as int]);
            lemma_count_fits(papers@.take(i as int), status_at(place as int));
        }
        let count = by_status[place];
        by_status.set(place, count + 1);
        i += 1;
    }
    proof {
        assert(papers@.take(i as int) =~= papers@);
    }
    VaultStats { total: papers.len(), by_status, last_updated }
}

} // verus!

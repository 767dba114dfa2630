//! The acquisition waterfall: which source is asked next, what follows a
//! hit, and what is reported in the end. The orchestrator decides; its
//! caller asks the sources, downloads, and reports back.

use crate::adapters::OutOfTurn;
use crate::models::Paper;
use crate::outside::{percent_encoded, url_encode};
use crate::text::text_of;
use crate::validation::{download_verdict, validate_download, ValidationFailure};
use vstd::prelude::*;
use vstd::string::*;
use vstd::utf8::*;

verus! {

/// The ways of asking for a document, in the order in which they are tried.
#[derive(Clone, Copy, Debug, PartialEq, Eq, Structural)]
pub enum Source {
    /// The preprint server, by the identifier in the DOI.
    ArxivByDoi,
    /// The DOI registry of open-access locations.
    Unpaywall,
    /// The academic graph, by DOI.
    SemanticScholarByDoi,
    /// The academic graph, by title.
    SemanticScholarByTitle,
    /// The preprint server, by title.
    ArxivByTitle,
    /// The command-line assistant.
    Claude,
}

/// How many sources there are.
pub const SOURCE_COUNT: u8 = 6;

impl Source {
    /// The place of a source in the order of trial, from one.
    pub open spec fn rank(self) -> nat {
        match self {
            Source::ArxivByDoi => 1,
            Source::Unpaywall => 2,
            Source::SemanticScholarByDoi => 3,
            Source::SemanticScholarByTitle => 4,
            Source::ArxivByTitle => 5,
            Source::Claude => 6,
        }
    }

    /// The source is asked by DOI.
    pub open spec fn needs_doi(self) -> bool {
        self == Source::ArxivByDoi || self == Source::Unpaywall || self
            == Source::SemanticScholarByDoi
    }

    /// The name under which a source is reported.
    pub open spec fn label(self) -> Seq<char> {
        match self {
            Source::ArxivByDoi => "arxiv"@,
            Source::Unpaywall => "unpaywall"@,
            Source::SemanticScholarByDoi => "semantic_scholar"@,
            Source::SemanticScholarByTitle => "semantic_scholar"@,
            Source::ArxivByTitle => "arxiv"@,
            Source::Claude => "claude_cli"@,
        }
    }

    /// The progress, in percent, reported when the source is asked.
    pub open spec fn percent(self) -> int {
        match self {
            Source::ArxivByDoi => 10,
            Source::Unpaywall => 25,
            Source::SemanticScholarByDoi => 40,
            Source::SemanticScholarByTitle => 55,
            Source::ArxivByTitle => 70,
            Source::Claude => 85,
        }
    }

    /// The name under which the source is reported.
    pub fn name(&self) -> (name: &'static str)
        ensures
            name@ == self.label(),
    {
        match self {
            Source::ArxivByDoi => "arxiv",
            Source::Unpaywall => "unpaywall",
            Source::SemanticScholarByDoi => "semantic_scholar",
            Source::SemanticScholarByTitle => "semantic_scholar",
            Source::ArxivByTitle => "arxiv",
            Source::Claude => "claude_cli",
        }
    }
}

/// The source at a place in the order of trial.
pub open spec fn source_at(rank: nat) -> Source {
    if rank <= 1 {
        Source::ArxivByDoi
    } else if rank == 2 {
        Source::Unpaywall
    } else if rank == 3 {
        Source::SemanticScholarByDoi
    } else if rank == 4 {
        Source::SemanticScholarByTitle
    } else if rank == 5 {
        Source::ArxivByTitle
    } else {
        Source::Claude
    }
}

/// A source is asked only if what it needs is there: a DOI for the
/// lookups by DOI, an installed tool for the assistant.
pub open spec fn applies(source: Source, has_doi: bool, llm_available: bool) -> bool {
    (source.needs_doi() ==> has_doi) && (source == Source::Claude ==> llm_available)
}

/// The first source after place `after` that applies, if any.
pub open spec fn next_source(after: nat, has_doi: bool, llm_available: bool) -> Option<Source>
    decreases SOURCE_COUNT - after,
{
    if after >= SOURCE_COUNT {
        None
    } else if applies(source_at(after + 1), has_doi, llm_available) {
        Some(source_at(after + 1))
    } else {
        next_source(after + 1, has_doi, llm_available)
    }
}

/// The order of trial is strict: the source asked next is the first
/// after the present place that applies, every source between the two
/// is one that does not apply, and when no source is asked next, none
/// that is left applies.
pub proof fn lemma_next_source_is_first_that_applies(
    after: nat,
    has_doi: bool,
    llm_available: bool,
)
    ensures
        match next_source(after, has_doi, llm_available) {
            Some(next) => {
                &&& after < next.rank() <= SOURCE_COUNT
                &&& applies(next, has_doi, llm_available)
                &&& forall|rank: nat|
                    after < rank < next.rank() ==> !applies(
                        #[trigger] source_at(rank),
                        has_doi,
                        llm_available,
                    )
            },
            None => forall|rank: nat|
                after < rank <= SOURCE_COUNT ==> !applies(
                    #[trigger] source_at(rank),
                    has_doi,
                    llm_available,
                ),
        },
    decreases SOURCE_COUNT - after,
{
    if after < SOURCE_COUNT {
        if !applies(source_at(after + 1), has_doi, llm_available) {
            lemma_next_source_is_first_that_applies(after + 1, has_doi, llm_available);
        }
    }
}

/// A source is asked by title whether or not there is a DOI, so a
/// search always has a source to begin with.
pub proof fn lemma_some_source_always_applies(has_doi: bool, llm_available: bool)
    ensures
        next_source(0, has_doi, llm_available) is Some,
{
    reveal_with_fuel(next_source, 7);
}

/// The source to ask after `current` found nothing.
pub fn source_after(current: Source, has_doi: bool, llm_available: bool) -> (next: Option<Source>)
    ensures
        next == next_source(current.rank(), has_doi, llm_available),
        next matches Some(later) ==> later.rank() > current.rank() && applies(
            later,
            has_doi,
            llm_available,
        ),
{
    reveal_with_fuel(next_source, 7);
    match current {
        Source::ArxivByDoi => if has_doi {
            Some(Source::Unpaywall)
        } else {
            Some(Source::SemanticScholarByTitle)
        },
        Source::Unpaywall => if has_doi {
            Some(Source::SemanticScholarByDoi)
        } else {
            Some(Source::SemanticScholarByTitle)
        },
        Source::SemanticScholarByDoi => Some(Source::SemanticScholarByTitle),
        Source::SemanticScholarByTitle => Some(Source::ArxivByTitle),
        Source::ArxivByTitle => if llm_available {
            Some(Source::Claude)
        } else {
            None
        },
        Source::Claude => None,
    }
}

/// The source to begin with.
pub fn first_source(has_doi: bool) -> (first: Source)
    ensures
        forall|llm_available: bool|
            Some(first) == #[trigger] next_source(0, has_doi, llm_available),
{
    reveal_with_fuel(next_source, 7);
    if has_doi {
        Source::ArxivByDoi
    } else {
        Source::SemanticScholarByTitle
    }
}

/// Where an acquisition stands.
#[derive(Clone, Copy, Debug, PartialEq, Eq, Structural)]
pub enum Stage {
    /// The source is being asked.
    Asking(Source),
    /// The source named an address, which is being downloaded.
    Downloading(Source),
    /// The download passed validation and is being stored.
    Storing(Source),
    /// The download from the source was stored.
    Found(Source),
    /// No source led to a document; manual links stand in.
    NotFound,
}

impl Stage {
    /// The progress, in percent, that a stage stands for.
    pub open spec fn percent(self) -> int {
        match self {
            Stage::Asking(source) => source.percent(),
            Stage::Downloading(_) => 90,
            Stage::Storing(_) => 95,
            Stage::Found(_) => 100,
            Stage::NotFound => 95,
        }
    }

    /// The acquisition has ended.
    pub open spec fn is_final(self) -> bool {
        self is Found || self is NotFound
    }

    /// The name of the source at work in a stage, if one is.
    pub open spec fn source_label(self) -> Option<Seq<char>> {
        match self {
            Stage::Asking(source) => Some(source.label()),
            Stage::Downloading(source) => Some(source.label()),
            Stage::Storing(source) => Some(source.label()),
            Stage::Found(source) => Some(source.label()),
            Stage::NotFound => None,
        }
    }

    /// A stage in words.
    pub open spec fn in_words(self) -> Seq<char> {
        match self {
            Stage::Asking(_) => "Asking the source"@,
            Stage::Downloading(_) => "Downloading the document"@,
            Stage::Storing(_) => "Storing the document"@,
            Stage::Found(_) => "Document stored"@,
            Stage::NotFound => "No document found; manual links follow"@,
        }
    }
}

/// What the caller does next.
#[derive(Debug, PartialEq, Eq)]
pub enum Action {
    /// Ask this source and report with `on_lookup`.
    Ask(Source),
    /// Download from this address and report with `on_payload`, or
    /// with `on_download_failed` if nothing could be downloaded.
    Download { url: String, source: Source },
    /// Generate the manual links and conclude that nothing was found.
    GiveUp,
}

/// The stage that follows the answer of a source.
pub open spec fn stage_after_lookup(
    source: Source,
    found: bool,
    has_doi: bool,
    llm_available: bool,
) -> Stage {
    if found {
        Stage::Downloading(source)
    } else {
        match next_source(source.rank(), has_doi, llm_available) {
            Some(next) => Stage::Asking(next),
            None => Stage::NotFound,
        }
    }
}

/// The stage that follows a download: a payload that passes both
/// validators is stored; any other ends the search with nothing found,
/// and no other source is asked.
pub open spec fn stage_after_payload(source: Source, content_type: Option<&str>, bytes: Seq<u8>) -> Stage {
    if download_verdict(content_type, bytes) is Ok {
        Stage::Storing(source)
    } else {
        Stage::NotFound
    }
}

/// What can be reported to an acquisition.
pub enum Report {
    /// The source that was asked named an address, or none.
    Lookup { found: bool },
    /// A payload was downloaded; it passed the validators, or did not.
    Payload { accepted: bool },
    /// Nothing could be downloaded.
    DownloadFailed,
    /// The document was stored.
    Stored,
}

/// The stage after a report; a report out of turn changes nothing.
pub open spec fn stage_after(stage: Stage, report: Report, has_doi: bool, llm_available: bool) -> Stage {
    match (stage, report) {
        (Stage::Asking(source), Report::Lookup { found }) => stage_after_lookup(
            source,
            found,
            has_doi,
            llm_available,
        ),
        (Stage::Downloading(source), Report::Payload { accepted }) => if accepted {
            Stage::Storing(source)
        } else {
            Stage::NotFound
        },
        (Stage::Downloading(_), Report::DownloadFailed) => Stage::NotFound,
        (Stage::Storing(source), Report::Stored) => Stage::Found(source),
        _ => stage,
    }
}

/// The stage after a series of reports.
pub open spec fn stage_after_all(
    stage: Stage,
    reports: Seq<Report>,
    has_doi: bool,
    llm_available: bool,
) -> Stage
    decreases reports.len(),
{
    if reports.len() == 0 {
        stage
    } else {
        stage_after(
            stage_after_all(stage, reports.drop_last(), has_doi, llm_available),
            reports.last(),
            has_doi,
            llm_available,
        )
    }
}

/// Once a source has named an address, no source is asked again,
/// whatever is reported; and a search that has ended stays as it ended.
pub proof fn lemma_no_source_is_asked_after_a_hit(
    stage: Stage,
    reports: Seq<Report>,
    has_doi: bool,
    llm_available: bool,
)
    requires
        !(stage is Asking),
    ensures
        !(stage_after_all(stage, reports, has_doi, llm_available) is Asking),
        stage.is_final() ==> stage_after_all(stage, reports, has_doi, llm_available) == stage,
    decreases reports.len(),
{
    if reports.len() > 0 {
        lemma_no_source_is_asked_after_a_hit(stage, reports.drop_last(), has_doi, llm_available);
    }
}

/// Whatever is reported, the sources are asked in their order, each at
/// most once, the progress never steps back, and a document is found only
/// from the source that named its address.
pub proof fn lemma_reports_move_forward(
    stage: Stage,
    report: Report,
    has_doi: bool,
    llm_available: bool,
)
    ensures
        stage_after(stage, report, has_doi, llm_available).percent() >= stage.percent(),
        stage matches Stage::Asking(source) ==> (stage_after(
            stage,
            report,
            has_doi,
            llm_available,
        ) matches Stage::Asking(next) ==> (next == source || (next.rank() > source.rank()
            && applies(next, has_doi, llm_available)))),
        stage_after(stage, report, has_doi, llm_available) matches Stage::Found(source)
            ==> stage == Stage::Storing(source) || stage == Stage::Found(source),
        stage_after(stage, report, has_doi, llm_available) matches Stage::Storing(source)
            ==> stage == Stage::Downloading(source) || stage == Stage::Storing(source),
{
    if let Stage::Asking(source) = stage {
        lemma_next_source_is_first_that_applies(source.rank(), has_doi, llm_available);
        reveal_with_fuel(next_source, 7);
    }
}

/// Runs one acquisition through the sources in their fixed order.
#[derive(Debug)]
pub struct AcquisitionOrchestrator {
    has_doi: bool,
    llm_available: bool,
    stage: Stage,
}

impl AcquisitionOrchestrator {
    /// Whether the record has a DOI.
    pub closed spec fn has_doi(&self) -> bool {
        self.has_doi
    }

    /// Whether the assistant can be asked.
    pub closed spec fn llm_available(&self) -> bool {
        self.llm_available
    }

    /// Where the acquisition stands.
    pub closed spec fn current(&self) -> Stage {
        self.stage
    }

    /// An acquisition for a record with or without a DOI, with the
    /// assistant installed or not. It starts by asking the first source
    /// that applies.
    pub fn new(has_doi: bool, llm_available: bool) -> (orchestrator: Self)
        ensures
            orchestrator.has_doi() == has_doi,
            orchestrator.llm_available() == llm_available,
            next_source(0, has_doi, llm_available) matches Some(first) && orchestrator.current()
                == Stage::Asking(first),
    {
        AcquisitionOrchestrator {
            has_doi,
            llm_available,
            stage: Stage::Asking(first_source(has_doi)),
        }
    }

    /// Where the acquisition stands.
    pub fn stage(&self) -> (stage: Stage)
        ensures
            stage == self.current(),
    {
        self.stage
    }

    /// The progress to report, in percent.
    pub fn progress(&self) -> (percent: i32)
        ensures
            percent == self.current().percent(),
            0 <= percent <= 100,
    {
        match self.stage {
            Stage::Asking(Source::ArxivByDoi) => 10,
            Stage::Asking(Source::Unpaywall) => 25,
            Stage::Asking(Source::SemanticScholarByDoi) => 40,
            Stage::Asking(Source::SemanticScholarByTitle) => 55,
            Stage::Asking(Source::ArxivByTitle) => 70,
            Stage::Asking(Source::Claude) => 85,
            Stage::Downloading(_) => 90,
            Stage::Storing(_) => 95,
            Stage::Found(_) => 100,
            Stage::NotFound => 95,
        }
    }

    /// Takes the answer of the source that is being asked. An address is
    /// downloaded and no further source is asked; without one, the next
    /// source that applies is asked, and after the last one the search is
    /// given up. In any other stage the report is out of turn and nothing
    /// changes.
    pub fn on_lookup(&mut self, found: Option<String>) -> (next: Result<Action, OutOfTurn>)
        ensures
            final(self).has_doi() == old(self).has_doi(),
            final(self).llm_available() == old(self).llm_available(),
            match old(self).current() {
                Stage::Asking(source) => {
                    &&& final(self).current() == stage_after_lookup(
                        source,
                        found is Some,
                        old(self).has_doi(),
                        old(self).llm_available(),
                    )
                    &&& next == Ok::<Action, OutOfTurn>(
                        match final(self).current() {
                            Stage::Asking(later) => Action::Ask(later),
                            Stage::Downloading(_) => Action::Download {
                                url: found->0,
                                source,
                            },
                            _ => Action::GiveUp,
                        },
                    )
                },
                _ => next == Err::<Action, OutOfTurn>(OutOfTurn) && final(self).current() == old(
                    self,
                ).current(),
            },
            final(self).current().percent() >= old(self).current().percent(),
    {
        reveal_with_fuel(next_source, 7);
        let source = match self.stage {
            Stage::Asking(source) => source,
            _ => {
                return Err(OutOfTurn);
            },
        };
        match found {
            Some(url) => {
                self.stage = Stage::Downloading(source);
                Ok(Action::Download { url, source })
            },
            None => match source_after(source, self.has_doi, self.llm_available) {
                Some(later) => {
                    self.stage = Stage::Asking(later);
                    Ok(Action::Ask(later))
                },
                None => {
                    self.stage = Stage::NotFound;
                    Ok(Action::GiveUp)
                },
            },
        }
    }

    /// Takes what was downloaded, with the content type the server
    /// declared, and validates it. A payload that is no login page and
    /// carries the PDF signature is to be stored; any other is discarded,
    /// and the search ends with nothing found, no other source being asked.
    /// In any stage but `Downloading` the report is out of turn and
    /// nothing changes.
    pub fn on_payload(&mut self, content_type: Option<&str>, bytes: &[u8]) -> (verdict: Result<
        Result<(), ValidationFailure>,
        OutOfTurn,
    >)
        ensures
            final(self).has_doi() == old(self).has_doi(),
            final(self).llm_available() == old(self).llm_available(),
            match old(self).current() {
                Stage::Downloading(source) => {
                    &&& final(self).current() == stage_after_payload(source, content_type, bytes@)
                    &&& verdict == Ok::<Result<(), ValidationFailure>, OutOfTurn>(
                        download_verdict(content_type, bytes@),
                    )
                },
                _ => verdict == Err::<Result<(), ValidationFailure>, OutOfTurn>(OutOfTurn)
                    && final(self).current() == old(self).current(),
            },
            final(self).current().percent() >= old(self).current().percent(),
    {
        let source = match self.stage {
            Stage::Downloading(source) => source,
            _ => {
                return Err(OutOfTurn);
            },
        };
        let verdict = validate_download(content_type, bytes);
        match verdict {
            Ok(()) => {
                self.stage = Stage::Storing(source);
            },
            Err(_) => {
                self.stage = Stage::NotFound;
            },
        }
        Ok(verdict)
    }

    /// Takes the news that nothing could be downloaded from the address:
    /// the search ends with nothing found, no other source being asked. In
    /// any stage but `Downloading` the report is out of turn and nothing
    /// changes.
    pub fn on_download_failed(&mut self) -> (taken: Result<(), OutOfTurn>)
        ensures
            final(self).has_doi() == old(self).has_doi(),
            final(self).llm_available() == old(self).llm_available(),
            match old(self).current() {
                Stage::Downloading(_) => taken is Ok && final(self).current() == Stage::NotFound,
                _ => taken is Err && final(self).current() == old(self).current(),
            },
            final(self).current().percent() >= old(self).current().percent(),
    {
        match self.stage {
            Stage::Downloading(_) => {
                self.stage = Stage::NotFound;
                Ok(())
            },
            _ => Err(OutOfTurn),
        }
    }

    /// Takes the news that the validated document was stored, and hands
    /// back the source it came from. In any stage but `Storing` the report
    /// is out of turn and nothing changes.
    pub fn on_stored(&mut self) -> (from: Result<Source, OutOfTurn>)
        ensures
            final(self).has_doi() == old(self).has_doi(),
            final(self).llm_available() == old(self).llm_available(),
            match old(self).current() {
                Stage::Storing(source) => from == Ok::<Source, OutOfTurn>(source)
                    && final(self).current() == Stage::Found(source),
                _ => from is Err && final(self).current() == old(self).current(),
            },
            final(self).current().percent() >= old(self).current().percent(),
    {
        match self.stage {
            Stage::Storing(source) => {
                self.stage = Stage::Found(source);
                Ok(source)
            },
            _ => Err(OutOfTurn),
        }
    }

    /// What a consumer is told of the progress of the job `job_id`: the
    /// percentage of the stage, the source at work, and the stage in words.
    pub fn notice(&self, job_id: &str) -> (notice: ProgressNotice)
        ensures
            notice.job_id@ == job_id@,
            notice.percent == self.current().percent(),
            text_of(notice.source) == self.current().source_label(),
            notice.status@ == self.current().in_words(),
    {
        let (source, status) = match self.stage {
            Stage::Asking(source) => (Some(source), "Asking the source"),
            Stage::Downloading(source) => (Some(source), "Downloading the document"),
            Stage::Storing(source) => (Some(source), "Storing the document"),
            Stage::Found(source) => (Some(source), "Document stored"),
            Stage::NotFound => (None, "No document found; manual links follow"),
        };
        ProgressNotice {
            job_id: String::from_str(job_id),
            percent: self.progress(),
            source: match source {
                Some(source) => Some(String::from_str(source.name())),
                None => None,
            },
            status: String::from_str(status),
        }
    }
}

/// What a consumer is told of the progress of an acquisition.
#[derive(Debug)]
pub struct ProgressNotice {
    pub job_id: String,
    pub percent: i32,
    pub source: Option<String>,
    pub status: String,
}

/// The progress reported before the first source is asked.
pub const PROGRESS_STARTED: i32 = 0;

/// The progress reported when the outcome is on record.
pub const PROGRESS_DONE: i32 = 100;

/// What an acquisition reports in the end.
#[derive(Debug)]
pub struct FindPdfResult {
    /// Whether a document was stored.
    pub success: bool,
    /// Where the document was stored, relative to the vault.
    pub pdf_path: Option<String>,
    /// The name of the source it came from.
    pub source: Option<String>,
    /// Searches to follow by hand when nothing was stored.
    pub manual_links: Vec<String>,
    /// Why nothing was stored.
    pub error: Option<String>,
}

/// What is reported as the reason when no source led to a document.
pub const NOT_FOUND_MESSAGE: &'static str = "No open access PDF found";

/// A text percent-encoded for a query string.
pub open spec fn query_text(text: Seq<char>) -> Seq<char> {
    percent_encoded(encode_utf8(text))
}

/// The general scholarly search for a title.
pub open spec fn scholar_link(title: Seq<char>) -> Seq<char> {
    "https://scholar.google.com/scholar?q="@ + query_text(title)
}

/// The search of the academic graph for a title.
pub open spec fn graph_link(title: Seq<char>) -> Seq<char> {
    "https://www.semanticscholar.org/search?q="@ + query_text(title)
}

/// The resolver's address for a DOI.
pub open spec fn doi_link(doi: Seq<char>) -> Seq<char> {
    "https://doi.org/"@ + doi
}

/// The search of the preprint repository for a title.
pub open spec fn repository_link(title: Seq<char>) -> Seq<char> {
    "https://papers.ssrn.com/sol3/results.cfm?txtKey_Words="@ + query_text(title)
}

/// The scholarly search for an author and a title.
pub open spec fn author_link(author: Seq<char>, title: Seq<char>) -> Seq<char> {
    "https://scholar.google.com/scholar?q=author:"@ + query_text(author) + "+"@ + query_text(
        title,
    )
}

/// The manual links for a record: the scholarly search, the graph search,
/// the DOI resolver if there is a DOI, the repository search, and the
/// author search if the first author has a name.
pub open spec fn manual_links(
    title: Seq<char>,
    doi: Option<Seq<char>>,
    first_author: Option<Seq<char>>,
) -> Seq<Seq<char>> {
    let searches = seq![scholar_link(title), graph_link(title)];
    let resolved = match doi {
        Some(doi) => searches.push(doi_link(doi)),
        None => searches,
    };
    let stored = resolved.push(repository_link(title));
    match first_author {
        Some(author) => if author.len() > 0 {
            stored.push(author_link(author, title))
        } else {
            stored
        },
        None => stored,
    }
}

/// The first author of a record, if it names any.
pub open spec fn first_author(authors: Seq<String>) -> Option<Seq<char>> {
    if authors.len() > 0 {
        Some(authors[0]@)
    } else {
        None
    }
}

/// The views of a vector of links.
pub open spec fn link_texts(links: Seq<String>) -> Seq<Seq<char>> {
    Seq::new(links.len(), |i: int| links[i]@)
}

fn link(prefix: &str, encoded: &str) -> (url: String)
    ensures
        url@ == prefix@ + encoded@,
{
    let mut url = String::from_str(prefix);
    url.append(encoded);
    url
}

/// The searches to follow by hand for a record that no source could serve.
pub fn generate_search_links(paper: &Paper) -> (links: Vec<String>)
    ensures
        link_texts(links@) == manual_links(
            paper.title@,
            text_of(paper.doi),
            first_author(paper.authors@),
        ),
        links@.len() >= 3,
{
    let title = url_encode(paper.title.as_str());
    let mut links: Vec<String> = Vec::new();
    links.push(link("https://scholar.google.com/scholar?q=", title.as_str()));
    links.push(link("https://www.semanticscholar.org/search?q=", title.as_str()));
    if let Some(doi) = &paper.doi {
        links.push(link("https://doi.org/", doi.as_str()));
    }
    links.push(link("https://papers.ssrn.com/sol3/results.cfm?txtKey_Words=", title.as_str()));
    if paper.authors.len() > 0 {
        let author = paper.authors[0].as_str();
        if !author.is_empty() {
            let mut url = link("https://scholar.google.com/scholar?q=author:", url_encode(author).as_str());
            url.append("+");
            url.append(title.as_str());
            links.push(url);
        }
    }
    proof {
        assert(link_texts(links@) =~= manual_links(
            paper.title@,
            text_of(paper.doi),
            first_author(paper.authors@),
        ));
    }
    links
}

impl FindPdfResult {
    /// The report of a stored document.
    pub fn found(pdf_path: String, source: Source) -> (report: Self)
        ensures
            report.success,
            report.pdf_path == Some(pdf_path),
            text_of(report.source) == Some(source.label()),
            report.manual_links@.len() == 0,
            report.error is None,
    {
        FindPdfResult {
            success: true,
            pdf_path: Some(pdf_path),
            source: Some(String::from_str(source.name())),
            manual_links: Vec::new(),
            error: None,
        }
    }

    /// The report of a search that stored nothing: it fails with the
    /// fixed message and offers the manual links.
    pub fn not_found(manual_links: Vec<String>) -> (report: Self)
        ensures
            !report.success,
            report.pdf_path is None,
            report.source is None,
            report.manual_links == manual_links,
            text_of(report.error) == Some(NOT_FOUND_MESSAGE@),
    {
        FindPdfResult {
            success: false,
            pdf_path: None,
            source: None,
            manual_links,
            error: Some(String::from_str(NOT_FOUND_MESSAGE)),
        }
    }
}

/// Ends an acquisition that stored a document at `pdf_path`: the record
/// becomes `Downloaded` with that path, and the report says so.
pub fn conclude_found(paper: &mut Paper, pdf_path: String, source: Source, now: i64) -> (report:
    FindPdfResult)
    ensures
        *final(paper) == (Paper {
            status: crate::models::PaperStatus::Downloaded,
            pdf_path: Some(pdf_path),
            downloaded_at: Some(now),
            ..*old(paper)
        }),
        report.success,
        report.pdf_path == Some(pdf_path),
        text_of(report.source) == Some(source.label()),
        report.manual_links@.len() == 0,
        report.error is None,
{
    paper.record_download(pdf_path.clone(), now);
    FindPdfResult::found(pdf_path, source)
}

/// Ends an acquisition that stored nothing: the record counts one more
/// search attempt and keeps the manual links, and the report offers them.
pub fn conclude_not_found(paper: &mut Paper) -> (report: FindPdfResult)
    requires
        old(paper).search_attempts < i32::MAX,
    ensures
        link_texts(report.manual_links@) == manual_links(
            old(paper).title@,
            text_of(old(paper).doi),
            first_author(old(paper).authors@),
        ),
        link_texts(final(paper).manual_download_links@) == link_texts(report.manual_links@),
        final(paper).search_attempts == old(paper).search_attempts + 1,
        *final(paper) == (Paper {
            search_attempts: final(paper).search_attempts,
            manual_download_links: final(paper).manual_download_links,
            ..*old(paper)
        }),
        !report.success,
        report.pdf_path is None,
        report.source is None,
        report.manual_links@.len() >= 3,
        text_of(report.error) == Some(NOT_FOUND_MESSAGE@),
{
    let links = generate_search_links(paper);
    let kept = generate_search_links(paper);
    paper.record_not_found(kept);
    FindPdfResult::not_found(links)
}

} // verus!

//! What the summarizing assistant hands back, as data.

use crate::chars::{
    chars_of, cut, find_in, first_occurrence, string_of, trim_span, within, Span,
};
use crate::adapters::filesystem::{cut_to, FileSystemAdapter};
use crate::adapters::OutOfTurn;
use crate::citekey::{decimal_text, i32_to_text};
use crate::models::{Paper, RelatedPaper};
use crate::outside::{debug_list, format_debug_list};
use crate::text::{join, joined, texts, trim, trimmed};
use vstd::prelude::*;
use vstd::std_specs::convert::FromSpecImpl;
use vstd::string::*;
use vstd::utf8::*;

verus! {

/// A work the assistant names as related.
#[derive(Clone, Debug)]
pub struct RelatedWorkEntry {
    pub title: String,
    pub authors: Vec<String>,
    pub year: Option<i32>,
    pub why_related: String,
}

/// The structured summary the assistant is asked for.
#[derive(Clone, Debug)]
pub struct ClaudeSummaryOutput {
    pub summary: String,
    pub key_contributions: Vec<String>,
    pub methodology: Option<String>,
    pub main_results: Vec<String>,
    pub limitations: Option<String>,
    pub related_work: Vec<RelatedWorkEntry>,
}

/// How an attempt to summarize ended.
#[derive(Debug)]
pub enum SummarizationResult {
    /// The answer was parsed.
    Success { markdown: String, related_papers: Vec<RelatedPaper> },
    /// The answer could not be parsed; it was saved as it came.
    ParseFailure { raw_response_path: String, error: String },
    /// The assistant could not be run, or failed.
    CliError(String),
}

/// A related work as named by the assistant, not yet linked to a record
/// of the vault.
pub open spec fn unlinked(entry: RelatedWorkEntry) -> RelatedPaper {
    RelatedPaper {
        title: entry.title,
        authors: entry.authors,
        year: entry.year,
        why_related: entry.why_related,
        vault_citekey: None,
    }
}

impl From<RelatedWorkEntry> for RelatedPaper {
    fn from(entry: RelatedWorkEntry) -> (related: Self) {
        RelatedPaper {
            title: entry.title,
            authors: entry.authors,
            year: entry.year,
            why_related: entry.why_related,
            vault_citekey: None,
        }
    }
}

impl FromSpecImpl<RelatedWorkEntry> for RelatedPaper {
    open spec fn obeys_from_spec() -> bool {
        true
    }

    open spec fn from_spec(entry: RelatedWorkEntry) -> Self {
        unlinked(entry)
    }
}

/// The related works of a summary, as unlinked related papers, in order.
pub open spec fn related_papers_of(entries: Seq<RelatedWorkEntry>) -> Seq<RelatedPaper> {
    Seq::new(entries.len(), |i: int| unlinked(entries[i]))
}

/// Turns the related works of a summary into related papers.
pub fn into_related_papers(entries: Vec<RelatedWorkEntry>) -> (papers: Vec<RelatedPaper>)
    ensures
        papers@ == related_papers_of(entries@),
{
    let mut entries = entries;
    let ghost all = entries@;
    let mut reversed: Vec<RelatedPaper> = Vec::new();
    while entries.len() > 0
        invariant
            entries@.len() + reversed@.len() == all.len(),
            entries@ == all.take(entries@.len() as int),
            forall|k: int|
                0 <= k < reversed@.len() ==> reversed@[k] == unlinked(
                    all[all.len() - 1 - k],
                ),
        decreases entries@.len(),
    {
        let entry = entries.pop().unwrap();
        proof {
            assert(entries@ =~= all.take(entries@.len() as int));
        }
        reversed.push(RelatedPaper::from(entry));
    }
    let mut papers: Vec<RelatedPaper> = Vec::new();
    let ghost turned = reversed@;
    while reversed.len() > 0
        invariant
            turned.len() == all.len(),
            reversed@.len() + papers@.len() == all.len(),
            reversed@ == turned.take(reversed@.len() as int),
            forall|k: int|
                0 <= k < turned.len() ==> turned[k] == unlinked(
                    all[all.len() - 1 - k],
                ),
            forall|k: int| 0 <= k < papers@.len() ==> papers@[k] == unlinked(all[k]),
        decreases reversed@.len(),
    {
        let paper = reversed.pop().unwrap();
        proof {
            assert(reversed@ =~= turned.take(reversed@.len() as int));
        }
        papers.push(paper);
    }
    proof {
        assert(papers@ =~= related_papers_of(all));
    }
    papers
}

/// The fence that opens and closes a block of code in Markdown.
pub const FENCE: &'static str = "```";

/// The fence that opens a block of JSON.
pub const JSON_FENCE: &'static str = "```json";

/// Where the object that opens at the start of `text` closes: one past
/// the brace that brings the count of open braces, `depth` before the place
/// `from`, back to none. Braces are counted wherever they stand.
pub open spec fn object_end(text: Seq<char>, from: int, depth: int) -> Option<int>
    decreases text.len() - from,
{
    if from < 0 || from >= text.len() {
        None
    } else if text[from] == '{' {
        object_end(text, from + 1, depth + 1)
    } else if text[from] == '}' {
        if depth == 1 {
            Some(from + 1)
        } else {
            object_end(text, from + 1, depth - 1)
        }
    } else {
        object_end(text, from + 1, depth)
    }
}

/// What stands between the first `opener` and the next fence after it,
/// if both are there.
pub open spec fn fenced(text: Seq<char>, opener: Seq<char>) -> Option<Seq<char>> {
    match first_occurrence(text, opener) {
        Some(start) => {
            let body = text.subrange(start + opener.len(), text.len() as int);
            match first_occurrence(body, FENCE@) {
                Some(end) => Some(body.take(end)),
                None => None,
            }
        },
        None => None,
    }
}

/// What a fenced block holds once a line that names its language is
/// left out: what follows the first line, trimmed, if that starts with a
/// brace; else the whole block.
pub open spec fn without_language(content: Seq<char>) -> Seq<char> {
    match first_occurrence(content, seq!['\n']) {
        Some(newline) => {
            let rest = trimmed(content.subrange(newline + 1, content.len() as int));
            if rest.len() > 0 && rest[0] == '{' {
                rest
            } else {
                content
            }
        },
        None => content,
    }
}

/// The JSON in an answer that may hold more than JSON. Of the trimmed
/// answer it is: the object at its start, to the brace that closes it, if
/// it starts with a brace that is closed; else what a block fenced as
/// JSON holds, trimmed; else what any fenced block holds, trimmed and
/// without a line that names a language; else all of it.
pub open spec fn json_in(response: Seq<char>) -> Seq<char> {
    let answer = trimmed(response);
    if answer.len() > 0 && answer[0] == '{' && object_end(answer, 0, 0) is Some {
        answer.take(object_end(answer, 0, 0).unwrap())
    } else if fenced(answer, JSON_FENCE@) is Some {
        trimmed(fenced(answer, JSON_FENCE@).unwrap())
    } else if fenced(answer, FENCE@) is Some {
        without_language(trimmed(fenced(answer, FENCE@).unwrap()))
    } else {
        answer
    }
}

/// Where the object that opens at the start of the span closes.
fn find_object_end(chars: &Vec<char>, span: Span) -> (end: Option<usize>)
    requires
        span.start < span.end <= chars@.len(),
        chars@[span.start as int] == '{',
    ensures
        match end {
            Some(end) => span.start < end <= span.end && object_end(cut(chars@, span), 0, 0)
                == Some(end - span.start),
            None => object_end(cut(chars@, span), 0, 0) is None,
        },
{
    let ghost text = cut(chars@, span);
    let mut depth: usize = 1;
    let mut i: usize = span.start + 1;
    proof {
        assert(text[0] == '{');
    }
    while i < span.end
        invariant
            span.start < i <= span.end <= chars@.len(),
            text == cut(chars@, span),
            1 <= depth <= i - span.start,
            object_end(text, 0, 0) == object_end(text, i - span.start, depth as int),
        decreases span.end - i,
    {
        let c = chars[i];
        proof {
            assert(text[i - span.start] == c);
        }
        if c == '{' {
            depth += 1;
        } else if c == '}' {
            if depth == 1 {
                return Some(i + 1);
            }
            depth -= 1;
        }
        i += 1;
    }
    None
}

/// The span between the first `opener` in a span and the next fence after it.
fn fenced_span(chars: &Vec<char>, span: Span, opener: &Vec<char>, fence: &Vec<char>) -> (inner:
    Option<Span>)
    requires
        span.start <= span.end <= chars@.len(),
        fence@ == FENCE@,
    ensures
        match inner {
            Some(inner) => within(inner, span) && fenced(cut(chars@, span), opener@) == Some(
                cut(chars@, inner),
            ),
            None => fenced(cut(chars@, span), opener@) is None,
        },
{
    let start = match find_in(chars, span.start, span.end, opener) {
        Some(at) => at + opener.len(),
        None => {
            return None;
        },
    };
    proof {
        assert(cut(chars@, span).subrange(start - span.start, cut(chars@, span).len() as int)
            =~= chars@.subrange(start as int, span.end as int));
    }
    match find_in(chars, start, span.end, fence) {
        Some(end) => {
            proof {
                assert(chars@.subrange(start as int, span.end as int).take(end - start)
                    =~= chars@.subrange(start as int, end as int));
            }
            Some(Span { start, end })
        },
        None => None,
    }
}

/// Client of the summarizing assistant.
#[derive(Clone, Copy, Debug, PartialEq, Eq, Structural)]
pub struct SummarizerService;

impl SummarizerService {
    /// How often the assistant is asked again after an answer that could
    /// not be parsed, the first request included.
    pub const MAX_RETRIES: u32 = 3;

    /// Extracts the JSON from an answer that may hold more than JSON.
    pub fn extract_json(response: &str) -> (json: String)
        ensures
            json@ == json_in(response@),
    {
        let chars = chars_of(response);
        let answer = trim_span(&chars, Span { start: 0, end: chars.len() });
        proof {
            assert(cut(chars@, Span { start: 0, end: chars.len() }) =~= chars@);
        }
        let ghost text = cut(chars@, answer);
        if answer.start < answer.end && chars[answer.start] == '{' {
            proof {
                assert(text[0] == chars@[answer.start as int]);
            }
            if let Some(end) = find_object_end(&chars, answer) {
                proof {
                    assert(text.take(end - answer.start) =~= cut(
                        chars@,
                        Span { start: answer.start, end },
                    ));
                }
                return string_of(&chars, Span { start: answer.start, end });
            }
        } else {
            proof {
                if answer.start < answer.end {
                    assert(text[0] == chars@[answer.start as int]);
                }
            }
        }
        let fence = chars_of(FENCE);
        let json_fence = chars_of(JSON_FENCE);
        if let Some(inner) = fenced_span(&chars, answer, &json_fence, &fence) {
            return string_of(&chars, trim_span(&chars, inner));
        }
        if let Some(inner) = fenced_span(&chars, answer, &fence, &fence) {
            let content = trim_span(&chars, inner);
            let mut newline: Vec<char> = Vec::new();
            newline.push('\n');
            proof {
                assert(newline@ =~= seq!['\n']);
            }
            if let Some(at) = find_in(&chars, content.start, content.end, &newline) {
                let rest = trim_span(&chars, Span { start: at + 1, end: content.end });
                proof {
                    let whole = cut(chars@, content);
                    assert(whole.subrange(at - content.start + 1, whole.len() as int) =~= cut(
                        chars@,
                        Span { start: (at + 1) as usize, end: content.end },
                    ));
                    if rest.start < rest.end {
                        assert(cut(chars@, rest)[0] == chars@[rest.start as int]);
                    }
                }
                if rest.start < rest.end && chars[rest.start] == '{' {
                    return string_of(&chars, rest);
                }
            }
            return string_of(&chars, content);
        }
        string_of(&chars, answer)
    }
}

/// The text of an optional text; empty if there is none.
pub open spec fn or_empty(text: Option<String>) -> Seq<char> {
    match text {
        Some(text) => text@,
        None => Seq::empty(),
    }
}

/// The year as it is written in front matter; zero if there is none.
pub open spec fn year_or_zero(year: Option<i32>) -> Seq<char> {
    match year {
        Some(year) => decimal_text(year as int),
        None => decimal_text(0),
    }
}

/// The front matter of a summary file: the record's title, authors,
/// year, journal, key and DOI, and the status `summarized`.
pub open spec fn front_matter(paper: Paper) -> Seq<char> {
    "---\ntitle: \""@ + paper.title@ + "\"\nauthors: "@ + debug_list(texts(paper.authors@))
        + "\nyear: "@ + year_or_zero(paper.year) + "\njournal: \""@ + or_empty(paper.journal)
        + "\"\ncitekey: \""@ + paper.citekey@ + "\"\ndoi: \""@ + or_empty(paper.doi)
        + "\"\nstatus: \"summarized\"\n---\n\n"@
}

/// A summary file: the front matter and the trimmed summary.
pub open spec fn summary_file(paper: Paper, response: Seq<char>) -> Seq<char> {
    front_matter(paper) + trimmed(response)
}

/// A list of items in Markdown, one line each.
pub open spec fn bullets(items: Seq<Seq<char>>) -> Seq<char>
    decreases items.len(),
{
    if items.len() == 0 {
        Seq::empty()
    } else {
        bullets(items.drop_last()) + "- "@ + items.last() + "\n"@
    }
}

/// One related work in Markdown: the title in bold, the authors and the
/// year if they are known, and on a line of its own why it is related.
pub open spec fn related_item(entry: RelatedWorkEntry) -> Seq<char> {
    "- **"@ + entry.title@ + "**"@ + (if entry.authors@.len() > 0 {
        " by "@ + joined(texts(entry.authors@), ", "@)
    } else {
        Seq::empty()
    }) + (match entry.year {
        Some(year) => " ("@ + decimal_text(year as int) + ")"@,
        None => Seq::empty(),
    }) + "\n  - "@ + entry.why_related@ + "\n"@
}

/// The related works in Markdown, one after the other.
pub open spec fn related_items(entries: Seq<RelatedWorkEntry>) -> Seq<char>
    decreases entries.len(),
{
    if entries.len() == 0 {
        Seq::empty()
    } else {
        related_items(entries.drop_last()) + related_item(entries.last())
    }
}

/// A section that is written only if it has a text.
pub open spec fn optional_section(heading: Seq<char>, text: Option<String>) -> Seq<char> {
    match text {
        Some(text) => heading + text@ + "\n"@,
        None => Seq::empty(),
    }
}

/// A structured summary in Markdown, under the front matter: summary,
/// key contributions, methodology if given, main results, limitations if
/// given, and related work if there is any.
pub open spec fn summary_markdown(paper: Paper, output: ClaudeSummaryOutput) -> Seq<char> {
    front_matter(paper) + "## Summary\n\n"@ + output.summary@ + "\n\n## Key Contributions\n\n"@
        + bullets(texts(output.key_contributions@)) + optional_section(
        "\n## Methodology\n\n"@,
        output.methodology,
    ) + "\n## Main Results\n\n"@ + bullets(texts(output.main_results@)) + optional_section(
        "\n## Limitations\n\n"@,
        output.limitations,
    ) + (if output.related_work@.len() > 0 {
        "\n## Related Work\n\n"@ + related_items(output.related_work@)
    } else {
        Seq::empty()
    })
}

fn push_front_matter(text: &mut String, paper: &Paper)
    ensures
        final(text)@ == old(text)@ + front_matter(*paper),
{
    let ghost before = text@;
    text.append("---\ntitle: \"");
    text.append(paper.title.as_str());
    text.append("\"\nauthors: ");
    let authors = format_debug_list(&paper.authors);
    text.append(authors.as_str());
    text.append("\nyear: ");
    let year = match paper.year {
        Some(year) => i32_to_text(year),
        None => i32_to_text(0),
    };
    text.append(year.as_str());
    text.append("\njournal: \"");
    if let Some(journal) = &paper.journal {
        text.append(journal.as_str());
    }
    text.append("\"\ncitekey: \"");
    text.append(paper.citekey.as_str());
    text.append("\"\ndoi: \"");
    if let Some(doi) = &paper.doi {
        text.append(doi.as_str());
    }
    text.append("\"\nstatus: \"summarized\"\n---\n\n");
    proof {
        assert(text@ =~= before + front_matter(*paper));
    }
}

fn push_bullets(text: &mut String, items: &Vec<String>)
    ensures
        final(text)@ == old(text)@ + bullets(texts(items@)),
{
    let mut i: usize = 0;
    proof {
        assert(texts(items@).take(0) =~= Seq::<Seq<char>>::empty());
        assert(text@ + Seq::<char>::empty() =~= text@);
    }
    while i < items.len()
        invariant
            i <= items@.len(),
            text@ == old(text)@ + bullets(texts(items@).take(i as int)),
        decreases items@.len() - i,
    {
        let ghost before = text@;
        text.append("- ");
        text.append(items[i].as_str());
        text.append("\n");
        proof {
            let upto = texts(items@).take(i + 1);
            assert(upto.drop_last() =~= texts(items@).take(i as int));
            assert(upto.last() == items@[i as int]@);
            assert(text@ =~= old(text)@ + bullets(upto));
        }
        i += 1;
    }
    proof {
        assert(texts(items@).take(i as int) =~= texts(items@));
    }
}

fn push_related_items(text: &mut String, entries: &Vec<RelatedWorkEntry>)
    ensures
        final(text)@ == old(text)@ + related_items(entries@),
{
    let mut i: usize = 0;
    proof {
        assert(entries@.take(0) =~= Seq::<RelatedWorkEntry>::empty());
        assert(text@ + Seq::<char>::empty() =~= text@);
    }
    while i < entries.len()
        invariant
            i <= entries@.len(),
            text@ == old(text)@ + related_items(entries@.take(i as int)),
        decreases entries@.len() - i,
    {
        let entry = &entries[i];
        let ghost before = text@;
        text.append("- **");
        text.append(entry.title.as_str());
        text.append("**");
        if entry.authors.len() > 0 {
            text.append(" by ");
            let authors = join(&entry.authors, ", ");
            text.append(authors.as_str());
        }
        if let Some(year) = entry.year {
            text.append(" (");
            let year = i32_to_text(year);
            text.append(year.as_str());
            text.append(")");
        }
        text.append("\n  - ");
        text.append(entry.why_related.as_str());
        text.append("\n");
        proof {
            let upto = entries@.take(i + 1);
            assert(upto.drop_last() =~= entries@.take(i as int));
            assert(upto.last() == entries@[i as int]);
            assert(text@ =~= before + related_item(*entry));
            assert(text@ =~= old(text)@ + related_items(upto));
        }
        i += 1;
    }
    proof {
        assert(entries@.take(i as int) =~= entries@);
    }
}

impl SummarizerService {
    /// The summary file for a record: front matter and trimmed summary.
    pub fn format_summary_with_frontmatter(paper: &Paper, response: &str) -> (file: String)
        ensures
            file@ == summary_file(*paper, response@),
    {
        let mut file = String::new();
        push_front_matter(&mut file, paper);
        file.append(trim(response));
        proof {
            assert(file@ =~= summary_file(*paper, response@));
        }
        file
    }

    /// The structured summary of a record in Markdown, under its front matter.
    pub fn format_to_markdown(paper: &Paper, output: &ClaudeSummaryOutput) -> (markdown: String)
        ensures
            markdown@ == summary_markdown(*paper, *output),
    {
        let mut markdown = String::new();
        push_front_matter(&mut markdown, paper);
        markdown.append("## Summary\n\n");
        markdown.append(output.summary.as_str());
        markdown.append("\n\n## Key Contributions\n\n");
        push_bullets(&mut markdown, &output.key_contributions);
        if let Some(methodology) = &output.methodology {
            markdown.append("\n## Methodology\n\n");
            markdown.append(methodology.as_str());
            markdown.append("\n");
        }
        markdown.append("\n## Main Results\n\n");
        push_bullets(&mut markdown, &output.main_results);
        if let Some(limitations) = &output.limitations {
            markdown.append("\n## Limitations\n\n");
            markdown.append(limitations.as_str());
            markdown.append("\n");
        }
        if output.related_work.len() > 0 {
            markdown.append("\n## Related Work\n\n");
            push_related_items(&mut markdown, &output.related_work);
        }
        proof {
            assert(markdown@ =~= summary_markdown(*paper, *output));
        }
        markdown
    }
}

/// Which request the assistant is sent.
#[derive(Debug, PartialEq, Eq)]
pub enum SummaryRequest {
    /// The first request.
    First,
    /// A repeated request that says why the answer before it could not
    /// be parsed; `attempt` counts the requests, this one included.
    Retry { attempt: u32, previous_error: String },
}

/// What the caller of the summarizer does next.
#[derive(Debug)]
pub enum SummaryStep {
    /// Send the assistant this request; report with `on_answer`.
    Ask(SummaryRequest),
    /// Save this answer as it came; report with `on_saved`.
    SaveRaw(String),
    /// Hand this result back.
    Finish(SummarizationResult),
}

/// Where an attempt to summarize stands.
#[derive(Clone, Copy, Debug, PartialEq, Eq, Structural)]
pub enum SummaryStage {
    /// The assistant is being asked.
    Asking,
    /// The last answer is being saved as it came.
    Saving,
    /// A result was handed back.
    Finished,
}

/// The message of a summary that could not be parsed but was saved.
pub open spec fn parse_failure_message(error: Seq<char>) -> Seq<char> {
    "JSON parse error after 3 attempts: "@ + error
}

/// The message of a summary that could neither be parsed nor saved.
pub open spec fn save_failure_message(error: Seq<char>) -> Seq<char> {
    "Parse failed after 3 attempts and couldn't save raw response: "@ + error
}

/// Decides how often the assistant is asked for a summary and what
/// becomes of its answers. The caller asks, parses and saves.
#[derive(Debug)]
pub struct SummaryAttempts {
    attempt: u32,
    last_error: String,
    stage: SummaryStage,
}

impl SummaryAttempts {
    /// How many requests were made, the one under way included.
    pub closed spec fn made(&self) -> nat {
        self.attempt as nat
    }

    /// Why the last answer could not be parsed; empty before.
    pub closed spec fn error(&self) -> Seq<char> {
        self.last_error@
    }

    /// Where the attempt stands.
    pub closed spec fn current(&self) -> SummaryStage {
        self.stage
    }

    /// An attempt whose first request is under way.
    pub fn new() -> (attempts: Self)
        ensures
            attempts.made() == 1,
            attempts.error().len() == 0,
            attempts.current() == SummaryStage::Asking,
    {
        SummaryAttempts { attempt: 1, last_error: String::new(), stage: SummaryStage::Asking }
    }

    /// Where the attempt stands.
    pub fn stage(&self) -> (stage: SummaryStage)
        ensures
            stage == self.current(),
    {
        self.stage
    }

    /// The assistant could not be run, or failed: the attempt ends with
    /// this message as its error.
    pub fn on_cli_error(&mut self, message: String) -> (result: SummarizationResult)
        ensures
            result == SummarizationResult::CliError(message),
            final(self).current() == SummaryStage::Finished,
            final(self).made() == old(self).made(),
            final(self).error() == old(self).error(),
    {
        self.stage = SummaryStage::Finished;
        SummarizationResult::CliError(message)
    }

    /// Takes an answer of the assistant and what parsing made of it. A
    /// parsed answer ends the attempt with the summary in Markdown and the
    /// related papers. An answer that could not be parsed is asked for
    /// again, with the error, as long as fewer than three requests were
    /// made; after the third it is to be saved as it came. Out of turn,
    /// nothing changes.
    pub fn on_answer(
        &mut self,
        paper: &Paper,
        response: String,
        parsed: Result<ClaudeSummaryOutput, String>,
    ) -> (step: Result<SummaryStep, OutOfTurn>)
        ensures
            old(self).current() != SummaryStage::Asking ==> step is Err && *final(self) == *old(
                self,
            ),
            old(self).current() == SummaryStage::Asking ==> match parsed {
                Ok(output) => {
                    &&& final(self).current() == SummaryStage::Finished
                    &&& final(self).made() == old(self).made()
                    &&& step matches Ok(
                        SummaryStep::Finish(SummarizationResult::Success { markdown, related_papers }),
                    )
                    &&& markdown@ == summary_markdown(*paper, output)
                    &&& related_papers@ == related_papers_of(output.related_work@)
                },
                Err(error) => if old(self).made() < SummarizerService::MAX_RETRIES {
                    &&& final(self).current() == SummaryStage::Asking
                    &&& final(self).made() == old(self).made() + 1
                    &&& final(self).error() == error@
                    &&& step matches Ok(
                        SummaryStep::Ask(SummaryRequest::Retry { attempt, previous_error }),
                    )
                    &&& attempt == final(self).made()
                    &&& previous_error@ == error@
                } else {
                    &&& final(self).current() == SummaryStage::Saving
                    &&& final(self).made() == old(self).made()
                    &&& final(self).error() == error@
                    &&& step == Ok::<SummaryStep, OutOfTurn>(SummaryStep::SaveRaw(response))
                },
            },
    {
        match self.stage {
            SummaryStage::Asking => {},
            _ => {
                return Err(OutOfTurn);
            },
        }
        match parsed {
            Ok(output) => {
                self.stage = SummaryStage::Finished;
                let markdown = SummarizerService::format_to_markdown(paper, &output);
                let related_papers = into_related_papers(output.related_work);
                Ok(SummaryStep::Finish(SummarizationResult::Success { markdown, related_papers }))
            },
            Err(error) => {
                if self.attempt < SummarizerService::MAX_RETRIES {
                    self.attempt = self.attempt + 1;
                    self.last_error = error.clone();
                    Ok(
                        SummaryStep::Ask(
                            SummaryRequest::Retry {
                                attempt: self.attempt,
                                previous_error: error,
                            },
                        ),
                    )
                } else {
                    self.last_error = error;
                    self.stage = SummaryStage::Saving;
                    Ok(SummaryStep::SaveRaw(response))
                }
            },
        }
    }

    /// Takes the outcome of saving the last answer: the path it was saved
    /// under, or nothing if it could not be saved. Either way the attempt
    /// ends in failure, with the error of the last answer in the message.
    /// Out of turn, nothing changes.
    pub fn on_saved(&mut self, saved: Option<String>) -> (result: Result<
        SummarizationResult,
        OutOfTurn,
    >)
        ensures
            old(self).current() != SummaryStage::Saving ==> result is Err && *final(self) == *old(
                self,
            ),
            old(self).current() == SummaryStage::Saving ==> {
                &&& final(self).current() == SummaryStage::Finished
                &&& final(self).made() == old(self).made()
                &&& final(self).error() == old(self).error()
                &&& match saved {
                    Some(path) => {
                        &&& result matches Ok(
                            SummarizationResult::ParseFailure { raw_response_path, error },
                        )
                        &&& raw_response_path == path
                        &&& error@ == parse_failure_message(old(self).error())
                    },
                    None => {
                        &&& result matches Ok(SummarizationResult::CliError(error))
                        &&& error@ == save_failure_message(old(self).error())
                    },
                }
            },
    {
        match self.stage {
            SummaryStage::Saving => {},
            _ => {
                return Err(OutOfTurn);
            },
        }
        self.stage = SummaryStage::Finished;
        match saved {
            Some(raw_response_path) => {
                let mut error = String::from_str("JSON parse error after 3 attempts: ");
                error.append(self.last_error.as_str());
                Ok(SummarizationResult::ParseFailure { raw_response_path, error })
            },
            None => {
                let mut error = String::from_str(
                    "Parse failed after 3 attempts and couldn't save raw response: ",
                );
                error.append(self.last_error.as_str());
                Ok(SummarizationResult::CliError(error))
            },
        }
    }
}

/// What marks a text as cut short in a repeated request.
pub const TRUNCATION_MARK: &'static str = "...\n[TEXT TRUNCATED]";

/// How many bytes of a document's text a repeated request holds at
/// most: fifty thousand in the second request, thirty thousand after.
pub open spec fn retry_limit(attempt: u32) -> int {
    if attempt == 2 {
        50_000
    } else {
        30_000
    }
}

impl SummarizerService {
    /// How many bytes of a document's text the request number `attempt`
    /// holds at most, if it is a repeated one.
    pub fn retry_text_limit(attempt: u32) -> (limit: usize)
        ensures
            limit == retry_limit(attempt),
    {
        if attempt == 2 {
            50_000
        } else {
            30_000
        }
    }

    /// The text of a document as a repeated request holds it: as it is if
    /// it fits the limit of the request, else cut to the limit and to whole
    /// characters, with the mark that it was cut.
    pub fn text_for_retry(text: &str, attempt: u32) -> (held: String)
        ensures
            held@ == if encode_utf8(text@).len() <= retry_limit(attempt) {
                text@
            } else {
                decode_utf8(cut_to(encode_utf8(text@), retry_limit(attempt))) + TRUNCATION_MARK@
            },
    {
        let limit = Self::retry_text_limit(attempt);
        if text.as_bytes().len() <= limit {
            return String::from_str(text);
        }
        let head = FileSystemAdapter::truncate_to(text, limit);
        proof {
            encode_utf8_decode_utf8(head@);
        }
        let mut held = String::from_str(head);
        held.append(TRUNCATION_MARK);
        held
    }
}

} // verus!

//! The requests that the assistant is sent, word for word.

use crate::adapters::claude_cli::ClaudeCliClient;
use crate::adapters::filesystem::cut_to;
use crate::citekey::{decimal_text, i32_to_text};
use crate::models::Paper;
use crate::outside::{debug_optional_text, format_debug_optional_text};
use crate::summarizer::{retry_limit, SummarizerService, TRUNCATION_MARK};
use crate::text::{join, joined, text_of, texts};
use vstd::prelude::*;
use vstd::string::*;
use vstd::utf8::*;

verus! {

/// How the request for a structured summary opens, up to the title.
pub const JSON_PROMPT_OPENING: &'static str = "You are an academic research assistant. Analyze this paper and respond with ONLY valid JSON (no markdown, no explanation, just the JSON object).\n\nPaper: \"";

/// The structure that the request for a structured summary asks for,
/// from the year on to the text of the document.
pub const JSON_PROMPT_SHAPE: &'static str = ")\n\nRespond with this exact JSON structure:\n{\n  \"summary\": \"1-2 paragraph overview of the paper\",\n  \"key_contributions\": [\"contribution 1\", \"contribution 2\", ...],\n  \"methodology\": \"brief description of methods used (or null if not applicable)\",\n  \"main_results\": [\"key finding 1\", \"key finding 2\", ...],\n  \"limitations\": \"any limitations mentioned (or null)\",\n  \"related_work\": [\n    {\n      \"title\": \"related paper title\",\n      \"authors\": [\"author 1\", \"author 2\"],\n      \"year\": 2020,\n      \"why_related\": \"brief explanation\"\n    }\n  ]\n}\n\nImportant: Return ONLY the JSON object, no other text.\n\nPaper text:\n";

/// How a repeated request opens, up to the error of the answer before.
pub const RETRY_PROMPT_OPENING: &'static str = "CRITICAL: Your previous response failed JSON parsing with error: \"";

/// What a repeated request demands, from the error on to the title.
pub const RETRY_PROMPT_DEMAND: &'static str = "\"\n\nYou MUST respond with ONLY a valid JSON object. No markdown code blocks, no explanations, no text before or after the JSON.\n\nAnalyze this academic paper and provide a JSON response.\n\nPaper: \"";

/// The structure and the rules that a repeated request lays down, from
/// the year on to the text of the document.
pub const RETRY_PROMPT_SHAPE: &'static str = ")\n\nREQUIRED JSON FORMAT (copy this structure exactly):\n{\n  \"summary\": \"string - 1-2 paragraph overview\",\n  \"key_contributions\": [\"string array - list contributions\"],\n  \"methodology\": \"string or null\",\n  \"main_results\": [\"string array - list results\"],\n  \"limitations\": \"string or null\",\n  \"related_work\": [\n    {\n      \"title\": \"string - paper title\",\n      \"authors\": [\"string array\"],\n      \"year\": 2020,\n      \"why_related\": \"string\"\n    }\n  ]\n}\n\nRULES:\n- Start your response with { and end with }\n- Use double quotes for all strings\n- Arrays can be empty [] but must be valid\n- null is valid for optional fields (methodology, limitations)\n- Escape special characters in strings (newlines as \\n, quotes as \\\")\n\nPaper text:\n";

/// How the request for the address of a PDF opens, up to the title.
pub const PDF_PROMPT_OPENING: &'static str = "Find a direct download URL for the open-access PDF of this academic paper. Only respond with a URL that ends in .pdf, nothing else. If you cannot find one, respond with exactly 'NONE'.\n\nTitle: ";

/// How the request for a summary in Markdown opens, up to the title.
pub const SUMMARY_PROMPT_OPENING: &'static str = "You are an academic research assistant. Summarize this paper in a structured format.\n\nPaper: \"";

/// The form that the request for a summary in Markdown asks for, from
/// the year on to the text of the document.
pub const SUMMARY_PROMPT_FORM: &'static str = ")\n\nProvide your response in this exact format:\n\n## Summary\n[1-2 paragraph overview of the paper]\n\n## Key Contributions\n- [Bullet point 1]\n- [Bullet point 2]\n- [etc.]\n\n## Methodology\n[Brief description of methods used]\n\n## Main Results\n- [Key finding 1]\n- [Key finding 2]\n- [etc.]\n\n## Related Work\nFor each related paper mentioned, use this format:\n- Title: [paper title]\n  Authors: [author names]\n  Year: [year]\n  Why Related: [brief explanation]\n\n---\n\nPaper text:\n";

/// An optional year as the request for a PDF writes it: `None`, or the
/// year in decimal notation inside `Some(` and `)`.
pub open spec fn debug_year(year: Option<i32>) -> Seq<char> {
    match year {
        Some(year) => "Some("@ + decimal_text(year as int) + ")"@,
        None => "None"@,
    }
}

/// An optional year as the request for a PDF writes it.
pub fn format_debug_year(year: Option<i32>) -> (text: String)
    ensures
        text@ == debug_year(year),
{
    match year {
        Some(year) => {
            let mut text = String::from_str("Some(");
            let digits = i32_to_text(year);
            text.append(digits.as_str());
            text.append(")");
            text
        },
        None => String::from_str("None"),
    }
}

/// The year as a request names it; `n.d.` if there is none.
pub open spec fn year_or_undated(year: Option<i32>) -> Seq<char> {
    match year {
        Some(year) => decimal_text(year as int),
        None => "n.d."@,
    }
}

/// How a request names the paper, after the quotation mark that opens
/// the title: the title, the authors, and the year in parentheses, which
/// are left open.
pub open spec fn byline(paper: Paper) -> Seq<char> {
    paper.title@ + "\" by "@ + joined(texts(paper.authors@), ", "@) + " ("@ + year_or_undated(
        paper.year,
    )
}

/// The request for a structured summary of a paper with the text `text`.
pub open spec fn json_prompt(paper: Paper, text: Seq<char>) -> Seq<char> {
    JSON_PROMPT_OPENING@ + byline(paper) + JSON_PROMPT_SHAPE@ + text
}

/// The text of a document as a repeated request holds it: as it is if
/// it fits the limit of the request, else cut to the limit and to whole
/// characters, with the mark that it was cut.
pub open spec fn held_text(text: Seq<char>, attempt: u32) -> Seq<char> {
    if encode_utf8(text).len() <= retry_limit(attempt) {
        text
    } else {
        decode_utf8(cut_to(encode_utf8(text), retry_limit(attempt))) + TRUNCATION_MARK@
    }
}

/// The repeated request for a structured summary: number `attempt`,
/// after an answer that failed with `previous_error`.
pub open spec fn retry_prompt(
    paper: Paper,
    text: Seq<char>,
    attempt: u32,
    previous_error: Seq<char>,
) -> Seq<char> {
    RETRY_PROMPT_OPENING@ + previous_error + RETRY_PROMPT_DEMAND@ + byline(paper)
        + RETRY_PROMPT_SHAPE@ + held_text(text, attempt)
}

/// The request for a summary in Markdown of a paper with the text `text`.
pub open spec fn summary_prompt(paper: Paper, text: Seq<char>) -> Seq<char> {
    SUMMARY_PROMPT_OPENING@ + byline(paper) + SUMMARY_PROMPT_FORM@ + text
}

/// The request for the address of a paper's PDF: title, authors, year
/// and DOI, the DOI as the standard library writes it for debugging.
pub open spec fn pdf_prompt(paper: Paper) -> Seq<char> {
    PDF_PROMPT_OPENING@ + paper.title@ + "\nAuthors: "@ + joined(texts(paper.authors@), ", "@)
        + "\nYear: "@ + debug_year(paper.year) + "\nDOI: "@ + debug_optional_text(
        text_of(paper.doi),
    )
}

fn push_byline(prompt: &mut String, paper: &Paper)
    ensures
        final(prompt)@ == old(prompt)@ + byline(*paper),
{
    let ghost before = prompt@;
    prompt.append(paper.title.as_str());
    prompt.append("\" by ");
    let authors = join(&paper.authors, ", ");
    prompt.append(authors.as_str());
    prompt.append(" (");
    match paper.year {
        Some(year) => {
            let year = i32_to_text(year);
            prompt.append(year.as_str());
        },
        None => {
            prompt.append("n.d.");
        },
    }
    proof {
        assert(prompt@ =~= before + byline(*paper));
    }
}

impl SummarizerService {
    /// The request for a structured summary of a paper with the text `text`.
    pub fn build_json_prompt(paper: &Paper, text: &str) -> (prompt: String)
        ensures
            prompt@ == json_prompt(*paper, text@),
    {
        let mut prompt = String::from_str(JSON_PROMPT_OPENING);
        push_byline(&mut prompt, paper);
        prompt.append(JSON_PROMPT_SHAPE);
        prompt.append(text);
        prompt
    }

    /// The repeated request for a structured summary: number `attempt`,
    /// after an answer that failed with `previous_error`.
    pub fn build_retry_prompt(paper: &Paper, text: &str, attempt: u32, previous_error: &str) -> (prompt:
        String)
        ensures
            prompt@ == retry_prompt(*paper, text@, attempt, previous_error@),
    {
        let mut prompt = String::from_str(RETRY_PROMPT_OPENING);
        prompt.append(previous_error);
        prompt.append(RETRY_PROMPT_DEMAND);
        push_byline(&mut prompt, paper);
        prompt.append(RETRY_PROMPT_SHAPE);
        let held = SummarizerService::text_for_retry(text, attempt);
        prompt.append(held.as_str());
        prompt
    }
}

impl ClaudeCliClient {
    /// The request for a summary in Markdown of a paper with the text `text`.
    pub fn build_summary_prompt(paper: &Paper, text: &str) -> (prompt: String)
        ensures
            prompt@ == summary_prompt(*paper, text@),
    {
        let mut prompt = String::from_str(SUMMARY_PROMPT_OPENING);
        push_byline(&mut prompt, paper);
        prompt.append(SUMMARY_PROMPT_FORM);
        prompt.append(text);
        prompt
    }

    /// The request for the address of a paper's PDF.
    pub fn build_pdf_prompt(paper: &Paper) -> (prompt: String)
        ensures
            prompt@ == pdf_prompt(*paper),
    {
        let mut prompt = String::from_str(PDF_PROMPT_OPENING);
        prompt.append(paper.title.as_str());
        prompt.append("\nAuthors: ");
        let authors = join(&paper.authors, ", ");
        prompt.append(authors.as_str());
        prompt.append("\nYear: ");
        let year = format_debug_year(paper.year);
        prompt.append(year.as_str());
        prompt.append("\nDOI: ");
        let doi = format_debug_optional_text(&paper.doi);
        prompt.append(doi.as_str());
        prompt
    }
}

} // verus!

//! Where the files of a record lie in the vault, and how a document is
//! asked for.

use crate::adapters::Request;
use crate::chars::{chars_of, cut, cuts, join_spans, split_on, split_spans, trim_span, Span};
use crate::models::Paper;
use crate::retry::RetryConfig;
use crate::summarizer::{summary_file, SummarizerService};
use crate::text::{joined, text_of, trimmed};
use vstd::prelude::*;
use vstd::string::*;
use vstd::utf8::*;

verus! {

/// The `User-Agent` sent with a download.
pub const USER_AGENT: &'static str = "Marginalia/1.0 (academic literature manager)";

/// A file of a record, relative to the vault: `papers`, the record's
/// key, and the file's name.
pub open spec fn record_file(citekey: Seq<char>, name: Seq<char>) -> Seq<char> {
    "papers/"@ + citekey + "/"@ + name
}

fn file_path(citekey: &str, name: &str) -> (path: String)
    ensures
        path@ == record_file(citekey@, name@),
{
    let mut path = String::from_str("papers/");
    path.append(citekey);
    path.append("/");
    path.append(name);
    path
}

/// What the vault's files need decided for them.
#[derive(Clone, Copy, Debug, PartialEq, Eq, Structural)]
pub struct FileSystemAdapter;

impl FileSystemAdapter {
    pub fn new() -> (adapter: Self) {
        FileSystemAdapter
    }

    /// The retry policy for downloads.
    pub open spec fn retry_policy() -> RetryConfig {
        RetryConfig { max_retries: 3, initial_backoff: 1_000, max_backoff: 30_000, multiplier: 2 }
    }

    /// The request that downloads a document from `url`. It is counted
    /// by no rate limiter.
    pub fn download_request(url: &str) -> (request: Request)
        ensures
            request.endpoint@.len() == 0,
            request.url@ == url@,
            text_of(request.user_agent) == Some(USER_AGENT@),
            request.api_key is None,
            request.retry == Self::retry_policy(),
    {
        Request {
            endpoint: String::new(),
            url: String::from_str(url),
            user_agent: Some(String::from_str(USER_AGENT)),
            api_key: None,
            retry: RetryConfig {
                max_retries: 3,
                initial_backoff: 1_000,
                max_backoff: 30_000,
                multiplier: 2,
            },
        }
    }

    /// Where a record's document lies, relative to the vault.
    pub fn pdf_relative_path(citekey: &str) -> (path: String)
        ensures
            path@ == record_file(citekey@, "paper.pdf"@),
    {
        file_path(citekey, "paper.pdf")
    }

    /// Where a record's summary lies, relative to the vault.
    pub fn summary_relative_path(citekey: &str) -> (path: String)
        ensures
            path@ == record_file(citekey@, "summary.md"@),
    {
        file_path(citekey, "summary.md")
    }

    /// Where an answer that could not be parsed is saved, relative to the vault.
    pub fn raw_response_relative_path(citekey: &str) -> (path: String)
        ensures
            path@ == record_file(citekey@, "raw_response.txt"@),
    {
        file_path(citekey, "raw_response.txt")
    }

    /// The summary file for a record: front matter and trimmed summary.
    pub fn format_summary_with_frontmatter(paper: &Paper, response: &str) -> (file: String)
        ensures
            file@ == summary_file(*paper, response@),
    {
        SummarizerService::format_summary_with_frontmatter(paper, response)
    }
}

/// How many bytes of a document's text are handed on at most.
pub const MAX_TEXT_BYTES: usize = 100_000;

/// A line without the carriage return at its end, if it has one.
pub open spec fn without_return(line: Seq<char>) -> Seq<char> {
    if line.len() > 0 && line.last() == '\r' {
        line.drop_last()
    } else {
        line
    }
}

/// Each of the lines without the carriage return at its end.
pub open spec fn without_returns(lines: Seq<Seq<char>>) -> Seq<Seq<char>> {
    Seq::new(lines.len(), |i: int| without_return(lines[i]))
}

/// The lines of a text: what stands between its line feeds, a carriage
/// return before a line feed counting as part of the line's end. After a
/// last line feed no further line follows.
pub open spec fn lines_of(text: Seq<char>) -> Seq<Seq<char>> {
    let pieces = split_on(text, seq!['\n']);
    let ended = without_returns(pieces.drop_last());
    if pieces.last().len() == 0 {
        ended
    } else {
        ended.push(pieces.last())
    }
}

/// The lines that hold more than white space, in order.
pub open spec fn filled_lines(lines: Seq<Seq<char>>) -> Seq<Seq<char>>
    decreases lines.len(),
{
    if lines.len() == 0 {
        Seq::empty()
    } else if trimmed(lines.last()).len() > 0 {
        filled_lines(lines.drop_last()).push(lines.last())
    } else {
        filled_lines(lines.drop_last())
    }
}

/// A text without its empty lines: the lines that hold more than white
/// space, each ended by one line feed but the last.
pub open spec fn cleaned_text(text: Seq<char>) -> Seq<char> {
    joined(filled_lines(lines_of(text)), "\n"@)
}

/// The greatest number of bytes, `limit` at most, that ends on a whole
/// character of the UTF-8 text `bytes`.
pub open spec fn whole_chars_within(bytes: Seq<u8>, limit: int) -> int
    decreases limit,
{
    if limit <= 0 {
        0
    } else if is_char_boundary(bytes, limit) {
        limit
    } else {
        whole_chars_within(bytes, limit - 1)
    }
}

/// The bytes of a text cut to `limit` bytes at most, and to whole
/// characters; a text that fits is left as it is.
pub open spec fn cut_to(bytes: Seq<u8>, limit: int) -> Seq<u8> {
    if bytes.len() <= limit {
        bytes
    } else {
        bytes.subrange(0, whole_chars_within(bytes, limit))
    }
}

impl FileSystemAdapter {
    /// A text without its empty lines.
    pub fn remove_empty_lines(text: &str) -> (cleaned: String)
        ensures
            cleaned@ == cleaned_text(text@),
    {
        let chars = chars_of(text);
        let whole = Span { start: 0, end: chars.len() };
        let mut newline: Vec<char> = Vec::new();
        newline.push('\n');
        proof {
            assert(newline@ =~= seq!['\n']);
            assert(cut(chars@, whole) =~= chars@);
            reveal_strlit("\n");
        }
        let pieces = split_spans(&chars, whole, &newline);
        let ghost all = cuts(chars@, pieces@);
        let count = pieces.len();
        let mut kept: Vec<Span> = Vec::new();
        let mut i: usize = 0;
        proof {
            assert(without_returns(all.take(0)) =~= Seq::<Seq<char>>::empty());
            assert(cuts(chars@, kept@) =~= Seq::<Seq<char>>::empty());
        }
        while i + 1 < count
            invariant
                i + 1 <= count,
                count == pieces@.len(),
                all == cuts(chars@, pieces@),
                forall|k: int| 0 <= k < pieces@.len() ==> within_text(#[trigger] pieces@[k], chars@),
                forall|k: int| 0 <= k < kept@.len() ==> within_text(#[trigger] kept@[k], chars@),
                cuts(chars@, kept@) == filled_lines(without_returns(all.take(i as int))),
            decreases count - i,
        {
            let piece = pieces[i];
            assert(within_text(pieces@[i as int], chars@));
            let line = if piece.start < piece.end && chars[piece.end - 1] == '\r' {
                Span { start: piece.start, end: (piece.end - 1) as usize }
            } else {
                piece
            };
            proof {
                let upto = without_returns(all.take(i + 1));
                assert(upto.drop_last() =~= without_returns(all.take(i as int)));
                assert(all.take(i + 1)[i as int] == cut(chars@, piece));
                if piece.start < piece.end {
                    assert(cut(chars@, piece).last() == chars@[piece.end - 1]);
                }
                assert(cut(chars@, line) =~= without_return(cut(chars@, piece)));
                assert(upto.last() == cut(chars@, line));
            }
            let inner = trim_span(&chars, line);
            if inner.start < inner.end {
                let ghost before = cuts(chars@, kept@);
                kept.push(line);
                proof {
                    assert(cuts(chars@, kept@) =~= before.push(cut(chars@, line)));
                }
            }
            i += 1;
        }
        let last = pieces[count - 1];
        assert(within_text(pieces@[count - 1], chars@));
        proof {
            assert(all.take(i as int) =~= all.drop_last());
            assert(all.last() == cut(chars@, last));
        }
        if last.start < last.end {
            let inner = trim_span(&chars, last);
            proof {
                let lines = without_returns(all.drop_last()).push(all.last());
                assert(lines.drop_last() =~= without_returns(all.drop_last()));
            }
            if inner.start < inner.end {
                let ghost before = cuts(chars@, kept@);
                kept.push(last);
                proof {
                    assert(cuts(chars@, kept@) =~= before.push(cut(chars@, last)));
                }
            }
        }
        join_spans(&chars, &kept, "\n")
    }

    /// The text cut to `limit` bytes at most, and to whole characters.
    pub fn truncate_to(text: &str, limit: usize) -> (head: &str)
        ensures
            head.spec_bytes() == cut_to(text.spec_bytes(), limit as int),
    {
        let length = text.as_bytes().len();
        if length <= limit {
            return text;
        }
        proof {
            encode_utf8_valid_utf8(text@);
            is_char_boundary_start_end_of_seq(text.spec_bytes());
        }
        let mut at: usize = limit;
        while !text.is_char_boundary(at)
            invariant
                at <= limit,
                is_char_boundary(text.spec_bytes(), 0),
                whole_chars_within(text.spec_bytes(), limit as int) == whole_chars_within(
                    text.spec_bytes(),
                    at as int,
                ),
            decreases at,
        {
            at -= 1;
        }
        let (head, _) = text.split_at(at);
        head
    }

    /// The text cut to `MAX_TEXT_BYTES` bytes at most, and to whole characters.
    pub fn truncate_text(text: &str) -> (head: &str)
        ensures
            head.spec_bytes() == cut_to(text.spec_bytes(), MAX_TEXT_BYTES as int),
    {
        Self::truncate_to(text, MAX_TEXT_BYTES)
    }

    /// The text of a document as it is handed on: without its empty
    /// lines, and cut to `MAX_TEXT_BYTES` bytes at most.
    pub fn clean_pdf_text(text: &str) -> (cleaned: String)
        ensures
            encode_utf8(cleaned@) == cut_to(
                encode_utf8(cleaned_text(text@)),
                MAX_TEXT_BYTES as int,
            ),
    {
        let filled = Self::remove_empty_lines(text);
        String::from_str(Self::truncate_text(filled.as_str()))
    }
}

/// A span lies within the text.
pub open spec fn within_text(span: Span, chars: Seq<char>) -> bool {
    span.start <= span.end <= chars.len()
}

} // verus!

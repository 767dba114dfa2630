//! The command-line assistant, asked last and only where it is installed.

use crate::models::RelatedPaper;
use crate::related_work::{entries_of, related_in};
use crate::text::{
    bytes_contain, bytes_start_with, str_contains, str_starts_with, text_of, trim, trimmed,
};
use vstd::prelude::*;
use vstd::string::*;
use vstd::utf8::*;

verus! {

/// A reply counts as a PDF address when it begins with `http` and holds `.pdf`.
pub open spec fn is_pdf_address(reply: Seq<char>) -> bool {
    bytes_start_with(encode_utf8(reply), "http".spec_bytes()) && bytes_contain(
        encode_utf8(reply),
        ".pdf".spec_bytes(),
    )
}

/// The address in the assistant's reply: the trimmed reply if it is a PDF
/// address, else nothing.
pub open spec fn url_in_reply(reply: Seq<char>) -> Option<Seq<char>> {
    if is_pdf_address(trimmed(reply)) {
        Some(trimmed(reply))
    } else {
        None
    }
}

/// Client of the command-line assistant.
#[derive(Clone, Copy, Debug, PartialEq, Eq, Structural)]
pub struct ClaudeCliClient;

impl ClaudeCliClient {
    pub fn new() -> (client: Self) {
        ClaudeCliClient
    }

    /// Reads the assistant's reply to a request for a PDF address. Any
    /// reply that is no such address, the sentinel for "not found" among
    /// them, yields nothing.
    pub fn pdf_url_from_reply(reply: &str) -> (url: Option<String>)
        ensures
            text_of(url) == url_in_reply(reply@),
    {
        let inner = trim(reply);
        if str_starts_with(inner, "http") && str_contains(inner, ".pdf") {
            Some(String::from_str(inner))
        } else {
            None
        }
    }

    /// Reads the entries of the section on related work in a summary that
    /// the assistant wrote; see the module `related_work`.
    pub fn extract_related_papers(response: &str) -> (related: Vec<RelatedPaper>)
        ensures
            entries_of(related@) == related_in(response@),
            forall|i: int|
                0 <= i < related@.len() ==> (#[trigger] related@[i]).vault_citekey is None,
    {
        crate::related_work::extract_related_papers(response)
    }
}

impl Default for ClaudeCliClient {
    fn default() -> (client: Self) {
        ClaudeCliClient
    }
}

} // verus!

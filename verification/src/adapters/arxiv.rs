//! The preprint server: identifiers, its query API, and the PDF address
//! that follows from an identifier.

use crate::adapters::Request;
use crate::outside::{first_group, percent_encoded, regex_first_group, url_encode};
use crate::retry::RetryConfig;
use crate::text::{bytes_contain, str_contains, text_of, trim, trimmed};
use vstd::prelude::*;
use vstd::string::*;
use vstd::utf8::*;

verus! {

/// The name under which requests to the preprint server are rate limited.
pub const ENDPOINT: &'static str = "arxiv";

/// The `User-Agent` sent to the preprint server.
pub const USER_AGENT: &'static str = "Marginalia/1.0 (academic literature manager)";

/// Identifiers of the current scheme: four digits, a dot, four or five
/// digits, and an optional version.
pub const NEW_ID_PATTERN: &'static str = r"(\d{4}\.\d{4,5}(?:v\d+)?)";

/// Identifiers of the legacy scheme: a category, a slash, seven digits,
/// and an optional version.
pub const OLD_ID_PATTERN: &'static str = r"([a-z-]+/\d{7}(?:v\d+)?)";

/// The identifier inside the `id` element of a feed entry.
pub const ENTRY_ID_PATTERN: &'static str = r"<id>https?://arxiv\.org/abs/([^<]+)</id>";

/// Of the two identifier schemes the current one wins.
pub open spec fn preferred_id(new_style: Option<Seq<char>>, old_style: Option<Seq<char>>) -> Option<
    Seq<char>,
> {
    if new_style is Some {
        new_style
    } else {
        old_style
    }
}

/// The identifier found in `input`: a match of the current scheme if
/// there is one, else a match of the legacy scheme.
pub open spec fn arxiv_id_in(input: Seq<char>) -> Option<Seq<char>> {
    preferred_id(
        regex_first_group(NEW_ID_PATTERN@, input),
        regex_first_group(OLD_ID_PATTERN@, input),
    )
}

/// The text marks a DOI as one of the preprint server's.
pub open spec fn names_arxiv(doi: Seq<char>) -> bool {
    bytes_contain(encode_utf8(doi), "arXiv".spec_bytes())
}

/// The identifier a DOI carries, if the DOI is the preprint server's.
pub open spec fn arxiv_id_of_doi(doi: Seq<char>) -> Option<Seq<char>> {
    if names_arxiv(doi) {
        arxiv_id_in(doi)
    } else {
        None
    }
}

/// The address of the PDF that belongs to an identifier.
pub open spec fn pdf_address(arxiv_id: Seq<char>) -> Seq<char> {
    "https://arxiv.org/pdf/"@ + arxiv_id + ".pdf"@
}

/// The query that asks whether an identifier exists.
pub open spec fn id_query_address(arxiv_id: Seq<char>) -> Seq<char> {
    "https://export.arxiv.org/api/query?id_list="@ + percent_encoded(
        encode_utf8(trimmed(arxiv_id)),
    )
}

/// The query that searches for a title.
pub open spec fn title_query_address(title: Seq<char>) -> Seq<char> {
    "https://export.arxiv.org/api/query?search_query=ti:"@ + percent_encoded(encode_utf8(title))
        + "&start=0&max_results=1"@
}

/// A feed lists a paper when it holds an `entry` element.
pub open spec fn feed_has_entry(feed: Seq<char>) -> bool {
    bytes_contain(encode_utf8(feed), "<entry>".spec_bytes())
}

/// Client of the preprint server.
#[derive(Clone, Copy, Debug, PartialEq, Eq, Structural)]
pub struct ArxivClient;

impl ArxivClient {
    pub fn new() -> (client: Self) {
        ArxivClient
    }

    /// The retry policy for the preprint server, which asks for three
    /// seconds between requests.
    pub fn retry_config() -> (config: RetryConfig)
        ensures
            config == (RetryConfig {
                max_retries: 2,
                initial_backoff: 3_000,
                max_backoff: 30_000,
                multiplier: 2,
            }),
    {
        RetryConfig { max_retries: 2, initial_backoff: 3_000, max_backoff: 30_000, multiplier: 2 }
    }

    /// Chooses between the matches of the two identifier schemes.
    pub fn pick_arxiv_id(new_style: Option<String>, old_style: Option<String>) -> (id: Option<
        String,
    >)
        ensures
            text_of(id) == preferred_id(text_of(new_style), text_of(old_style)),
            id == if new_style is Some {
                new_style
            } else {
                old_style
            },
    {
        if new_style.is_some() {
            new_style
        } else {
            old_style
        }
    }

    /// Finds a preprint identifier in a DOI, an address or free text.
    pub fn extract_arxiv_id(input: &str) -> (id: Option<String>)
        ensures
            text_of(id) == arxiv_id_in(input@),
    {
        let new_style = first_group(NEW_ID_PATTERN, input);
        let old_style = first_group(OLD_ID_PATTERN, input);
        Self::pick_arxiv_id(new_style, old_style)
    }

    /// The identifier to look up for a DOI: none unless the DOI is one of
    /// the preprint server's.
    pub fn arxiv_id_for_doi(doi: &str) -> (id: Option<String>)
        ensures
            text_of(id) == arxiv_id_of_doi(doi@),
    {
        if !str_contains(doi, "arXiv") {
            return None;
        }
        Self::extract_arxiv_id(doi)
    }

    /// The address of the PDF that belongs to `arxiv_id`.
    pub fn pdf_url(arxiv_id: &str) -> (url: String)
        ensures
            url@ == pdf_address(arxiv_id@),
    {
        let mut url = String::from_str("https://arxiv.org/pdf/");
        url.append(arxiv_id);
        url.append(".pdf");
        url
    }

    /// The request that asks the query API whether `arxiv_id` exists.
    pub fn id_lookup_request(arxiv_id: &str) -> (request: Request)
        ensures
            request.endpoint@ == ENDPOINT@,
            request.url@ == id_query_address(arxiv_id@),
            text_of(request.user_agent) == Some(USER_AGENT@),
            request.api_key is None,
            request.retry == Self::retry_config_spec(),
    {
        let mut url = String::from_str("https://export.arxiv.org/api/query?id_list=");
        let encoded = url_encode(trim(arxiv_id));
        url.append(encoded.as_str());
        Request {
            endpoint: String::from_str(ENDPOINT),
            url,
            user_agent: Some(String::from_str(USER_AGENT)),
            api_key: None,
            retry: Self::retry_config(),
        }
    }

    /// What the answer to an identifier lookup means: the PDF address of
    /// the trimmed identifier if the feed lists the paper, else nothing.
    pub fn pdf_url_from_lookup(arxiv_id: &str, feed: &str) -> (url: Option<String>)
        ensures
            text_of(url) == if feed_has_entry(feed@) {
                Some(pdf_address(trimmed(arxiv_id@)))
            } else {
                None
            },
    {
        if !str_contains(feed, "<entry>") {
            return None;
        }
        Some(Self::pdf_url(trim(arxiv_id)))
    }

    /// The request that searches the query API for `title`.
    pub fn title_search_request(title: &str) -> (request: Request)
        ensures
            request.endpoint@ == ENDPOINT@,
            request.url@ == title_query_address(title@),
            text_of(request.user_agent) == Some(USER_AGENT@),
            request.api_key is None,
            request.retry == Self::retry_config_spec(),
    {
        let mut url = String::from_str("https://export.arxiv.org/api/query?search_query=ti:");
        let encoded = url_encode(title);
        url.append(encoded.as_str());
        url.append("&start=0&max_results=1");
        Request {
            endpoint: String::from_str(ENDPOINT),
            url,
            user_agent: Some(String::from_str(USER_AGENT)),
            api_key: None,
            retry: Self::retry_config(),
        }
    }

    /// The PDF address for a known identifier found in a feed entry.
    pub fn pdf_url_for_entry(entry_id: Option<String>) -> (url: Option<String>)
        ensures
            text_of(url) == match entry_id {
                Some(id) => Some(pdf_address(id@)),
                None => None,
            },
    {
        match entry_id {
            Some(id) => Some(Self::pdf_url(id.as_str())),
            None => None,
        }
    }

    /// What the answer to a title search means: the PDF address of the
    /// first entry's identifier, or nothing if the feed names none.
    pub fn pdf_url_from_search(feed: &str) -> (url: Option<String>)
        ensures
            text_of(url) == match regex_first_group(ENTRY_ID_PATTERN@, feed@) {
                Some(id) => Some(pdf_address(id)),
                None => None,
            },
    {
        Self::pdf_url_for_entry(first_group(ENTRY_ID_PATTERN, feed))
    }

    /// The retry policy for the preprint server.
    pub open spec fn retry_config_spec() -> RetryConfig {
        RetryConfig { max_retries: 2, initial_backoff: 3_000, max_backoff: 30_000, multiplier: 2 }
    }
}

} // verus!

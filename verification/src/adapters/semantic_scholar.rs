//! The academic graph: lookup by DOI and search by title.

use crate::adapters::Request;
use crate::outside::{percent_encoded, url_encode};
use crate::retry::RetryConfig;
use crate::text::text_of;
use vstd::prelude::*;
use vstd::string::*;
use vstd::utf8::*;

verus! {

/// The name under which requests to the graph are rate limited.
pub const ENDPOINT: &'static str = "semantic_scholar";

/// The open-access field of a paper.
#[derive(Debug)]
pub struct OpenAccessPdf {
    pub url: Option<String>,
}

/// What the graph answers for one paper.
#[derive(Debug)]
pub struct PaperResponse {
    pub open_access_pdf: Option<OpenAccessPdf>,
}

/// What the graph answers for a search.
#[derive(Debug)]
pub struct SearchResponse {
    pub data: Option<Vec<PaperResponse>>,
}

/// The PDF address in a paper's open-access field.
pub open spec fn paper_pdf_url(paper: PaperResponse) -> Option<Seq<char>> {
    match paper.open_access_pdf {
        Some(pdf) => text_of(pdf.url),
        None => None,
    }
}

/// The PDF address of the first paper of a search result.
pub open spec fn first_result_pdf_url(response: SearchResponse) -> Option<Seq<char>> {
    match response.data {
        Some(papers) => if papers@.len() > 0 {
            paper_pdf_url(papers@[0])
        } else {
            None
        },
        None => None,
    }
}

/// The key in force: the one given, else the one from the environment.
pub open spec fn key_in_force(given: Option<String>, fallback: Option<String>) -> Option<
    Seq<char>,
> {
    if given is Some {
        text_of(given)
    } else {
        text_of(fallback)
    }
}

/// The address to ask for a DOI.
pub open spec fn doi_lookup_address(doi: Seq<char>) -> Seq<char> {
    "https://api.semanticscholar.org/graph/v1/paper/DOI:"@ + doi + "?fields=openAccessPdf"@
}

/// The address that searches for a title.
pub open spec fn title_search_address(title: Seq<char>) -> Seq<char> {
    "https://api.semanticscholar.org/graph/v1/paper/search?query="@ + percent_encoded(
        encode_utf8(title),
    ) + "&fields=openAccessPdf&limit=1"@
}

/// Client of the graph; it carries the API key, if there is one.
#[derive(Debug)]
pub struct SemanticScholarClient {
    api_key: Option<String>,
}

impl SemanticScholarClient {
    /// The API key sent with every request, if any.
    pub closed spec fn key(&self) -> Option<Seq<char>> {
        text_of(self.api_key)
    }

    /// A client with the key `api_key`, or else `fallback` (what the
    /// environment configures), or else none.
    pub fn new(api_key: Option<String>, fallback: Option<String>) -> (client: Self)
        ensures
            client.key() == key_in_force(api_key, fallback),
    {
        let api_key = if api_key.is_some() {
            api_key
        } else {
            fallback
        };
        SemanticScholarClient { api_key }
    }

    /// The retry policy for the graph.
    pub open spec fn retry_policy() -> RetryConfig {
        RetryConfig { max_retries: 2, initial_backoff: 1_000, max_backoff: 30_000, multiplier: 2 }
    }

    /// The retry policy for the graph.
    pub fn retry_config() -> (config: RetryConfig)
        ensures
            config == Self::retry_policy(),
    {
        RetryConfig { max_retries: 2, initial_backoff: 1_000, max_backoff: 30_000, multiplier: 2 }
    }

    fn build_request(&self, url: String) -> (request: Request)
        ensures
            request.endpoint@ == ENDPOINT@,
            request.url == url,
            request.user_agent is None,
            text_of(request.api_key) == self.key(),
            request.retry == Self::retry_policy(),
    {
        let api_key = match &self.api_key {
            Some(key) => Some(key.clone()),
            None => None,
        };
        Request {
            endpoint: String::from_str(ENDPOINT),
            url,
            user_agent: None,
            api_key,
            retry: Self::retry_config(),
        }
    }

    /// The request that asks the graph for `doi`.
    pub fn doi_lookup_request(&self, doi: &str) -> (request: Request)
        ensures
            request.endpoint@ == ENDPOINT@,
            request.url@ == doi_lookup_address(doi@),
            request.user_agent is None,
            text_of(request.api_key) == self.key(),
            request.retry == Self::retry_policy(),
    {
        let mut url = String::from_str("https://api.semanticscholar.org/graph/v1/paper/DOI:");
        url.append(doi);
        url.append("?fields=openAccessPdf");
        self.build_request(url)
    }

    /// The request that searches the graph for `title`.
    pub fn title_search_request(&self, title: &str) -> (request: Request)
        ensures
            request.endpoint@ == ENDPOINT@,
            request.url@ == title_search_address(title@),
            request.user_agent is None,
            text_of(request.api_key) == self.key(),
            request.retry == Self::retry_policy(),
    {
        let mut url = String::from_str(
            "https://api.semanticscholar.org/graph/v1/paper/search?query=",
        );
        let encoded = url_encode(title);
        url.append(encoded.as_str());
        url.append("&fields=openAccessPdf&limit=1");
        self.build_request(url)
    }

    /// The PDF address in the answer to a DOI lookup, if any.
    pub fn pick_pdf_url(paper: &PaperResponse) -> (url: Option<String>)
        ensures
            text_of(url) == paper_pdf_url(*paper),
    {
        match &paper.open_access_pdf {
            Some(pdf) => match &pdf.url {
                Some(url) => Some(url.clone()),
                None => None,
            },
            None => None,
        }
    }

    /// The PDF address of the first paper in the answer to a search, if any.
    pub fn pick_first_pdf_url(response: &SearchResponse) -> (url: Option<String>)
        ensures
            text_of(url) == first_result_pdf_url(*response),
    {
        match &response.data {
            Some(papers) => {
                if papers.len() > 0 {
                    Self::pick_pdf_url(&papers[0])
                } else {
                    None
                }
            },
            None => None,
        }
    }
}

} // verus!

//! The DOI registry of open-access locations.

use crate::adapters::Request;
use crate::retry::RetryConfig;
use crate::text::text_of;
use vstd::prelude::*;
use vstd::string::*;

verus! {

/// The name under which requests to the registry are rate limited.
pub const ENDPOINT: &'static str = "unpaywall";

/// The contact address sent when none is configured.
pub const DEFAULT_EMAIL: &'static str = "marginalia@example.com";

/// One place where a work can be read freely.
#[derive(Debug)]
pub struct OaLocation {
    pub url_for_pdf: Option<String>,
}

/// What the registry answers for a DOI.
#[derive(Debug)]
pub struct UnpaywallResponse {
    pub best_oa_location: Option<OaLocation>,
    pub oa_locations: Option<Vec<OaLocation>>,
}

/// The PDF address of a location, if it has one that is not empty.
pub open spec fn usable_url(location: OaLocation) -> Option<Seq<char>> {
    match location.url_for_pdf {
        Some(url) => if url@.len() > 0 {
            Some(url@)
        } else {
            None
        },
        None => None,
    }
}

/// The PDF address of the first location that has a usable one.
pub open spec fn first_usable_url(locations: Seq<OaLocation>) -> Option<Seq<char>>
    decreases locations.len(),
{
    if locations.len() == 0 {
        None
    } else if usable_url(locations.first()) is Some {
        usable_url(locations.first())
    } else {
        first_usable_url(locations.drop_first())
    }
}

/// The address an answer yields: that of the best location if usable,
/// else that of the first usable location in the list.
pub open spec fn open_access_url(response: UnpaywallResponse) -> Option<Seq<char>> {
    let best = match response.best_oa_location {
        Some(location) => usable_url(location),
        None => None,
    };
    if best is Some {
        best
    } else {
        match response.oa_locations {
            Some(locations) => first_usable_url(locations@),
            None => None,
        }
    }
}

/// The contact address in force: the one given, else the one from the
/// environment, else the default.
pub open spec fn contact_email(given: Option<String>, fallback: Option<String>) -> Seq<char> {
    match given {
        Some(email) => email@,
        None => match fallback {
            Some(email) => email@,
            None => DEFAULT_EMAIL@,
        },
    }
}

/// The address to ask for a DOI.
pub open spec fn lookup_address(doi: Seq<char>, email: Seq<char>) -> Seq<char> {
    "https://api.unpaywall.org/v2/"@ + doi + "?email="@ + email
}

fn usable(location: &OaLocation) -> (url: Option<String>)
    ensures
        text_of(url) == usable_url(*location),
{
    match &location.url_for_pdf {
        Some(url) => {
            if url.as_str().is_empty() {
                None
            } else {
                Some(url.clone())
            }
        },
        None => None,
    }
}

/// Client of the registry; it carries the contact address that the
/// registry's terms ask for.
#[derive(Debug)]
pub struct UnpaywallClient {
    email: String,
}

impl UnpaywallClient {
    /// The contact address sent with every request.
    pub closed spec fn contact(&self) -> Seq<char> {
        self.email@
    }

    /// A client with the contact address `email`, or else `fallback`
    /// (what the environment configures), or else the default.
    pub fn new(email: Option<String>, fallback: Option<String>) -> (client: Self)
        ensures
            client.contact() == contact_email(email, fallback),
    {
        let email = match email {
            Some(email) => email,
            None => match fallback {
                Some(email) => email,
                None => String::from_str(DEFAULT_EMAIL),
            },
        };
        UnpaywallClient { email }
    }

    /// The contact address sent with every request.
    pub fn email(&self) -> (email: &str)
        ensures
            email@ == self.contact(),
    {
        self.email.as_str()
    }

    /// The retry policy for the registry.
    pub open spec fn retry_policy() -> RetryConfig {
        RetryConfig { max_retries: 2, initial_backoff: 500, max_backoff: 10_000, multiplier: 2 }
    }

    /// The retry policy for the registry.
    pub fn retry_config() -> (config: RetryConfig)
        ensures
            config == Self::retry_policy(),
    {
        RetryConfig { max_retries: 2, initial_backoff: 500, max_backoff: 10_000, multiplier: 2 }
    }

    /// The request that asks the registry for `doi`.
    pub fn lookup_request(&self, doi: &str) -> (request: Request)
        ensures
            request.endpoint@ == ENDPOINT@,
            request.url@ == lookup_address(doi@, self.contact()),
            request.user_agent is None,
            request.api_key is None,
            request.retry == Self::retry_policy(),
    {
        let mut url = String::from_str("https://api.unpaywall.org/v2/");
        url.append(doi);
        url.append("?email=");
        url.append(self.email.as_str());
        Request {
            endpoint: String::from_str(ENDPOINT),
            url,
            user_agent: None,
            api_key: None,
            retry: Self::retry_config(),
        }
    }

    /// The PDF address an answer yields, if any.
    pub fn pick_pdf_url(response: &UnpaywallResponse) -> (url: Option<String>)
        ensures
            text_of(url) == open_access_url(*response),
    {
        if let Some(best) = &response.best_oa_location {
            let url = usable(best);
            if url.is_some() {
                return url;
            }
        }
        match &response.oa_locations {
            Some(locations) => {
                let mut i: usize = 0;
                proof {
                    assert(locations@.subrange(0, locations@.len() as int) =~= locations@);
                }
                while i < locations.len()
                    invariant
                        i <= locations@.len(),
                        open_access_url(*response) == first_usable_url(locations@),
                        first_usable_url(locations@) == first_usable_url(
                            locations@.subrange(i as int, locations@.len() as int),
                        ),
                    decreases locations@.len() - i,
                {
                    let url = usable(&locations[i]);
                    proof {
                        let rest = locations@.subrange(i as int, locations@.len() as int);
                        assert(rest.first() == locations@[i as int]);
                        assert(rest.drop_first() =~= locations@.subrange(
                            i + 1,
                            locations@.len() as int,
                        ));
                    }
                    if url.is_some() {
                        return url;
                    }
                    i += 1;
                }
                None
            },
            None => None,
        }
    }
}

} // verus!

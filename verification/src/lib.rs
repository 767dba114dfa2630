//! Open-access PDF acquisition for a bibliographic library, verified.
//!
//! The library decides and computes; it performs no I/O and reads no
//! clock. Its caller asks the network, the file system, the durable store
//! and the assistant, and hands in what came back, with the current time.
//!
//! - `rate_limit`, `retry`: admission control and retry with backoff.
//! - `validation`: what a downloaded payload must be to count as a document.
//! - `adapters`: what each source is asked and how its answer is read.
//! - `pdf_finder`: the waterfall through the sources, and its outcome.
//! - `jobs`, `job_manager`: background jobs and their transitions.
//! - `models`, `storage`, `vault`, `graph`: the records and what is
//!   decided about a vault of them.
//! - `matching`, `citekey`, `related_work`, `summarizer`, `prompts`:
//!   summaries by the assistant and the works they name.
//! - `text`, `chars`: searching, splitting and trimming text.
//! - `outside`: the calls into other crates, believed and not proved.

pub mod adapters;
pub mod chars;
pub mod citekey;
pub mod graph;
pub mod job_manager;
pub mod jobs;
pub mod matching;
pub mod models;
pub mod outside;
pub mod pdf_finder;
pub mod prompts;
pub mod rate_limit;
pub mod related_work;
pub mod retry;
pub mod storage;
pub mod summarizer;
pub mod text;
pub mod validation;
pub mod vault;

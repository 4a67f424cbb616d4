//! A caching reverse proxy core: a tiered cache store (bounded in-memory tier
//! in front of a durable tier kept by the caller), byte-exact HTTP range
//! handling, and the request-orchestration state machine that decides, per
//! request, whether to serve from cache, merge cached bytes with freshly
//! fetched ones, or fall through to a full origin fetch.
//!
//! All network and disk I/O is performed by the embedding program, which
//! drives the orchestrator: every decision about byte accounting, cache
//! consistency and retry budgeting lives here, with a contract.

pub mod cache;
pub mod constants;
pub mod parse;
pub mod range;
pub mod response;
pub mod server;
pub mod utils;

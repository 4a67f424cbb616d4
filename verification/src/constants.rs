use vstd::prelude::*;

verus! {

/// Most entries the in-memory cache tier will hold at once.
pub const MAX_CACHE_SIZE: usize = 20;

/// Largest body, in bytes, that is cached (and held in the memory tier): 100 MiB.
pub const MAX_FILE_SIZE: usize = 104857600;

/// Per-attempt timeout for an origin fetch, in seconds.
pub const TIMEOUT_SECONDS: u64 = 30;

/// Additional attempts allowed after the first failed origin fetch.
pub const MAX_RETRIES: u32 = 3;

/// Fixed delay between origin fetch attempts, in milliseconds.
pub const RETRY_DELAY_MS: u64 = 1000;

} // verus!

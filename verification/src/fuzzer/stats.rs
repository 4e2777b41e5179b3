use vstd::prelude::*;

verus! {

/// What the workers count.
#[derive(Debug, Clone, Copy, PartialEq, Eq)]
pub struct Stats {
    pub execs: u64,
    pub crashes: u64,
    pub secs_since_last_cov: u64,
    pub execs_per_sec: u64,
}

} // verus!

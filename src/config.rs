//! Server configuration.
use vstd::prelude::*;

verus! {

/// Where the server listens and how it sizes its resources.
#[derive(Debug)]
pub struct Config {
    /// Host to bind.
    pub addr: String,
    /// Port to bind.
    pub port: u16,
    /// Number of worker threads.
    pub max_threads: usize,
    /// Initial capacity of the live registry.
    pub pre_allocated: usize,
}

} // verus!

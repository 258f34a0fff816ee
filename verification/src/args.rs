//! The options of the command line, as plain values.

use vstd::prelude::*;

verus! {

/// Options of the `fetch` command.
#[derive(Clone, Debug, PartialEq, Eq)]
pub struct FetchArgs {
    /// Decompress and remove the archive file.
    pub decompress: bool,
    /// Number of download workers.
    pub workers: Option<u8>,
    /// User agent to use for fetching.
    pub user_agent: String,
    /// Base directory to store wordlists.
    pub base_dir: String,
    /// Wordlists to fetch.
    pub wordlists: Vec<String>,
    /// Groups of wordlists to fetch.
    pub group: Vec<String>,
}

/// Options of the `search` command.
#[derive(Clone, Copy, Debug, PartialEq, Eq, Structural)]
pub struct SearchArgs {
    /// Search for wordlists in the local archives.
    pub local: bool,
    /// Fetch wordlists from the repository at the given index.
    pub fetch: u8,
}

} // verus!

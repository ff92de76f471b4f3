//! User settings. Missing keys take their default, so a partial
//! `config.toml` still applies; reading the file is the program's job.

use vstd::prelude::*;

verus! {

#[derive(Debug, Clone)]
pub struct Config {
    /// Override backend: "git" or "jj"
    pub backend: Option<String>,
    /// Number of log entries to show in the log buffer
    pub log_limit: usize,
    /// Number of recent commits to show in the status buffer
    pub recent_limit: usize,
}

impl Default for Config {
    fn default() -> (r: Self)
        ensures
            r.backend is None,
            r.log_limit == 50,
            r.recent_limit == 10,
    {
        Self { backend: None, log_limit: 50, recent_limit: 10 }
    }
}

} // verus!

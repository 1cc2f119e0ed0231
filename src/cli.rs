//! The commands the tool accepts, as plain values.

use vstd::prelude::*;

verus! {

/// The parsed command line.
#[derive(Debug)]
pub struct Cli {
    /// Disable colored output.
    pub no_color: bool,
    pub command: Commands,
}

/// What the tool is asked to do.
#[derive(Debug)]
#[allow(inconsistent_fields)]
pub enum Commands {
    /// Generate a new webhook token.
    Generate,
    /// Monitor webhook requests as they arrive.
    Monitor {
        /// Webhook token; a new one is generated when absent.
        token: Option<String>,
        /// Number of recent requests to fetch on each poll.
        count: u32,
        /// Seconds between polls.
        interval: u64,
        /// Show only this HTTP method.
        method: Option<String>,
        /// Show the full request body.
        full_body: bool,
        /// Show request headers.
        show_headers: bool,
        /// JSON pointers to pick out of JSON bodies.
        parse: Vec<String>,
    },
    /// Show request logs for a token.
    Logs {
        token: String,
        /// Number of requests to fetch.
        count: u32,
        method: Option<String>,
        full_body: bool,
        show_headers: bool,
        parse: Vec<String>,
    },
    /// Show the details of one request.
    Show {
        token: String,
        request_id: String,
        parse: Vec<String>,
    },
}

} // verus!

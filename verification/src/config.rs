//! The application configuration: which sessions to run. Loading it from
//! a file is the runtime's business; the supervisor consumes the loaded
//! value.

use vstd::prelude::*;

verus! {

/// The loaded configuration: one session-settings file path per session
/// to start, in order.
#[derive(Debug)]
pub struct AppConfig {
    pub settings: Vec<String>,
}

impl AppConfig {
    /// A configuration listing the given session-settings paths.
    pub fn new(settings: Vec<String>) -> (r: AppConfig)
        ensures
            r.settings@ == settings@,
    {
        AppConfig { settings }
    }
}

} // verus!

//! Runtime settings: the storage and server endpoints the process is wired
//! to at startup. Loading them from files or the environment is the
//! boundary's job; the core only carries the values.

use vstd::prelude::*;

verus! {

/// Storage settings. The connection URL carries credentials, so the type
/// never renders it: use `describe` for logs.
#[derive(Clone, Debug)]
pub struct DBSettings {
    pub url: String,
}

impl DBSettings {
    /// A rendering safe for logs: the URL is redacted, never shown.
    pub fn describe(&self) -> (s: String)
        ensures
            s@ == "DBSettings { url: <redacted> }"@,
    {
        String::from_str("DBSettings { url: <redacted> }")
    }
}

/// Server settings: the address the HTTP boundary binds to.
#[derive(Clone, Debug)]
pub struct ServerSettings {
    pub host: String,
}

/// The process settings, constructed once at startup and passed by
/// reference into the writer, the aggregator and the reader: no hidden
/// global, no lazily initialized static.
#[derive(Clone, Debug)]
pub struct Settings {
    pub server: ServerSettings,
    pub database: DBSettings,
}

} // verus!

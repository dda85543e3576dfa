//! Search configuration and the library's error type.

use vstd::prelude::*;
use vstd::string::StringExecFns;

verus! {

/// The two failure kinds the library distinguishes: a rejected
/// configuration, and an I/O failure reported by the surrounding
/// application.
#[derive(Debug)]
pub enum GrepError {
    IoError(String),
    ConfigError(String),
}

impl GrepError {
    /// The human-readable text for this error.
    pub open spec fn spec_message(&self) -> Seq<char> {
        match self {
            GrepError::ConfigError(m) => "Error de Configuração: "@ + m@,
            GrepError::IoError(m) => "Error de IO: "@ + m@,
        }
    }

    /// Renders the error as human-readable text.
    pub fn message(&self) -> (m: String)
        ensures
            m@ == self.spec_message(),
    {
        match self {
            GrepError::ConfigError(e) => {
                let mut s = String::from_str("Error de Configuração: ");
                s.append(e.as_str());
                s
            },
            GrepError::IoError(e) => {
                let mut s = String::from_str("Error de IO: ");
                s.append(e.as_str());
                s
            },
        }
    }
}

/// An immutable search configuration: the query to look for, the path of
/// the file to scan (not validated here; the application opens it), and
/// whether matching ignores letter case.
pub struct Config {
    pub query: String,
    pub file_path: String,
    pub ignore_case: bool,
}

impl Config {
    /// Validates and assembles a search configuration. A non-empty query
    /// always succeeds; the empty query is always rejected with a
    /// `ConfigError` carrying a fixed message. The case flag is supplied by
    /// the caller (the application derives it from the presence of the
    /// `IGNORE_CASE` environment variable).
    pub fn build(file_path: &String, query: &String, ignore_case: bool) -> (result: Result<
        Config,
        GrepError,
    >)
        ensures
            query@.len() > 0 ==> (result matches Ok(c) && c.query@ == query@ && c.file_path@
                == file_path@ && c.ignore_case == ignore_case),
            query@.len() == 0 ==> (result matches Err(GrepError::ConfigError(m)) && m@
                == "query must not be empty"@),
    {
        if query.as_str().is_empty() {
            Err(GrepError::ConfigError(String::from_str("query must not be empty")))
        } else {
            Ok(
                Config {
                    query: query.clone(),
                    file_path: file_path.clone(),
                    ignore_case,
                },
            )
        }
    }
}

} // verus!

//! The errors of a run, with their messages.

use vstd::prelude::*;

verus! {

/// What can go wrong in a run.
#[derive(Debug)]
pub enum Error {
    /// Configuration file not found at the path
    ConfigNotFound { path: String },
    /// Configuration file is invalid or malformed
    ConfigInvalid { message: String },
    /// Repository directory does not exist
    RepoNotFound { path: String },
    /// Path exists but is not a git repository
    NotGitRepo { path: String },
    /// Error reported by git
    Git(String),
    /// Error reading or writing a file
    Io(String),
    /// JSON parsing or serialization error
    Json(String),
    /// No repositories configured or specified
    NoRepositories,
    /// Repository not found in configuration
    RepoNotInConfig { identifier: String },
}

/// The message of an error.
pub open spec fn error_message(e: Error) -> Seq<char> {
    match e {
        Error::ConfigNotFound { path } => "Configuration file not found: "@ + path@,
        Error::ConfigInvalid { message } => "Invalid configuration: "@ + message@,
        Error::RepoNotFound { path } => "Repository not found: "@ + path@,
        Error::NotGitRepo { path } => "Not a git repository: "@ + path@,
        Error::Git(m) => "Git error: "@ + m@,
        Error::Io(m) => "IO error: "@ + m@,
        Error::Json(m) => "JSON error: "@ + m@,
        Error::NoRepositories => "No repositories to analyze"@,
        Error::RepoNotInConfig { identifier } => "Repository not found in config: "@ + identifier@,
    }
}

/// `prefix` followed by `rest`.
fn joined(prefix: &str, rest: &String) -> (r: String)
    ensures
        r@ == prefix@ + rest@,
{
    let mut s = String::from_str(prefix);
    s.append(rest.as_str());
    s
}

impl Error {
    /// The error's message, naming the value concerned.
    pub fn to_string(&self) -> (r: String)
        ensures
            r@ == error_message(*self),
    {
        match self {
            Error::ConfigNotFound { path } => joined("Configuration file not found: ", path),
            Error::ConfigInvalid { message } => joined("Invalid configuration: ", message),
            Error::RepoNotFound { path } => joined("Repository not found: ", path),
            Error::NotGitRepo { path } => joined("Not a git repository: ", path),
            Error::Git(m) => joined("Git error: ", m),
            Error::Io(m) => joined("IO error: ", m),
            Error::Json(m) => joined("JSON error: ", m),
            Error::NoRepositories => String::from_str("No repositories to analyze"),
            Error::RepoNotInConfig { identifier } => joined("Repository not found in config: ", identifier),
        }
    }
}

} // verus!

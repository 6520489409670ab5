//! Error taxonomy of the analysis.

use vstd::prelude::*;
use vstd::string::StringExecFns;

verus! {

/// Everything that can go wrong while analyzing a repository.
///
/// Every failure is fatal: the analysis never retries and never returns
/// partial results.
#[derive(Debug)]
pub enum AnalyzerError {
    /// A failure reported by the underlying version-control library.
    GitError(String),
    /// The given path does not resolve to a valid repository.
    InvalidRepository,
    /// A glob pattern could not be compiled into a matcher; carries the
    /// matcher engine's own error text.
    InvalidPattern(String),
    /// A general failure during the analysis itself.
    AnalysisError(String),
    /// A commit timestamp could not be interpreted.
    TimestampError(String),
    /// A failure while deriving metrics.
    MetricsError(String),
}

impl AnalyzerError {
    /// The text of the error, as a sequence of characters.
    pub open spec fn spec_message(&self) -> Seq<char> {
        match self {
            AnalyzerError::GitError(m) => "Git error: "@ + m@,
            AnalyzerError::InvalidRepository => "Invalid repository path"@,
            AnalyzerError::InvalidPattern(m) => "Invalid pattern: "@ + m@,
            AnalyzerError::AnalysisError(m) => "Analysis error: "@ + m@,
            AnalyzerError::TimestampError(m) => "Timestamp error: "@ + m@,
            AnalyzerError::MetricsError(m) => "Metrics calculation error: "@ + m@,
        }
    }

    /// The human-readable description of the error.
    pub fn message(&self) -> (r: String)
        ensures
            r@ == self.spec_message(),
    {
        match self {
            AnalyzerError::GitError(m) => {
                let mut s = String::from_str("Git error: ");
                s.append(m.as_str());
                s
            },
            AnalyzerError::InvalidRepository => String::from_str("Invalid repository path"),
            AnalyzerError::InvalidPattern(m) => {
                let mut s = String::from_str("Invalid pattern: ");
                s.append(m.as_str());
                s
            },
            AnalyzerError::AnalysisError(m) => {
                let mut s = String::from_str("Analysis error: ");
                s.append(m.as_str());
                s
            },
            AnalyzerError::TimestampError(m) => {
                let mut s = String::from_str("Timestamp error: ");
                s.append(m.as_str());
                s
            },
            AnalyzerError::MetricsError(m) => {
                let mut s = String::from_str("Metrics calculation error: ");
                s.append(m.as_str());
                s
            },
        }
    }
}

} // verus!

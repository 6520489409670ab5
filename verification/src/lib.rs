//! Hotspot analysis for version-control history.
//!
//! The crate identifies "hotspot" files in a repository: files that change
//! often and are touched by many developers with no single dominant owner.
//! It compiles glob-style include/exclude patterns into path matchers, walks
//! the commit history with temporal and merge filtering, aggregates per-file
//! revision and author statistics, and derives the exact integer components
//! of the hotspot score.

pub mod analyzer;
pub mod config;
pub mod error;
pub mod git;
pub mod pattern;
pub mod stats;

pub use analyzer::HotspotAnalyzer;
pub use config::Cli;
pub use error::AnalyzerError;
pub use git::CommitInfo;
pub use git::GitRepository;
pub use pattern::PathPattern;
pub use pattern::PatternSet;
pub use stats::FileMetrics;
pub use stats::FileStats;

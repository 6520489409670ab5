//! The analysis itself: one walker/aggregator pair per run.

use vstd::prelude::*;
use crate::error::AnalyzerError;
use crate::git::GitRepository;
use crate::pattern::glob_regex;
use crate::pattern::glob_regexes_of;
use crate::pattern::re_valid;
use crate::stats::FileMetrics;
use crate::stats::fold_records;
use crate::stats::lemma_max_le_sum;
use crate::stats::lemma_touched_aggregate_nonempty;
use crate::stats::path_touched;

verus! {

/// Relies on `chrono::Utc::now`: the current time, as seconds since the
/// epoch. Nothing can be promised of a clock reading.
#[verifier::external_body]
fn now_unix_seconds() -> i64 {
    chrono::Utc::now().timestamp()
}

/// The instant `window_days` days before `now`, saturating at the ends of
/// the timestamp range.
pub open spec fn cutoff_spec(now: i64, window_days: i64) -> int {
    let c = now - window_days * 86400;
    if c < i64::MIN {
        i64::MIN as int
    } else if c > i64::MAX {
        i64::MAX as int
    } else {
        c
    }
}

/// Computes the since-cutoff of one analysis: the time window is counted
/// back from `now`, day by day, saturating at the ends of the timestamp
/// range.
pub fn cutoff_instant(now: i64, window_days: i64) -> (r: i64)
    ensures
        r as int == cutoff_spec(now, window_days),
{
    let c: i128 = now as i128 - window_days as i128 * 86400;
    if c < i64::MIN as i128 {
        i64::MIN
    } else if c > i64::MAX as i128 {
        i64::MAX
    } else {
        c as i64
    }
}

/// Runs one hotspot analysis: walks the commit history of a repository
/// within a time window and derives per-file metrics. A pair of walker and
/// aggregator is used for exactly one `analyze` call's data; no state
/// crosses analysis runs.
pub struct HotspotAnalyzer {
    repo: GitRepository,
    time_window_days: i64,
}

impl HotspotAnalyzer {
    /// The regex texts of the include patterns.
    pub closed spec fn include_srcs(self) -> Seq<Seq<char>> {
        self.repo.include_srcs()
    }

    /// The regex texts of the exclude patterns.
    pub closed spec fn exclude_srcs(self) -> Seq<Seq<char>> {
        self.repo.exclude_srcs()
    }

    /// Whether merge commits are counted.
    pub closed spec fn merges_included(self) -> bool {
        self.repo.merges_included()
    }

    /// The analysis window, in days before now.
    pub closed spec fn window_days(self) -> i64 {
        self.time_window_days
    }

    /// Opens the repository and compiles the pattern lists.
    pub fn new(
        path: &str,
        time_window_days: i64,
        include_patterns: Vec<String>,
        exclude_patterns: Vec<String>,
        include_merges: bool,
    ) -> (r: Result<HotspotAnalyzer, AnalyzerError>)
        ensures
            r matches Ok(a) ==> {
                &&& a.include_srcs() == glob_regexes_of(include_patterns@)
                &&& a.exclude_srcs() == glob_regexes_of(exclude_patterns@)
                &&& a.merges_included() == include_merges
                &&& a.window_days() == time_window_days
            },
            r matches Err(e) ==> (e is GitError || e is InvalidPattern),
            r matches Err(e) && e is InvalidPattern ==> !((forall|k: int|
                0 <= k < include_patterns@.len() ==> re_valid(
                    glob_regex(#[trigger] include_patterns@[k]@),
                )) && (forall|k: int|
                0 <= k < exclude_patterns@.len() ==> re_valid(
                    glob_regex(#[trigger] exclude_patterns@[k]@),
                ))),
    {
        let repo = match GitRepository::open(
            path,
            include_patterns,
            exclude_patterns,
            include_merges,
        ) {
            Ok(repo) => repo,
            Err(e) => {
                return Err(e);
            },
        };
        Ok(HotspotAnalyzer { repo, time_window_days })
    }

    /// Walks the history, folds the records into per-file aggregates and
    /// finalizes each into its metrics. The returned collection is
    /// unsorted; every record in it comes from at least one counted commit,
    /// so it has at least one revision and one author, and its total
    /// per-author commit count equals its revision count, with no single
    /// author's count exceeding it.
    pub fn analyze(&self) -> (r: Result<Vec<FileMetrics>, AnalyzerError>)
        ensures
            r matches Ok(ms) ==> forall|k: int|
                0 <= k < ms@.len() ==> {
                    &&& (#[trigger] ms@[k]).total_commits == ms@[k].revisions
                    &&& ms@[k].max_author_commits <= ms@[k].total_commits
                    &&& ms@[k].revisions >= 1
                    &&& ms@[k].author_count >= 1
                },
            r matches Ok(ms) ==> forall|k: int, l: int|
                0 <= k < l < ms@.len() ==> (#[trigger] ms@[k]).path@ != (#[trigger] ms@[l]).path@,
            r matches Err(e) ==> (e is GitError || e is AnalysisError),
    {
        let now = now_unix_seconds();
        let since = cutoff_instant(now, self.time_window_days);
        let commits = match self.repo.get_commits_since(since) {
            Ok(commits) => commits,
            Err(e) => {
                return Err(e);
            },
        };
        let mut entries = fold_records(&commits);
        let mut metrics: Vec<FileMetrics> = Vec::new();
        while entries.len() > 0
            invariant
                forall|l: int|
                    0 <= l < entries@.len() ==> (#[trigger] entries@[l].1).is_aggregate_of(
                        commits@,
                        entries@[l].0@,
                    ),
                forall|l: int|
                    0 <= l < entries@.len() ==> #[trigger] path_touched(
                        commits@,
                        entries@[l].0@,
                    ),
                forall|l: int|
                    0 <= l < metrics@.len() ==> {
                        &&& (#[trigger] metrics@[l]).total_commits == metrics@[l].revisions
                        &&& metrics@[l].max_author_commits <= metrics@[l].total_commits
                        &&& metrics@[l].revisions >= 1
                        &&& metrics@[l].author_count >= 1
                    },
                forall|l1: int, l2: int|
                    0 <= l1 < l2 < entries@.len() ==> (#[trigger] entries@[l1]).0@ != (
                    #[trigger] entries@[l2]).0@,
                forall|l1: int, l2: int|
                    0 <= l1 < l2 < metrics@.len() ==> (#[trigger] metrics@[l1]).path@ != (
                    #[trigger] metrics@[l2]).path@,
                forall|l1: int, l2: int|
                    0 <= l1 < metrics@.len() && 0 <= l2 < entries@.len() ==> (
                    #[trigger] metrics@[l1]).path@ != (#[trigger] entries@[l2]).0@,
            decreases entries@.len(),
        {
            let ghost remaining: Seq<(String, crate::stats::FileStats)> = entries@;
            let entry = entries.pop().unwrap();
            proof {
                assert(entry == remaining[remaining.len() - 1]);
                lemma_max_le_sum(entry.1.author_commits@);
                lemma_touched_aggregate_nonempty(commits@, entry.0@, entry.1);
            }
            let (path, st) = entry;
            let m = st.into_metrics(path);
            metrics.push(m);
        }
        Ok(metrics)
    }
}

} // verus!

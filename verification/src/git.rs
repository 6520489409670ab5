//! Commit-history traversal with temporal and topology filtering.
//!
//! The walker owns a repository handle for the duration of one analysis
//! run, walks the commits reachable from HEAD, applies the since-cutoff and
//! the merge-commit filter, and for each accepted commit builds the set of
//! changed file paths filtered through the pattern set. What a repository
//! on disk contains is outside the reach of verification, so every fact
//! read from it flows through a small trusted wrapper and is then handled
//! by verified code that is correct for every value the wrapper can return.

use vstd::prelude::*;
use vstd::string::StringExecFns;
use crate::error::AnalyzerError;
use crate::pattern::PatternSet;
use crate::pattern::glob_regexes_of;
use crate::pattern::glob_regex;
use crate::pattern::re_valid;
use crate::pattern::should_include_spec;

verus! {

/// Declares `git2::Repository` so that a handle can be held and passed;
/// its values are opaque to verification.
#[verifier::external_type_specification]
#[verifier::external_body]
pub struct ExRepository(git2::Repository);

/// Declares `git2::Oid` so that commit ids can be held and passed; its
/// values are opaque to verification.
#[verifier::external_type_specification]
#[verifier::external_body]
pub struct ExOid(git2::Oid);

/// Relies on `git2::Repository::open`: opens the repository rooted at the
/// path; whether it succeeds depends on what is on disk, so nothing more is
/// promised. The error is handed on as its display text.
#[verifier::external_body]
fn repo_open(path: &str) -> (r: Result<git2::Repository, String>) {
    git2::Repository::open(path).map_err(|e| e.to_string())
}

/// Relies on `git2::Repository::revwalk`, `Revwalk::push_head`,
/// `Revwalk::set_sorting` and the `Revwalk` iterator: the ids of the
/// commits reachable from HEAD, in commit-time order. What they are depends
/// on what is on disk, so nothing more is promised.
#[verifier::external_body]
fn head_commit_ids(repo: &git2::Repository) -> (r: Result<Vec<git2::Oid>, String>) {
    let mut walk = repo.revwalk().map_err(|e| e.to_string())?;
    walk.push_head().map_err(|e| e.to_string())?;
    walk.set_sorting(git2::Sort::TIME).map_err(|e| e.to_string())?;
    walk.collect::<Result<Vec<git2::Oid>, git2::Error>>().map_err(|e| e.to_string())
}

/// The plain facts of one commit that the filters read.
pub(crate) struct CommitSummary {
    /// The commit's timestamp, in seconds since the epoch.
    pub(crate) seconds: i64,
    /// How many parents the commit has; more than one makes it a merge.
    pub(crate) parent_count: usize,
    /// The author's display name; `None` when it is not valid UTF-8.
    pub(crate) author_name: Option<String>,
}

/// Relies on `git2::Repository::find_commit`, `Commit::time`,
/// `Commit::parent_count` and `Signature::name`: the commit's timestamp,
/// parent count and author display name (`None` when the name is not valid
/// UTF-8). What they are depends on what is on disk, so nothing more is
/// promised.
#[verifier::external_body]
fn commit_summary(repo: &git2::Repository, id: &git2::Oid) -> (r: Result<CommitSummary, String>) {
    let commit = repo.find_commit(*id).map_err(|e| e.to_string())?;
    let author_name = commit.author().name().ok().map(|n| n.to_string());
    Ok(CommitSummary {
        seconds: commit.time().seconds(),
        parent_count: commit.parent_count(),
        author_name,
    })
}

/// Relies on `git2::Repository::find_commit`, `Commit::tree`,
/// `Commit::parent`, `Repository::diff_tree_to_tree` and `Diff::deltas`:
/// the new-file path of every delta between the commit's tree and its first
/// parent's tree (the empty tree for a root commit), `None` standing for a
/// path that is not valid UTF-8. What they are depends on what is on disk,
/// so nothing more is promised.
#[verifier::external_body]
fn commit_changed_paths(repo: &git2::Repository, id: &git2::Oid) -> (r: Result<
    Vec<Option<String>>,
    String,
>) {
    let commit = repo.find_commit(*id).map_err(|e| e.to_string())?;
    let tree = commit.tree().map_err(|e| e.to_string())?;
    let parent_tree = commit.parent(0).ok().and_then(|p| p.tree().ok());
    let diff = repo.diff_tree_to_tree(parent_tree.as_ref(), Some(&tree), None).map_err(
        |e| e.to_string(),
    )?;
    Ok(
        diff.deltas().map(
            |d| d.new_file().path().and_then(|p| p.to_str()).map(|s| s.to_string()),
        ).collect(),
    )
}

/// The timestamps (seconds since the epoch) that the calendar library can
/// represent as a calendar time.
pub open spec fn timestamp_in_range(seconds: i64) -> bool {
    -8334601228800 <= seconds <= 8210266876799
}

/// Relies on `chrono::DateTime::from_timestamp`: a seconds-since-epoch
/// value converts to a calendar time exactly when it lies within the
/// library's representable range of dates.
#[verifier::external_body]
fn timestamp_representable(seconds: i64) -> (r: bool)
    ensures
        r == timestamp_in_range(seconds),
{
    chrono::DateTime::from_timestamp(seconds, 0).is_some()
}

/// One accepted commit: the author's display name and the changed, filtered
/// file paths. Records are immutable once built and are discarded after
/// being folded into the aggregate state.
#[derive(Debug)]
pub struct CommitInfo {
    pub author: String,
    pub files: Vec<String>,
}

/// Whether the record counts `path` among its changed files.
pub open spec fn touches(rec: CommitInfo, path: Seq<char>) -> bool {
    exists|j: int| 0 <= j < rec.files@.len() && rec.files@[j]@ == path
}

/// Whether a commit enters the analysis: its timestamp must lie at or after
/// the cutoff (strict comparison, so the boundary itself is included), and
/// a commit with more than one parent is skipped unless merge commits are
/// included.
pub open spec fn commit_accepted(
    since: i64,
    include_merges: bool,
    seconds: i64,
    parent_count: nat,
) -> bool {
    seconds >= since && (include_merges || parent_count <= 1)
}

/// Decides whether one commit enters the analysis.
pub fn commit_selected(since: i64, include_merges: bool, seconds: i64, parent_count: usize) -> (r:
    bool)
    ensures
        r == commit_accepted(since, include_merges, seconds, parent_count as nat),
{
    seconds >= since && (include_merges || parent_count <= 1)
}

/// A commit with more than one parent is never counted when merge commits
/// are not included, whatever its timestamp and whatever files it touches.
pub proof fn lemma_merge_commit_excluded(since: i64, seconds: i64, parent_count: nat)
    requires
        parent_count > 1,
    ensures
        !commit_accepted(since, false, seconds, parent_count),
{
}

/// The paths of a diff that enter a record: the UTF-8-representable ones
/// that the pattern set accepts, in diff order.
pub open spec fn kept_paths(
    inc: Seq<Seq<char>>,
    exc: Seq<Seq<char>>,
    raw: Seq<Option<String>>,
) -> Seq<Seq<char>>
    decreases raw.len(),
{
    if raw.len() == 0 {
        Seq::empty()
    } else {
        let rest = kept_paths(inc, exc, raw.drop_last());
        match raw.last() {
            Some(p) => if should_include_spec(inc, exc, p@) {
                rest.push(p@)
            } else {
                rest
            },
            None => rest,
        }
    }
}

/// Every kept path was accepted by the pattern set.
pub proof fn lemma_kept_paths_accepted(
    inc: Seq<Seq<char>>,
    exc: Seq<Seq<char>>,
    raw: Seq<Option<String>>,
)
    ensures
        forall|j: int|
            0 <= j < kept_paths(inc, exc, raw).len() ==> should_include_spec(
                inc,
                exc,
                #[trigger] kept_paths(inc, exc, raw)[j],
            ),
    decreases raw.len(),
{
    if raw.len() > 0 {
        lemma_kept_paths_accepted(inc, exc, raw.drop_last());
        let rest = kept_paths(inc, exc, raw.drop_last());
        let whole = kept_paths(inc, exc, raw);
        assert forall|j: int| 0 <= j < whole.len() implies should_include_spec(
            inc,
            exc,
            whole[j],
        ) by {
            match raw.last() {
                Some(p) => {
                    if should_include_spec(inc, exc, p@) {
                        if j < rest.len() {
                            assert(whole[j] == rest[j]);
                        } else {
                            assert(whole[j] == p@);
                        }
                    } else {
                        assert(whole[j] == rest[j]);
                    }
                },
                None => {
                    assert(whole[j] == rest[j]);
                },
            }
        }
    }
}

/// The author recorded for a commit: the display name, or the sentinel
/// "unknown" when none is available.
pub open spec fn author_or_unknown(author_name: Option<String>) -> Seq<char> {
    match author_name {
        Some(a) => a@,
        None => "unknown"@,
    }
}

/// Builds the record of one accepted commit: filters the raw diff paths
/// through the pattern set; a commit whose filtered set is empty
/// contributes no record, so its author is not counted for any file.
pub fn make_commit_record(
    patterns: &PatternSet,
    author_name: Option<String>,
    raw_paths: &Vec<Option<String>>,
) -> (r: Option<CommitInfo>)
    ensures
        match r {
            Some(c) => {
                &&& c.files@.map_values(|s: String| s@) == kept_paths(
                    patterns.include_srcs(),
                    patterns.exclude_srcs(),
                    raw_paths@,
                )
                &&& c.author@ == author_or_unknown(author_name)
                &&& c.files@.len() > 0
            },
            None => kept_paths(patterns.include_srcs(), patterns.exclude_srcs(), raw_paths@).len()
                == 0,
        },
{
    let ghost inc: Seq<Seq<char>> = patterns.include_srcs();
    let ghost exc: Seq<Seq<char>> = patterns.exclude_srcs();
    let mut files: Vec<String> = Vec::new();
    let mut k: usize = 0;
    proof {
        assert(raw_paths@.take(0) =~= Seq::<Option<String>>::empty());
        assert(files@.map_values(|s: String| s@) =~= kept_paths(inc, exc, raw_paths@.take(0)));
    }
    while k < raw_paths.len()
        invariant
            k <= raw_paths@.len(),
            inc == patterns.include_srcs(),
            exc == patterns.exclude_srcs(),
            files@.map_values(|s: String| s@) == kept_paths(inc, exc, raw_paths@.take(k as int)),
        decreases raw_paths@.len() - k,
    {
        let ghost prefix: Seq<Option<String>> = raw_paths@.take(k as int);
        let ghost extended: Seq<Option<String>> = raw_paths@.take(k as int + 1);
        proof {
            assert(extended.drop_last() =~= prefix);
            assert(extended.last() == raw_paths@[k as int]);
        }
        match &raw_paths[k] {
            Some(p) => {
                if patterns.should_include_file(p.as_str()) {
                    let ghost old_files: Seq<String> = files@;
                    files.push(p.clone());
                    proof {
                        assert(files@.map_values(|s: String| s@) =~= old_files.map_values(
                            |s: String| s@,
                        ).push(p@));
                    }
                }
            },
            None => {},
        }
        k = k + 1;
    }
    proof {
        assert(raw_paths@.take(raw_paths@.len() as int) =~= raw_paths@);
    }
    if files.len() == 0 {
        None
    } else {
        let author = match author_name {
            Some(a) => a,
            None => String::from_str("unknown"),
        };
        Some(CommitInfo { author, files })
    }
}

/// Access to one repository: the open handle, the compiled pattern set and
/// the merge-commit flag.
pub struct GitRepository {
    repo: git2::Repository,
    patterns: PatternSet,
    include_merge_commits: bool,
}

impl GitRepository {
    /// The regex texts of the include patterns.
    pub closed spec fn include_srcs(self) -> Seq<Seq<char>> {
        self.patterns.include_srcs()
    }

    /// The regex texts of the exclude patterns.
    pub closed spec fn exclude_srcs(self) -> Seq<Seq<char>> {
        self.patterns.exclude_srcs()
    }

    /// Whether merge commits are counted.
    pub closed spec fn merges_included(self) -> bool {
        self.include_merge_commits
    }

    /// Opens the repository rooted at `path` and compiles the glob lists.
    ///
    /// A failure to open the repository is reported before a failure to
    /// compile a pattern, and a failure among the include globs before one
    /// among the exclude globs.
    pub fn open(
        path: &str,
        include_patterns: Vec<String>,
        exclude_patterns: Vec<String>,
        include_merge_commits: bool,
    ) -> (r: Result<GitRepository, AnalyzerError>)
        ensures
            r matches Ok(g) ==> {
                &&& g.include_srcs() == glob_regexes_of(include_patterns@)
                &&& g.exclude_srcs() == glob_regexes_of(exclude_patterns@)
                &&& g.merges_included() == include_merge_commits
            },
            r matches Err(e) ==> (e is GitError || e is InvalidPattern),
            r matches Err(e) && e is InvalidPattern ==> !((forall|k: int|
                0 <= k < include_patterns@.len() ==> re_valid(
                    glob_regex(#[trigger] include_patterns@[k]@),
                )) && (forall|k: int|
                0 <= k < exclude_patterns@.len() ==> re_valid(
                    glob_regex(#[trigger] exclude_patterns@[k]@),
                ))),
    {
        let repo = match repo_open(path) {
            Ok(repo) => repo,
            Err(m) => {
                return Err(AnalyzerError::GitError(m));
            },
        };
        let patterns = match PatternSet::new(&include_patterns, &exclude_patterns) {
            Ok(ps) => ps,
            Err(e) => {
                return Err(e);
            },
        };
        Ok(GitRepository { repo, patterns, include_merge_commits })
    }

    /// Walks the commits reachable from HEAD and returns one record per
    /// accepted commit whose filtered change set is not empty. Every file
    /// of every returned record was accepted by the pattern set. Any
    /// repository-access failure aborts the whole walk; a commit whose
    /// timestamp the calendar library cannot represent aborts it too.
    pub fn get_commits_since(&self, since: i64) -> (r: Result<Vec<CommitInfo>, AnalyzerError>)
        ensures
            r matches Ok(commits) ==> forall|k: int|
                0 <= k < commits@.len() ==> {
                    &&& (#[trigger] commits@[k]).files@.len() > 0
                    &&& forall|j: int|
                        0 <= j < commits@[k].files@.len() ==> should_include_spec(
                            self.include_srcs(),
                            self.exclude_srcs(),
                            #[trigger] commits@[k].files@[j]@,
                        )
                },
            r matches Err(e) ==> (e is GitError || e is AnalysisError),
    {
        let ids = match head_commit_ids(&self.repo) {
            Ok(ids) => ids,
            Err(m) => {
                return Err(AnalyzerError::GitError(m));
            },
        };
        let mut commits: Vec<CommitInfo> = Vec::new();
        let mut k: usize = 0;
        while k < ids.len()
            invariant
                forall|l: int|
                    0 <= l < commits@.len() ==> {
                        &&& (#[trigger] commits@[l]).files@.len() > 0
                        &&& forall|j: int|
                            0 <= j < commits@[l].files@.len() ==> should_include_spec(
                                self.include_srcs(),
                                self.exclude_srcs(),
                                #[trigger] commits@[l].files@[j]@,
                            )
                    },
            decreases ids@.len() - k,
        {
            let summary = match commit_summary(&self.repo, &ids[k]) {
                Ok(s) => s,
                Err(m) => {
                    return Err(AnalyzerError::GitError(m));
                },
            };
            if !timestamp_representable(summary.seconds) {
                return Err(
                    AnalyzerError::AnalysisError(String::from_str("Invalid commit timestamp")),
                );
            }
            if commit_selected(
                since,
                self.include_merge_commits,
                summary.seconds,
                summary.parent_count,
            ) {
                let raw_paths = match commit_changed_paths(&self.repo, &ids[k]) {
                    Ok(ps) => ps,
                    Err(m) => {
                        return Err(AnalyzerError::GitError(m));
                    },
                };
                if let Some(info) = make_commit_record(
                    &self.patterns,
                    summary.author_name,
                    &raw_paths,
                ) {
                    proof {
                        lemma_kept_paths_accepted(
                            self.patterns.include_srcs(),
                            self.patterns.exclude_srcs(),
                            raw_paths@,
                        );
                        assert forall|j: int| 0 <= j < info.files@.len() implies should_include_spec(
                            self.include_srcs(),
                            self.exclude_srcs(),
                            #[trigger] info.files@[j]@,
                        ) by {
                            assert(info.files@.map_values(|s: String| s@)[j] == info.files@[j]@);
                        }
                    }
                    commits.push(info);
                }
            }
            k = k + 1;
        }
        Ok(commits)
    }
}

} // verus!

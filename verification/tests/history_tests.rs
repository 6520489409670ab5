use git2::Repository;
use git2::Signature;
use hotspot_analyzer::AnalyzerError;
use hotspot_analyzer::FileMetrics;
use hotspot_analyzer::GitRepository;
use hotspot_analyzer::HotspotAnalyzer;
use tempfile::TempDir;

/// The presentation-side derivation of the fractional quantities.
fn metric_fractions(m: &FileMetrics) -> (f64, f64, f64) {
    let (pct, kd) = if m.total_commits > 0 {
        let pct = (m.max_author_commits as f64 / m.total_commits as f64) * 100.0;
        (pct, 1.0 - pct / 100.0)
    } else {
        (0.0, 0.0)
    };
    let score = m.revisions as f64 * (m.author_count as f64).sqrt() * kd;
    (pct, kd, score)
}

/// Commits a tree holding the given (name, content) entries, on top of the
/// given parents, and returns the new commit id.
fn commit_tree(
    repo: &Repository,
    update_head: bool,
    author: &Signature,
    message: &str,
    entries: &[(&str, &str)],
    parents: &[&git2::Commit],
) -> git2::Oid {
    let mut builder = repo.treebuilder(None).unwrap();
    for (name, content) in entries {
        let blob = repo.blob(content.as_bytes()).unwrap();
        builder.insert(name, blob, 0o100644).unwrap();
    }
    let tree_id = builder.write().unwrap();
    let tree = repo.find_tree(tree_id).unwrap();
    let head = if update_head { Some("HEAD") } else { None };
    repo.commit(head, author, author, message, &tree, parents)
        .unwrap()
}

/// A fresh repository whose initial commit adds `test.rs`.
fn repo_with_initial_commit() -> (TempDir, Repository) {
    let temp_dir = TempDir::new().unwrap();
    let repo = Repository::init(temp_dir.path()).unwrap();
    let signature = Signature::now("test", "test@example.com").unwrap();
    commit_tree(
        &repo,
        true,
        &signature,
        "Initial commit",
        &[("test.rs", "fn main() { println!(\"Hello\"); }")],
        &[],
    );
    (temp_dir, repo)
}

fn repo_path(temp_dir: &TempDir) -> &str {
    temp_dir.path().to_str().unwrap()
}

#[test]
fn test_git_repository_open_invalid_path() {
    let result = GitRepository::open("non_existent_path", vec![], vec![], false);
    assert!(result.is_err());
    match result {
        Err(AnalyzerError::GitError(_)) => (),
        _ => panic!("Expected GitError"),
    }
}

#[test]
fn test_git_repository_with_empty_repo() {
    // A repository whose only commit introduces no files yields no records.
    let temp_dir = TempDir::new().unwrap();
    let repo = Repository::init(temp_dir.path()).unwrap();
    let signature = Signature::now("test", "test@example.com").unwrap();
    commit_tree(&repo, true, &signature, "Initial commit", &[], &[]);

    let git_repo =
        GitRepository::open(repo_path(&temp_dir), vec!["*.rs".to_string()], vec![], false)
            .unwrap();

    let since = (chrono::Utc::now() - chrono::Duration::days(1)).timestamp();
    let commits = git_repo.get_commits_since(since).unwrap();

    assert!(commits.is_empty());
}

#[test]
fn test_analyzer_initialization() {
    let (temp_dir, _repo) = repo_with_initial_commit();

    let analyzer = HotspotAnalyzer::new(
        repo_path(&temp_dir),
        30,
        vec!["**/*.rs".to_string()],
        vec!["**/target/**".to_string()],
        false,
    );
    assert!(analyzer.is_ok());

    let invalid_analyzer = HotspotAnalyzer::new("non_existent_path", 30, vec![], vec![], false);
    assert!(invalid_analyzer.is_err());
}

#[test]
fn test_analyze_empty_repo() {
    let (temp_dir, _repo) = repo_with_initial_commit();

    let analyzer = HotspotAnalyzer::new(
        repo_path(&temp_dir),
        30,
        vec!["**/*.txt".to_string()],
        vec![],
        false,
    )
    .unwrap();

    let result = analyzer.analyze().unwrap();
    assert!(result.is_empty());

    if let Some(metrics) = result.first() {
        assert_eq!(metrics.revisions, 1);
        assert_eq!(metrics.author_count, 1);
        let (pct, _kd, _score) = metric_fractions(metrics);
        assert_eq!(pct, 100.0);
    }
}

#[test]
fn test_analyze_single_commits() {
    let (temp_dir, _repo) = repo_with_initial_commit();

    let analyzer = HotspotAnalyzer::new(
        repo_path(&temp_dir),
        30,
        vec!["*.rs".to_string()],
        vec![],
        false,
    )
    .unwrap();

    let result = analyzer.analyze().unwrap();
    assert!(result.len() == 1);

    if let Some(metrics) = result.first() {
        assert_eq!(metrics.revisions, 1);
        assert_eq!(metrics.author_count, 1);
        let (pct, _kd, _score) = metric_fractions(metrics);
        assert_eq!(pct, 100.0);
    }
}

#[test]
fn analyze_single_author_commit_scores_zero() {
    // One commit adding test.rs by author "A": exactly one record, one
    // revision, one author, a 100% main contributor and a zero score.
    let temp_dir = TempDir::new().unwrap();
    let repo = Repository::init(temp_dir.path()).unwrap();
    let author_a = Signature::now("A", "a@example.com").unwrap();
    commit_tree(
        &repo,
        true,
        &author_a,
        "add test.rs",
        &[("test.rs", "fn main() {}")],
        &[],
    );

    let analyzer = HotspotAnalyzer::new(
        repo_path(&temp_dir),
        30,
        vec!["*.rs".to_string()],
        vec![],
        false,
    )
    .unwrap();
    let result = analyzer.analyze().unwrap();

    assert_eq!(result.len(), 1);
    let metrics = &result[0];
    assert_eq!(metrics.path, "test.rs");
    assert_eq!(metrics.revisions, 1);
    assert_eq!(metrics.author_count, 1);
    let (pct, _kd, score) = metric_fractions(metrics);
    assert_eq!(pct, 100.0);
    assert_eq!(score, 0.0);
}

#[test]
fn test_analyze_with_multiple_commits() {
    let (temp_dir, repo) = repo_with_initial_commit();
    let signature = Signature::now("test2", "test2@example.com").unwrap();

    let parent = repo.head().unwrap().peel_to_commit().unwrap();
    commit_tree(
        &repo,
        true,
        &signature,
        "Second commit",
        &[("test.rs", "fn main() { println!(\"Hello, World!\"); }")],
        &[&parent],
    );

    let analyzer = HotspotAnalyzer::new(
        repo_path(&temp_dir),
        30,
        vec!["*.rs".to_string()],
        vec![],
        false,
    )
    .unwrap();

    let result = analyzer.analyze().unwrap();
    assert_eq!(result.len(), 1);

    let metrics = &result[0];
    assert_eq!(metrics.revisions, 2);
    assert_eq!(metrics.author_count, 2);
    let (pct, kd, score) = metric_fractions(metrics);
    assert!(pct <= 100.0);
    assert!(pct >= 50.0);
    assert!(kd > 0.0);
    assert!(score > 0.0);
}

#[test]
fn test_analyze_with_exclusions() {
    // the generated file exists in the working directory only and is never
    // committed, so the single record is the initial commit's
    let (temp_dir, _repo) = repo_with_initial_commit();

    let analyzer = HotspotAnalyzer::new(
        repo_path(&temp_dir),
        30,
        vec!["*.rs".to_string()],
        vec!["**/*.generated.rs".to_string()],
        false,
    )
    .unwrap();

    let result = analyzer.analyze().unwrap();

    assert!(result.len() == 1);

    for metrics in &result {
        assert!(!metrics.path.contains(".generated.rs"));
    }
}

#[test]
fn old_commits_fall_outside_the_window() {
    // a commit dated before the since-cutoff is skipped; the boundary
    // itself is included
    let temp_dir = TempDir::new().unwrap();
    let repo = Repository::init(temp_dir.path()).unwrap();
    let now = chrono::Utc::now().timestamp();
    let time = git2::Time::new(now - 90 * 86400, 0);
    let sig = Signature::new("test", "test@example.com", &time).unwrap();
    commit_tree(&repo, true, &sig, "old", &[("test.rs", "x")], &[]);

    let git_repo =
        GitRepository::open(repo_path(&temp_dir), vec!["*.rs".to_string()], vec![], false)
            .unwrap();
    let since_after = now - 30 * 86400;
    assert!(git_repo.get_commits_since(since_after).unwrap().is_empty());
    let since_covering = now - 120 * 86400;
    assert_eq!(git_repo.get_commits_since(since_covering).unwrap().len(), 1);
    let since_boundary = now - 90 * 86400;
    assert_eq!(git_repo.get_commits_since(since_boundary).unwrap().len(), 1);
}

#[test]
fn merge_commits_are_excluded_by_default() {
    // A commit with two parents is never counted when merge commits are
    // not included, regardless of the files it touches.
    let temp_dir = TempDir::new().unwrap();
    let repo = Repository::init(temp_dir.path()).unwrap();
    let sig = Signature::now("test", "test@example.com").unwrap();

    let root_id = commit_tree(&repo, true, &sig, "root", &[("a.rs", "a")], &[]);
    let root = repo.find_commit(root_id).unwrap();
    let b_id = commit_tree(
        &repo,
        true,
        &sig,
        "branch b",
        &[("a.rs", "a"), ("b.rs", "b")],
        &[&root],
    );
    let b = repo.find_commit(b_id).unwrap();
    let c_id = commit_tree(
        &repo,
        false,
        &sig,
        "branch c",
        &[("a.rs", "a"), ("c.rs", "c")],
        &[&root],
    );
    let c = repo.find_commit(c_id).unwrap();
    commit_tree(
        &repo,
        true,
        &sig,
        "merge",
        &[
            ("a.rs", "a"),
            ("b.rs", "b"),
            ("c.rs", "c"),
            ("m.rs", "m"),
        ],
        &[&b, &c],
    );

    let analyzer = HotspotAnalyzer::new(
        repo_path(&temp_dir),
        30,
        vec!["*.rs".to_string()],
        vec![],
        false,
    )
    .unwrap();
    let result = analyzer.analyze().unwrap();
    for metrics in &result {
        assert_ne!(metrics.path, "m.rs");
    }

    // with merge commits included, the merge's own file is counted
    let analyzer = HotspotAnalyzer::new(
        repo_path(&temp_dir),
        30,
        vec!["*.rs".to_string()],
        vec![],
        true,
    )
    .unwrap();
    let result = analyzer.analyze().unwrap();
    assert!(result.iter().any(|m| m.path == "m.rs"));
}

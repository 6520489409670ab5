use hotspot_analyzer::AnalyzerError;
use hotspot_analyzer::FileMetrics;
use hotspot_analyzer::FileStats;

/// The presentation-side derivation of the three fractional quantities from
/// the exact integer components: main-contributor percentage, knowledge
/// distribution and hotspot score.
fn derived_fields(m: &FileMetrics) -> (f64, f64, f64) {
    let (pct, kd) = if m.total_commits > 0 {
        let pct = (m.max_author_commits as f64 / m.total_commits as f64) * 100.0;
        (pct, 1.0 - pct / 100.0)
    } else {
        (0.0, 0.0)
    };
    let score = m.revisions as f64 * (m.author_count as f64).sqrt() * kd;
    (pct, kd, score)
}

#[test]
fn test_file_stats_into_metrics() {
    let stats = FileStats {
        revisions: 10,
        authors: vec!["dev1".to_string(), "dev2".to_string()],
        author_commits: vec![("dev1".to_string(), 7), ("dev2".to_string(), 3)],
    };

    let metrics = stats.into_metrics("test.rs".to_string());

    assert_eq!(metrics.path, "test.rs");
    assert_eq!(metrics.revisions, 10);
    assert_eq!(metrics.author_count, 2);

    let (pct, kd, score) = derived_fields(&metrics);
    assert!((pct - 70.0).abs() < 0.001);
    assert!((kd - 0.3).abs() < 0.001);

    let expected_score = 10.0 * (2.0_f64).sqrt() * 0.3;
    assert!((score - expected_score).abs() < 0.001);
}

#[test]
fn test_empty_file_stats() {
    let stats = FileStats::default();
    let metrics = stats.into_metrics("empty.rs".to_string());

    assert_eq!(metrics.revisions, 0);
    assert_eq!(metrics.author_count, 0);
    let (pct, kd, score) = derived_fields(&metrics);
    assert_eq!(pct, 0.0);
    assert_eq!(kd, 0.0);
    assert_eq!(score, 0.0);
}

#[test]
fn test_file_stats_metrics_calculation() {
    let stats = FileStats {
        revisions: 10,
        authors: vec![
            "dev1".to_string(),
            "dev2".to_string(),
            "dev3".to_string(),
        ],
        author_commits: vec![
            ("dev1".to_string(), 5),
            ("dev2".to_string(), 3),
            ("dev3".to_string(), 2),
        ],
    };

    let metrics = stats.into_metrics("test_file.rs".to_string());

    assert_eq!(metrics.path, "test_file.rs");
    assert_eq!(metrics.revisions, 10);
    assert_eq!(metrics.author_count, 3);

    let (pct, kd, score) = derived_fields(&metrics);
    assert!((pct - 50.0).abs() < 0.001);
    assert!((kd - 0.5).abs() < 0.001);

    let complexity_factor = (3.0_f64).sqrt();
    let expected_score = 10.0 * complexity_factor * 0.5;
    assert!((score - expected_score).abs() < 0.001);
}

#[test]
fn test_file_stats_edge_cases() {
    let empty_stats = FileStats::default();
    let metrics = empty_stats.into_metrics("empty.rs".to_string());
    let (pct, kd, score) = derived_fields(&metrics);
    assert_eq!(score, 0.0);
    assert_eq!(kd, 0.0);
    assert_eq!(pct, 0.0);

    let single_author_stats = FileStats {
        revisions: 1,
        authors: vec!["dev1".to_string()],
        author_commits: vec![("dev1".to_string(), 1)],
    };
    let metrics = single_author_stats.into_metrics("single.rs".to_string());
    let (pct, kd, _score) = derived_fields(&metrics);
    assert_eq!(pct, 100.0);
    assert_eq!(kd, 0.0);

    let equal_stats = FileStats {
        revisions: 4,
        authors: vec!["dev1".to_string(), "dev2".to_string()],
        author_commits: vec![("dev1".to_string(), 2), ("dev2".to_string(), 2)],
    };
    let metrics = equal_stats.into_metrics("equal.rs".to_string());
    let (pct, kd, _score) = derived_fields(&metrics);
    assert_eq!(pct, 50.0);
    assert_eq!(kd, 0.5);
}

#[test]
fn single_author_scores_zero_for_any_revision_count() {
    // One author owns every commit, so the knowledge distribution and the
    // hotspot score are exactly zero, however many revisions there are.
    for n in [1u64, 2, 5, 100, 12345] {
        let stats = FileStats {
            revisions: n,
            authors: vec!["solo".to_string()],
            author_commits: vec![("solo".to_string(), n)],
        };
        let metrics = stats.into_metrics("file.rs".to_string());
        assert_eq!(metrics.max_author_commits, metrics.total_commits);
        let (pct, kd, score) = derived_fields(&metrics);
        assert_eq!(pct, 100.0);
        assert_eq!(kd, 0.0);
        assert_eq!(score, 0.0);
    }
}

#[test]
fn exact_components_of_seven_three_split() {
    let stats = FileStats {
        revisions: 10,
        authors: vec!["a".to_string(), "b".to_string()],
        author_commits: vec![("a".to_string(), 7), ("b".to_string(), 3)],
    };
    let metrics = stats.into_metrics("f.rs".to_string());
    assert_eq!(metrics.max_author_commits, 7);
    assert_eq!(metrics.total_commits, 10);
    let (_pct, _kd, score) = derived_fields(&metrics);
    assert!((score - 4.2426).abs() < 0.001);
}

#[test]
fn test_error_display() {
    let analyzer_error = AnalyzerError::GitError("test git error".to_string());
    assert_eq!(analyzer_error.message(), "Git error: test git error");

    let error = AnalyzerError::InvalidRepository;
    assert_eq!(error.message(), "Invalid repository path");

    let error = AnalyzerError::InvalidPattern("invalid regex".to_string());
    assert_eq!(error.message(), "Invalid pattern: invalid regex");

    let error = AnalyzerError::AnalysisError("analysis failed".to_string());
    assert_eq!(error.message(), "Analysis error: analysis failed");

    let error = AnalyzerError::TimestampError("invalid time".to_string());
    assert_eq!(error.message(), "Timestamp error: invalid time");

    let error = AnalyzerError::MetricsError("calculation error".to_string());
    assert_eq!(
        error.message(),
        "Metrics calculation error: calculation error"
    );
}

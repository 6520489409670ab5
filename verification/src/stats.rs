//! Per-file statistical aggregation and the exact components of the
//! hotspot score.
//!
//! The aggregate of a sequence of commit records is defined by the counting
//! functions [`revision_count`] and [`author_commit_count`]; the executable
//! code is proved to compute exactly those counts. The derived quantities of
//! one file — main-contributor percentage, knowledge distribution and
//! hotspot score — are fractions and a square root of the integer fields
//! kept here; turning them into floating-point numbers is presentation and
//! happens outside this crate's verified core.

use vstd::prelude::*;
use crate::git::CommitInfo;
use crate::git::touches;

verus! {

/// How many records of the sequence touch `path`: the file's revision
/// count, incremented once per commit touching the file.
pub open spec fn revision_count(records: Seq<CommitInfo>, path: Seq<char>) -> nat
    decreases records.len(),
{
    if records.len() == 0 {
        0
    } else {
        revision_count(records.drop_last(), path) + (if touches(records.last(), path) {
            1nat
        } else {
            0nat
        })
    }
}

/// How many records by `author` touch `path`.
pub open spec fn author_commit_count(
    records: Seq<CommitInfo>,
    path: Seq<char>,
    author: Seq<char>,
) -> nat
    decreases records.len(),
{
    if records.len() == 0 {
        0
    } else {
        author_commit_count(records.drop_last(), path, author) + (if touches(
            records.last(),
            path,
        ) && records.last().author@ == author {
            1nat
        } else {
            0nat
        })
    }
}

/// Whether some record by `author` touches `path`.
pub open spec fn author_touched(
    records: Seq<CommitInfo>,
    path: Seq<char>,
    author: Seq<char>,
) -> bool {
    exists|i: int|
        0 <= i < records.len() && touches(records[i], path) && records[i].author@ == author
}

/// Whether some record touches `path`.
pub open spec fn path_touched(records: Seq<CommitInfo>, path: Seq<char>) -> bool {
    exists|i: int| 0 <= i < records.len() && touches(records[i], path)
}

/// The sum of the per-author commit counts of one file.
pub open spec fn sum_counts(entries: Seq<(String, u64)>) -> int
    decreases entries.len(),
{
    if entries.len() == 0 {
        0
    } else {
        sum_counts(entries.drop_last()) + entries.last().1
    }
}

/// The largest per-author commit count of one file; 0 if there are no
/// authors.
pub open spec fn max_count(entries: Seq<(String, u64)>) -> int
    decreases entries.len(),
{
    if entries.len() == 0 {
        0
    } else if entries.last().1 >= max_count(entries.drop_last()) {
        entries.last().1 as int
    } else {
        max_count(entries.drop_last())
    }
}

/// Per-file accumulator: revision count, the distinct authors, and each
/// author's commit count for this file. `authors` and `author_commits` list
/// the same authors in the same order.
pub struct FileStats {
    /// How many counted commits touched the file.
    pub revisions: u64,
    /// The distinct author names, in order of first contribution.
    pub authors: Vec<String>,
    /// Each author's commit count for this file, keyed by author name.
    pub author_commits: Vec<(String, u64)>,
}

impl FileStats {
    /// The author names as character sequences.
    pub open spec fn author_views(self) -> Seq<Seq<char>> {
        self.authors@.map_values(|a: String| a@)
    }

    /// The accumulator is internally consistent: authors are distinct and
    /// the commit counts are keyed by exactly those authors.
    pub open spec fn wf(self) -> bool {
        &&& self.author_commits@.len() == self.authors@.len()
        &&& forall|k: int|
            0 <= k < self.authors@.len() ==> self.author_commits@[k].0@ == self.author_views()[k]
        &&& forall|k: int, l: int|
            0 <= k < l < self.authors@.len() ==> self.author_views()[k] != self.author_views()[l]
    }

    /// The accumulator is exactly the aggregate of `records` for `path`.
    pub open spec fn is_aggregate_of(self, records: Seq<CommitInfo>, path: Seq<char>) -> bool {
        &&& self.wf()
        &&& self.revisions == revision_count(records, path)
        &&& forall|k: int|
            0 <= k < self.authors@.len() ==> #[trigger] author_touched(
                records,
                path,
                self.author_views()[k],
            )
        &&& forall|i: int|
            0 <= i < records.len() && #[trigger] touches(records[i], path)
                ==> self.author_views().contains(records[i].author@)
        &&& forall|k: int|
            0 <= k < self.author_commits@.len() ==> #[trigger] self.author_commits@[k].1
                == author_commit_count(records, path, self.author_commits@[k].0@)
        &&& sum_counts(self.author_commits@) == self.revisions
    }
}

impl Default for FileStats {
    /// An empty accumulator: no revisions, no authors, no counts.
    fn default() -> (r: FileStats)
        ensures
            r.revisions == 0,
            r.authors@.len() == 0,
            r.author_commits@.len() == 0,
    {
        FileStats { revisions: 0, authors: Vec::new(), author_commits: Vec::new() }
    }
}

/// The final, immutable output record of one file, carrying the exact
/// integer components from which the derived quantities are computed: the
/// main-contributor percentage is `100 * max_author_commits /
/// total_commits`, the knowledge distribution is `(total_commits -
/// max_author_commits) / total_commits`, and the hotspot score is
/// `revisions * sqrt(author_count) * knowledge distribution` (all three are
/// 0 when `total_commits` is 0).
#[derive(Debug)]
pub struct FileMetrics {
    /// The repository-relative path of the file.
    pub path: String,
    /// How many counted commits touched the file.
    pub revisions: u64,
    /// How many distinct authors touched the file.
    pub author_count: u64,
    /// The commit count of the file's most active author.
    pub max_author_commits: u64,
    /// The total number of per-author commits, equal to the revision count
    /// whenever the stats were aggregated from records.
    pub total_commits: u64,
}

proof fn lemma_sum_take_succ(entries: Seq<(String, u64)>, k: int)
    requires
        0 <= k < entries.len(),
    ensures
        sum_counts(entries.take(k + 1)) == sum_counts(entries.take(k)) + entries[k].1,
{
    assert(entries.take(k + 1).drop_last() =~= entries.take(k));
    assert(entries.take(k + 1).last() == entries[k]);
}

proof fn lemma_max_take_succ(entries: Seq<(String, u64)>, k: int)
    requires
        0 <= k < entries.len(),
    ensures
        max_count(entries.take(k + 1)) == (if entries[k].1 >= max_count(entries.take(k)) {
            entries[k].1 as int
        } else {
            max_count(entries.take(k))
        }),
{
    assert(entries.take(k + 1).drop_last() =~= entries.take(k));
    assert(entries.take(k + 1).last() == entries[k]);
}

/// No author's commit count exceeds the total over all authors.
pub proof fn lemma_max_le_sum(entries: Seq<(String, u64)>)
    ensures
        0 <= max_count(entries),
        max_count(entries) <= sum_counts(entries),
    decreases entries.len(),
{
    if entries.len() > 0 {
        lemma_max_le_sum(entries.drop_last());
    }
}

/// With a single author, the main contributor owns every commit of the
/// file: the largest per-author count equals the total, so the
/// main-contributor percentage is exactly 100%, the knowledge distribution
/// is exactly 0, and the hotspot score is 0 — however many revisions the
/// file has.
pub proof fn lemma_single_author_owns_all(entries: Seq<(String, u64)>)
    requires
        entries.len() == 1,
    ensures
        max_count(entries) == sum_counts(entries),
{
    assert(entries.drop_last().len() == 0);
    assert(max_count(entries.drop_last()) == 0);
    assert(sum_counts(entries.drop_last()) == 0);
}

impl FileStats {
    /// Finalizes the accumulator of one file into its output record.
    ///
    /// Pure and total: every consistent accumulator, including the empty
    /// one, yields a record; the empty accumulator yields all-zero
    /// components.
    pub fn into_metrics(self, path: String) -> (m: FileMetrics)
        requires
            sum_counts(self.author_commits@) <= u64::MAX,
        ensures
            m.path == path,
            m.revisions == self.revisions,
            m.author_count == self.authors@.len(),
            m.total_commits == sum_counts(self.author_commits@),
            m.max_author_commits == max_count(self.author_commits@),
    {
        let ghost entries: Seq<(String, u64)> = self.author_commits@;
        let mut total: u64 = 0;
        let mut maxc: u64 = 0;
        let mut k: usize = 0;
        proof {
            assert(entries.take(0) =~= Seq::<(String, u64)>::empty());
        }
        while k < self.author_commits.len()
            invariant
                k <= entries.len(),
                entries == self.author_commits@,
                sum_counts(entries) <= u64::MAX,
                total == sum_counts(entries.take(k as int)),
                maxc == max_count(entries.take(k as int)),
            decreases entries.len() - k,
        {
            let c = self.author_commits[k].1;
            proof {
                lemma_sum_take_succ(entries, k as int);
                lemma_max_take_succ(entries, k as int);
                lemma_sum_take_le(entries, k as int + 1);
            }
            total = total + c;
            if c > maxc {
                maxc = c;
            }
            k = k + 1;
        }
        proof {
            assert(entries.take(entries.len() as int) =~= entries);
        }
        FileMetrics {
            path,
            revisions: self.revisions,
            author_count: self.authors.len() as u64,
            max_author_commits: maxc,
            total_commits: total,
        }
    }
}

proof fn lemma_sum_take_le(entries: Seq<(String, u64)>, k: int)
    requires
        0 <= k <= entries.len(),
    ensures
        sum_counts(entries.take(k)) <= sum_counts(entries),
    decreases entries.len() - k,
{
    if k < entries.len() {
        lemma_sum_take_succ(entries, k);
        lemma_sum_take_le(entries, k + 1);
    } else {
        assert(entries.take(k) =~= entries);
    }
}

proof fn lemma_sum_update(entries: Seq<(String, u64)>, k: int, e: (String, u64))
    requires
        0 <= k < entries.len(),
    ensures
        sum_counts(entries.update(k, e)) == sum_counts(entries) - entries[k].1 + e.1,
    decreases entries.len(),
{
    if k == entries.len() - 1 {
        assert(entries.update(k, e).drop_last() =~= entries.drop_last());
        assert(entries.update(k, e).last() == e);
    } else {
        lemma_sum_update(entries.drop_last(), k, e);
        assert(entries.update(k, e).drop_last() =~= entries.drop_last().update(k, e));
        assert(entries.update(k, e).last() == entries.last());
    }
}

proof fn lemma_sum_push(entries: Seq<(String, u64)>, e: (String, u64))
    ensures
        sum_counts(entries.push(e)) == sum_counts(entries) + e.1,
{
    assert(entries.push(e).drop_last() =~= entries);
    assert(entries.push(e).last() == e);
}

proof fn lemma_revision_count_step(records: Seq<CommitInfo>, i: int, path: Seq<char>)
    requires
        0 <= i < records.len(),
    ensures
        revision_count(records.take(i + 1), path) == revision_count(records.take(i), path) + (
        if touches(records[i], path) {
            1int
        } else {
            0int
        }),
{
    assert(records.take(i + 1).drop_last() =~= records.take(i));
    assert(records.take(i + 1).last() == records[i]);
}

proof fn lemma_author_commit_count_step(
    records: Seq<CommitInfo>,
    i: int,
    path: Seq<char>,
    author: Seq<char>,
)
    requires
        0 <= i < records.len(),
    ensures
        author_commit_count(records.take(i + 1), path, author) == author_commit_count(
            records.take(i),
            path,
            author,
        ) + (if touches(records[i], path) && records[i].author@ == author {
            1int
        } else {
            0int
        }),
{
    assert(records.take(i + 1).drop_last() =~= records.take(i));
    assert(records.take(i + 1).last() == records[i]);
}

proof fn lemma_author_touched_step(
    records: Seq<CommitInfo>,
    i: int,
    path: Seq<char>,
    author: Seq<char>,
)
    requires
        0 <= i < records.len(),
    ensures
        author_touched(records.take(i + 1), path, author) <==> (author_touched(
            records.take(i),
            path,
            author,
        ) || (touches(records[i], path) && records[i].author@ == author)),
{
    let t1 = records.take(i + 1);
    let t0 = records.take(i);
    if author_touched(t1, path, author) {
        let w = choose|w: int|
            0 <= w < t1.len() && touches(t1[w], path) && t1[w].author@ == author;
        if w < i {
            assert(t0[w] == t1[w]);
            assert(author_touched(t0, path, author));
        } else {
            assert(t1[w] == records[i]);
        }
    }
    if author_touched(t0, path, author) {
        let w = choose|w: int|
            0 <= w < t0.len() && touches(t0[w], path) && t0[w].author@ == author;
        assert(t1[w] == t0[w]);
        assert(author_touched(t1, path, author));
    }
    if touches(records[i], path) && records[i].author@ == author {
        assert(t1[i] == records[i]);
        assert(author_touched(t1, path, author));
    }
}

proof fn lemma_count_zero_if_untouched(records: Seq<CommitInfo>, path: Seq<char>, a: Seq<char>)
    requires
        !author_touched(records, path, a),
    ensures
        author_commit_count(records, path, a) == 0,
    decreases records.len(),
{
    if records.len() > 0 {
        let butlast = records.drop_last();
        assert(!author_touched(butlast, path, a)) by {
            if author_touched(butlast, path, a) {
                let w = choose|w: int|
                    0 <= w < butlast.len() && touches(butlast[w], path) && butlast[w].author@
                        == a;
                assert(records[w] == butlast[w]);
                assert(author_touched(records, path, a));
            }
        }
        if touches(records.last(), path) && records.last().author@ == a {
            assert(records[records.len() - 1] == records.last());
            assert(author_touched(records, path, a));
        }
        lemma_count_zero_if_untouched(butlast, path, a);
    }
}

/// Whether the record counts the path among its changed files.
fn record_touches(rec: &CommitInfo, path: &String) -> (r: bool)
    ensures
        r == touches(*rec, path@),
{
    let mut j: usize = 0;
    while j < rec.files.len()
        invariant
            j <= rec.files@.len(),
            forall|l: int| 0 <= l < j ==> rec.files@[l]@ != path@,
        decreases rec.files@.len() - j,
    {
        if rec.files[j].eq(path) {
            return true;
        }
        j = j + 1;
    }
    false
}

/// Finds the position of an author in the per-author commit list.
fn find_author(entries: &Vec<(String, u64)>, author: &String) -> (r: Option<usize>)
    ensures
        match r {
            Some(k) => k < entries@.len() && entries@[k as int].0@ == author@,
            None => forall|l: int| 0 <= l < entries@.len() ==> entries@[l].0@ != author@,
        },
{
    let mut k: usize = 0;
    while k < entries.len()
        invariant
            k <= entries@.len(),
            forall|l: int| 0 <= l < k ==> entries@[l].0@ != author@,
        decreases entries@.len() - k,
    {
        if entries[k].0.eq(author) {
            return Some(k);
        }
        k = k + 1;
    }
    None
}

/// Computes the exact aggregate of `records` for one path, in one pass over
/// the records: one revision per touching record, one per-author count
/// bumped per touching record.
pub fn stats_for_path(records: &Vec<CommitInfo>, path: &String) -> (st: FileStats)
    ensures
        st.is_aggregate_of(records@, path@),
        st.revisions <= records@.len(),
{
    let mut st = FileStats { revisions: 0, authors: Vec::new(), author_commits: Vec::new() };
    let mut i: usize = 0;
    proof {
        assert(records@.take(0) =~= Seq::<CommitInfo>::empty());
    }
    while i < records.len()
        invariant
            i <= records@.len(),
            st.is_aggregate_of(records@.take(i as int), path@),
            st.revisions <= i,
            forall|k: int|
                0 <= k < st.author_commits@.len() ==> #[trigger] st.author_commits@[k].1
                    <= st.revisions,
        decreases records@.len() - i,
    {
        let ghost prefix: Seq<CommitInfo> = records@.take(i as int);
        let ghost extended: Seq<CommitInfo> = records@.take(i as int + 1);
        let ghost entries0: Seq<(String, u64)> = st.author_commits@;
        let ghost views0: Seq<Seq<char>> = st.author_views();
        let rec = &records[i];
        let hit = record_touches(rec, path);
        proof {
            lemma_revision_count_step(records@, i as int, path@);
            assert forall|a: Seq<char>| true implies author_commit_count(extended, path@, a)
                == author_commit_count(prefix, path@, a) + (if touches(records@[i as int], path@)
                && records@[i as int].author@ == a {
                1int
            } else {
                0int
            }) by {
                lemma_author_commit_count_step(records@, i as int, path@, a);
            }
            assert forall|a: Seq<char>| true implies (author_touched(extended, path@, a) <==> (
            author_touched(prefix, path@, a) || (touches(records@[i as int], path@)
                && records@[i as int].author@ == a))) by {
                lemma_author_touched_step(records@, i as int, path@, a);
            }
            assert forall|j: int| 0 <= j < extended.len() implies extended[j] == records@[j] by {}
        }
        if hit {
            st.revisions = st.revisions + 1;
            match find_author(&st.author_commits, &rec.author) {
                Some(k) => {
                    let ghost old_entries: Seq<(String, u64)> = st.author_commits@;
                    let c = st.author_commits[k].1;
                    let name = st.author_commits[k].0.clone();
                    proof {
                        lemma_sum_update(old_entries, k as int, (name, (c + 1) as u64));
                    }
                    st.author_commits.set(k, (name, c + 1));
                    proof {
                        let new_entries = st.author_commits@;
                        assert(st.author_views() == views0);
                        assert(views0[k as int] == entries0[k as int].0@);
                        assert(views0[k as int] == rec.author@);
                        assert(views0.contains(rec.author@));
                        assert forall|l: int| 0 <= l < new_entries.len() implies #[trigger] new_entries[l].1
                            == author_commit_count(extended, path@, new_entries[l].0@) by {
                            if l == k {
                                assert(new_entries[l].0@ == rec.author@);
                            } else {
                                assert(new_entries[l] == entries0[l]);
                                assert(entries0[l].0@ == views0[l]);
                                assert(views0[l] != views0[k as int]);
                            }
                        }
                    }
                },
                None => {
                    let ghost old_entries: Seq<(String, u64)> = st.author_commits@;
                    let ghost old_views: Seq<Seq<char>> = st.author_views();
                    st.authors.push(rec.author.clone());
                    st.author_commits.push((rec.author.clone(), 1));
                    proof {
                        let new_entries = st.author_commits@;
                        let new_views = st.author_views();
                        assert(new_entries.drop_last() =~= old_entries);
                        assert(sum_counts(new_entries) == sum_counts(old_entries) + 1);
                        assert(new_views =~= old_views.push(rec.author@));
                        // the new author was not seen before
                        assert forall|l: int| 0 <= l < old_views.len() implies old_views[l]
                            != rec.author@ by {
                            assert(old_entries[l].0@ == old_views[l]);
                        }
                        assert(!author_touched(prefix, path@, rec.author@)) by {
                            if author_touched(prefix, path@, rec.author@) {
                                let w = choose|w: int|
                                    0 <= w < prefix.len() && touches(prefix[w], path@)
                                        && prefix[w].author@ == rec.author@;
                                assert(old_views.contains(prefix[w].author@));
                            }
                        }
                        lemma_count_zero_if_untouched(prefix, path@, rec.author@);
                        // membership: everything old is kept, the new author is last
                        assert(new_views[new_views.len() - 1] == rec.author@);
                        assert(new_views.contains(rec.author@));
                        assert forall|x: Seq<char>| old_views.contains(x) implies new_views.contains(
                            x,
                        ) by {
                            let w = choose|w: int| 0 <= w < old_views.len() && old_views[w] == x;
                            assert(new_views[w] == x);
                        }
                        // each count matches the extended prefix
                        assert forall|l: int| 0 <= l < new_entries.len() implies #[trigger] new_entries[l].1
                            == author_commit_count(extended, path@, new_entries[l].0@) by {
                            if l < new_entries.len() - 1 {
                                assert(new_entries[l] == old_entries[l]);
                                assert(old_entries[l].0@ != rec.author@);
                            } else {
                                assert(new_entries[l].0@ == rec.author@);
                                assert(new_entries[l].1 == 1);
                            }
                        }
                    }
                },
            }
        }
        proof {
            assert forall|ii: int|
                0 <= ii < extended.len() && #[trigger] touches(extended[ii], path@) implies st.author_views().contains(
                extended[ii].author@,
            ) by {
                if ii < extended.len() - 1 {
                    assert(extended[ii] == prefix[ii]);
                    assert(touches(prefix[ii], path@));
                }
            }
            assert(st.is_aggregate_of(extended, path@));
        }
        i = i + 1;
    }
    proof {
        assert(records@.take(records@.len() as int) =~= records@);
    }
    st
}

proof fn lemma_touched_revision_positive(records: Seq<CommitInfo>, path: Seq<char>)
    requires
        path_touched(records, path),
    ensures
        revision_count(records, path) >= 1,
    decreases records.len(),
{
    let w = choose|i: int| 0 <= i < records.len() && touches(records[i], path);
    if w == records.len() - 1 {
        assert(touches(records.last(), path));
    } else {
        let butlast = records.drop_last();
        assert(butlast[w] == records[w]);
        assert(path_touched(butlast, path));
        lemma_touched_revision_positive(butlast, path);
    }
}

/// A path that some record touches has at least one revision and at least
/// one author in its aggregate.
pub proof fn lemma_touched_aggregate_nonempty(
    records: Seq<CommitInfo>,
    path: Seq<char>,
    st: FileStats,
)
    requires
        st.is_aggregate_of(records, path),
        path_touched(records, path),
    ensures
        st.revisions >= 1,
        st.authors@.len() >= 1,
{
    lemma_touched_revision_positive(records, path);
    let w = choose|i: int| 0 <= i < records.len() && touches(records[i], path);
    assert(touches(records[w], path));
    assert(st.author_views().contains(records[w].author@));
    let v = choose|v: int|
        0 <= v < st.author_views().len() && st.author_views()[v] == records[w].author@;
    assert(st.author_views().len() >= 1);
}

/// Whether `p` is among the views of `paths`.
pub open spec fn contains_view(paths: Seq<String>, p: Seq<char>) -> bool {
    exists|k: int| 0 <= k < paths.len() && paths[k]@ == p
}

/// Whether the entry list has an entry keyed by `p`.
pub open spec fn has_entry(entries: Seq<(String, FileStats)>, p: Seq<char>) -> bool {
    exists|k: int| 0 <= k < entries.len() && entries[k].0@ == p
}

fn vec_contains_view(paths: &Vec<String>, p: &String) -> (r: bool)
    ensures
        r == contains_view(paths@, p@),
{
    let mut k: usize = 0;
    while k < paths.len()
        invariant
            k <= paths@.len(),
            forall|l: int| 0 <= l < k ==> paths@[l]@ != p@,
        decreases paths@.len() - k,
    {
        if paths[k].eq(p) {
            assert(paths@[k as int]@ == p@);
            return true;
        }
        k = k + 1;
    }
    false
}

/// Collects the distinct paths that any record touches, in order of first
/// appearance.
fn collect_paths(records: &Vec<CommitInfo>) -> (paths: Vec<String>)
    ensures
        forall|k: int, l: int| 0 <= k < l < paths@.len() ==> paths@[k]@ != paths@[l]@,
        forall|k: int| 0 <= k < paths@.len() ==> #[trigger] path_touched(records@, paths@[k]@),
        forall|i: int, j: int|
            0 <= i < records@.len() && 0 <= j < records@[i].files@.len() ==> contains_view(
                paths@,
                records@[i].files@[j]@,
            ),
{
    let mut paths: Vec<String> = Vec::new();
    let mut i: usize = 0;
    while i < records.len()
        invariant
            i <= records@.len(),
            forall|k: int, l: int| 0 <= k < l < paths@.len() ==> paths@[k]@ != paths@[l]@,
            forall|k: int| 0 <= k < paths@.len() ==> #[trigger] path_touched(records@, paths@[k]@),
            forall|ii: int, j: int|
                0 <= ii < i && 0 <= j < records@[ii].files@.len() ==> contains_view(
                    paths@,
                    records@[ii].files@[j]@,
                ),
        decreases records@.len() - i,
    {
        let rec = &records[i];
        let mut j: usize = 0;
        while j < rec.files.len()
            invariant
                i < records@.len(),
                j <= rec.files@.len(),
                rec == &records@[i as int],
                forall|k: int, l: int| 0 <= k < l < paths@.len() ==> paths@[k]@ != paths@[l]@,
                forall|k: int|
                    0 <= k < paths@.len() ==> #[trigger] path_touched(records@, paths@[k]@),
                forall|ii: int, jj: int|
                    0 <= ii < i && 0 <= jj < records@[ii].files@.len() ==> contains_view(
                        paths@,
                        records@[ii].files@[jj]@,
                    ),
                forall|jj: int|
                    0 <= jj < j ==> contains_view(paths@, records@[i as int].files@[jj]@),
            decreases rec.files@.len() - j,
        {
            let file = &rec.files[j];
            if !vec_contains_view(&paths, file) {
                let ghost old_paths: Seq<String> = paths@;
                paths.push(file.clone());
                proof {
                    assert(paths@[paths@.len() - 1]@ == file@);
                    assert(touches(records@[i as int], file@));
                    assert(path_touched(records@, file@));
                    assert forall|x: Seq<char>| contains_view(old_paths, x) implies contains_view(
                        paths@,
                        x,
                    ) by {
                        let w = choose|w: int| 0 <= w < old_paths.len() && old_paths[w]@ == x;
                        assert(paths@[w]@ == x);
                    }
                }
            }
            proof {
                assert(contains_view(paths@, records@[i as int].files@[j as int]@));
            }
            j = j + 1;
        }
        i = i + 1;
    }
    paths
}

/// Folds a sequence of commit records into the per-file aggregates: one
/// entry per distinct touched path, each entry carrying exactly that path's
/// revision count, distinct authors, and per-author commit counts.
pub fn fold_records(records: &Vec<CommitInfo>) -> (r: Vec<(String, FileStats)>)
    ensures
        forall|k: int, l: int| 0 <= k < l < r@.len() ==> r@[k].0@ != r@[l].0@,
        forall|k: int|
            0 <= k < r@.len() ==> (#[trigger] r@[k].1).is_aggregate_of(records@, r@[k].0@),
        forall|k: int| 0 <= k < r@.len() ==> #[trigger] path_touched(records@, r@[k].0@),
        forall|k: int| 0 <= k < r@.len() ==> (#[trigger] r@[k].1).revisions <= records@.len(),
        forall|i: int, j: int|
            0 <= i < records@.len() && 0 <= j < records@[i].files@.len() ==> has_entry(
                r@,
                records@[i].files@[j]@,
            ),
{
    let paths = collect_paths(records);
    let mut r: Vec<(String, FileStats)> = Vec::new();
    let mut k: usize = 0;
    while k < paths.len()
        invariant
            k <= paths@.len(),
            r@.len() == k,
            forall|k1: int, l: int| 0 <= k1 < l < paths@.len() ==> paths@[k1]@ != paths@[l]@,
            forall|k1: int|
                0 <= k1 < paths@.len() ==> #[trigger] path_touched(records@, paths@[k1]@),
            forall|i: int, j: int|
                0 <= i < records@.len() && 0 <= j < records@[i].files@.len() ==> contains_view(
                    paths@,
                    records@[i].files@[j]@,
                ),
            forall|l: int| 0 <= l < k ==> r@[l].0@ == paths@[l]@,
            forall|l: int|
                0 <= l < k ==> (#[trigger] r@[l].1).is_aggregate_of(records@, r@[l].0@),
            forall|l: int| 0 <= l < k ==> (#[trigger] r@[l].1).revisions <= records@.len(),
        decreases paths@.len() - k,
    {
        let path = paths[k].clone();
        let st = stats_for_path(records, &path);
        r.push((path, st));
        k = k + 1;
    }
    proof {
        assert forall|k1: int, l: int| 0 <= k1 < l < r@.len() implies r@[k1].0@ != r@[l].0@ by {
            assert(r@[k1].0@ == paths@[k1]@);
            assert(r@[l].0@ == paths@[l]@);
        }
        assert forall|k1: int| 0 <= k1 < r@.len() implies path_touched(records@, r@[k1].0@) by {
            assert(r@[k1].0@ == paths@[k1]@);
            assert(path_touched(records@, paths@[k1]@));
        }
        assert forall|i: int, j: int|
            0 <= i < records@.len() && 0 <= j < records@[i].files@.len() implies has_entry(
            r@,
            records@[i].files@[j]@,
        ) by {
            let x = records@[i].files@[j]@;
            assert(contains_view(paths@, x));
            let w = choose|w: int| 0 <= w < paths@.len() && paths@[w]@ == x;
            assert(r@[w].0@ == x);
        }
    }
    r
}

} // verus!

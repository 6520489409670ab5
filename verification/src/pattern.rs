//! Glob-to-matcher compilation and file-path filtering.
//!
//! A glob pattern is translated into an anchored regex: `*` matches a run of
//! characters within one path segment, `**/` crosses segment boundaries, `?`
//! matches one arbitrary character, and every other character matches
//! literally (escaped where the regex engine would read it specially).

use vstd::prelude::*;
use vstd::string::{StrSliceExecFns, StringExecFns};
use crate::error::AnalyzerError;

verus! {

/// Relies on `String::push`: appends the given character to the end of the
/// string.
pub assume_specification[ String::push ](s: &mut String, c: char)
    ensures
        final(s)@ == old(s)@.push(c),
;

/// The characters that the regex engine reads specially and that must be
/// escaped with a backslash to be matched literally.
pub open spec fn is_meta(c: char) -> bool {
    ||| c == '\\'
    ||| c == '.'
    ||| c == '+'
    ||| c == '*'
    ||| c == '?'
    ||| c == '('
    ||| c == ')'
    ||| c == '|'
    ||| c == '['
    ||| c == ']'
    ||| c == '{'
    ||| c == '}'
    ||| c == '^'
    ||| c == '$'
    ||| c == '#'
    ||| c == '&'
    ||| c == '-'
    ||| c == '~'
}

/// The regex text that matches one pattern character literally.
pub open spec fn escaped_char(c: char) -> Seq<char> {
    if is_meta(c) {
        seq!['\\', c]
    } else {
        seq![c]
    }
}

/// The regex text for the body of a glob pattern (everything between the
/// anchors): `**/` becomes `.*/`, a bare `**` becomes `.*`, a single `*`
/// becomes `[^/]*`, `?` becomes `.`, and any other character is matched
/// literally.
pub open spec fn glob_body(p: Seq<char>) -> Seq<char>
    decreases p.len(),
{
    if p.len() == 0 {
        Seq::empty()
    } else if p[0] == '*' {
        if p.len() >= 2 && p[1] == '*' {
            if p.len() >= 3 && p[2] == '/' {
                seq!['.', '*', '/'] + glob_body(p.skip(3))
            } else {
                seq!['.', '*'] + glob_body(p.skip(2))
            }
        } else {
            seq!['[', '^', '/', ']', '*'] + glob_body(p.skip(1))
        }
    } else if p[0] == '?' {
        seq!['.'] + glob_body(p.skip(1))
    } else {
        escaped_char(p[0]) + glob_body(p.skip(1))
    }
}

/// The full regex text compiled from a glob pattern, anchored at both ends.
pub open spec fn glob_regex(p: Seq<char>) -> Seq<char> {
    seq!['^'] + glob_body(p) + seq!['$']
}

proof fn lemma_skip_skip(s: Seq<char>, a: int, b: int)
    requires
        0 <= a,
        0 <= b,
        a + b <= s.len(),
    ensures
        s.skip(a).skip(b) == s.skip(a + b),
{
    assert(s.skip(a).skip(b) =~= s.skip(a + b));
}

/// Whether the regex engine reads this character specially.
fn is_meta_char(c: char) -> (r: bool)
    ensures
        r == is_meta(c),
{
    c == '\\' || c == '.' || c == '+' || c == '*' || c == '?' || c == '(' || c == ')'
        || c == '|' || c == '[' || c == ']' || c == '{' || c == '}' || c == '^' || c == '$'
        || c == '#' || c == '&' || c == '-' || c == '~'
}

/// Translates a glob pattern into the text of an anchored regex.
pub fn glob_to_regex(pattern: &str) -> (r: String)
    ensures
        r@ == glob_regex(pattern@),
{
    let ghost p: Seq<char> = pattern@;
    let n: usize = pattern.unicode_len();
    let mut out = String::new();
    out.push('^');
    proof {
        assert(out@ =~= seq!['^']);
        assert(p.skip(0) =~= p);
    }
    let mut i: usize = 0;
    while i < n
        invariant
            i <= n,
            n == p.len(),
            p == pattern@,
            out@ + glob_body(p.skip(i as int)) == seq!['^'] + glob_body(p),
        decreases n - i,
    {
        let ghost prev: Seq<char> = out@;
        let ghost rest: Seq<char> = p.skip(i as int);
        let c = pattern.get_char(i);
        assert(rest[0] == c);
        if c == '*' {
            let two = i + 1 < n && pattern.get_char(i + 1) == '*';
            if two {
                assert(rest[1] == '*');
                let slash = i + 2 < n && pattern.get_char(i + 2) == '/';
                if slash {
                    assert(rest[2] == '/');
                    out.push('.');
                    out.push('*');
                    out.push('/');
                    proof {
                        lemma_skip_skip(p, i as int, 3);
                        assert(out@ =~= prev + seq!['.', '*', '/']);
                        assert(glob_body(rest) == seq!['.', '*', '/'] + glob_body(
                            p.skip(i + 3),
                        ));
                        assert(out@ + glob_body(p.skip(i + 3)) =~= prev + glob_body(rest));
                    }
                    i = i + 3;
                } else {
                    assert(rest.len() < 3 || rest[2] != '/');
                    out.push('.');
                    out.push('*');
                    proof {
                        lemma_skip_skip(p, i as int, 2);
                        assert(out@ =~= prev + seq!['.', '*']);
                        assert(glob_body(rest) == seq!['.', '*'] + glob_body(p.skip(i + 2)));
                        assert(out@ + glob_body(p.skip(i + 2)) =~= prev + glob_body(rest));
                    }
                    i = i + 2;
                }
            } else {
                assert(rest.len() < 2 || rest[1] != '*');
                out.push('[');
                out.push('^');
                out.push('/');
                out.push(']');
                out.push('*');
                proof {
                    lemma_skip_skip(p, i as int, 1);
                    assert(out@ =~= prev + seq!['[', '^', '/', ']', '*']);
                    assert(glob_body(rest) == seq!['[', '^', '/', ']', '*'] + glob_body(
                        p.skip(i + 1),
                    ));
                    assert(out@ + glob_body(p.skip(i + 1)) =~= prev + glob_body(rest));
                }
                i = i + 1;
            }
        } else if c == '?' {
            out.push('.');
            proof {
                lemma_skip_skip(p, i as int, 1);
                assert(out@ =~= prev + seq!['.']);
                assert(glob_body(rest) == seq!['.'] + glob_body(p.skip(i + 1)));
                assert(out@ + glob_body(p.skip(i + 1)) =~= prev + glob_body(rest));
            }
            i = i + 1;
        } else if is_meta_char(c) {
            out.push('\\');
            out.push(c);
            proof {
                lemma_skip_skip(p, i as int, 1);
                assert(out@ =~= prev + seq!['\\', c]);
                assert(glob_body(rest) == escaped_char(c) + glob_body(p.skip(i + 1)));
                assert(out@ + glob_body(p.skip(i + 1)) =~= prev + glob_body(rest));
            }
            i = i + 1;
        } else {
            out.push(c);
            proof {
                lemma_skip_skip(p, i as int, 1);
                assert(out@ =~= prev + seq![c]);
                assert(glob_body(rest) == escaped_char(c) + glob_body(p.skip(i + 1)));
                assert(out@ + glob_body(p.skip(i + 1)) =~= prev + glob_body(rest));
            }
            i = i + 1;
        }
    }
    proof {
        assert(p.skip(n as int) =~= Seq::<char>::empty());
        assert(out@ =~= seq!['^'] + glob_body(p));
    }
    out.push('$');
    proof {
        assert(out@ =~= seq!['^'] + glob_body(p) + seq!['$']);
    }
    out
}

/// Whether the regex engine accepts this text as a valid pattern.
pub uninterp spec fn re_valid(pattern: Seq<char>) -> bool;

/// Whether a valid regex pattern matches a text.
pub uninterp spec fn re_match(pattern: Seq<char>, text: Seq<char>) -> bool;

/// Relies on `regex::Regex::new`: whether a pattern compiles depends on the
/// pattern text alone; on failure the engine's error text is returned.
#[verifier::external_body]
fn regex_compile_ok(pattern: &str) -> (r: Result<(), String>)
    ensures
        r is Ok <==> re_valid(pattern@),
{
    match regex::Regex::new(pattern) {
        Ok(_) => Ok(()),
        Err(e) => Err(e.to_string()),
    }
}

/// Relies on `regex::Regex::new` and `regex::Regex::is_match`: whether a
/// valid pattern matches a text depends on the pattern and the text alone.
#[verifier::external_body]
fn regex_text_match(pattern: &str, text: &str) -> (r: bool)
    requires
        re_valid(pattern@),
    ensures
        r == re_match(pattern@, text@),
{
    match regex::Regex::new(pattern) {
        Ok(re) => re.is_match(text),
        Err(_) => false,
    }
}

/// One compiled matcher, derived from one glob string. Invariant: it matches
/// full repository-relative paths, anchored at both ends — a pattern matches
/// iff the entire path satisfies it, not a substring.
pub struct PathPattern {
    source: String,
}

impl PathPattern {
    /// The text of the regex this matcher runs.
    pub closed spec fn regex_chars(self) -> Seq<char> {
        self.source@
    }

    #[verifier::type_invariant]
    spec fn source_is_valid(self) -> bool {
        re_valid(self.source@)
    }

    /// Builds a matcher directly from regex text; the text must be a valid
    /// pattern for the engine.
    pub fn from_regex_source(source: String) -> (r: Result<PathPattern, AnalyzerError>)
        ensures
            r matches Ok(pat) ==> pat.regex_chars() == source@,
            r is Ok <==> re_valid(source@),
            r matches Err(e) ==> e is InvalidPattern,
    {
        match regex_compile_ok(source.as_str()) {
            Ok(()) => Ok(PathPattern { source }),
            Err(m) => Err(AnalyzerError::InvalidPattern(m)),
        }
    }

    /// Compiles one glob string into a matcher.
    pub fn compile(glob: &str) -> (r: Result<PathPattern, AnalyzerError>)
        ensures
            r matches Ok(pat) ==> pat.regex_chars() == glob_regex(glob@),
            r is Ok <==> re_valid(glob_regex(glob@)),
            r matches Err(e) ==> e is InvalidPattern,
    {
        let source = glob_to_regex(glob);
        PathPattern::from_regex_source(source)
    }

    /// Whether the whole path matches this pattern.
    pub fn is_match(&self, path: &str) -> (r: bool)
        ensures
            r == re_match(self.regex_chars(), path@),
    {
        proof {
            use_type_invariant(&*self);
        }
        regex_text_match(self.source.as_str(), path)
    }
}

/// Whether some pattern in the list matches the path.
pub open spec fn any_match(pats: Seq<Seq<char>>, path: Seq<char>) -> bool {
    exists|k: int| 0 <= k < pats.len() && re_match(pats[k], path)
}

/// Whether a path is part of the analysis: no exclude pattern may match, and,
/// unless the include list is empty, some include pattern must match.
/// Exclusion is authoritative, and an empty include list matches everything.
pub open spec fn should_include_spec(
    inc: Seq<Seq<char>>,
    exc: Seq<Seq<char>>,
    path: Seq<char>,
) -> bool {
    &&& !any_match(exc, path)
    &&& (inc.len() == 0 || any_match(inc, path))
}

/// The regex texts of a list of matchers.
pub open spec fn regex_chars_of(pats: Seq<PathPattern>) -> Seq<Seq<char>> {
    pats.map_values(|pat: PathPattern| pat.regex_chars())
}

/// The regex texts that a list of glob strings compiles to.
pub open spec fn glob_regexes_of(globs: Seq<String>) -> Seq<Seq<char>> {
    globs.map_values(|g: String| glob_regex(g@))
}

/// Compiles each glob of a list, stopping at the first invalid one.
fn compile_globs(globs: &Vec<String>) -> (r: Result<Vec<PathPattern>, AnalyzerError>)
    ensures
        r matches Ok(pats) ==> regex_chars_of(pats@) == glob_regexes_of(globs@),
        r is Ok <==> (forall|k: int|
            0 <= k < globs@.len() ==> re_valid(glob_regex(globs@[k]@))),
        r matches Err(e) ==> e is InvalidPattern,
{
    let mut pats: Vec<PathPattern> = Vec::new();
    let mut k: usize = 0;
    while k < globs.len()
        invariant
            k <= globs@.len(),
            pats@.len() == k,
            forall|j: int| 0 <= j < k ==> pats@[j].regex_chars() == glob_regex(globs@[j]@),
            forall|j: int| 0 <= j < k ==> re_valid(glob_regex(globs@[j]@)),
        decreases globs@.len() - k,
    {
        match PathPattern::compile(globs[k].as_str()) {
            Ok(pat) => pats.push(pat),
            Err(e) => {
                return Err(e);
            },
        }
        k = k + 1;
    }
    proof {
        assert(regex_chars_of(pats@) =~= glob_regexes_of(globs@));
    }
    Ok(pats)
}

/// The two ordered pattern collections of one analysis: `include` and
/// `exclude`. Exclusion is evaluated first and is authoritative; an empty
/// include collection means "match everything".
pub struct PatternSet {
    includes: Vec<PathPattern>,
    excludes: Vec<PathPattern>,
}

impl PatternSet {
    /// The regex texts of the include patterns.
    pub closed spec fn include_srcs(self) -> Seq<Seq<char>> {
        regex_chars_of(self.includes@)
    }

    /// The regex texts of the exclude patterns.
    pub closed spec fn exclude_srcs(self) -> Seq<Seq<char>> {
        regex_chars_of(self.excludes@)
    }

    /// Compiles the include and exclude glob lists; a failure among the
    /// include globs is reported before one among the exclude globs.
    pub fn new(include_globs: &Vec<String>, exclude_globs: &Vec<String>) -> (r: Result<
        PatternSet,
        AnalyzerError,
    >)
        ensures
            r matches Ok(ps) ==> ps.include_srcs() == glob_regexes_of(include_globs@)
                && ps.exclude_srcs() == glob_regexes_of(exclude_globs@),
            r is Ok <==> (forall|k: int|
                0 <= k < include_globs@.len() ==> re_valid(glob_regex(include_globs@[k]@)))
                && (forall|k: int|
                0 <= k < exclude_globs@.len() ==> re_valid(glob_regex(exclude_globs@[k]@))),
            r matches Err(e) ==> e is InvalidPattern,
    {
        let includes = match compile_globs(include_globs) {
            Ok(pats) => pats,
            Err(e) => {
                return Err(e);
            },
        };
        let excludes = match compile_globs(exclude_globs) {
            Ok(pats) => pats,
            Err(e) => {
                return Err(e);
            },
        };
        Ok(PatternSet { includes, excludes })
    }

    /// Builds a pattern set from already-translated regex texts.
    pub fn from_regexes(include_srcs: &Vec<String>, exclude_srcs: &Vec<String>) -> (r: Result<
        PatternSet,
        AnalyzerError,
    >)
        ensures
            r matches Ok(ps) ==> ps.include_srcs() == include_srcs@.map_values(|s: String| s@)
                && ps.exclude_srcs() == exclude_srcs@.map_values(|s: String| s@),
            r is Ok <==> (forall|k: int|
                0 <= k < include_srcs@.len() ==> re_valid(#[trigger] include_srcs@[k]@)) && (
            forall|k: int| 0 <= k < exclude_srcs@.len() ==> re_valid(#[trigger] exclude_srcs@[k]@)),
            r matches Err(e) ==> e is InvalidPattern,
    {
        let includes = match Self::from_regex_list(include_srcs) {
            Ok(pats) => pats,
            Err(e) => {
                return Err(e);
            },
        };
        let excludes = match Self::from_regex_list(exclude_srcs) {
            Ok(pats) => pats,
            Err(e) => {
                return Err(e);
            },
        };
        Ok(PatternSet { includes, excludes })
    }

    fn from_regex_list(srcs: &Vec<String>) -> (r: Result<Vec<PathPattern>, AnalyzerError>)
        ensures
            r matches Ok(pats) ==> regex_chars_of(pats@) == srcs@.map_values(|s: String| s@),
            r is Ok <==> (forall|k: int| 0 <= k < srcs@.len() ==> re_valid(#[trigger] srcs@[k]@)),
            r matches Err(e) ==> e is InvalidPattern,
    {
        let mut pats: Vec<PathPattern> = Vec::new();
        let mut k: usize = 0;
        while k < srcs.len()
            invariant
                k <= srcs@.len(),
                pats@.len() == k,
                forall|j: int| 0 <= j < k ==> pats@[j].regex_chars() == srcs@[j]@,
                forall|j: int| 0 <= j < k ==> re_valid(#[trigger] srcs@[j]@),
            decreases srcs@.len() - k,
        {
            match PathPattern::from_regex_source(srcs[k].clone()) {
                Ok(pat) => pats.push(pat),
                Err(e) => {
                    return Err(e);
                },
            }
            k = k + 1;
        }
        proof {
            assert(regex_chars_of(pats@) =~= srcs@.map_values(|s: String| s@));
        }
        Ok(pats)
    }

    /// Whether a path is part of the analysis under this pattern set.
    pub fn should_include_file(&self, file_path: &str) -> (r: bool)
        ensures
            r == should_include_spec(self.include_srcs(), self.exclude_srcs(), file_path@),
    {
        let mut k: usize = 0;
        while k < self.excludes.len()
            invariant
                k <= self.excludes@.len(),
                forall|j: int| 0 <= j < k ==> !re_match(self.exclude_srcs()[j], file_path@),
            decreases self.excludes@.len() - k,
        {
            if self.excludes[k].is_match(file_path) {
                proof {
                    assert(self.exclude_srcs()[k as int] == self.excludes@[k as int].regex_chars());
                    assert(re_match(self.exclude_srcs()[k as int], file_path@));
                }
                return false;
            }
            k = k + 1;
        }
        if self.includes.len() == 0 {
            return true;
        }
        let mut k: usize = 0;
        while k < self.includes.len()
            invariant
                k <= self.includes@.len(),
                forall|j: int| 0 <= j < k ==> !re_match(self.include_srcs()[j], file_path@),
                !any_match(self.exclude_srcs(), file_path@),
            decreases self.includes@.len() - k,
        {
            if self.includes[k].is_match(file_path) {
                proof {
                    assert(self.include_srcs()[k as int] == self.includes@[k as int].regex_chars());
                    assert(re_match(self.include_srcs()[k as int], file_path@));
                }
                return true;
            }
            k = k + 1;
        }
        false
    }
}

/// The compiled form of every glob is anchored: it begins with `^` and ends
/// with `$`, so the matcher can only accept an entire path, never a proper
/// substring of one.
pub proof fn lemma_glob_regex_anchored(p: Seq<char>)
    ensures
        glob_regex(p).len() >= 2,
        glob_regex(p).first() == '^',
        glob_regex(p).last() == '$',
{
}

/// Exclude patterns always win: a path matched by any exclude pattern is
/// rejected, regardless of the include patterns.
pub proof fn lemma_exclude_wins(
    inc: Seq<Seq<char>>,
    exc: Seq<Seq<char>>,
    path: Seq<char>,
    k: int,
)
    requires
        0 <= k < exc.len(),
        re_match(exc[k], path),
    ensures
        !should_include_spec(inc, exc, path),
{
}

/// An empty include collection matches everything: a path that no exclude
/// pattern matches is always part of the analysis.
pub proof fn lemma_empty_include_accepts(exc: Seq<Seq<char>>, path: Seq<char>)
    requires
        !any_match(exc, path),
    ensures
        should_include_spec(Seq::empty(), exc, path),
{
}

} // verus!

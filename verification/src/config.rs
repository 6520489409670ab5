//! Selection of the pattern lists for one invocation.

use vstd::prelude::*;
use vstd::string::StringExecFns;

verus! {

/// The default include patterns: common source-code files.
pub open spec fn default_include_views() -> Seq<Seq<char>> {
    seq![
        "**/*.rs"@,
        "**/*.go"@,
        "**/*.js"@,
        "**/*.ts"@,
        "**/*.py"@,
        "**/*.java"@,
        "**/*.cpp"@,
        "**/*.hpp"@,
        "**/*.c"@,
        "**/*.h"@,
    ]
}

/// The default exclude patterns: build outputs, dependency directories and
/// test directories.
pub open spec fn default_exclude_views() -> Seq<Seq<char>> {
    seq![
        "**/target/**/*"@,
        "**/node_modules/**/*"@,
        "**/dist/**/*"@,
        "**/build/**/*"@,
        "**/.git/**/*"@,
        "**/vendor/**/*"@,
        "**/*.min.*"@,
        "**/test/**/*"@,
        "**/tests/**/*"@,
        "test/**/*"@,
        "tests/**/*"@,
    ]
}

/// Builds the default include pattern list.
pub fn default_include_patterns() -> (r: Vec<String>)
    ensures
        r@.map_values(|s: String| s@) == default_include_views(),
{
    let mut v: Vec<String> = Vec::new();
    v.push(String::from_str("**/*.rs"));
    v.push(String::from_str("**/*.go"));
    v.push(String::from_str("**/*.js"));
    v.push(String::from_str("**/*.ts"));
    v.push(String::from_str("**/*.py"));
    v.push(String::from_str("**/*.java"));
    v.push(String::from_str("**/*.cpp"));
    v.push(String::from_str("**/*.hpp"));
    v.push(String::from_str("**/*.c"));
    v.push(String::from_str("**/*.h"));
    proof {
        assert(v@.map_values(|s: String| s@) =~= default_include_views());
    }
    v
}

/// Builds the default exclude pattern list.
pub fn default_exclude_patterns() -> (r: Vec<String>)
    ensures
        r@.map_values(|s: String| s@) == default_exclude_views(),
{
    let mut v: Vec<String> = Vec::new();
    v.push(String::from_str("**/target/**/*"));
    v.push(String::from_str("**/node_modules/**/*"));
    v.push(String::from_str("**/dist/**/*"));
    v.push(String::from_str("**/build/**/*"));
    v.push(String::from_str("**/.git/**/*"));
    v.push(String::from_str("**/vendor/**/*"));
    v.push(String::from_str("**/*.min.*"));
    v.push(String::from_str("**/test/**/*"));
    v.push(String::from_str("**/tests/**/*"));
    v.push(String::from_str("test/**/*"));
    v.push(String::from_str("tests/**/*"));
    proof {
        assert(v@.map_values(|s: String| s@) =~= default_exclude_views());
    }
    v
}

/// The pattern-selection options of one invocation, as they arrive from a
/// command line: optional user pattern lists, and the flags that suppress
/// the built-in defaults.
pub struct Cli {
    pub include_patterns: Option<Vec<String>>,
    pub exclude_patterns: Option<Vec<String>>,
    pub no_default_includes: bool,
    pub no_default_excludes: bool,
}

/// The include globs of one run: the defaults (unless suppressed) followed
/// by the user's own patterns.
pub open spec fn include_selection(c: Cli) -> Seq<Seq<char>> {
    (if c.no_default_includes {
        Seq::empty()
    } else {
        default_include_views()
    }) + (match c.include_patterns {
        Some(v) => v@.map_values(|s: String| s@),
        None => Seq::empty(),
    })
}

/// The exclude globs of one run: the defaults (unless suppressed) followed
/// by the user's own patterns.
pub open spec fn exclude_selection(c: Cli) -> Seq<Seq<char>> {
    (if c.no_default_excludes {
        Seq::empty()
    } else {
        default_exclude_views()
    }) + (match c.exclude_patterns {
        Some(v) => v@.map_values(|s: String| s@),
        None => Seq::empty(),
    })
}

impl Cli {
    /// The include globs of this invocation.
    pub fn get_include_patterns(&self) -> (r: Vec<String>)
        ensures
            r@.map_values(|s: String| s@) == include_selection(*self),
    {
        let mut patterns: Vec<String> = if self.no_default_includes {
            Vec::new()
        } else {
            default_include_patterns()
        };
        let ghost base: Seq<Seq<char>> = patterns@.map_values(|s: String| s@);
        if let Some(user) = &self.include_patterns {
            let mut k: usize = 0;
            while k < user.len()
                invariant
                    k <= user@.len(),
                    patterns@.map_values(|s: String| s@) == base + user@.take(
                        k as int,
                    ).map_values(|s: String| s@),
                decreases user@.len() - k,
            {
                let ghost before: Seq<String> = patterns@;
                patterns.push(user[k].clone());
                proof {
                    assert(patterns@.map_values(|s: String| s@) =~= before.map_values(
                        |s: String| s@,
                    ).push(user@[k as int]@));
                    assert(base + user@.take(k as int + 1).map_values(|s: String| s@) =~= (base
                        + user@.take(k as int).map_values(|s: String| s@)).push(
                        user@[k as int]@,
                    ));
                }
                k = k + 1;
            }
            proof {
                assert(user@.take(user@.len() as int) =~= user@);
                assert(patterns@.map_values(|s: String| s@) =~= include_selection(*self));
            }
        } else {
            proof {
                assert(patterns@.map_values(|s: String| s@) =~= include_selection(*self));
            }
        }
        patterns
    }

    /// The exclude globs of this invocation.
    pub fn get_exclude_patterns(&self) -> (r: Vec<String>)
        ensures
            r@.map_values(|s: String| s@) == exclude_selection(*self),
    {
        let mut patterns: Vec<String> = if self.no_default_excludes {
            Vec::new()
        } else {
            default_exclude_patterns()
        };
        let ghost base: Seq<Seq<char>> = patterns@.map_values(|s: String| s@);
        if let Some(user) = &self.exclude_patterns {
            let mut k: usize = 0;
            while k < user.len()
                invariant
                    k <= user@.len(),
                    patterns@.map_values(|s: String| s@) == base + user@.take(
                        k as int,
                    ).map_values(|s: String| s@),
                decreases user@.len() - k,
            {
                let ghost before: Seq<String> = patterns@;
                patterns.push(user[k].clone());
                proof {
                    assert(patterns@.map_values(|s: String| s@) =~= before.map_values(
                        |s: String| s@,
                    ).push(user@[k as int]@));
                    assert(base + user@.take(k as int + 1).map_values(|s: String| s@) =~= (base
                        + user@.take(k as int).map_values(|s: String| s@)).push(
                        user@[k as int]@,
                    ));
                }
                k = k + 1;
            }
            proof {
                assert(user@.take(user@.len() as int) =~= user@);
                assert(patterns@.map_values(|s: String| s@) =~= exclude_selection(*self));
            }
        } else {
            proof {
                assert(patterns@.map_values(|s: String| s@) =~= exclude_selection(*self));
            }
        }
        patterns
    }
}

} // verus!

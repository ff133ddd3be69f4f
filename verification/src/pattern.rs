//! Exclude patterns: shell-style globs, compiled and matched by the `glob`
//! crate.

use vstd::prelude::*;

verus! {

/// Whether `glob::Pattern::new` accepts the pattern text.
pub uninterp spec fn pattern_compiles(pattern: Seq<char>) -> bool;

/// Whether the compiled pattern matches `text` under `glob::Pattern::matches`.
pub uninterp spec fn pattern_accepts(pattern: Seq<char>, text: Seq<char>) -> bool;

/// Calls `glob::Pattern::new` and hands back the message of its error, or
/// `None` where the pattern compiles. The contract names the outcome; of the
/// message it says nothing.
#[verifier::external_body]
pub(crate) fn pattern_problem(pattern: &str) -> (out: Option<String>)
    ensures
        out is None <==> pattern_compiles(pattern@),
{
    match glob::Pattern::new(pattern) {
        Ok(_) => None,
        Err(e) => Some(e.to_string()),
    }
}

/// Compiles the pattern with `glob::Pattern::new` and applies
/// `glob::Pattern::matches` to `text`. A pattern that does not compile
/// matches nothing. The contract names the outcome of the match.
#[verifier::external_body]
pub(crate) fn pattern_matches(pattern: &str, text: &str) -> (r: bool)
    ensures
        r == (pattern_compiles(pattern@) && pattern_accepts(pattern@, text@)),
{
    match glob::Pattern::new(pattern) {
        Ok(p) => p.matches(text),
        Err(_) => false,
    }
}

/// Whether one of `patterns` matches `path`.
pub open spec fn excluded_by(patterns: Seq<String>, path: Seq<char>) -> bool {
    exists|k: int|
        0 <= k < patterns.len() && pattern_compiles((#[trigger] patterns[k])@) && pattern_accepts(
            patterns[k]@,
            path,
        )
}

/// Whether one of `patterns` matches `path`.
pub fn is_excluded(patterns: &Vec<String>, path: &str) -> (r: bool)
    ensures
        r == excluded_by(patterns@, path@),
{
    let mut i: usize = 0;
    while i < patterns.len()
        invariant
            i <= patterns.len(),
            forall|k: int|
                0 <= k < i ==> !(pattern_compiles((#[trigger] patterns@[k])@) && pattern_accepts(
                    patterns@[k]@,
                    path@,
                )),
        decreases patterns.len() - i,
    {
        if pattern_matches(patterns[i].as_str(), path) {
            return true;
        }
        i += 1;
    }
    false
}

/// Position of the first of `patterns` that does not compile, or the
/// number of patterns where all do.
pub open spec fn first_invalid(patterns: Seq<String>) -> int
    decreases patterns.len(),
{
    if patterns.len() == 0 {
        0
    } else if first_invalid(patterns.drop_last()) < patterns.len() - 1 {
        first_invalid(patterns.drop_last())
    } else if pattern_compiles(patterns.last()@) {
        patterns.len() as int
    } else {
        patterns.len() - 1
    }
}

/// All patterns before the first invalid one compile, and it does not.
pub proof fn lemma_first_invalid(patterns: Seq<String>)
    ensures
        0 <= first_invalid(patterns) <= patterns.len(),
        forall|k: int| 0 <= k < first_invalid(patterns) ==> pattern_compiles((#[trigger] patterns[k])@),
        first_invalid(patterns) < patterns.len() ==> !pattern_compiles(
            patterns[first_invalid(patterns)]@,
        ),
    decreases patterns.len(),
{
    if patterns.len() > 0 {
        lemma_first_invalid(patterns.drop_last());
        assert forall|k: int| 0 <= k < first_invalid(patterns) implies pattern_compiles(
            (#[trigger] patterns[k])@,
        ) by {
            if k < patterns.len() - 1 {
                assert(patterns.drop_last()[k] == patterns[k]);
            }
        }
        if first_invalid(patterns) < patterns.len() - 1 {
            assert(patterns.drop_last()[first_invalid(patterns)] == patterns[first_invalid(
                patterns,
            )]);
        }
    }
}

/// Checks that every pattern compiles. Gives the position of the first one
/// that does not, with the message of the `glob` crate.
pub fn check_patterns(patterns: &Vec<String>) -> (out: Result<(), (usize, String)>)
    ensures
        out is Ok <==> first_invalid(patterns@) == patterns@.len(),
        out matches Err(e) ==> e.0 == first_invalid(patterns@),
{
    let mut i: usize = 0;
    proof {
        lemma_first_invalid(patterns@);
    }
    while i < patterns.len()
        invariant
            i <= patterns.len(),
            i <= first_invalid(patterns@) <= patterns@.len(),
            forall|k: int|
                0 <= k < first_invalid(patterns@) ==> pattern_compiles((#[trigger] patterns@[k])@),
            first_invalid(patterns@) < patterns@.len() ==> !pattern_compiles(
                patterns@[first_invalid(patterns@)]@,
            ),
        decreases patterns.len() - i,
    {
        match pattern_problem(patterns[i].as_str()) {
            Some(message) => {
                return Err((i, message));
            },
            None => {},
        }
        i += 1;
    }
    Ok(())
}

} // verus!

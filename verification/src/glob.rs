//! Matching a host alias against a glob pattern.
//!
//! A pattern goes to one of two matchers of the same crate. The single
//! matcher is the one of choice, and it panics where the regular expression
//! of a pattern cannot be built; so it gets the patterns that are small
//! enough to be sure of. Every other pattern goes to the set matcher, which
//! reports such a failure as an error.

use vstd::prelude::*;
use vstd::std_specs::iter::IteratorSpec;

verus! {

/// The longest pattern, in characters, that is handed to the single matcher.
pub const LENGTH_LIMIT: usize = 4096;

/// The largest number of opening braces in a pattern that is handed to the
/// single matcher.
pub const NESTING_LIMIT: usize = 80;

/// The longest pattern with a character of special meaning, in characters,
/// that is handed to the set matcher.
pub const SEARCH_LIMIT: usize = 0x1000_0000;

/// The number of opening braces in `pattern`.
pub open spec fn braces(pattern: Seq<char>) -> nat
    decreases pattern.len(),
{
    if pattern.len() == 0 {
        0
    } else {
        braces(pattern.drop_last()) + if pattern.last() == '{' {
            1nat
        } else {
            0nat
        }
    }
}

/// Whether `pattern` goes to the single matcher: it is no longer than
/// `LENGTH_LIMIT` and holds no more than `NESTING_LIMIT` opening braces.
pub open spec fn compilable(pattern: Seq<char>) -> bool {
    pattern.len() <= LENGTH_LIMIT && braces(pattern) <= NESTING_LIMIT
}

/// Whether `c` has a special meaning in a glob, inside or outside braces and
/// brackets.
pub open spec fn is_special(c: char) -> bool {
    c == '*' || c == '?' || c == '[' || c == ']' || c == '{' || c == '}' || c == ',' || c == '\\'
}

/// Whether `pattern` holds no character of special meaning, so that it
/// stands for itself.
pub open spec fn plain(pattern: Seq<char>) -> bool {
    forall|i: int| 0 <= i < pattern.len() ==> !is_special(#[trigger] pattern[i])
}

/// Whether `candidate` holds no backslash, which some platforms read as a
/// path separator.
pub open spec fn no_backslash(candidate: Seq<char>) -> bool {
    forall|i: int| 0 <= i < candidate.len() ==> #[trigger] candidate[i] != '\\'
}

/// Whether the set matcher can take `pattern`: it is plain, or no longer than
/// `SEARCH_LIMIT`.
pub open spec fn searchable(pattern: Seq<char>) -> bool {
    plain(pattern) || pattern.len() <= SEARCH_LIMIT
}

/// What the single matcher gives for `candidate` and the glob `pattern` on
/// the platform that the library is built for: `None` where `pattern` is no
/// valid glob, else whether `candidate` matches it.
pub uninterp spec fn glob_outcome(candidate: Seq<char>, pattern: Seq<char>) -> Option<bool>;

/// What the set matcher gives for `candidate` and a set of the one glob
/// `pattern` on the platform that the library is built for: `None` where
/// `pattern` is no valid glob or the set cannot be built, else whether
/// `candidate` matches.
pub uninterp spec fn set_outcome(candidate: Seq<char>, pattern: Seq<char>) -> Option<bool>;

/// `globset::Glob::new`, then `Glob::compile_matcher` and
/// `GlobMatcher::is_match` on the glob it gave, all with the crate's default
/// options. The result depends on the two texts alone and is known by the
/// name `glob_outcome`. Two facts are claimed of it. The pattern `*` stands
/// for zero or more characters of any kind, so every candidate matches it.
/// And a pattern without a character of special meaning is a valid glob that
/// stands for itself: a candidate matches it where the two are the same
/// text. (A candidate with a backslash is left out, as a platform that reads
/// the backslash as a path separator rewrites it before matching.)
///
/// `compile_matcher` turns the glob into a regular expression and panics
/// where that cannot be built, which has two causes. The expression may nest
/// no deeper than 250 levels: only a brace of the glob opens levels, three of
/// them, beside at most five for what stands outside and inside all braces,
/// so 80 braces stay within. And its automaton may take no more than 10 MiB:
/// each character of the glob costs a few states of 32 bytes, so 4096
/// characters stay below a tenth of that.
#[verifier::external_body]
fn glob_match(candidate: &str, pattern: &str) -> (outcome: Option<bool>)
    requires
        compilable(pattern@),
    ensures
        outcome == glob_outcome(candidate@, pattern@),
        pattern@ == seq!['*'] ==> outcome == Some(true),
        plain(pattern@) && no_backslash(candidate@) ==> outcome == Some(candidate@ == pattern@),
{
    match globset::Glob::new(pattern) {
        Ok(glob) => Some(glob.compile_matcher().is_match(candidate)),
        Err(_) => None,
    }
}

/// `globset::Glob::new`, then `GlobSetBuilder::new`, `GlobSetBuilder::add`
/// and `GlobSetBuilder::build` with the glob it gave, and `GlobSet::is_match`
/// on the set, all with the crate's default options. The result depends on
/// the two texts alone and is known by the name `set_outcome`. One fact is
/// claimed of it: a pattern without a character of special meaning is a
/// valid glob that the set looks up as it stands, so a candidate without a
/// backslash matches it where the two are the same text.
///
/// `build` hands a regular expression that cannot be built back as an
/// error. It panics in one place only: where the glob is a fixed text before
/// or after a `*`, it builds a search automaton for that text, whose states,
/// about one for each byte, are numbered below 2^31. A pattern of 2^28
/// characters has no more than 2^30 bytes. A plain pattern has no `*`.
#[verifier::external_body]
fn set_match(candidate: &str, pattern: &str) -> (outcome: Option<bool>)
    requires
        searchable(pattern@),
    ensures
        outcome == set_outcome(candidate@, pattern@),
        plain(pattern@) && no_backslash(candidate@) ==> outcome == Some(candidate@ == pattern@),
{
    match globset::Glob::new(pattern) {
        Ok(glob) => match globset::GlobSetBuilder::new().add(glob).build() {
            Ok(set) => Some(set.is_match(candidate)),
            Err(_) => None,
        },
        Err(_) => None,
    }
}

/// Whether the outcome of a match counts as a match: a pattern that is no
/// valid glob matches nothing.
pub open spec fn accepts(outcome: Option<bool>) -> bool {
    outcome == Some(true)
}

/// What the matchers give for `candidate` and `pattern`: the answer of the
/// single matcher for a pattern that goes to it, else that of the set
/// matcher; `None` for a pattern that neither can take.
pub open spec fn matcher_outcome(candidate: Seq<char>, pattern: Seq<char>) -> Option<bool> {
    if compilable(pattern) {
        glob_outcome(candidate, pattern)
    } else if searchable(pattern) {
        set_outcome(candidate, pattern)
    } else {
        None
    }
}

/// Whether `candidate` matches the glob `pattern`. Every candidate matches
/// `*`. A candidate without a backslash matches a plain pattern where the two
/// are the same text. In every other case the matchers decide.
pub open spec fn host_matches(candidate: Seq<char>, pattern: Seq<char>) -> bool {
    if pattern == seq!['*'] {
        true
    } else if plain(pattern) && no_backslash(candidate) {
        candidate == pattern
    } else {
        accepts(matcher_outcome(candidate, pattern))
    }
}

/// Whether the outcome of a match counts as a match.
pub fn accepted(outcome: Option<bool>) -> (b: bool)
    ensures
        b == accepts(outcome),
{
    match outcome {
        Some(matched) => matched,
        None => false,
    }
}

/// A text holds at least as many opening braces as any of its beginnings.
pub proof fn lemma_braces_grow(pattern: Seq<char>, i: int)
    requires
        0 <= i <= pattern.len(),
    ensures
        braces(pattern.take(i)) <= braces(pattern),
    decreases pattern.len(),
{
    if i == pattern.len() {
        assert(pattern.take(i) =~= pattern);
    } else {
        lemma_braces_grow(pattern.drop_last(), i);
        assert(pattern.drop_last().take(i) =~= pattern.take(i));
    }
}

/// Whether `pattern` goes to the single matcher.
pub fn is_compilable(pattern: &str) -> (b: bool)
    ensures
        b == compilable(pattern@),
{
    let mut length: usize = 0;
    let mut opened: usize = 0;
    for c in it: pattern.chars()
        invariant
            length == it.index(),
            it.seq() == pattern@,
            length <= LENGTH_LIMIT,
            opened == braces(pattern@.take(length as int)),
            opened <= NESTING_LIMIT,
    {
        proof {
            assert(pattern@.take(length + 1).drop_last() =~= pattern@.take(length as int));
        }
        if length == LENGTH_LIMIT {
            return false;
        }
        length += 1;
        if c == '{' {
            if opened == NESTING_LIMIT {
                proof {
                    lemma_braces_grow(pattern@, length as int);
                }
                return false;
            }
            opened += 1;
        }
    }
    proof {
        assert(pattern@.take(pattern@.len() as int) =~= pattern@);
    }
    true
}

/// Whether `c` has a special meaning in a glob.
pub fn is_special_char(c: char) -> (b: bool)
    ensures
        b == is_special(c),
{
    c == '*' || c == '?' || c == '[' || c == ']' || c == '{' || c == '}' || c == ',' || c == '\\'
}

/// Whether the set matcher can take `pattern`.
pub fn is_searchable(pattern: &str) -> (b: bool)
    ensures
        b == searchable(pattern@),
{
    let mut length: usize = 0;
    let mut all_plain = true;
    for c in it: pattern.chars()
        invariant
            it.seq() == pattern@,
            all_plain == plain(pattern@.take(it.index() as int)),
            length == if it.index() <= SEARCH_LIMIT {
                it.index() as int
            } else {
                SEARCH_LIMIT + 1
            },
    {
        let ghost seen = pattern@.take(it.index() as int);
        let ghost more = pattern@.take(it.index() + 1);
        proof {
            assert(more[it.index() as int] == c);
            if plain(more) {
                assert forall|i: int| 0 <= i < seen.len() implies !is_special(
                    #[trigger] seen[i],
                ) by {
                    assert(seen[i] == more[i]);
                }
            }
            if plain(seen) && !is_special(c) {
                assert forall|i: int| 0 <= i < more.len() implies !is_special(
                    #[trigger] more[i],
                ) by {
                    if i < seen.len() {
                        assert(seen[i] == more[i]);
                    }
                }
            }
        }
        if is_special_char(c) {
            all_plain = false;
        }
        if length <= SEARCH_LIMIT {
            length += 1;
        }
    }
    proof {
        assert(pattern@.take(pattern@.len() as int) =~= pattern@);
    }
    all_plain || length <= SEARCH_LIMIT
}

/// The pattern `*` goes to the single matcher, and it is not plain.
proof fn lemma_star()
    ensures
        compilable(seq!['*']),
        !plain(seq!['*']),
{
    assert(seq!['*'].drop_last() =~= Seq::<char>::empty());
    assert(braces(seq!['*']) == 0) by {
        reveal_with_fuel(braces, 2);
    }
    assert(is_special(seq!['*'][0]));
}

/// Whether `candidate` matches the glob `glob_pattern`. The result is the
/// answer of the matcher that the pattern goes to; a pattern that is no valid
/// glob, or that its matcher cannot build, matches nothing.
pub fn check_host_against_glob_pattern(candidate: &str, glob_pattern: &str) -> (b: bool)
    ensures
        b == host_matches(candidate@, glob_pattern@),
        b == accepts(matcher_outcome(candidate@, glob_pattern@)),
        matcher_outcome(candidate@, glob_pattern@) is None ==> !b,
{
    proof {
        lemma_star();
    }
    if is_compilable(glob_pattern) {
        accepted(glob_match(candidate, glob_pattern))
    } else if is_searchable(glob_pattern) {
        accepted(set_match(candidate, glob_pattern))
    } else {
        false
    }
}

} // verus!

//! Search patterns: telling glob patterns from free text, and turning each
//! into the argument that the store's query takes.

use vstd::prelude::*;
use vstd::string::*;

verus! {

/// The two ways a pattern is matched against the recorded paths.
#[derive(Clone, Copy, Debug, PartialEq, Eq, Structural)]
pub enum SearchMode {
    /// Wildcard matching on the whole path, ordered by path.
    Glob,
    /// Token matching in the text index, ordered by relevance.
    FreeText,
}

/// A search that is ready to run: the mode, the argument of the query, and
/// the most results that are wanted.
#[derive(Debug)]
pub struct SearchPlan {
    pub mode: SearchMode,
    pub argument: String,
    pub limit: usize,
}

/// The number of results returned when the caller names no limit.
pub const DEFAULT_LIMIT: usize = 1000;

/// Whether `c` is one of the two glob wildcards.
pub open spec fn is_wildcard(c: char) -> bool {
    c == '*' || c == '?'
}

/// A pattern is a glob pattern when a wildcard occurs anywhere in it.
pub open spec fn is_glob_spec(pattern: Seq<char>) -> bool {
    exists|i: int| 0 <= i < pattern.len() && is_wildcard(#[trigger] pattern[i])
}

/// The mode in which a pattern is searched.
pub open spec fn mode_of(pattern: Seq<char>) -> SearchMode {
    if is_glob_spec(pattern) {
        SearchMode::Glob
    } else {
        SearchMode::FreeText
    }
}

/// What a single character of a glob pattern becomes in a LIKE pattern:
/// `*` matches any run of characters, `?` any one character.
pub open spec fn like_char(c: char) -> char {
    if c == '*' {
        '%'
    } else if c == '?' {
        '_'
    } else {
        c
    }
}

/// The LIKE pattern of a glob pattern: each character translated on its own.
pub open spec fn like_pattern_spec(pattern: Seq<char>) -> Seq<char> {
    Seq::new(pattern.len(), |i: int| like_char(pattern[i]))
}

/// The text-index expression of a free-text pattern: the pattern as a quoted
/// phrase whose last token may be continued.
pub open spec fn text_expression_spec(pattern: Seq<char>) -> Seq<char> {
    seq!['"'] + pattern + seq!['"', '*']
}

/// The argument handed to the store for `pattern`, by its mode.
pub open spec fn search_argument_spec(pattern: Seq<char>) -> Seq<char> {
    if is_glob_spec(pattern) {
        like_pattern_spec(pattern)
    } else {
        text_expression_spec(pattern)
    }
}

/// The limit in force: the caller's, or the default where none is given.
pub open spec fn effective_limit_spec(limit: Option<usize>) -> usize {
    match limit {
        Some(n) => n,
        None => DEFAULT_LIMIT,
    }
}

/// A LIKE pattern is as long as the glob pattern it was made from, holds no
/// glob wildcard, and agrees with the glob pattern wherever that holds none.
pub proof fn like_pattern_replaces_wildcards(pattern: Seq<char>)
    ensures
        like_pattern_spec(pattern).len() == pattern.len(),
        !is_glob_spec(like_pattern_spec(pattern)),
        forall|i: int|
            0 <= i < pattern.len() && !is_wildcard(pattern[i]) ==> #[trigger] like_pattern_spec(
                pattern,
            )[i] == pattern[i],
        forall|i: int|
            0 <= i < pattern.len() && pattern[i] == '*' ==> #[trigger] like_pattern_spec(
                pattern,
            )[i] == '%',
        forall|i: int|
            0 <= i < pattern.len() && pattern[i] == '?' ==> #[trigger] like_pattern_spec(
                pattern,
            )[i] == '_',
{
}

/// A pattern without a wildcard is its own LIKE pattern.
pub proof fn like_pattern_of_plain_text(pattern: Seq<char>)
    requires
        !is_glob_spec(pattern),
    ensures
        like_pattern_spec(pattern) == pattern,
{
    assert(like_pattern_spec(pattern) =~= pattern);
}

/// Decides whether `pattern` holds a glob wildcard.
pub fn is_glob(pattern: &str) -> (r: bool)
    ensures
        r == is_glob_spec(pattern@),
{
    let n: usize = pattern.unicode_len();
    let mut i: usize = 0;
    while i < n
        invariant
            n == pattern@.len(),
            i <= n,
            forall|j: int| 0 <= j < i ==> !is_wildcard(#[trigger] pattern@[j]),
        decreases n - i,
    {
        let c = pattern.get_char(i);
        if c == '*' || c == '?' {
            return true;
        }
        i += 1;
    }
    false
}

/// Classifies `pattern` as glob or free text.
pub fn classify(pattern: &str) -> (r: SearchMode)
    ensures
        r == mode_of(pattern@),
{
    if is_glob(pattern) {
        SearchMode::Glob
    } else {
        SearchMode::FreeText
    }
}

/// Translates a glob pattern into a LIKE pattern.
pub fn like_pattern(pattern: &str) -> (r: String)
    ensures
        r@ == like_pattern_spec(pattern@),
{
    let n: usize = pattern.unicode_len();
    let mut out = String::new();
    let mut i: usize = 0;
    while i < n
        invariant
            n == pattern@.len(),
            i <= n,
            out@ == like_pattern_spec(pattern@.subrange(0, i as int)),
        decreases n - i,
    {
        let c = pattern.get_char(i);
        let ghost before = out@;
        if c == '*' {
            proof {
                reveal_strlit("%");
            }
            out.append("%");
            assert(out@ =~= before.push('%'));
        } else if c == '?' {
            proof {
                reveal_strlit("_");
            }
            out.append("_");
            assert(out@ =~= before.push('_'));
        } else {
            out.append(pattern.substring_char(i, i + 1));
            assert(out@ =~= before.push(c));
        }
        assert(out@ =~= like_pattern_spec(pattern@.subrange(0, i + 1)));
        i += 1;
    }
    assert(pattern@.subrange(0, n as int) =~= pattern@);
    out
}

/// Wraps a free-text pattern as a text-index expression. The pattern is
/// taken as it is: a quote inside it is the caller's to avoid.
pub fn text_expression(pattern: &str) -> (r: String)
    ensures
        r@ == text_expression_spec(pattern@),
{
    proof {
        reveal_strlit("\"");
        reveal_strlit("\"*");
    }
    let mut out = String::from_str("\"");
    out.append(pattern);
    out.append("\"*");
    assert(out@ =~= text_expression_spec(pattern@));
    out
}

/// Plans the search for `pattern`: a glob search where the pattern holds a
/// wildcard, a free-text search where it holds none.
pub fn plan_search(pattern: &str, limit: Option<usize>) -> (plan: SearchPlan)
    ensures
        plan.mode == mode_of(pattern@),
        plan.argument@ == search_argument_spec(pattern@),
        plan.limit == effective_limit_spec(limit),
{
    let mode = classify(pattern);
    let argument = match mode {
        SearchMode::Glob => like_pattern(pattern),
        SearchMode::FreeText => text_expression(pattern),
    };
    SearchPlan { mode, argument, limit: effective_limit(limit) }
}

/// The limit in force for a search.
pub fn effective_limit(limit: Option<usize>) -> (r: usize)
    ensures
        r == effective_limit_spec(limit),
{
    match limit {
        Some(n) => n,
        None => DEFAULT_LIMIT,
    }
}

} // verus!

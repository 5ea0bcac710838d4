//! Patterns over text: wildcard patterns and regular expressions.
//!
//! A pattern is held as its text. The matching itself is done by the
//! `wildmatch` and `regex` crates, each time from that text.

use vstd::prelude::*;

verus! {

/// Whether the wildcard `pattern` matches the whole of `input`: `?` stands
/// for exactly one character, `*` for any number of characters (none
/// included), every other character for itself. No character escapes another.
pub open spec fn wildcard_match(pattern: Seq<char>, input: Seq<char>) -> bool
    decreases pattern.len(), input.len(),
{
    if pattern.len() == 0 {
        input.len() == 0
    } else if pattern[0] == '*' {
        wildcard_match(pattern.skip(1), input) || (input.len() > 0 && wildcard_match(
            pattern,
            input.skip(1),
        ))
    } else if input.len() > 0 && (pattern[0] == '?' || pattern[0] == input[0]) {
        wildcard_match(pattern.skip(1), input.skip(1))
    } else {
        false
    }
}

/// `pattern` with every run of `*` shortened to a single `*`.
pub open spec fn collapse_stars(pattern: Seq<char>) -> Seq<char>
    decreases pattern.len(),
{
    if pattern.len() < 2 {
        pattern
    } else if pattern[0] == '*' && pattern[1] == '*' {
        collapse_stars(pattern.skip(1))
    } else {
        seq![pattern[0]] + collapse_stars(pattern.skip(1))
    }
}

/// A `*` in front of a pattern that begins with `*` changes nothing.
proof fn lemma_second_star_is_idle(pattern: Seq<char>, input: Seq<char>)
    requires
        pattern.len() > 0,
        pattern[0] == '*',
    ensures
        wildcard_match(seq!['*'] + pattern, input) == wildcard_match(pattern, input),
    decreases input.len(),
{
    let doubled = seq!['*'] + pattern;
    assert(doubled.skip(1) =~= pattern);
    if input.len() > 0 {
        lemma_second_star_is_idle(pattern, input.skip(1));
    }
}

/// Two patterns that match the same inputs still do so behind the same
/// first character.
proof fn lemma_same_behind_first(first: char, one: Seq<char>, other: Seq<char>, input: Seq<char>)
    requires
        forall|any: Seq<char>| wildcard_match(one, any) == wildcard_match(other, any),
    ensures
        wildcard_match(seq![first] + one, input) == wildcard_match(seq![first] + other, input),
    decreases input.len(),
{
    assert((seq![first] + one).skip(1) =~= one);
    assert((seq![first] + other).skip(1) =~= other);
    assert(wildcard_match(one, input) == wildcard_match(other, input));
    if input.len() > 0 {
        assert(wildcard_match(one, input.skip(1)) == wildcard_match(other, input.skip(1)));
        lemma_same_behind_first(first, one, other, input.skip(1));
    }
}

/// Shortening the runs of `*` in a pattern does not change what it matches.
pub proof fn lemma_collapse_keeps_matches(pattern: Seq<char>, input: Seq<char>)
    ensures
        wildcard_match(collapse_stars(pattern), input) == wildcard_match(pattern, input),
    decreases pattern.len(),
{
    if pattern.len() >= 2 {
        let rest = pattern.skip(1);
        assert(pattern =~= seq![pattern[0]] + rest);
        if pattern[0] == '*' && pattern[1] == '*' {
            lemma_collapse_keeps_matches(rest, input);
            lemma_second_star_is_idle(rest, input);
        } else {
            assert forall|any: Seq<char>|
                wildcard_match(collapse_stars(rest), any) == wildcard_match(rest, any) by {
                lemma_collapse_keeps_matches(rest, any);
            }
            lemma_same_behind_first(pattern[0], collapse_stars(rest), rest, input);
        }
    }
}

/// Whether the wildcard `pattern` matches the whole of `input` when the case
/// of letters does not count: what `wildmatch::WildMatch::matches` answers
/// for a matcher made by `WildMatch::new_case_insensitive`.
pub uninterp spec fn wildcard_match_ignoring_case(pattern: Seq<char>, input: Seq<char>) -> bool;

/// Whether `regex::Regex::new` accepts `pattern`.
pub uninterp spec fn regex_compiles(pattern: Seq<char>) -> bool;

/// Whether the regular expression compiled from `pattern` has a match
/// somewhere in `haystack`: whether `regex::Regex::captures` finds one.
pub uninterp spec fn regex_finds(pattern: Seq<char>, haystack: Seq<char>) -> bool;

/// Builds a `wildmatch::WildMatch` from `pattern` and asks it for its pattern
/// (`WildMatch::new`, `WildMatch::pattern`). Trusted: the matcher keeps the
/// pattern it was given but for runs of `*`, which it shortens to one `*`.
#[verifier::external_body]
fn wildmatch_pattern(pattern: &str) -> (kept: String)
    ensures
        kept@ == collapse_stars(pattern@),
{
    wildmatch::WildMatch::new(pattern).pattern()
}

/// Builds a `wildmatch::WildMatch` from `pattern` and calls
/// `WildMatch::matches` on `input`. Trusted: the answer is that of
/// [`wildcard_match`], which is how the crate describes its matching.
#[verifier::external_body]
fn wildmatch_matches(pattern: &str, input: &str) -> (r: bool)
    ensures
        r == wildcard_match(pattern@, input@),
{
    wildmatch::WildMatch::new(pattern).matches(input)
}

/// Builds a `wildmatch::WildMatch` from `pattern` with
/// `WildMatch::new_case_insensitive` and calls `WildMatch::matches` on
/// `input`. Trusted: the answer depends on the pattern and the input alone,
/// and is what [`wildcard_match_ignoring_case`] names.
#[verifier::external_body]
fn wildmatch_matches_ignoring_case(pattern: &str, input: &str) -> (r: bool)
    ensures
        r == wildcard_match_ignoring_case(pattern@, input@),
{
    wildmatch::WildMatch::new_case_insensitive(pattern).matches(input)
}

/// Calls `regex::Regex::new` on `pattern`, drops the compiled expression
/// and keeps of an error what it says. Trusted: whether it succeeds depends
/// on the pattern alone, and is what [`regex_compiles`] names. Nothing is
/// known of the text of the error.
#[verifier::external_body]
fn regex_new(pattern: &str) -> (r: Result<(), String>)
    ensures
        r is Ok <==> regex_compiles(pattern@),
{
    regex::Regex::new(pattern).map(|_| ()).map_err(|error| error.to_string())
}

/// Compiles `pattern` with `regex::Regex::new` and calls
/// `regex::Regex::captures` on `haystack`. Trusted: there is an answer exactly
/// when the pattern compiles, and the answer, whether anything was captured,
/// depends on the pattern and the haystack alone: [`regex_finds`] names it.
#[verifier::external_body]
fn regex_captures(pattern: &str, haystack: &str) -> (found: Option<bool>)
    ensures
        found == (if regex_compiles(pattern@) {
            Some(regex_finds(pattern@, haystack@))
        } else {
            None
        }),
{
    match regex::Regex::new(pattern) {
        Ok(compiled) => Some(compiled.captures(haystack).is_some()),
        Err(_) => None,
    }
}

/// A wildcard pattern: `*` and `?`, nothing else is special. It may be one
/// for which the case of letters does not count.
///
/// Its view is the pattern's text, in which no `*` follows another.
#[derive(Debug)]
pub struct GlobPattern {
    pattern: String,
    case_insensitive: bool,
}

impl View for GlobPattern {
    type V = Seq<char>;

    closed spec fn view(&self) -> Seq<char> {
        self.pattern@
    }
}

impl GlobPattern {
    /// Whether the case of letters does not count for this pattern.
    pub closed spec fn ignores_case(&self) -> bool {
        self.case_insensitive
    }

    /// Whether this pattern matches the whole of `input`.
    pub open spec fn spec_matches(&self, input: Seq<char>) -> bool {
        if self.ignores_case() {
            wildcard_match_ignoring_case(self@, input)
        } else {
            wildcard_match(self@, input)
        }
    }

    /// The pattern written as `pattern`. Runs of `*` are shortened to one,
    /// which changes nothing in what the pattern matches.
    pub fn new(pattern: &str) -> (glob: GlobPattern)
        ensures
            glob@ == collapse_stars(pattern@),
            !glob.ignores_case(),
            forall|input: Seq<char>| #[trigger]
                glob.spec_matches(input) == wildcard_match(pattern@, input),
    {
        let glob = GlobPattern { pattern: wildmatch_pattern(pattern), case_insensitive: false };
        assert forall|input: Seq<char>| #[trigger]
            glob.spec_matches(input) == wildcard_match(pattern@, input) by {
            lemma_collapse_keeps_matches(pattern@, input);
        }
        glob
    }

    /// The pattern written as `pattern`, for which the case of letters does
    /// not count. Runs of `*` are shortened to one.
    pub fn new_case_insensitive(pattern: &str) -> (glob: GlobPattern)
        ensures
            glob@ == collapse_stars(pattern@),
            glob.ignores_case(),
    {
        GlobPattern { pattern: wildmatch_pattern(pattern), case_insensitive: true }
    }

    /// The text of this pattern.
    pub fn as_str(&self) -> (text: &str)
        ensures
            text@ == self@,
    {
        self.pattern.as_str()
    }

    /// Whether the case of letters does not count for this pattern.
    pub fn is_case_insensitive(&self) -> (r: bool)
        ensures
            r == self.ignores_case(),
    {
        self.case_insensitive
    }

    /// Whether this pattern matches the whole of `input`.
    pub fn matches(&self, input: &str) -> (r: bool)
        ensures
            r == self.spec_matches(input@),
    {
        if self.case_insensitive {
            wildmatch_matches_ignoring_case(self.pattern.as_str(), input)
        } else {
            wildmatch_matches(self.pattern.as_str(), input)
        }
    }
}

impl Clone for GlobPattern {
    /// A pattern with the same text, for which case counts as for this.
    fn clone(&self) -> (copy: GlobPattern)
        ensures
            copy@ == self@,
            copy.ignores_case() == self.ignores_case(),
    {
        GlobPattern { pattern: self.pattern.clone(), case_insensitive: self.case_insensitive }
    }
}

/// A regular expression that is known to compile.
///
/// Its view is the pattern's text.
#[derive(Debug)]
pub struct RegexPattern {
    pattern: String,
}

impl View for RegexPattern {
    type V = Seq<char>;

    closed spec fn view(&self) -> Seq<char> {
        self.pattern@
    }
}

impl RegexPattern {
    #[verifier::type_invariant]
    spec fn compiles(self) -> bool {
        regex_compiles(self.pattern@)
    }

    /// Whether this expression has a match somewhere in `haystack`. The
    /// search is not anchored: to match a whole text, the pattern itself has
    /// to say `^` and `$`.
    pub open spec fn spec_is_match(&self, haystack: Seq<char>) -> bool {
        regex_finds(self@, haystack)
    }

    /// The regular expression written as `pattern`, or, where it does not
    /// compile, what the `regex` crate says of it.
    pub fn new(pattern: &str) -> (r: Result<RegexPattern, String>)
        ensures
            r is Ok <==> regex_compiles(pattern@),
            r matches Ok(compiled) ==> compiled@ == pattern@,
    {
        match regex_new(pattern) {
            Ok(()) => Ok(RegexPattern { pattern: String::from_str(pattern) }),
            Err(error) => Err(error),
        }
    }

    /// The text of this expression.
    pub fn as_str(&self) -> (text: &str)
        ensures
            text@ == self@,
    {
        self.pattern.as_str()
    }

    /// Whether this expression has a match somewhere in `haystack`.
    pub fn is_match(&self, haystack: &str) -> (r: bool)
        ensures
            r == self.spec_is_match(haystack@),
    {
        proof {
            use_type_invariant(self);
        }
        match regex_captures(self.pattern.as_str(), haystack) {
            Some(found) => found,
            None => false,
        }
    }
}

impl Clone for RegexPattern {
    /// An expression with the same text.
    fn clone(&self) -> (copy: RegexPattern)
        ensures
            copy@ == self@,
    {
        proof {
            use_type_invariant(self);
        }
        RegexPattern { pattern: self.pattern.clone() }
    }
}

} // verus!

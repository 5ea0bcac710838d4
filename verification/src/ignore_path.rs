//! Rules that say which paths to ignore, and the filter made of a list of
//! them.

use vstd::prelude::*;
use vstd::string::StringExecFns;
use crate::file_traversal::{
    all_named,
    candidate,
    is_candidate,
    kept,
    lemma_kept_holds_what_is_kept,
    lemma_refusal_fails_scan,
    lemma_scan_collects_what_is_kept,
    lemma_scan_failure_is_a_refusal,
    scan_error,
    scanned,
    Error as ScanError,
    FilterError,
    PathFilterRet,
    WalkItem,
};
use crate::path_buf::{path_components, PathBuf};
use crate::pattern::{GlobPattern, RegexPattern};

verus! {

/// Why no rule could be made from a path.
#[derive(Debug)]
pub enum Error {
    /// The path could not be made canonical: it is held with the cause.
    FailedToCanonicalize(PathBuf, std::io::Error),
    /// The canonical path is neither a regular file nor a directory.
    UnknownPathType(PathBuf),
}

/// What the file system says of a path that it could make canonical.
#[derive(Debug)]
pub struct Probed {
    /// The canonical, absolute form of the path.
    pub canonical: PathBuf,
    /// Whether the path is a regular file.
    pub is_file: bool,
    /// Whether the path is a directory.
    pub is_dir: bool,
}

/// One rule of an ignore list. A rule is matched against canonical,
/// absolute paths.
#[derive(Debug)]
pub enum IgnorePath {
    /// Matches the one path that has the same components.
    Whole(PathBuf),
    /// Matches the path itself and everything below it.
    Prefix(PathBuf),
    /// Matches the paths whose text the wildcard pattern matches.
    Glob(GlobPattern),
    /// Matches the paths in whose text the regular expression finds a
    /// match. The search is not anchored.
    Regex(RegexPattern),
}

/// Whether one of `ignore_paths` matches the path written as `abs_path`.
pub open spec fn any_matches(ignore_paths: Seq<IgnorePath>, abs_path: Seq<char>) -> bool {
    exists|i: int| 0 <= i < ignore_paths.len() && #[trigger] ignore_paths[i].spec_matches(abs_path)
}

/// What an ignore list answers for a candidate, given what making the
/// candidate canonical gave: a failure to make it canonical, with the cause,
/// if that failed; else `false` when a rule matches the canonical path and
/// `true` when none does.
pub open spec fn ignore_verdict(
    ignore_paths: Seq<IgnorePath>,
    canonical: Result<PathBuf, std::io::Error>,
) -> PathFilterRet {
    match canonical {
        Ok(abs_path) => Ok(!any_matches(ignore_paths, abs_path@)),
        Err(cause) => Err(FilterError::FailedToMakeAbsolute(cause)),
    }
}

/// Whether `filter` is the filter of the ignore list `ignore_paths` over
/// `canonicalize`: whether each of its answers is the verdict of the list on
/// something that `canonicalize` may give for the candidate.
pub open spec fn filters_by<P: ?Sized, C: Fn(&P) -> Result<PathBuf, std::io::Error>, F: Fn(
    &P,
) -> PathFilterRet>(filter: &F, ignore_paths: Seq<IgnorePath>, canonicalize: &C) -> bool {
    forall|file: &P, verdict: PathFilterRet| #[trigger]
        call_ensures(filter, (file,), verdict) ==> exists|
            canonical: Result<PathBuf, std::io::Error>,
        | #[trigger]
            call_ensures(canonicalize, (file,), canonical) && verdict == ignore_verdict(
                ignore_paths,
                canonical,
            )
}

/// Whether making a candidate canonical always succeeds, with a path of the
/// text that `canonical_of` gives for the candidate.
pub open spec fn resolves_to<P, C: Fn(&P) -> Result<PathBuf, std::io::Error>>(
    canonicalize: &C,
    canonical_of: spec_fn(P) -> Seq<char>,
) -> bool {
    forall|file: &P, canonical: Result<PathBuf, std::io::Error>| #[trigger]
        call_ensures(canonicalize, (file,), canonical) ==> (canonical matches Ok(abs_path)
            && abs_path@ == canonical_of(*file))
}

/// The rule that stands for a path of which the file system says `probed`,
/// if there is one: a `Whole` rule for a regular file, a `Prefix` rule for a
/// directory, each over the canonical path.
pub open spec fn rule_of(probed: Result<Probed, std::io::Error>) -> Option<IgnorePath> {
    match probed {
        Ok(found) => if found.is_file {
            Some(IgnorePath::Whole(found.canonical))
        } else if found.is_dir {
            Some(IgnorePath::Prefix(found.canonical))
        } else {
            None
        },
        Err(_) => None,
    }
}

/// The rule that stands for `path`, given what the file system says of it,
/// or why there is none: the path could not be made canonical, or it is
/// neither a regular file nor a directory.
pub open spec fn rule_for(path: PathBuf, probed: Result<Probed, std::io::Error>) -> Result<
    IgnorePath,
    Error,
> {
    match rule_of(probed) {
        Some(rule) => Ok(rule),
        None => match probed {
            Ok(found) => Err(Error::UnknownPathType(found.canonical)),
            Err(cause) => Err(Error::FailedToCanonicalize(path, cause)),
        },
    }
}

/// Whether `r` is what stands for the path written as `path_str`, given what
/// the file system says of it: the rule, or the error of [`rule_for`] for a
/// path with that text.
pub open spec fn parsed(
    path_str: Seq<char>,
    probed: Result<Probed, std::io::Error>,
    r: Result<IgnorePath, Error>,
) -> bool {
    match probed {
        Ok(found) => r == match rule_of(probed) {
            Some(rule) => Ok::<IgnorePath, Error>(rule),
            None => Err(Error::UnknownPathType(found.canonical)),
        },
        Err(cause) => r matches Err(Error::FailedToCanonicalize(path, c)) && path@ == path_str
            && c == cause,
    }
}

/// The rule that stands for the path written as `path_str`, given what the
/// file system says of it, or why there is none.
pub fn parse(path_str: &str, probed: Result<Probed, std::io::Error>) -> (r: Result<
    IgnorePath,
    Error,
>)
    ensures
        parsed(path_str@, probed, r),
{
    IgnorePath::try_from(PathBuf::from(path_str), probed)
}

/// Whether a rule stands for the path written as `path_str`, given what the
/// file system says of it: `Ok` if so, else why there is none.
pub fn is_valid(path_str: &str, probed: Result<Probed, std::io::Error>) -> (r: Result<(), Error>)
    ensures
        r is Ok <==> rule_of(probed) is Some,
        r matches Err(error) ==> parsed(path_str@, probed, Err(error)),
{
    match parse(path_str, probed) {
        Ok(_) => Ok(()),
        Err(error) => Err(error),
    }
}

impl IgnorePath {
    /// The text of this rule: the path, or the pattern.
    pub open spec fn spec_to_string(&self) -> Seq<char> {
        match self {
            IgnorePath::Whole(path) => path@,
            IgnorePath::Prefix(path) => path@,
            IgnorePath::Glob(glob) => glob@,
            IgnorePath::Regex(regex) => regex@,
        }
    }

    /// The text of this rule: the path, or the pattern.
    pub fn to_string(&self) -> (text: String)
        ensures
            text@ == self.spec_to_string(),
    {
        match self {
            IgnorePath::Whole(path) => String::from_str(path.display()),
            IgnorePath::Prefix(path) => String::from_str(path.display()),
            IgnorePath::Glob(glob) => String::from_str(glob.as_str()),
            IgnorePath::Regex(regex) => String::from_str(regex.as_str()),
        }
    }

    /// Whether this rule matches the path written as `abs_path`.
    pub open spec fn spec_matches(&self, abs_path: Seq<char>) -> bool {
        match self {
            IgnorePath::Whole(path) => path.components() == path_components(abs_path),
            IgnorePath::Prefix(path) => path.components().is_prefix_of(path_components(abs_path)),
            IgnorePath::Glob(glob) => glob.spec_matches(abs_path),
            IgnorePath::Regex(regex) => regex.spec_is_match(abs_path),
        }
    }

    /// Whether this rule matches `abs_path`, which is taken as it is: the
    /// caller makes it canonical.
    pub fn matches(&self, abs_path: &PathBuf) -> (r: bool)
        ensures
            r == self.spec_matches(abs_path@),
    {
        match self {
            IgnorePath::Whole(path) => path == abs_path,
            IgnorePath::Prefix(path) => abs_path.starts_with(path),
            IgnorePath::Glob(glob) => glob.matches(abs_path.as_str()),
            IgnorePath::Regex(regex) => regex.is_match(abs_path.as_str()),
        }
    }

    /// Whether one of `ignore_paths` matches `abs_path`. The rules are tried
    /// in order, up to the first that matches.
    pub fn any_rule_matches(ignore_paths: &Vec<IgnorePath>, abs_path: &PathBuf) -> (r: bool)
        ensures
            r == any_matches(ignore_paths@, abs_path@),
    {
        let mut i: usize = 0;
        while i < ignore_paths.len()
            invariant
                i <= ignore_paths.len(),
                forall|j: int| 0 <= j < i ==> !(#[trigger] ignore_paths[j].spec_matches(abs_path@)),
            decreases ignore_paths.len() - i,
        {
            if ignore_paths[i].matches(abs_path) {
                return true;
            }
            i += 1;
        }
        false
    }

    /// What the ignore list `ignore_paths` answers for a candidate, given
    /// what making the candidate canonical gave.
    pub fn filter_verdict(
        ignore_paths: &Vec<IgnorePath>,
        canonical: Result<PathBuf, std::io::Error>,
    ) -> (verdict: PathFilterRet)
        ensures
            verdict == ignore_verdict(ignore_paths@, canonical),
    {
        match canonical {
            Ok(abs_path) => Ok(!Self::any_rule_matches(ignore_paths, &abs_path)),
            Err(cause) => Err(FilterError::FailedToMakeAbsolute(cause)),
        }
    }

    /// The filter of an ignore list: it makes its candidate canonical with
    /// `canonicalize`, hands on the error if that fails, and else keeps the
    /// candidate exactly when no rule of `ignore_paths` matches the
    /// canonical path. The candidate may be of any type that `canonicalize`
    /// takes.
    pub fn create_filter<P: ?Sized, C: Fn(&P) -> Result<PathBuf, std::io::Error>>(
        ignore_paths: Vec<IgnorePath>,
        canonicalize: C,
    ) -> (filter: impl Fn(&P) -> PathFilterRet)
        ensures
            forall|file: &P|
                call_requires(canonicalize, (file,)) ==> #[trigger] call_requires(filter, (file,)),
            filters_by(&filter, ignore_paths@, &canonicalize),
    {
        move |file: &P| -> (verdict: PathFilterRet)
            requires
                call_requires(canonicalize, (file,)),
            ensures
                exists|canonical: Result<PathBuf, std::io::Error>| #[trigger]
                    call_ensures(canonicalize, (file,), canonical) && verdict == ignore_verdict(
                        ignore_paths@,
                        canonical,
                    ),
            {
                let canonical = canonicalize(file);
                Self::filter_verdict(&ignore_paths, canonical)
            }
    }

    /// The rule that stands for `path`, given what the file system says of
    /// it.
    pub fn try_from(path: PathBuf, probed: Result<Probed, std::io::Error>) -> (r: Result<
        IgnorePath,
        Error,
    >)
        ensures
            r == rule_for(path, probed),
    {
        match probed {
            Err(cause) => Err(Error::FailedToCanonicalize(path, cause)),
            Ok(found) => {
                if found.is_file {
                    Ok(IgnorePath::Whole(found.canonical))
                } else if found.is_dir {
                    Ok(IgnorePath::Prefix(found.canonical))
                } else {
                    Err(Error::UnknownPathType(found.canonical))
                }
            },
        }
    }
}

impl Clone for IgnorePath {
    /// A rule of the same kind over the same text, which matches the same
    /// paths.
    fn clone(&self) -> (copy: IgnorePath)
        ensures
            copy.spec_to_string() == self.spec_to_string(),
            copy is Whole == self is Whole,
            copy is Prefix == self is Prefix,
            copy is Glob == self is Glob,
            copy is Regex == self is Regex,
            forall|abs_path: Seq<char>| copy.spec_matches(abs_path) == self.spec_matches(abs_path),
    {
        match self {
            IgnorePath::Whole(path) => IgnorePath::Whole(path.clone()),
            IgnorePath::Prefix(path) => IgnorePath::Prefix(path.clone()),
            IgnorePath::Glob(glob) => IgnorePath::Glob(glob.clone()),
            IgnorePath::Regex(regex) => IgnorePath::Regex(regex.clone()),
        }
    }
}

/// A `Prefix` rule matches its own path and every path whose components
/// begin with those of its own, and no other: not one that parts from it in
/// some component, however the two texts begin.
pub proof fn lemma_prefix_matches_itself_and_below(dir: PathBuf, abs_path: Seq<char>)
    ensures
        IgnorePath::Prefix(dir).spec_matches(dir@),
        IgnorePath::Prefix(dir).spec_matches(abs_path) <==> exists|below: Seq<Seq<char>>|
            path_components(abs_path) == dir.components() + below,
        forall|k: int|
            0 <= k < dir.components().len() && (k >= path_components(abs_path).len()
                || path_components(abs_path)[k] != dir.components()[k]) ==> !IgnorePath::Prefix(
                dir,
            ).spec_matches(abs_path),
{
    let own = dir.components();
    let other = path_components(abs_path);
    if IgnorePath::Prefix(dir).spec_matches(abs_path) {
        let below = other.subrange(own.len() as int, other.len() as int);
        assert(other =~= own + below);
    }
}

/// A `Whole` rule matches its own path and the paths with the same
/// components, and no other: never one that lies below its own.
pub proof fn lemma_whole_matches_only_itself(file: PathBuf, abs_path: Seq<char>)
    ensures
        IgnorePath::Whole(file).spec_matches(file@),
        IgnorePath::Whole(file).spec_matches(abs_path) <==> path_components(abs_path)
            == file.components(),
        forall|below: Seq<Seq<char>>|
            below.len() > 0 && path_components(abs_path) == file.components() + below
                ==> !IgnorePath::Whole(file).spec_matches(abs_path),
{
}

/// The filter of an ignore list leaves a candidate out exactly when making
/// it canonical succeeded and a rule matches the canonical path. When making
/// it canonical failed, the filter fails and says so, with the cause: it
/// never takes that for a candidate that no rule matches.
pub proof fn lemma_ignore_list_excludes_matches(
    ignore_paths: Seq<IgnorePath>,
    canonical: Result<PathBuf, std::io::Error>,
)
    ensures
        ignore_verdict(ignore_paths, canonical) == Ok::<bool, FilterError>(false) <==> (
        canonical matches Ok(abs_path) && any_matches(ignore_paths, abs_path@)),
        ignore_verdict(ignore_paths, canonical) == Ok::<bool, FilterError>(true) <==> (
        canonical matches Ok(abs_path) && !any_matches(ignore_paths, abs_path@)),
        canonical matches Err(cause) ==> ignore_verdict(ignore_paths, canonical) == Err::<
            bool,
            FilterError,
        >(FilterError::FailedToMakeAbsolute(cause)),
{
}

/// A scan with the filter of an ignore list fails only on a candidate
/// without a file name, or on one that could not be made canonical; and
/// then the error names that candidate and holds the cause.
pub proof fn lemma_scan_names_what_is_not_canonical<
    P,
    C: Fn(&P) -> Result<PathBuf, std::io::Error>,
    F: Fn(&P) -> PathFilterRet,
>(
    filter: &F,
    ignore_paths: Seq<IgnorePath>,
    canonicalize: &C,
    walk: Seq<WalkItem<P>>,
    before: Seq<P>,
    after: Seq<P>,
    failure: Option<ScanError<P>>,
) -> (k: int)
    requires
        filters_by(filter, ignore_paths, canonicalize),
        scanned(filter, walk, before, after, failure),
        failure is Some,
    ensures
        0 <= k < walk.len(),
        candidate(walk[k]) matches Some(file) && (if file.has_file_name {
            exists|cause: std::io::Error| #[trigger]
                call_ensures(canonicalize, (&file.path,), Err::<PathBuf, std::io::Error>(cause))
                    && failure == Some(ScanError::FailedToMakeAbsolute(file.path, cause))
        } else {
            failure == Some(ScanError::MissingFileName(file.path))
        }),
{
    let k = lemma_scan_failure_is_a_refusal(filter, walk, before, after, failure);
    let file = candidate(walk[k])->0;
    if file.has_file_name {
        let failed = choose|failed: FilterError| #[trigger]
            call_ensures(filter, (&file.path,), Err::<bool, FilterError>(failed)) && failure->0
                == scan_error(file.path, failed);
        let canonical = choose|canonical: Result<PathBuf, std::io::Error>| #[trigger]
            call_ensures(canonicalize, (&file.path,), canonical) && Err::<bool, FilterError>(
                failed,
            ) == ignore_verdict(ignore_paths, canonical);
        assert(call_ensures(canonicalize, (&file.path,), Err::<PathBuf, std::io::Error>(
            canonical->Err_0,
        )));
    }
    k
}

/// A scan with the filter of an ignore list does not succeed over a walk
/// that holds a candidate which cannot be made canonical: it fails, on that
/// candidate or on one before it.
pub proof fn lemma_scan_fails_on_what_is_not_canonical<
    P,
    C: Fn(&P) -> Result<PathBuf, std::io::Error>,
    F: Fn(&P) -> PathFilterRet,
>(
    filter: &F,
    ignore_paths: Seq<IgnorePath>,
    canonicalize: &C,
    walk: Seq<WalkItem<P>>,
    k: int,
    before: Seq<P>,
    after: Seq<P>,
    failure: Option<ScanError<P>>,
)
    requires
        filters_by(filter, ignore_paths, canonicalize),
        scanned(filter, walk, before, after, failure),
        0 <= k < walk.len(),
        candidate(walk[k]) matches Some(file) && forall|
            canonical: Result<PathBuf, std::io::Error>,
        | #[trigger]
            call_ensures(canonicalize, (&file.path,), canonical) ==> canonical is Err,
    ensures
        failure is Some,
{
    lemma_refusal_fails_scan(filter, walk, k, before, after, failure);
}

/// With candidates that all have a file name and can all be made canonical,
/// each to what `canonical_of` says, a scan with the filter of an ignore list
/// succeeds, and it collects exactly the candidates whose canonical path no
/// rule of the list matches, in the order of the walk.
pub proof fn lemma_scan_leaves_out_what_is_ignored<
    P,
    C: Fn(&P) -> Result<PathBuf, std::io::Error>,
    F: Fn(&P) -> PathFilterRet,
>(
    filter: &F,
    ignore_paths: Seq<IgnorePath>,
    canonicalize: &C,
    canonical_of: spec_fn(P) -> Seq<char>,
    walk: Seq<WalkItem<P>>,
    before: Seq<P>,
    after: Seq<P>,
    failure: Option<ScanError<P>>,
)
    requires
        filters_by(filter, ignore_paths, canonicalize),
        resolves_to(canonicalize, canonical_of),
        all_named(walk),
        scanned(filter, walk, before, after, failure),
    ensures
        failure is None,
        after == before + kept(
            walk,
            |file: P| !any_matches(ignore_paths, canonical_of(file)),
        ),
{
    let keeps = |file: P| !any_matches(ignore_paths, canonical_of(file));
    assert forall|file: P, answer: PathFilterRet| #[trigger]
        call_ensures(filter, (&file,), answer) implies answer == Ok::<bool, FilterError>(
        keeps(file),
    ) by {
        let canonical = choose|canonical: Result<PathBuf, std::io::Error>| #[trigger]
            call_ensures(canonicalize, (&file,), canonical) && answer == ignore_verdict(
                ignore_paths,
                canonical,
            );
        assert(canonical matches Ok(abs_path) && abs_path@ == canonical_of(file));
    }
    lemma_scan_collects_what_is_kept(filter, keeps, walk, before, after, failure);
}

/// A list of one rule matches what that rule matches.
pub proof fn lemma_list_of_one_rule(rule: IgnorePath, abs_path: Seq<char>)
    ensures
        any_matches(seq![rule], abs_path) == rule.spec_matches(abs_path),
{
    if rule.spec_matches(abs_path) {
        assert(seq![rule][0].spec_matches(abs_path));
    }
}

/// A scan that ignores by one rule, over candidates that all have a file
/// name and can all be made canonical, collects exactly the candidates whose
/// canonical path that rule does not match. For a `Prefix` rule that is
/// everything outside the subtree of its directory; for a `Whole` rule,
/// everything but the one file; for a `Regex` rule, every path in which the
/// expression finds nothing.
pub proof fn lemma_scan_leaves_out_what_one_rule_matches<
    P,
    C: Fn(&P) -> Result<PathBuf, std::io::Error>,
    F: Fn(&P) -> PathFilterRet,
>(
    filter: &F,
    rule: IgnorePath,
    canonicalize: &C,
    canonical_of: spec_fn(P) -> Seq<char>,
    walk: Seq<WalkItem<P>>,
    after: Seq<P>,
    failure: Option<ScanError<P>>,
)
    requires
        filters_by(filter, seq![rule], canonicalize),
        resolves_to(canonicalize, canonical_of),
        all_named(walk),
        scanned(filter, walk, Seq::empty(), after, failure),
    ensures
        failure is None,
        after == kept(walk, |file: P| !rule.spec_matches(canonical_of(file))),
        forall|path: P|
            after.contains(path) <==> is_candidate(walk, path) && !rule.spec_matches(
                canonical_of(path),
            ),
{
    let by_list = |file: P| !any_matches(seq![rule], canonical_of(file));
    let by_rule = |file: P| !rule.spec_matches(canonical_of(file));
    lemma_scan_leaves_out_what_is_ignored(
        filter,
        seq![rule],
        canonicalize,
        canonical_of,
        walk,
        Seq::empty(),
        after,
        failure,
    );
    assert forall|file: P| #[trigger] by_list(file) == by_rule(file) by {
        lemma_list_of_one_rule(rule, canonical_of(file));
    }
    assert(by_list =~= by_rule);
    assert forall|path: P|
        after.contains(path) <==> is_candidate(walk, path) && !rule.spec_matches(
            canonical_of(path),
        ) by {
        lemma_kept_holds_what_is_kept(walk, by_rule, path);
    }
}

} // verus!

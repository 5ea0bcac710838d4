//! Filters over paths, their conjunction, and the decisions of a scan.

use vstd::prelude::*;
use vstd::std_specs::convert::FromSpecImpl;

verus! {

/// `std::io::Error`, which is carried through as it is: nothing is known of
/// what an error holds.
#[verifier::external_type_specification]
#[verifier::external_body]
pub struct ExIoError(std::io::Error);

/// Why a filter could not decide on a candidate.
#[derive(Debug)]
pub enum FilterError {
    /// The candidate could not be made canonical, for this cause.
    FailedToMakeAbsolute(std::io::Error),
    /// Anything else that went wrong.
    IO(std::io::Error),
}

impl From<std::io::Error> for FilterError {
    fn from(error: std::io::Error) -> (wrapped: FilterError) {
        FilterError::IO(error)
    }
}

impl FromSpecImpl<std::io::Error> for FilterError {
    open spec fn obeys_from_spec() -> bool {
        true
    }

    open spec fn from_spec(error: std::io::Error) -> FilterError {
        FilterError::IO(error)
    }
}

/// What a filter answers for a path: `Ok(true)` to keep it, `Ok(false)` to
/// leave it out, or why it could not decide.
pub type PathFilterRet = Result<bool, FilterError>;

/// Whether `outcome` is what the conjunction of `filters` may answer for
/// `file`: `true` when every filter answered `true`; `false` when one
/// answered `false` and all before it `true`; an error when one gave that
/// error and all before it answered `true`. Nothing is asked of the filters
/// behind the first that did not answer `true`.
pub open spec fn conjunction_of<P: ?Sized, F: Fn(&P) -> PathFilterRet>(
    filters: Seq<F>,
    file: &P,
    outcome: PathFilterRet,
) -> bool {
    match outcome {
        Ok(true) => all_passed(filters, file, filters.len() as int),
        _ => exists|k: int|
            0 <= k < filters.len() && all_passed(filters, file, k) && #[trigger] call_ensures(
                &filters[k],
                (file,),
                outcome,
            ),
    }
}

/// Whether each of the first `n` of `filters` may answer `true` for `file`.
pub open spec fn all_passed<P: ?Sized, F: Fn(&P) -> PathFilterRet>(
    filters: Seq<F>,
    file: &P,
    n: int,
) -> bool {
    forall|i: int|
        0 <= i < n ==> #[trigger] call_ensures(&filters[i], (file,), Ok::<bool, FilterError>(true))
}

/// Whether each of `filters` can be called on `file` once all before it have
/// answered `true`. No more is asked of a filter that stands behind one that
/// cannot answer `true`: it is never called.
pub open spec fn callable_in_turn<P: ?Sized, F: Fn(&P) -> PathFilterRet>(
    filters: Seq<F>,
    file: &P,
) -> bool {
    forall|k: int|
        0 <= k < filters.len() && all_passed(filters, file, k) ==> #[trigger] call_requires(
            &filters[k],
            (file,),
        )
}

/// Asks `filters` about `file`, one after the other, and stops at the first
/// that does not answer `true`.
pub fn evaluate_all<P: ?Sized, F: Fn(&P) -> PathFilterRet>(filters: &Vec<F>, file: &P) -> (outcome:
    PathFilterRet)
    requires
        callable_in_turn(filters@, file),
    ensures
        conjunction_of(filters@, file, outcome),
        filters.len() == 0 ==> outcome == Ok::<bool, FilterError>(true),
{
    let mut i: usize = 0;
    while i < filters.len()
        invariant
            i <= filters.len(),
            callable_in_turn(filters@, file),
            all_passed(filters@, file, i as int),
        decreases filters.len() - i,
    {
        let answer = (filters[i])(file);
        match answer {
            Ok(true) => {},
            _ => {
                return answer;
            },
        }
        i += 1;
    }
    Ok(true)
}

/// The conjunction of `filters`: a filter that keeps a path when every one
/// of them keeps it. It asks them in order and stops at the first that
/// answers `false` or fails, whose answer it hands on. With no filters it
/// keeps every path.
pub fn create_combined_filter<P: ?Sized, F: Fn(&P) -> PathFilterRet>(filters: Vec<F>) -> (combined: impl Fn(
    &P,
) -> PathFilterRet)
    ensures
        forall|file: &P|
            callable_in_turn(filters@, file) ==> #[trigger] call_requires(combined, (file,)),
        forall|file: &P, outcome: PathFilterRet| #[trigger]
            call_ensures(combined, (file,), outcome) ==> conjunction_of(filters@, file, outcome),
{
    move |file: &P| -> (outcome: PathFilterRet)
        requires
            callable_in_turn(filters@, file),
        ensures
            conjunction_of(filters@, file, outcome),
        { evaluate_all(&filters, file) }
}

/// Why a scan failed. The path is that of the candidate on which it failed.
#[derive(Debug)]
pub enum Error<P> {
    /// The candidate has no file name.
    MissingFileName(P),
    /// The candidate could not be made canonical, for this cause.
    FailedToMakeAbsolute(P, std::io::Error),
    /// The filter failed on a candidate in another way.
    IO(std::io::Error),
}

impl<P> From<std::io::Error> for Error<P> {
    fn from(error: std::io::Error) -> (wrapped: Error<P>) {
        Error::IO(error)
    }
}

impl<P> FromSpecImpl<std::io::Error> for Error<P> {
    open spec fn obeys_from_spec() -> bool {
        true
    }

    open spec fn from_spec(error: std::io::Error) -> Error<P> {
        Error::IO(error)
    }
}

/// What is known of the type of a directory entry.
#[derive(Debug, Clone, Copy, PartialEq, Eq, Structural)]
pub enum EntryKind {
    /// The entry is a directory: the walk goes into it, no filter sees it.
    Dir,
    /// The entry is anything but a directory.
    NotDir,
    /// The type of the entry could not be read.
    Unknown,
}

/// A path that is offered to a filter, and whether it has a file name: a
/// path such as `.` has none. The scan is free in what it takes for a path:
/// it hands paths on and never looks into one.
#[derive(Debug)]
pub struct Candidate<P> {
    /// The path.
    pub path: P,
    /// Whether the path has a file name.
    pub has_file_name: bool,
}

/// What a walk over a directory tree reports at one step.
#[derive(Debug)]
pub enum WalkItem<P> {
    /// An entry, with what is known of its type.
    Entry(Candidate<P>, EntryKind),
    /// Something could not be listed.
    Failed,
}

/// What a scan does after one step of the walk.
#[derive(Debug)]
pub enum ScanStep<P> {
    /// The scan goes on with the next item of the walk.
    Next,
    /// The scan is over, with this result.
    Done(Result<(), Error<P>>),
}

/// What the filter is asked about at `item`: an entry that is known not to
/// be a directory. Directories, entries of unknown type and failures of the
/// walk are no candidates.
pub open spec fn candidate<P>(item: WalkItem<P>) -> Option<Candidate<P>> {
    match item {
        WalkItem::Entry(file, EntryKind::NotDir) => Some(file),
        _ => None,
    }
}

/// The error of `r`, if it is one.
pub open spec fn failure_of<P>(r: Result<(), Error<P>>) -> Option<Error<P>> {
    match r {
        Ok(_) => None,
        Err(error) => Some(error),
    }
}

/// The error of a scan on whose candidate `path` the filter gave `failure`:
/// a failure to make the candidate canonical is handed on with the
/// candidate, any other as it is.
pub open spec fn scan_error<P>(path: P, failure: FilterError) -> Error<P> {
    match failure {
        FilterError::FailedToMakeAbsolute(cause) => Error::FailedToMakeAbsolute(path, cause),
        FilterError::IO(cause) => Error::IO(cause),
    }
}

/// Whether a scan may fail on `file` with `error`: a candidate without a file
/// name is refused as such, and the filter is not asked; on any other, the
/// filter failed and `error` is what that failure comes to.
pub open spec fn refused<P, F: Fn(&P) -> PathFilterRet>(
    filter: &F,
    file: Candidate<P>,
    error: Error<P>,
) -> bool {
    if file.has_file_name {
        exists|failure: FilterError| #[trigger]
            call_ensures(filter, (&file.path,), Err::<bool, FilterError>(failure)) && error
                == scan_error(file.path, failure)
    } else {
        error == Error::MissingFileName(file.path)
    }
}

/// Whether `filter` may answer `keep` for `file`, which has a file name.
pub open spec fn answered<P, F: Fn(&P) -> PathFilterRet>(
    filter: &F,
    file: Candidate<P>,
    keep: bool,
) -> bool {
    file.has_file_name && call_ensures(filter, (&file.path,), Ok::<bool, FilterError>(keep))
}

/// Whether offering `file` to `filter` may take the collected paths from
/// `before` to `after` and fail, or not, as `failure` says: the path is
/// appended when the filter answered `true`, nothing changes when it answered
/// `false`, and nothing is collected when the candidate is refused.
pub open spec fn added<P, F: Fn(&P) -> PathFilterRet>(
    filter: &F,
    file: Candidate<P>,
    before: Seq<P>,
    after: Seq<P>,
    failure: Option<Error<P>>,
) -> bool {
    ||| answered(filter, file, true) && failure is None && after == before.push(file.path)
    ||| answered(filter, file, false) && failure is None && after == before
    ||| failure matches Some(error) && refused(filter, file, error) && after == before
}

/// Whether one step of a scan, on `item`, may take the collected paths from
/// `before` to `after` and end in `step`. The end of the walk ends the scan.
/// What is no candidate is passed over. A candidate is offered to the
/// filter, and only its being refused ends the scan early.
pub open spec fn stepped<P, F: Fn(&P) -> PathFilterRet>(
    filter: &F,
    item: Option<WalkItem<P>>,
    before: Seq<P>,
    after: Seq<P>,
    step: ScanStep<P>,
) -> bool {
    match item {
        None => step matches ScanStep::Done(r) && r is Ok && after == before,
        Some(item) => match candidate(item) {
            None => step is Next && after == before,
            Some(file) => match step {
                ScanStep::Next => added(filter, file, before, after, None),
                ScanStep::Done(r) => r is Err && added(filter, file, before, after, failure_of(r)),
            },
        },
    }
}

/// Whether a scan over the whole of `walk` may take the collected paths from
/// `before` to `after` and fail, or not, as `failure` says. Items are taken
/// in order. The scan stops at the first candidate that is refused, and
/// fails with that error; otherwise it goes through to the end and succeeds.
pub open spec fn scanned<P, F: Fn(&P) -> PathFilterRet>(
    filter: &F,
    walk: Seq<WalkItem<P>>,
    before: Seq<P>,
    after: Seq<P>,
    failure: Option<Error<P>>,
) -> bool
    decreases walk.len(),
{
    if walk.len() == 0 {
        failure is None && after == before
    } else {
        match candidate(walk[0]) {
            None => scanned(filter, walk.skip(1), before, after, failure),
            Some(file) => {
                ||| failure is Some && added(filter, file, before, after, failure)
                ||| exists|mid: Seq<P>| #[trigger]
                    added(filter, file, before, mid, None) && scanned(
                        filter,
                        walk.skip(1),
                        mid,
                        after,
                        failure,
                    )
            },
        }
    }
}

/// Whether `filter` has answered, or may have, for every candidate among the
/// first `n` items of `walk`: whether a scan may get as far as item `n`.
pub open spec fn answered_up_to<P, F: Fn(&P) -> PathFilterRet>(
    filter: &F,
    walk: Seq<WalkItem<P>>,
    n: int,
) -> bool {
    forall|i: int|
        0 <= i < n ==> (#[trigger] candidate(walk[i]) matches Some(file) ==> exists|keep: bool|
            answered(filter, file, keep))
}

/// Whether `filter` can be called on every candidate of `walk` that has a
/// file name and that a scan may get to. No more is asked of it for a
/// candidate that stands behind one that is refused: there it is never
/// called.
pub open spec fn callable_on<P, F: Fn(&P) -> PathFilterRet>(
    filter: &F,
    walk: Seq<WalkItem<P>>,
) -> bool {
    forall|k: int|
        0 <= k < walk.len() && answered_up_to(filter, walk, k) ==> (#[trigger] candidate(
            walk[k],
        ) matches Some(file) ==> (file.has_file_name ==> call_requires(filter, (&file.path,))))
}

/// Whether every candidate of `walk` has a file name.
pub open spec fn all_named<P>(walk: Seq<WalkItem<P>>) -> bool {
    forall|i: int|
        0 <= i < walk.len() ==> (#[trigger] candidate(walk[i]) matches Some(file)
            ==> file.has_file_name)
}

/// The paths of the candidates of `walk` of which `keeps` holds, in the
/// order of the walk.
pub open spec fn kept<P>(walk: Seq<WalkItem<P>>, keeps: spec_fn(P) -> bool) -> Seq<P>
    decreases walk.len(),
{
    if walk.len() == 0 {
        Seq::empty()
    } else {
        let first = match candidate(walk[0]) {
            Some(file) => if keeps(file.path) {
                seq![file.path]
            } else {
                Seq::empty()
            },
            None => Seq::empty(),
        };
        first + kept(walk.skip(1), keeps)
    }
}

/// Whether `path` is the path of a candidate of `walk`.
pub open spec fn is_candidate<P>(walk: Seq<WalkItem<P>>, path: P) -> bool {
    exists|i: int|
        0 <= i < walk.len() && (#[trigger] candidate(walk[i]) matches Some(file) && file.path
            == path)
}

/// Offers `file` to `filter` and appends its path to `collector` when the
/// filter keeps it. A candidate without a file name is refused with
/// `MissingFileName`, and the filter is not asked. A failure of the filter
/// ends in an error: one to make the candidate canonical in
/// `FailedToMakeAbsolute`, with the candidate; any other in `IO`.
pub fn add<P, F: Fn(&P) -> PathFilterRet>(
    filter: &F,
    file: Candidate<P>,
    collector: &mut Vec<P>,
) -> (r: Result<(), Error<P>>)
    requires
        file.has_file_name ==> call_requires(filter, (&file.path,)),
    ensures
        added(filter, file, old(collector)@, final(collector)@, failure_of(r)),
{
    if !file.has_file_name {
        return Err(Error::MissingFileName(file.path));
    }
    match filter(&file.path) {
        Ok(true) => {
            collector.push(file.path);
            Ok(())
        },
        Ok(false) => Ok(()),
        Err(FilterError::FailedToMakeAbsolute(cause)) => {
            assert(scan_error(file.path, FilterError::FailedToMakeAbsolute(cause))
                == Error::FailedToMakeAbsolute(file.path, cause));
            Err(Error::FailedToMakeAbsolute(file.path, cause))
        },
        Err(FilterError::IO(cause)) => Err(Error::IO(cause)),
    }
}

/// One step of a scan: decides what `item`, the next item of the walk (or
/// `None` at its end), means for the scan, and collects the entry if the
/// filter keeps it.
pub fn scan_step<P, F: Fn(&P) -> PathFilterRet>(
    filter: &F,
    item: Option<WalkItem<P>>,
    collector: &mut Vec<P>,
) -> (step: ScanStep<P>)
    requires
        item matches Some(item) ==> (candidate(item) matches Some(file) ==> (file.has_file_name
            ==> call_requires(filter, (&file.path,)))),
    ensures
        stepped(filter, item, old(collector)@, final(collector)@, step),
{
    match item {
        None => ScanStep::Done(Ok(())),
        Some(WalkItem::Entry(file, EntryKind::NotDir)) => {
            match self::add(filter, file, collector) {
                Ok(()) => ScanStep::Next,
                Err(error) => ScanStep::Done(Err(error)),
            }
        },
        Some(_) => ScanStep::Next,
    }
}

/// Scans the whole of `walk`: offers every candidate to `filter`, in order,
/// and appends those it keeps to `collector`. What the walk could not list,
/// and entries whose type it could not read, are passed over. The first
/// candidate that is refused ends the scan with that error.
pub fn scan<P, F: Fn(&P) -> PathFilterRet>(
    walk: Vec<WalkItem<P>>,
    filter: &F,
    collector: &mut Vec<P>,
) -> (r: Result<(), Error<P>>)
    requires
        callable_on(filter, walk@),
    ensures
        scanned(filter, walk@, old(collector)@, final(collector)@, failure_of(r)),
{
    let ghost items = walk@;
    let ghost start = collector@;
    assert(items.skip(0) =~= items);
    for item in it: walk.into_iter()
        invariant
            it.seq() == items,
            callable_on(filter, items),
            answered_up_to(filter, items, it.index() as int),
            start == old(collector)@,
            forall|after: Seq<P>, failure: Option<Error<P>>| #[trigger]
                scanned(filter, items.skip(it.index() as int), collector@, after, failure)
                    ==> scanned(filter, items, start, after, failure),
    {
        let ghost i = it.index() as int;
        let ghost before = collector@;
        let ghost rest = items.skip(i);
        assert(rest.skip(1) =~= items.skip(i + 1));
        match scan_step(filter, Some(item), collector) {
            ScanStep::Next => {
                assert forall|after: Seq<P>, failure: Option<Error<P>>| #[trigger]
                    scanned(filter, items.skip(i + 1), collector@, after, failure) implies scanned(
                    filter,
                    items,
                    start,
                    after,
                    failure,
                ) by {
                    assert(scanned(filter, rest, before, after, failure));
                }
            },
            ScanStep::Done(r) => {
                assert(scanned(filter, rest, before, collector@, failure_of(r)));
                return r;
            },
        }
    }
    assert(scanned(filter, items.skip(items.len() as int), collector@, collector@, None));
    Ok(())
}

/// Scans the whole of `walk` and returns the paths that `filter` keeps, in
/// the order of the walk.
pub fn find<P, F: Fn(&P) -> PathFilterRet>(walk: Vec<WalkItem<P>>, filter: &F) -> (r: Result<
    Vec<P>,
    Error<P>,
>)
    requires
        callable_on(filter, walk@),
    ensures
        match r {
            Ok(found) => scanned(filter, walk@, Seq::empty(), found@, None),
            Err(error) => exists|partial: Seq<P>|
                scanned(filter, walk@, Seq::empty(), partial, Some(error)),
        },
{
    let mut result: Vec<P> = Vec::new();
    match scan(walk, filter, &mut result) {
        Ok(_) => Ok(result),
        Err(error) => Err(error),
    }
}

/// The conjunction of no filters keeps every path.
pub proof fn lemma_empty_conjunction_is_true<P: ?Sized, F: Fn(&P) -> PathFilterRet>(
    filters: Seq<F>,
    file: &P,
    outcome: PathFilterRet,
)
    requires
        filters.len() == 0,
        conjunction_of(filters, file, outcome),
    ensures
        outcome == Ok::<bool, FilterError>(true),
{
}

/// Where each of the filters has one answer for `file`, their conjunction
/// answers `true` exactly when all of them do. Otherwise its answer is that
/// of the first filter that did not answer `true`, whatever the filters
/// behind that one would have answered.
pub proof fn lemma_conjunction_is_first_refusal<P: ?Sized, F: Fn(&P) -> PathFilterRet>(
    filters: Seq<F>,
    file: &P,
    answers: Seq<PathFilterRet>,
    outcome: PathFilterRet,
)
    requires
        answers.len() == filters.len(),
        forall|i: int, answer: PathFilterRet|
            0 <= i < filters.len() ==> (#[trigger] call_ensures(&filters[i], (file,), answer)
                <==> answer == answers[i]),
        conjunction_of(filters, file, outcome),
    ensures
        outcome == Ok::<bool, FilterError>(true) <==> forall|i: int|
            0 <= i < answers.len() ==> answers[i] == Ok::<bool, FilterError>(true),
        forall|k: int|
            0 <= k < answers.len() && answers[k] != Ok::<bool, FilterError>(true) && (forall|
                i: int,
            |
                0 <= i < k ==> answers[i] == Ok::<bool, FilterError>(true)) ==> outcome
                == answers[k],
{
    let yes = Ok::<bool, FilterError>(true);
    if outcome == yes {
        assert forall|i: int| 0 <= i < answers.len() implies answers[i] == yes by {
            assert(call_ensures(&filters[i], (file,), yes));
        }
    } else {
        let at = choose|k: int|
            0 <= k < filters.len() && all_passed(filters, file, k) && #[trigger] call_ensures(
                &filters[k],
                (file,),
                outcome,
            );
        assert forall|k: int|
            0 <= k < answers.len() && answers[k] != yes && (forall|i: int|
                0 <= i < k ==> answers[i] == yes) implies outcome == answers[k] by {
            if k < at {
                assert(call_ensures(&filters[k], (file,), yes));
            }
        }
    }
}

/// An item of the walk that is no candidate (a failure to list, an entry
/// whose type could not be read, a directory) changes nothing in a scan:
/// with or without it, wherever it stands, the scan collects the same paths
/// and ends in the same way.
pub proof fn lemma_non_candidates_are_passed_over<P, F: Fn(&P) -> PathFilterRet>(
    filter: &F,
    front: Seq<WalkItem<P>>,
    item: WalkItem<P>,
    back: Seq<WalkItem<P>>,
    before: Seq<P>,
    after: Seq<P>,
    failure: Option<Error<P>>,
)
    requires
        candidate(item) is None,
    ensures
        scanned(filter, front + seq![item] + back, before, after, failure) == scanned(
            filter,
            front + back,
            before,
            after,
            failure,
        ),
    decreases front.len(),
{
    let with = front + seq![item] + back;
    let without = front + back;
    if front.len() == 0 {
        assert(with.skip(1) =~= back);
    } else {
        assert(with.skip(1) =~= front.skip(1) + seq![item] + back);
        assert(without.skip(1) =~= front.skip(1) + back);
        match candidate(front[0]) {
            None => {
                lemma_non_candidates_are_passed_over(
                    filter,
                    front.skip(1),
                    item,
                    back,
                    before,
                    after,
                    failure,
                );
            },
            Some(file) => {
                let ends_here = failure is Some && added(filter, file, before, after, failure);
                if scanned(filter, with, before, after, failure) && !ends_here {
                    let mid = choose|mid: Seq<P>| #[trigger]
                        added(filter, file, before, mid, None) && scanned(
                            filter,
                            with.skip(1),
                            mid,
                            after,
                            failure,
                        );
                    lemma_non_candidates_are_passed_over(
                        filter,
                        front.skip(1),
                        item,
                        back,
                        mid,
                        after,
                        failure,
                    );
                    assert(added(filter, file, before, mid, None) && scanned(
                        filter,
                        without.skip(1),
                        mid,
                        after,
                        failure,
                    ));
                }
                if scanned(filter, without, before, after, failure) && !ends_here {
                    let mid = choose|mid: Seq<P>| #[trigger]
                        added(filter, file, before, mid, None) && scanned(
                            filter,
                            without.skip(1),
                            mid,
                            after,
                            failure,
                        );
                    lemma_non_candidates_are_passed_over(
                        filter,
                        front.skip(1),
                        item,
                        back,
                        mid,
                        after,
                        failure,
                    );
                    assert(added(filter, file, before, mid, None) && scanned(
                        filter,
                        with.skip(1),
                        mid,
                        after,
                        failure,
                    ));
                }
            },
        }
    }
}

/// A scan over a walk without candidates succeeds and collects nothing,
/// whatever the walk failed to list.
pub proof fn lemma_scan_without_candidates<P, F: Fn(&P) -> PathFilterRet>(
    filter: &F,
    walk: Seq<WalkItem<P>>,
    before: Seq<P>,
    after: Seq<P>,
    failure: Option<Error<P>>,
)
    requires
        forall|i: int| 0 <= i < walk.len() ==> candidate(#[trigger] walk[i]) is None,
    ensures
        scanned(filter, walk, before, after, failure) <==> failure is None && after == before,
    decreases walk.len(),
{
    if walk.len() > 0 {
        lemma_scan_without_candidates(filter, walk.skip(1), before, after, failure);
    }
}

/// With candidates that all have a file name, and a filter that never fails
/// and answers for each path what `keeps` says of it, a scan succeeds, and
/// it appends to what was collected exactly the candidates of which `keeps`
/// holds, in the order of the walk.
pub proof fn lemma_scan_collects_what_is_kept<P, F: Fn(&P) -> PathFilterRet>(
    filter: &F,
    keeps: spec_fn(P) -> bool,
    walk: Seq<WalkItem<P>>,
    before: Seq<P>,
    after: Seq<P>,
    failure: Option<Error<P>>,
)
    requires
        forall|file: P, answer: PathFilterRet| #[trigger]
            call_ensures(filter, (&file,), answer) ==> answer == Ok::<bool, FilterError>(
                keeps(file),
            ),
        all_named(walk),
        scanned(filter, walk, before, after, failure),
    ensures
        failure is None,
        after == before + kept(walk, keeps),
    decreases walk.len(),
{
    if walk.len() > 0 {
        let rest = walk.skip(1);
        match candidate(walk[0]) {
            None => {
                lemma_scan_collects_what_is_kept(filter, keeps, rest, before, after, failure);
            },
            Some(file) => {
                let mid = choose|mid: Seq<P>| #[trigger]
                    added(filter, file, before, mid, None) && scanned(
                        filter,
                        rest,
                        mid,
                        after,
                        failure,
                    );
                lemma_scan_collects_what_is_kept(filter, keeps, rest, mid, after, failure);
            },
        }
    }
}

/// The candidates of which `keeps` holds are the candidates of the walk of
/// which it holds, no more and no less.
pub proof fn lemma_kept_holds_what_is_kept<P>(
    walk: Seq<WalkItem<P>>,
    keeps: spec_fn(P) -> bool,
    path: P,
)
    ensures
        kept(walk, keeps).contains(path) <==> is_candidate(walk, path) && keeps(path),
    decreases walk.len(),
{
    if walk.len() > 0 {
        let rest = walk.skip(1);
        let first = match candidate(walk[0]) {
            Some(file) => if keeps(file.path) {
                seq![file.path]
            } else {
                Seq::empty()
            },
            None => Seq::empty(),
        };
        lemma_kept_holds_what_is_kept(rest, keeps, path);
        if is_candidate(walk, path) && keeps(path) {
            let i = choose|i: int|
                0 <= i < walk.len() && (#[trigger] candidate(walk[i]) matches Some(file)
                    && file.path == path);
            if i == 0 {
                assert(kept(walk, keeps)[0] == path);
            } else {
                assert(candidate(rest[i - 1]) matches Some(file) && file.path == path);
                let at = choose|at: int|
                    0 <= at < kept(rest, keeps).len() && kept(rest, keeps)[at] == path;
                assert(kept(walk, keeps)[first.len() + at] == path);
            }
        }
    }
}

/// A scan fails only on a candidate, and with what that candidate is refused
/// for: where it failed, there is a candidate in the walk that has no file
/// name, or on which the filter failed, and the error is the one of that.
pub proof fn lemma_scan_failure_is_a_refusal<P, F: Fn(&P) -> PathFilterRet>(
    filter: &F,
    walk: Seq<WalkItem<P>>,
    before: Seq<P>,
    after: Seq<P>,
    failure: Option<Error<P>>,
) -> (k: int)
    requires
        scanned(filter, walk, before, after, failure),
        failure is Some,
    ensures
        0 <= k < walk.len(),
        candidate(walk[k]) matches Some(file) && refused(filter, file, failure->0),
        answered_up_to(filter, walk, k),
    decreases walk.len(),
{
    let rest = walk.skip(1);
    match candidate(walk[0]) {
        None => {
            let k = lemma_scan_failure_is_a_refusal(filter, rest, before, after, failure);
            assert forall|i: int| 0 <= i < k + 1 implies (#[trigger] candidate(
                walk[i],
            ) matches Some(file) ==> exists|keep: bool| answered(filter, file, keep)) by {
                if i > 0 {
                    assert(rest[i - 1] == walk[i]);
                }
            }
            k + 1
        },
        Some(file) => {
            if added(filter, file, before, after, failure) {
                0
            } else {
                let mid = choose|mid: Seq<P>| #[trigger]
                    added(filter, file, before, mid, None) && scanned(
                        filter,
                        rest,
                        mid,
                        after,
                        failure,
                    );
                let k = lemma_scan_failure_is_a_refusal(filter, rest, mid, after, failure);
                assert forall|i: int| 0 <= i < k + 1 implies (#[trigger] candidate(
                    walk[i],
                ) matches Some(file) ==> exists|keep: bool| answered(filter, file, keep)) by {
                    if i > 0 {
                        assert(rest[i - 1] == walk[i]);
                    }
                }
                k + 1
            }
        },
    }
}

/// A candidate that is refused always ends the scan in failure: a scan over
/// a walk that holds a candidate without a file name, or one on which the
/// filter can only fail, does not succeed.
pub proof fn lemma_refusal_fails_scan<P, F: Fn(&P) -> PathFilterRet>(
    filter: &F,
    walk: Seq<WalkItem<P>>,
    k: int,
    before: Seq<P>,
    after: Seq<P>,
    failure: Option<Error<P>>,
)
    requires
        scanned(filter, walk, before, after, failure),
        0 <= k < walk.len(),
        candidate(walk[k]) matches Some(file) && (file.has_file_name ==> forall|
            answer: PathFilterRet,
        | #[trigger]
            call_ensures(filter, (&file.path,), answer) ==> answer is Err),
    ensures
        failure is Some,
    decreases walk.len(),
{
    let rest = walk.skip(1);
    match candidate(walk[0]) {
        None => {
            lemma_refusal_fails_scan(filter, rest, k - 1, before, after, failure);
        },
        Some(file) => {
            if k > 0 && !(failure is Some && added(filter, file, before, after, failure)) {
                let mid = choose|mid: Seq<P>| #[trigger]
                    added(filter, file, before, mid, None) && scanned(
                        filter,
                        rest,
                        mid,
                        after,
                        failure,
                    );
                lemma_refusal_fails_scan(filter, rest, k - 1, mid, after, failure);
            }
        },
    }
}

} // verus!

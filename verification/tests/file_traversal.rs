use std::cell::Cell;

use cli_utils::file_traversal::{
    add, create_combined_filter, evaluate_all, find, scan, scan_step, Candidate, EntryKind, Error,
    FilterError, PathFilterRet, ScanStep, WalkItem,
};
use cli_utils::ignore_path::IgnorePath;
use cli_utils::path_buf::PathBuf;
use cli_utils::pattern::RegexPattern;

type BoxedFilter<'a> = Box<dyn Fn(&PathBuf) -> PathFilterRet + 'a>;

fn denied() -> std::io::Error {
    std::io::Error::new(std::io::ErrorKind::PermissionDenied, "denied")
}

fn spy<'a>(calls: &'a Cell<u32>, answer: fn() -> PathFilterRet) -> BoxedFilter<'a> {
    Box::new(move |_file: &PathBuf| {
        calls.set(calls.get() + 1);
        answer()
    })
}

fn yes() -> PathFilterRet {
    Ok(true)
}

fn no() -> PathFilterRet {
    Ok(false)
}

fn fails() -> PathFilterRet {
    Err(FilterError::IO(denied()))
}

fn named(path: &str) -> Candidate<PathBuf> {
    Candidate { path: PathBuf::from(path), has_file_name: true }
}

fn nameless(path: &str) -> Candidate<PathBuf> {
    Candidate { path: PathBuf::from(path), has_file_name: false }
}

fn file(path: &str) -> WalkItem<PathBuf> {
    WalkItem::Entry(named(path), EntryKind::NotDir)
}

fn dir(path: &str) -> WalkItem<PathBuf> {
    WalkItem::Entry(named(path), EntryKind::Dir)
}

fn as_it_is(path: &PathBuf) -> Result<PathBuf, std::io::Error> {
    Ok(path.clone())
}

fn texts(paths: &[PathBuf]) -> Vec<String> {
    paths.iter().map(|path| path.display().to_string()).collect()
}

#[test]
fn all_filters_are_asked_when_all_keep() {
    let calls = [Cell::new(0), Cell::new(0), Cell::new(0)];
    let combined =
        create_combined_filter(vec![spy(&calls[0], yes), spy(&calls[1], yes), spy(&calls[2], yes)]);
    assert!(combined(&PathBuf::from("/a")).unwrap());
    assert_eq!([calls[0].get(), calls[1].get(), calls[2].get()], [1, 1, 1]);
}

#[test]
fn nothing_is_asked_behind_the_first_refusal() {
    let calls = [Cell::new(0), Cell::new(0), Cell::new(0)];
    let combined =
        create_combined_filter(vec![spy(&calls[0], yes), spy(&calls[1], no), spy(&calls[2], yes)]);
    assert!(!combined(&PathBuf::from("/a")).unwrap());
    assert_eq!([calls[0].get(), calls[1].get(), calls[2].get()], [1, 1, 0]);
}

#[test]
fn nothing_is_asked_behind_the_first_failure() {
    let calls = [Cell::new(0), Cell::new(0), Cell::new(0)];
    let combined =
        create_combined_filter(vec![spy(&calls[0], fails), spy(&calls[1], no), spy(&calls[2], yes)]);
    let failed = combined(&PathBuf::from("/a")).unwrap_err();
    assert!(matches!(
        failed,
        FilterError::IO(cause) if cause.kind() == std::io::ErrorKind::PermissionDenied
    ));
    assert_eq!([calls[0].get(), calls[1].get(), calls[2].get()], [1, 0, 0]);
}

#[test]
fn a_refusal_before_a_failure_wins() {
    let calls = [Cell::new(0), Cell::new(0)];
    let filters = vec![spy(&calls[0], no), spy(&calls[1], fails)];
    assert!(!evaluate_all(&filters, &PathBuf::from("/a")).unwrap());
    assert_eq!([calls[0].get(), calls[1].get()], [1, 0]);
}

#[test]
fn the_empty_conjunction_keeps_every_path() {
    let combined = create_combined_filter::<PathBuf, BoxedFilter>(Vec::new());
    assert!(combined(&PathBuf::from("/a")).unwrap());
    assert!(combined(&PathBuf::from("")).unwrap());
    assert!(evaluate_all(&Vec::<BoxedFilter>::new(), &PathBuf::from("x")).unwrap());
}

#[test]
fn the_conjunction_is_true_only_if_each_filter_is() {
    let answers: [fn() -> PathFilterRet; 2] = [yes, no];
    for first in answers {
        for second in answers {
            let calls = Cell::new(0);
            let combined = create_combined_filter(vec![spy(&calls, first), spy(&calls, second)]);
            let expected = first().unwrap() && second().unwrap();
            assert_eq!(combined(&PathBuf::from("/a")).unwrap(), expected);
        }
    }
}

#[test]
fn an_io_error_becomes_a_failure_of_the_filter() {
    assert!(matches!(
        FilterError::from(denied()),
        FilterError::IO(cause) if cause.kind() == std::io::ErrorKind::PermissionDenied
    ));
    assert!(matches!(
        Error::<PathBuf>::from(denied()),
        Error::IO(cause) if cause.kind() == std::io::ErrorKind::PermissionDenied
    ));
}

#[test]
fn add_collects_what_the_filter_keeps() {
    let mut collected = Vec::new();
    assert!(add(&|_file: &PathBuf| Ok(true), named("/r/a"), &mut collected).is_ok());
    assert!(add(&|_file: &PathBuf| Ok(false), named("/r/b"), &mut collected).is_ok());
    assert!(add(&|_file: &PathBuf| Ok(true), named("/r/c"), &mut collected).is_ok());
    assert_eq!(texts(&collected), vec!["/r/a", "/r/c"]);
}

#[test]
fn add_refuses_a_path_without_a_file_name() {
    let calls = Cell::new(0);
    let filter = spy(&calls, yes);
    let mut collected = Vec::new();
    let refused = add(&filter, nameless("."), &mut collected);
    assert!(matches!(refused, Err(Error::MissingFileName(path)) if path == PathBuf::from(".")));
    assert!(collected.is_empty());
    assert_eq!(calls.get(), 0);
}

#[test]
fn add_hands_on_the_failure_of_the_filter() {
    let mut collected = vec![PathBuf::from("/r/a")];
    let failed = add(&|_file: &PathBuf| Err(FilterError::IO(denied())), named("/r/b"), &mut collected);
    assert!(matches!(
        failed,
        Err(Error::IO(cause)) if cause.kind() == std::io::ErrorKind::PermissionDenied
    ));
    assert_eq!(texts(&collected), vec!["/r/a"]);
}

#[test]
fn add_names_the_path_that_could_not_be_made_canonical() {
    let mut collected = vec![PathBuf::from("/r/a")];
    let failed = add(
        &|_file: &PathBuf| Err(FilterError::FailedToMakeAbsolute(denied())),
        named("/r/b"),
        &mut collected,
    );
    assert!(matches!(
        failed,
        Err(Error::FailedToMakeAbsolute(path, cause))
            if path == PathBuf::from("/r/b") && cause.kind() == std::io::ErrorKind::PermissionDenied
    ));
    assert_eq!(texts(&collected), vec!["/r/a"]);
}

#[test]
fn a_step_at_the_end_of_the_walk_ends_the_scan() {
    let mut collected = Vec::<PathBuf>::new();
    let step = scan_step(&|_file: &PathBuf| Ok(true), None, &mut collected);
    assert!(matches!(step, ScanStep::Done(Ok(()))));
    assert!(collected.is_empty());
}

#[test]
fn a_step_passes_over_what_is_no_candidate() {
    let calls = Cell::new(0);
    let filter = spy(&calls, yes);
    let mut collected = Vec::new();
    for item in [
        WalkItem::Failed,
        dir("/r/sub"),
        WalkItem::Entry(nameless("/r/.."), EntryKind::Dir),
        WalkItem::Entry(named("/r/odd"), EntryKind::Unknown),
    ] {
        assert!(matches!(scan_step(&filter, Some(item), &mut collected), ScanStep::Next));
    }
    assert!(collected.is_empty());
    assert_eq!(calls.get(), 0);
}

#[test]
fn a_step_offers_a_candidate_to_the_filter() {
    let mut collected = Vec::new();
    let kept = scan_step(&|_file: &PathBuf| Ok(true), Some(file("/r/a")), &mut collected);
    assert!(matches!(kept, ScanStep::Next));
    let left = scan_step(&|_file: &PathBuf| Ok(false), Some(file("/r/b")), &mut collected);
    assert!(matches!(left, ScanStep::Next));
    assert_eq!(texts(&collected), vec!["/r/a"]);
    let failed =
        scan_step(&|_file: &PathBuf| Err(FilterError::IO(denied())), Some(file("/r/c")), &mut collected);
    assert!(matches!(failed, ScanStep::Done(Err(Error::IO(_)))));
    assert_eq!(texts(&collected), vec!["/r/a"]);
}

#[test]
fn a_step_refuses_a_candidate_without_a_file_name() {
    let mut collected = Vec::new();
    let item = WalkItem::Entry(nameless("/r/."), EntryKind::NotDir);
    let step = scan_step(&|_file: &PathBuf| Ok(true), Some(item), &mut collected);
    assert!(matches!(
        step,
        ScanStep::Done(Err(Error::MissingFileName(path))) if path == PathBuf::from("/r/.")
    ));
    assert!(collected.is_empty());
}

#[test]
fn a_scan_skips_what_the_walk_could_not_read() {
    let walk = vec![
        WalkItem::Failed,
        file("/r/a.txt"),
        WalkItem::Entry(named("/r/odd"), EntryKind::Unknown),
        WalkItem::Failed,
        file("/r/b.txt"),
    ];
    let found = find(walk, &|_file: &PathBuf| Ok(true)).unwrap();
    assert_eq!(texts(&found), vec!["/r/a.txt", "/r/b.txt"]);
}

#[test]
fn a_scan_of_nothing_succeeds() {
    let calls = Cell::new(0);
    let filter = spy(&calls, fails);
    assert!(find(Vec::<WalkItem<PathBuf>>::new(), &filter).unwrap().is_empty());
    let walk = vec![WalkItem::Failed, dir("/r/sub"), WalkItem::Failed];
    assert!(find(walk, &filter).unwrap().is_empty());
    assert_eq!(calls.get(), 0);
}

#[test]
fn a_scan_stops_at_the_first_failure_of_the_filter() {
    let calls = Cell::new(0);
    let filter = |path: &PathBuf| {
        calls.set(calls.get() + 1);
        if path.display() == "/r/b.txt" {
            Err(FilterError::IO(denied()))
        } else {
            Ok(true)
        }
    };
    let walk = || vec![file("/r/a.txt"), file("/r/b.txt"), file("/r/c.txt")];
    let mut collected = Vec::new();
    let failed = scan(walk(), &filter, &mut collected);
    assert!(matches!(
        failed,
        Err(Error::IO(cause)) if cause.kind() == std::io::ErrorKind::PermissionDenied
    ));
    assert_eq!(calls.get(), 2);
    assert_eq!(texts(&collected), vec!["/r/a.txt"]);
    assert!(find(walk(), &filter).is_err());
}

#[test]
fn a_scan_stops_at_a_candidate_without_a_file_name() {
    let calls = Cell::new(0);
    let filter = spy(&calls, yes);
    let walk = vec![
        file("/r/a.txt"),
        WalkItem::Entry(nameless("/r/."), EntryKind::NotDir),
        file("/r/c.txt"),
    ];
    let mut collected = Vec::new();
    let failed = scan(walk, &filter, &mut collected);
    assert!(matches!(failed, Err(Error::MissingFileName(path)) if path == PathBuf::from("/r/.")));
    assert_eq!(calls.get(), 1);
    assert_eq!(texts(&collected), vec!["/r/a.txt"]);
}

#[test]
fn a_scan_appends_in_the_order_of_the_walk() {
    let walk = vec![file("/r/z"), file("/r/a"), dir("/r/m"), file("/r/m/k")];
    let mut collected = vec![PathBuf::from("/before")];
    assert!(scan(walk, &|_file: &PathBuf| Ok(true), &mut collected).is_ok());
    assert_eq!(texts(&collected), vec!["/before", "/r/z", "/r/a", "/r/m/k"]);
}

#[test]
fn scanning_with_a_prefix_rule_leaves_out_the_subtree() {
    let walk = vec![
        file("/root/a.txt"),
        file("/root/b.txt"),
        dir("/root/sub"),
        file("/root/sub/c.txt"),
    ];
    let rules = vec![IgnorePath::Prefix(PathBuf::from("/root/sub"))];
    let filter = IgnorePath::create_filter(rules, as_it_is);
    let found = find(walk, &filter).unwrap();
    assert_eq!(texts(&found), vec!["/root/a.txt", "/root/b.txt"]);
}

#[test]
fn scanning_with_a_regex_rule_leaves_out_what_it_finds() {
    let walk = vec![file("/root/a.tmp"), file("/root/a.txt")];
    let rules = vec![IgnorePath::Regex(RegexPattern::new(r"\.tmp$").unwrap())];
    let filter = IgnorePath::create_filter(rules, as_it_is);
    let found = find(walk, &filter).unwrap();
    assert_eq!(texts(&found), vec!["/root/a.txt"]);
}

#[test]
fn scanning_with_a_whole_rule_leaves_out_that_file_only() {
    let walk = vec![file("/root/keep.txt"), file("/root/keepme.txt")];
    let rules = vec![IgnorePath::Whole(PathBuf::from("/root/keep.txt"))];
    let filter = IgnorePath::create_filter(rules, as_it_is);
    let found = find(walk, &filter).unwrap();
    assert_eq!(texts(&found), vec!["/root/keepme.txt"]);
}

#[test]
fn scanning_names_the_candidate_that_cannot_be_canonicalized() {
    let walk = || vec![file("/root/a.txt"), file("/root/gone.txt"), file("/root/b.txt")];
    let rules = || vec![IgnorePath::Prefix(PathBuf::from("/root/sub"))];
    let canonicalize = |path: &PathBuf| {
        if path.display() == "/root/gone.txt" {
            Err(std::io::Error::new(std::io::ErrorKind::NotFound, "gone"))
        } else {
            Ok(path.clone())
        }
    };
    let failed = find(walk(), &IgnorePath::create_filter(rules(), canonicalize)).unwrap_err();
    assert!(matches!(
        &failed,
        Error::FailedToMakeAbsolute(path, cause)
            if *path == PathBuf::from("/root/gone.txt")
                && cause.kind() == std::io::ErrorKind::NotFound
    ));
    let mut collected = Vec::new();
    let filter = IgnorePath::create_filter(rules(), canonicalize);
    assert!(scan(walk(), &filter, &mut collected).is_err());
    assert_eq!(texts(&collected), vec!["/root/a.txt"]);
}

#[test]
fn scanning_with_combined_filters() {
    let walk = vec![file("/root/a.txt"), file("/root/b.md"), file("/root/sub/c.txt")];
    let ignore: BoxedFilter = Box::new(IgnorePath::create_filter(
        vec![IgnorePath::Prefix(PathBuf::from("/root/sub"))],
        as_it_is,
    ));
    let text_only: BoxedFilter = Box::new(|path: &PathBuf| Ok(path.display().ends_with(".txt")));
    let combined = create_combined_filter(vec![ignore, text_only]);
    let found = find(walk, &combined).unwrap();
    assert_eq!(texts(&found), vec!["/root/a.txt"]);
}

#[test]
fn a_combined_filter_hands_on_what_could_not_be_made_canonical() {
    let ignore: BoxedFilter = Box::new(IgnorePath::create_filter(
        vec![IgnorePath::Prefix(PathBuf::from("/root/sub"))],
        |_path: &PathBuf| Err(denied()),
    ));
    let never_asked: BoxedFilter = Box::new(|_path: &PathBuf| Ok(false));
    let combined = create_combined_filter(vec![ignore, never_asked]);
    let failed = find(vec![file("/root/a.txt")], &combined).unwrap_err();
    assert!(matches!(
        failed,
        Error::FailedToMakeAbsolute(path, cause)
            if path == PathBuf::from("/root/a.txt")
                && cause.kind() == std::io::ErrorKind::PermissionDenied
    ));
}

#[test]
fn a_scan_takes_any_type_for_a_path() {
    let entry = |path, kind| WalkItem::Entry(Candidate { path, has_file_name: true }, kind);
    let walk = vec![
        entry("b.txt", EntryKind::NotDir),
        entry("sub", EntryKind::Dir),
        WalkItem::Failed,
        entry("a.md", EntryKind::NotDir),
        entry("a.txt", EntryKind::NotDir),
    ];
    let found = find(walk, &|name: &&str| Ok(name.ends_with(".txt"))).unwrap();
    assert_eq!(found, vec!["b.txt", "a.txt"]);
}

#[test]
fn a_conjunction_takes_any_type_for_a_path() {
    let short: Box<dyn Fn(&str) -> PathFilterRet> = Box::new(|name: &str| Ok(name.len() < 6));
    let text: Box<dyn Fn(&str) -> PathFilterRet> = Box::new(|name: &str| Ok(name.ends_with(".txt")));
    let combined = create_combined_filter(vec![short, text]);
    assert!(combined("a.txt").unwrap());
    assert!(!combined("a.md").unwrap());
    assert!(!combined("abc.txt").unwrap());
}

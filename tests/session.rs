use std::cmp::Ordering;
use std::sync::{Arc, Mutex};

use crabwalk::entry::DirEntry;
use crabwalk::error::from_engine;
use crabwalk::paths::{fspath, fspath_list, PathLike};
use crabwalk::registry::Types;
use crabwalk::plan::{check_selections, plan, BuildStep};
use crabwalk::session::{
    check_roots, compare_bytes, filter_verdict, finish_report, keep_first, order_verdict, route,
    CustomOrder, EntryFilter, ErrorHandler, Overrides, PathOrder, Phase, Pulled, Route, Sort, Step,
    Walk,
};
use crabwalk::Error;

const SOURCE_FILES: [&str; 9] = [
    "src/engine.rs",
    "src/entry.rs",
    "src/error.rs",
    "src/lib.rs",
    "src/paths.rs",
    "src/plan.rs",
    "src/registry.rs",
    "src/session.rs",
    "src",
];

fn collect(w: &mut Walk) -> Result<Vec<DirEntry>, Error> {
    let mut out = Vec::new();
    loop {
        match w.advance()? {
            Step::Entry(e) => out.push(e),
            Step::Skipped => {}
            Step::Done => return Ok(out),
        }
    }
}

fn src_walk() -> Walk {
    let mut w = Walk::new(vec!["src".to_string()]);
    w.disable_standard_filters().unwrap();
    w
}

fn entry(path: &str) -> DirEntry {
    DirEntry {
        path: path.to_string(),
        name: path.to_string(),
        depth: 0,
        dir: Some(false),
        file: Some(true),
        symlink: false,
        inode: None,
        follow_symlinks: false,
    }
}

struct Reject;
impl EntryFilter for Reject {
    fn keep(&self, _entry: &DirEntry) -> Result<bool, Error> {
        Ok(false)
    }
}

struct Explode;
impl EntryFilter for Explode {
    fn keep(&self, _entry: &DirEntry) -> Result<bool, Error> {
        Err(Error::Callback { message: "filter failed".to_string() })
    }
}

struct Reverse;
impl PathOrder for Reverse {
    fn compare(&self, a: &str, b: &str) -> Result<Ordering, Error> {
        Ok(b.cmp(a))
    }
}

struct Raising;
impl ErrorHandler for Raising {
    fn on_error(&self, _error: Error) -> Result<(), Error> {
        Err(Error::Callback { message: "handler failed".to_string() })
    }
}

struct Recording(Mutex<usize>);
impl ErrorHandler for Recording {
    fn on_error(&self, _error: Error) -> Result<(), Error> {
        *self.0.lock().unwrap() += 1;
        Ok(())
    }
}

#[test]
fn new_session_defaults() {
    let w = Walk::new(vec!["src".to_string()]);
    assert_eq!(w.current_phase(), Phase::Unopened);
    assert!(w.hidden() && w.parents() && w.ignore() && w.require_git());
    assert!(w.git_global() && w.git_ignore() && w.git_exclude());
    assert!(!w.follow_symlinks() && !w.same_file_system() && !w.skip_stdout());
    assert_eq!(w.max_depth(), None);
    assert_eq!(w.paths(), &vec!["src".to_string()]);
    assert!(w.leak_warning().is_none());
}

#[test]
fn standard_filters_disable_then_enable() {
    let mut w = Walk::new(vec!["src".to_string()]);
    w.set_hidden(false).unwrap();
    w.set_git_ignore(true).unwrap();
    w.disable_standard_filters().unwrap();
    assert!(!w.hidden() && !w.parents() && !w.ignore());
    assert!(!w.git_ignore() && !w.git_global() && !w.git_exclude());
    assert!(w.require_git());
    w.enable_standard_filters().unwrap();
    assert!(w.hidden() && w.parents() && w.ignore());
    assert!(w.git_ignore() && w.git_global() && w.git_exclude());
}

#[test]
fn setters_work_before_first_step() {
    let mut w = Walk::new(vec!["src".to_string()]);
    w.set_max_depth(Some(3)).unwrap();
    w.set_follow_symlinks(true).unwrap();
    w.set_max_filesize(Some(10)).unwrap();
    w.set_sort(Sort::ByPath).unwrap();
    assert_eq!(w.max_depth(), Some(3));
    assert!(w.follow_symlinks());
    assert_eq!(w.max_filesize(), Some(10));
}

#[test]
fn setters_refused_after_first_step() {
    let mut w = src_walk();
    assert!(w.advance().is_ok());
    assert_eq!(w.current_phase(), Phase::Started);
    assert!(matches!(w.set_hidden(true), Err(Error::State { .. })));
    assert!(matches!(w.set_max_depth(Some(1)), Err(Error::State { .. })));
    assert!(matches!(w.set_types(None), Err(Error::State { .. })));
    assert!(matches!(w.enable_standard_filters(), Err(Error::State { .. })));
    assert!(!w.hidden());
    assert!(w.leak_warning().is_some());
    w.close();
    assert!(w.leak_warning().is_none());
}

#[test]
fn closed_before_first_step() {
    let mut w = src_walk();
    w.close();
    w.close();
    assert!(matches!(w.advance(), Err(Error::State { .. })));
    assert!(matches!(w.advance(), Err(Error::State { .. })));
    assert_eq!(w.current_phase(), Phase::Closed);
}

#[test]
fn enter_is_not_reentrant() {
    let mut w = src_walk();
    w.enter().unwrap();
    assert_eq!(w.current_phase(), Phase::Opened);
    assert!(matches!(w.enter(), Err(Error::State { .. })));
    w.set_hidden(false).unwrap();
    w.exit();
    assert!(matches!(w.enter(), Err(Error::State { .. })));
}

#[test]
fn roots_are_checked() {
    assert!(matches!(check_roots(&Vec::new()), Err(Error::TypeConversion { .. })));
    let stdin = vec!["src".to_string(), "-".to_string()];
    assert!(matches!(check_roots(&stdin), Err(Error::TypeConversion { .. })));
    assert!(check_roots(&vec!["./-".to_string()]).is_ok());
    let mut w = Walk::new(vec!["-".to_string()]);
    assert!(matches!(w.advance(), Err(Error::TypeConversion { .. })));
    assert_eq!(w.current_phase(), Phase::Unopened);
    let mut empty = Walk::new(Vec::new());
    assert!(matches!(empty.advance(), Err(Error::TypeConversion { .. })));
}

#[test]
fn unfiltered_walk_visits_everything_once() {
    let mut w = src_walk();
    let entries = collect(&mut w).unwrap();
    let mut paths: Vec<String> = entries.iter().map(|e| e.path().to_string()).collect();
    paths.sort();
    let mut expected: Vec<String> = SOURCE_FILES.iter().map(|s| s.to_string()).collect();
    expected.sort();
    assert_eq!(paths, expected);
    let root = entries.iter().find(|e| e.path() == "src").unwrap();
    assert_eq!(root.depth(), 0);
    assert!(root.is_dir() && !root.is_file());
    let lib = entries.iter().find(|e| e.path() == "src/lib.rs").unwrap();
    assert_eq!(lib.name(), "lib.rs");
    assert_eq!(lib.depth(), 1);
    assert!(lib.is_file() && !lib.is_symlink());
    assert!(lib.inode().is_some());
    assert!(matches!(w.advance(), Ok(Step::Done)));
}

#[test]
fn max_depth_zero_yields_root_only() {
    let mut w = src_walk();
    w.set_max_depth(Some(0)).unwrap();
    let entries = collect(&mut w).unwrap();
    assert_eq!(entries.len(), 1);
    assert_eq!(entries[0].path(), "src");
}

#[test]
fn sorted_by_path_bytes() {
    let mut w = src_walk();
    w.set_sort(Sort::ByPath).unwrap();
    let paths: Vec<String> = collect(&mut w).unwrap().iter().map(|e| e.path().to_string()).collect();
    let mut sorted = paths[1..].to_vec();
    sorted.sort();
    assert_eq!(paths[1..].to_vec(), sorted);
}

#[test]
fn sorted_by_caller_order() {
    let mut w = src_walk();
    w.set_sort(Sort::Custom(CustomOrder { order: Arc::new(Reverse) })).unwrap();
    let paths: Vec<String> = collect(&mut w).unwrap().iter().map(|e| e.path().to_string()).collect();
    assert_eq!(paths[1], "src/session.rs");
    assert_eq!(paths[paths.len() - 1], "src/engine.rs");
}

#[test]
fn filter_rejecting_everything_yields_only_the_root() {
    let mut w = src_walk();
    w.set_filter_entry(Some(Arc::new(Reject))).unwrap();
    let entries = collect(&mut w).unwrap();
    assert_eq!(entries.len(), 1);
    assert_eq!(entries[0].depth(), 0);
}

#[test]
fn failing_filter_raises_its_own_error() {
    let mut w = src_walk();
    w.set_onerror(Some(Arc::new(Recording(Mutex::new(0))))).unwrap();
    w.set_filter_entry(Some(Arc::new(Explode))).unwrap();
    match w.advance() {
        Ok(Step::Entry(root)) => assert_eq!(root.depth(), 0),
        other => panic!("unexpected {:?}", other.is_ok()),
    }
    match w.advance() {
        Err(Error::Callback { message }) => assert_eq!(message, "filter failed"),
        other => panic!("unexpected {:?}", other.is_ok()),
    }
}

#[test]
fn failing_handler_ends_the_step() {
    let mut w = Walk::new(vec!["no-such-directory-here".to_string()]);
    w.set_onerror(Some(Arc::new(Raising))).unwrap();
    match w.advance() {
        Err(Error::Callback { message }) => assert_eq!(message, "handler failed"),
        other => panic!("unexpected {:?}", other.is_ok()),
    }
}

#[test]
fn errors_skipped_without_handler_and_reported_with_one() {
    let mut w = Walk::new(vec!["no-such-directory-here".to_string()]);
    assert!(matches!(w.advance(), Ok(Step::Skipped)));
    assert!(matches!(w.advance(), Ok(Step::Done)));
    let handler = Arc::new(Recording(Mutex::new(0)));
    let mut v = Walk::new(vec!["no-such-directory-here".to_string()]);
    v.set_onerror(Some(handler.clone())).unwrap();
    assert_eq!(collect(&mut v).unwrap().len(), 0);
    assert_eq!(*handler.0.lock().unwrap(), 1);
}

#[test]
fn malformed_override_fails_compilation() {
    let mut w = src_walk();
    let overrides = Overrides { path: "src".to_string(), globs: vec![("[".to_string(), false)] };
    w.set_overrides(Some(overrides)).unwrap();
    assert!(matches!(w.advance(), Err(Error::Glob { .. })));
    assert_eq!(w.current_phase(), Phase::Unopened);
}

#[test]
fn override_whitelist_keeps_matching_files() {
    let mut w = src_walk();
    let overrides = Overrides { path: "src".to_string(), globs: vec![("lib.rs".to_string(), false)] };
    w.set_overrides(Some(overrides)).unwrap();
    let paths: Vec<String> = collect(&mut w).unwrap().iter().map(|e| e.path().to_string()).collect();
    assert_eq!(paths, vec!["src".to_string(), "src/lib.rs".to_string()]);
}

#[test]
fn type_selection_limits_files() {
    let mut t = Types::new();
    t.add("lib", "lib.rs").unwrap();
    t.add("paths", "paths.rs").unwrap();
    t.select("lib");
    let mut w = src_walk();
    w.set_types(Some(t)).unwrap();
    let paths: Vec<String> = collect(&mut w).unwrap().iter().map(|e| e.path().to_string()).collect();
    assert_eq!(paths, vec!["src".to_string(), "src/lib.rs".to_string()]);
}

#[test]
fn unknown_type_selection_fails_compilation() {
    let mut t = Types::new();
    t.select("nothing");
    let mut w = src_walk();
    w.set_types(Some(t)).unwrap();
    match w.advance() {
        Err(Error::UnrecognizedFileType { name }) => assert_eq!(name, "nothing"),
        other => panic!("unexpected {:?}", other.is_ok()),
    }
}

#[test]
fn route_gives_callback_failure_priority() {
    let r = route(
        Some(Error::Callback { message: "x".to_string() }),
        Pulled::Entry(entry("a"), None),
        true,
    );
    assert!(matches!(r, Route::Raise(Error::Callback { .. })));
}

#[test]
fn route_reports_warning_and_yields_entry() {
    let r = route(None, Pulled::Entry(entry("a"), Some(Error::InvalidDefinition)), true);
    assert!(matches!(r, Route::Report(Error::InvalidDefinition, Some(_))));
    let r = route(None, Pulled::Entry(entry("a"), Some(Error::InvalidDefinition)), false);
    assert!(matches!(r, Route::Yield(_)));
}

#[test]
fn route_reports_or_skips_errors() {
    let r = route(None, Pulled::Failed(Error::InvalidDefinition), true);
    assert!(matches!(r, Route::Report(Error::InvalidDefinition, None)));
    let r = route(None, Pulled::Failed(Error::InvalidDefinition), false);
    assert!(matches!(r, Route::Skip));
    assert!(matches!(route(None, Pulled::End, true), Route::Done));
    assert!(matches!(route(None, Pulled::Entry(entry("a"), None), true), Route::Yield(_)));
}

#[test]
fn verdicts_fall_back_on_failure() {
    assert!(!filter_verdict(&Ok(false)));
    assert!(filter_verdict(&Ok(true)));
    assert!(filter_verdict(&Err(Error::InvalidDefinition)));
    assert_eq!(order_verdict(&Ok(Ordering::Greater), "a", "b"), Ordering::Greater);
    assert_eq!(order_verdict(&Err(Error::InvalidDefinition), "b", "a"), Ordering::Greater);
}

#[test]
fn byte_order_of_paths() {
    assert_eq!(compare_bytes("a", "b"), Ordering::Less);
    assert_eq!(compare_bytes("ab", "a"), Ordering::Greater);
    assert_eq!(compare_bytes("", ""), Ordering::Equal);
    assert_eq!(compare_bytes("B", "a"), Ordering::Less);
    assert_eq!(compare_bytes("é", "z"), Ordering::Greater);
}

#[test]
fn engine_errors_keep_annotations() {
    let inner = ignore::Error::Glob { glob: Some("[".to_string()), err: "unclosed".to_string() };
    let e = ignore::Error::WithDepth { depth: 3, err: Box::new(ignore::Error::WithLineNumber { line: 7, err: Box::new(inner) }) };
    match from_engine(e) {
        Error::WithDepth { depth, err } => {
            assert_eq!(depth, 3);
            match *err {
                Error::WithLineNumber { line, err } => {
                    assert_eq!(line, 7);
                    match *err {
                        Error::Glob { glob, message } => {
                            assert_eq!(glob, Some("[".to_string()));
                            assert_eq!(message, "unclosed");
                        }
                        other => panic!("unexpected {:?}", other),
                    }
                }
                other => panic!("unexpected {:?}", other),
            }
        }
        other => panic!("unexpected {:?}", other),
    }
    let partial = ignore::Error::Partial(vec![
        ignore::Error::InvalidDefinition,
        ignore::Error::UnrecognizedFileType("zz".to_string()),
    ]);
    match from_engine(partial) {
        Error::Partial(causes) => {
            assert_eq!(causes.len(), 2);
            assert!(matches!(causes[0], Error::InvalidDefinition));
            assert!(matches!(&causes[1], Error::UnrecognizedFileType { name } if name == "zz"));
        }
        other => panic!("unexpected {:?}", other),
    }
}

#[test]
fn path_like_values() {
    assert_eq!(fspath(PathLike::Text("a/b".to_string())).unwrap(), "a/b");
    assert_eq!(fspath(PathLike::Bytes(b"c/d".to_vec())).unwrap(), "c/d");
    assert!(matches!(fspath(PathLike::Bytes(vec![0xff, 0xfe])), Err(Error::TypeConversion { .. })));
    let all = fspath_list(vec![PathLike::Text("x".to_string()), PathLike::Bytes(b"y".to_vec())]).unwrap();
    assert_eq!(all, vec!["x".to_string(), "y".to_string()]);
    assert!(fspath_list(vec![PathLike::Text("x".to_string()), PathLike::Bytes(vec![0xc3])]).is_err());
}

#[test]
fn report_outcome_decides_step() {
    assert!(matches!(finish_report(Some(entry("a")), Ok(())), Ok(Step::Entry(_))));
    assert!(matches!(finish_report(None, Ok(())), Ok(Step::Skipped)));
    assert!(matches!(
        finish_report(Some(entry("a")), Err(Error::Callback { message: "h".to_string() })),
        Err(Error::Callback { .. })
    ));
}

#[test]
fn first_callback_failure_is_kept() {
    let kept = keep_first(Some(Error::InvalidDefinition), Error::InvalidState);
    assert!(matches!(kept, Error::InvalidDefinition));
    assert!(matches!(keep_first(None, Error::InvalidState), Error::InvalidState));
}

#[test]
fn plan_lists_steps_in_order() {
    let mut w = Walk::new(vec!["a".to_string(), "b".to_string()]);
    w.set_global_ignore_files(vec!["g".to_string()]).unwrap();
    w.set_sort(Sort::ByPath).unwrap();
    let mut t = Types::new();
    t.add("rust", "*.rs").unwrap();
    t.negate("rust");
    w.set_types(Some(t)).unwrap();
    let steps = plan(w.config_ref());
    assert_eq!(steps.len(), 1 + 13 + 1 + 1 + 3);
    assert!(matches!(&steps[0], BuildStep::Root(p) if p == "b"));
    assert!(matches!(steps[1], BuildStep::MaxDepth(None)));
    assert!(matches!(steps[4], BuildStep::Hidden(true)));
    assert!(matches!(&steps[14], BuildStep::IgnoreFile(p) if p == "g"));
    assert!(matches!(steps[15], BuildStep::SortByPath));
    assert!(matches!(&steps[16], BuildStep::TypeDef(n, g) if n == "rust" && g == &vec!["*.rs".to_string()]));
    assert!(matches!(&steps[17], BuildStep::Negate(n) if n == "rust"));
    assert!(matches!(steps[18], BuildStep::TypesDone));
}

#[test]
fn unregistered_selection_is_named() {
    let mut t = Types::new();
    t.add("a", "*.a").unwrap();
    t.select("a");
    assert!(check_selections(&t).is_ok());
    t.negate("zz");
    match check_selections(&t) {
        Err(Error::UnrecognizedFileType { name }) => assert_eq!(name, "zz"),
        other => panic!("unexpected {:?}", other.is_ok()),
    }
}

#[test]
fn failing_global_ignore_file_goes_to_handler() {
    let handler = Arc::new(Recording(Mutex::new(0)));
    let mut w = src_walk();
    w.set_global_ignore_files(vec!["no-such-ignore-file".to_string()]).unwrap();
    w.set_onerror(Some(handler.clone())).unwrap();
    assert_eq!(collect(&mut w).unwrap().len(), SOURCE_FILES.len());
    assert_eq!(*handler.0.lock().unwrap(), 1);
}

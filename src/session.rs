//! The traversal session: configuration that freezes once iteration starts,
//! compilation of that configuration into an engine traversal, and the step
//! that yields entries while routing errors.

use std::sync::Arc;

use vstd::prelude::*;
use vstd::string::StringSliceAdditionalSpecFns;

use crate::engine::{
    builder_add_custom_ignore_filename, builder_add_ignore, builder_add_root, builder_build,
    builder_filter_entry, builder_follow_links, builder_git_exclude, builder_git_global,
    builder_git_ignore, builder_hidden, builder_ignore, builder_ignore_case_insensitive,
    builder_max_depth, builder_max_filesize, builder_new, builder_overrides, builder_parents,
    builder_require_git, builder_same_file_system, builder_skip_stdout, builder_sort_by_file_path,
    builder_types, new_slot, overrides_add, overrides_case_insensitive, overrides_new, raw_warning,
    slot_put, slot_take, traversal_next, types_add, types_negate, types_new, types_select,
    FailureSlot,
};
use crate::entry::DirEntry;
use crate::error::{from_engine, mirrors, Error};
use crate::plan::{
    all_allowed, check_selections, lemma_plan_allowed, plan, selections_registered, step_allowed,
    steps_view, BuildStep,
};
use crate::registry::Types;

verus! {

/// The root that conventionally denotes standard input; `./-` reaches a
/// file of that name.
pub const STDIN_PATH: &'static str = "-";

/// A caller's predicate over entries: `Ok(false)` leaves an entry out (and a
/// directory's contents with it); an `Err` is raised from the step that
/// pulled the entry.
pub trait EntryFilter: Send + Sync {
    fn keep(&self, entry: &DirEntry) -> Result<bool, Error>;
}

/// A caller's order over sibling paths; an `Err` is raised from the next
/// step, and the two paths are then ordered by their bytes.
pub trait PathOrder: Send + Sync {
    fn compare(&self, a: &str, b: &str) -> Result<std::cmp::Ordering, Error>;
}

/// A caller's handler of traversal errors; an `Err` it returns ends the step
/// that called it with that error.
pub trait ErrorHandler: Send + Sync {
    fn on_error(&self, error: Error) -> Result<(), Error>;
}

/// A caller's filter, shared with the engine.
pub type SharedFilter = Arc<dyn EntryFilter>;

/// A caller's order, shared with the engine.
pub type SharedOrder = Arc<dyn PathOrder>;

/// A caller's error handler.
pub type SharedHandler = Arc<dyn ErrorHandler>;

/// A caller's order, as a sort setting holds it.
pub struct CustomOrder {
    pub order: SharedOrder,
}

/// How siblings are ordered.
pub enum Sort {
    /// In the order the file system lists them.
    Disabled,
    /// By the bytes of their paths.
    ByPath,
    /// By a caller's order.
    Custom(CustomOrder),
}

/// Globs that take precedence over every ignore rule, matched relative to
/// `path`: each glob with whether it ignores case.
pub struct Overrides {
    pub path: String,
    pub globs: Vec<(String, bool)>,
}

/// Everything a session is configured with.
pub struct Config {
    pub paths: Vec<String>,
    pub max_depth: Option<usize>,
    pub follow_symlinks: bool,
    pub max_filesize: Option<u64>,
    pub global_ignore_files: Vec<String>,
    pub custom_ignore_filenames: Vec<String>,
    pub overrides: Option<Overrides>,
    pub types: Option<Types>,
    pub hidden: bool,
    pub parents: bool,
    pub ignore: bool,
    pub git_global: bool,
    pub git_ignore: bool,
    pub git_exclude: bool,
    pub require_git: bool,
    pub ignore_case_insensitive: bool,
    pub sort: Sort,
    pub same_file_system: bool,
    pub skip_stdout: bool,
    pub filter_entry: Option<SharedFilter>,
    pub onerror: Option<SharedHandler>,
}

/// Where a session stands in its life; it only moves forward.
#[derive(PartialEq, Eq, Structural, Debug, Clone, Copy)]
pub enum Phase {
    Unopened,
    Opened,
    Started,
    Closed,
}

/// Whether a session in phase `p` still takes configuration changes.
pub open spec fn configurable(p: Phase) -> bool {
    p == Phase::Unopened || p == Phase::Opened
}

/// The six standard filters all set to `yes`, the rest of `c` kept.
pub open spec fn with_standard_filters(c: Config, yes: bool) -> Config {
    Config {
        hidden: yes,
        parents: yes,
        ignore: yes,
        git_ignore: yes,
        git_global: yes,
        git_exclude: yes,
        ..c
    }
}

/// Roots a traversal can start from: at least one, none of them `-`.
pub open spec fn roots_valid(paths: Seq<String>) -> bool {
    paths.len() > 0 && forall|i: int| 0 <= i < paths.len() ==> (#[trigger] paths[i])@ != STDIN_PATH@
}

/// The byte-wise lexicographic order of two byte sequences.
pub open spec fn byte_order(x: Seq<u8>, y: Seq<u8>) -> std::cmp::Ordering
    decreases x.len(),
{
    if x.len() == 0 {
        if y.len() == 0 {
            std::cmp::Ordering::Equal
        } else {
            std::cmp::Ordering::Less
        }
    } else if y.len() == 0 {
        std::cmp::Ordering::Greater
    } else if x[0] < y[0] {
        std::cmp::Ordering::Less
    } else if x[0] > y[0] {
        std::cmp::Ordering::Greater
    } else {
        byte_order(x.drop_first(), y.drop_first())
    }
}

/// What one pull from the traversal gave, in the library's terms.
pub enum Pulled {
    /// An entry, with a warning the engine attached to it, if any.
    Entry(DirEntry, Option<Error>),
    /// An error in place of an entry.
    Failed(Error),
    /// The traversal is over.
    End,
}

/// What a step does with a pull.
pub enum Route {
    /// Raise a callback's failure at once.
    Raise(Error),
    /// Hand an error to the error handler, then yield the entry, if any.
    Report(Error, Option<DirEntry>),
    /// Yield the entry.
    Yield(DirEntry),
    /// Go on without yielding.
    Skip,
    /// Signal the end.
    Done,
}

/// What one step of a session produced.
pub enum Step {
    /// The next entry.
    Entry(DirEntry),
    /// Nothing this time: an error was skipped or handled; step again.
    Skipped,
    /// The traversal is over.
    Done,
}

/// Whether a session hands the engine a callback of the caller's that can
/// fail while the engine runs it: an entry filter or a custom order.
pub open spec fn hooked(c: Config) -> bool {
    c.filter_entry is Some || c.sort is Custom
}

/// What a step gives after the error handler ran on a reported error: the
/// handler's failure, or else the entry, if any.
pub open spec fn after_report(entry: Option<DirEntry>, handled: Result<(), Error>) -> Result<Step, Error> {
    match handled {
        Err(h) => Err(h),
        Ok(()) => Ok(
            match entry {
                Some(d) => Step::Entry(d),
                None => Step::Skipped,
            },
        ),
    }
}

/// `r` is what a step gives once `route` has decided: the raised failure, the
/// end, the entry, nothing; after a report, what `after_report` gives for the
/// handler's outcome.
pub open spec fn step_follows(r: Result<Step, Error>, decision: Route) -> bool {
    match decision {
        Route::Raise(e) => r == Err::<Step, Error>(e),
        Route::Done => r == Ok::<Step, Error>(Step::Done),
        Route::Yield(d) => r == Ok::<Step, Error>(Step::Entry(d)),
        Route::Skip => r == Ok::<Step, Error>(Step::Skipped),
        Route::Report(_, d) => exists|handled: Result<(), Error>| r == after_report(d, handled),
    }
}

/// What a step gives after the error handler ran on a reported error.
pub fn finish_report(entry: Option<DirEntry>, handled: Result<(), Error>) -> (r: Result<Step, Error>)
    ensures
        r == after_report(entry, handled),
{
    match handled {
        Err(h) => Err(h),
        Ok(()) => Ok(
            match entry {
                Some(d) => Step::Entry(d),
                None => Step::Skipped,
            },
        ),
    }
}

/// The failure a slot keeps when a callback fails: the one it already
/// holds, else the new one.
pub fn keep_first(held: Option<Error>, incoming: Error) -> (r: Error)
    ensures
        r == match held {
            Some(e) => e,
            None => incoming,
        },
{
    match held {
        Some(e) => e,
        None => incoming,
    }
}

/// What a step does with a pull: a failure a callback left behind comes
/// first; then an entry is yielded, its warning reported first when a
/// handler is set; an error is reported when a handler is set and skipped
/// otherwise.
pub open spec fn decision(pending: Option<Error>, pulled: Pulled, has_handler: bool) -> Route {
    match pending {
        Some(e) => Route::Raise(e),
        None => match pulled {
            Pulled::End => Route::Done,
            Pulled::Entry(d, Some(w)) => if has_handler {
                Route::Report(w, Some(d))
            } else {
                Route::Yield(d)
            },
            Pulled::Entry(d, None) => Route::Yield(d),
            Pulled::Failed(e) => if has_handler {
                Route::Report(e, None)
            } else {
                Route::Skip
            },
        },
    }
}

/// Decides what a step does with a pull.
pub fn route(pending: Option<Error>, pulled: Pulled, has_handler: bool) -> (r: Route)
    ensures
        r == decision(pending, pulled, has_handler),
{
    match pending {
        Some(e) => Route::Raise(e),
        None => match pulled {
            Pulled::End => Route::Done,
            Pulled::Entry(d, Some(w)) => if has_handler {
                Route::Report(w, Some(d))
            } else {
                Route::Yield(d)
            },
            Pulled::Entry(d, None) => Route::Yield(d),
            Pulled::Failed(e) => if has_handler {
                Route::Report(e, None)
            } else {
                Route::Skip
            },
        },
    }
}

/// What the engine is told of an entry given a filter's answer: the answer
/// itself, or keep when the filter failed, so that the failure reaches the
/// step that raises it.
pub fn filter_verdict(outcome: &Result<bool, Error>) -> (r: bool)
    ensures
        r == match outcome {
            Ok(b) => *b,
            Err(_) => true,
        },
{
    match outcome {
        Ok(b) => *b,
        Err(_) => true,
    }
}

/// The order of two paths by their bytes.
pub fn compare_bytes(a: &str, b: &str) -> (r: std::cmp::Ordering)
    ensures
        r == byte_order(a.spec_bytes(), b.spec_bytes()),
{
    let x = a.as_bytes();
    let y = b.as_bytes();
    let mut i: usize = 0;
    proof {
        assert(x@.subrange(0, x@.len() as int) =~= x@);
        assert(y@.subrange(0, y@.len() as int) =~= y@);
    }
    while i < x.len() && i < y.len()
        invariant
            x@ == a.spec_bytes(),
            y@ == b.spec_bytes(),
            i <= x@.len(),
            i <= y@.len(),
            byte_order(x@, y@) == byte_order(
                x@.subrange(i as int, x@.len() as int),
                y@.subrange(i as int, y@.len() as int),
            ),
        decreases x@.len() - i,
    {
        let ghost xs = x@.subrange(i as int, x@.len() as int);
        let ghost ys = y@.subrange(i as int, y@.len() as int);
        proof {
            assert(xs[0] == x@[i as int]);
            assert(ys[0] == y@[i as int]);
        }
        if x[i] < y[i] {
            return std::cmp::Ordering::Less;
        }
        if x[i] > y[i] {
            return std::cmp::Ordering::Greater;
        }
        proof {
            assert(xs.drop_first() =~= x@.subrange(i + 1, x@.len() as int));
            assert(ys.drop_first() =~= y@.subrange(i + 1, y@.len() as int));
        }
        i = i + 1;
    }
    proof {
        let xs = x@.subrange(i as int, x@.len() as int);
        let ys = y@.subrange(i as int, y@.len() as int);
        assert(xs.len() == 0 || ys.len() == 0);
    }
    if x.len() == y.len() {
        std::cmp::Ordering::Equal
    } else if i == x.len() {
        std::cmp::Ordering::Less
    } else {
        std::cmp::Ordering::Greater
    }
}

/// The order the engine is told for two paths given a caller's answer: the
/// answer itself, or byte order when the caller failed.
pub fn order_verdict(outcome: &Result<std::cmp::Ordering, Error>, a: &str, b: &str) -> (r:
    std::cmp::Ordering)
    ensures
        r == match outcome {
            Ok(o) => *o,
            Err(_) => byte_order(a.spec_bytes(), b.spec_bytes()),
        },
{
    match outcome {
        Ok(o) => *o,
        Err(_) => compare_bytes(a, b),
    }
}

/// Keeps the first failure a callback reports until a step collects it.
fn hold_failure(slot: &FailureSlot, e: Error) {
    let held = slot_take(slot);
    slot_put(slot, keep_first(held, e));
}

/// A caller's filter as the engine runs it.
pub struct FilterHook {
    pub(crate) filter: SharedFilter,
    pub(crate) pending: FailureSlot,
    pub(crate) follow_symlinks: bool,
}

impl FilterHook {
    /// Whether the engine keeps `raw`.
    pub fn keep_raw(&self, raw: &ignore::DirEntry) -> bool {
        let entry = DirEntry::from_raw(raw, self.follow_symlinks);
        let outcome = self.filter.keep(&entry);
        let verdict = filter_verdict(&outcome);
        match outcome {
            Ok(_) => {},
            Err(e) => hold_failure(&self.pending, e),
        }
        verdict
    }
}

/// A sibling order as the engine runs it: a caller's, or byte order.
pub struct OrderHook {
    pub(crate) order: Option<SharedOrder>,
    pub(crate) pending: FailureSlot,
}

impl OrderHook {
    /// The caller's order, if one was given.
    pub closed spec fn custom(&self) -> Option<SharedOrder> {
        self.order
    }

    /// The order of two sibling paths: the caller's answer, or byte order
    /// when there is no caller's order or it failed.
    pub fn order(&self, a: &str, b: &str) -> (r: std::cmp::Ordering)
        ensures
            self.custom() is None ==> r == byte_order(a.spec_bytes(), b.spec_bytes()),
    {
        match &self.order {
            Some(o) => {
                let outcome = o.compare(a, b);
                let verdict = order_verdict(&outcome, a, b);
                match outcome {
                    Ok(_) => {},
                    Err(e) => hold_failure(&self.pending, e),
                }
                verdict
            },
            None => compare_bytes(a, b),
        }
    }
}

/// Checks the roots a traversal starts from.
pub fn check_roots(paths: &Vec<String>) -> (r: Result<(), Error>)
    ensures
        r is Ok <==> roots_valid(paths@),
        r is Err ==> (r matches Err(Error::TypeConversion { .. })),
{
    if paths.len() == 0 {
        return Err(Error::TypeConversion { message: "Must specify at least one path".to_owned() });
    }
    let stdin = STDIN_PATH.to_owned();
    let mut i: usize = 0;
    while i < paths.len()
        invariant
            stdin@ == STDIN_PATH@,
            i <= paths@.len(),
            forall|j: int| 0 <= j < i ==> (#[trigger] paths@[j])@ != STDIN_PATH@,
        decreases paths@.len() - i,
    {
        if paths[i] == stdin {
            return Err(
                Error::TypeConversion {
                    message: "path cannot be '-', use './-' if you need this.".to_owned(),
                },
            );
        }
        i = i + 1;
    }
    Ok(())
}

/// A traversal session.
pub struct Walk {
    phase: Phase,
    traversal: Option<ignore::Walk>,
    config: Config,
    pending: FailureSlot,
}

impl Walk {
    /// The configuration.
    pub closed spec fn config(&self) -> Config {
        self.config
    }

    /// Where the session stands.
    pub closed spec fn phase(&self) -> Phase {
        self.phase
    }

    /// A traversal exactly when started, and a well-formed registry if any.
    pub closed spec fn wf(&self) -> bool {
        &&& (self.phase == Phase::Started <==> self.traversal is Some)
        &&& (self.config.types matches Some(t) ==> t.wf())
    }

    /// A session over `paths` with the standard filters on, repository
    /// rules required, everything else off and no callbacks.
    pub fn new(paths: Vec<String>) -> (r: Walk)
        ensures
            r.wf(),
            r.phase() == Phase::Unopened,
            r.config().paths == paths,
            r.config().max_depth is None,
            r.config().max_filesize is None,
            !r.config().follow_symlinks,
            r.config().global_ignore_files@.len() == 0,
            r.config().custom_ignore_filenames@.len() == 0,
            r.config().overrides is None,
            r.config().types is None,
            r.config().hidden && r.config().parents && r.config().ignore,
            r.config().git_global && r.config().git_ignore && r.config().git_exclude,
            r.config().require_git,
            !r.config().ignore_case_insensitive,
            r.config().sort is Disabled,
            !r.config().same_file_system && !r.config().skip_stdout,
            r.config().filter_entry is None && r.config().onerror is None,
    {
        Walk {
            phase: Phase::Unopened,
            traversal: None,
            config: Config {
                paths,
                max_depth: None,
                follow_symlinks: false,
                max_filesize: None,
                global_ignore_files: Vec::new(),
                custom_ignore_filenames: Vec::new(),
                overrides: None,
                types: None,
                hidden: true,
                parents: true,
                ignore: true,
                git_global: true,
                git_ignore: true,
                git_exclude: true,
                require_git: true,
                ignore_case_insensitive: false,
                sort: Sort::Disabled,
                same_file_system: false,
                skip_stdout: false,
                filter_entry: None,
                onerror: None,
            },
            pending: new_slot(),
        }
    }

    /// The configuration.
    pub fn config_ref(&self) -> (r: &Config)
        ensures
            *r == self.config(),
    {
        &self.config
    }

    /// Where the session stands.
    pub fn current_phase(&self) -> (r: Phase)
        ensures
            r == self.phase(),
    {
        self.phase
    }

    /// Fails once iteration has started or the session is closed; every
    /// setter makes this check first.
    pub fn check_configurable(&self) -> (r: Result<(), Error>)
        ensures
            r is Ok <==> configurable(self.phase()),
            r is Err ==> (r matches Err(Error::State { .. })),
    {
        match self.phase {
            Phase::Unopened | Phase::Opened => Ok(()),
            _ => Err(
                Error::State {
                    message: "This property is read-only once iteration has started".to_owned(),
                },
            ),
        }
    }

    /// Turns the six standard filters off: hidden entries, parent ignore
    /// files, `.ignore`, global git ignore, `.gitignore` and git excludes.
    pub fn disable_standard_filters(&mut self) -> (r: Result<(), Error>)
        requires
            old(self).wf(),
        ensures
            final(self).wf(),
            final(self).phase() == old(self).phase(),
            r is Ok <==> configurable(old(self).phase()),
            r is Ok ==> final(self).config() == with_standard_filters(old(self).config(), false),
            r is Err ==> (r matches Err(Error::State { .. })),
            r is Err ==> final(self).config() == old(self).config(),
    {
        match self.check_configurable() {
            Ok(()) => {},
            Err(e) => return Err(e),
        }
        self.config.hidden = false;
        self.config.parents = false;
        self.config.ignore = false;
        self.config.git_ignore = false;
        self.config.git_global = false;
        self.config.git_exclude = false;
        Ok(())
    }

    /// Turns the six standard filters back on.
    pub fn enable_standard_filters(&mut self) -> (r: Result<(), Error>)
        requires
            old(self).wf(),
        ensures
            final(self).wf(),
            final(self).phase() == old(self).phase(),
            r is Ok <==> configurable(old(self).phase()),
            r is Ok ==> final(self).config() == with_standard_filters(old(self).config(), true),
            r is Err ==> (r matches Err(Error::State { .. })),
            r is Err ==> final(self).config() == old(self).config(),
    {
        match self.check_configurable() {
            Ok(()) => {},
            Err(e) => return Err(e),
        }
        self.config.hidden = true;
        self.config.parents = true;
        self.config.ignore = true;
        self.config.git_ignore = true;
        self.config.git_global = true;
        self.config.git_exclude = true;
        Ok(())
    }

    /// The deepest level the traversal descends to; none for no limit.
    pub fn max_depth(&self) -> (r: Option<usize>)
        ensures
            r == self.config().max_depth,
    {
        self.config.max_depth
    }

    /// Sets `max_depth`; fails once iteration has started.
    pub fn set_max_depth(&mut self, value: Option<usize>) -> (r: Result<(), Error>)
        requires
            old(self).wf(),
        ensures
            final(self).wf(),
            final(self).phase() == old(self).phase(),
            r is Ok <==> configurable(old(self).phase()),
            r is Ok ==> final(self).config() == (Config { max_depth: value, ..old(self).config() }),
            r is Err ==> (r matches Err(Error::State { .. })),
            r is Err ==> final(self).config() == old(self).config(),
    {
        match self.check_configurable() {
            Ok(()) => {},
            Err(e) => return Err(e),
        }
        self.config.max_depth = value;
        Ok(())
    }

    /// Whether symbolic links are followed.
    pub fn follow_symlinks(&self) -> (r: bool)
        ensures
            r == self.config().follow_symlinks,
    {
        self.config.follow_symlinks
    }

    /// Sets `follow_symlinks`; fails once iteration has started.
    pub fn set_follow_symlinks(&mut self, value: bool) -> (r: Result<(), Error>)
        requires
            old(self).wf(),
        ensures
            final(self).wf(),
            final(self).phase() == old(self).phase(),
            r is Ok <==> configurable(old(self).phase()),
            r is Ok ==> final(self).config() == (Config { follow_symlinks: value, ..old(self).config() }),
            r is Err ==> (r matches Err(Error::State { .. })),
            r is Err ==> final(self).config() == old(self).config(),
    {
        match self.check_configurable() {
            Ok(()) => {},
            Err(e) => return Err(e),
        }
        self.config.follow_symlinks = value;
        Ok(())
    }

    /// The largest file size yielded; none for no limit.
    pub fn max_filesize(&self) -> (r: Option<u64>)
        ensures
            r == self.config().max_filesize,
    {
        self.config.max_filesize
    }

    /// Sets `max_filesize`; fails once iteration has started.
    pub fn set_max_filesize(&mut self, value: Option<u64>) -> (r: Result<(), Error>)
        requires
            old(self).wf(),
        ensures
            final(self).wf(),
            final(self).phase() == old(self).phase(),
            r is Ok <==> configurable(old(self).phase()),
            r is Ok ==> final(self).config() == (Config { max_filesize: value, ..old(self).config() }),
            r is Err ==> (r matches Err(Error::State { .. })),
            r is Err ==> final(self).config() == old(self).config(),
    {
        match self.check_configurable() {
            Ok(()) => {},
            Err(e) => return Err(e),
        }
        self.config.max_filesize = value;
        Ok(())
    }

    /// Whether hidden entries are left out.
    pub fn hidden(&self) -> (r: bool)
        ensures
            r == self.config().hidden,
    {
        self.config.hidden
    }

    /// Sets `hidden`; fails once iteration has started.
    pub fn set_hidden(&mut self, value: bool) -> (r: Result<(), Error>)
        requires
            old(self).wf(),
        ensures
            final(self).wf(),
            final(self).phase() == old(self).phase(),
            r is Ok <==> configurable(old(self).phase()),
            r is Ok ==> final(self).config() == (Config { hidden: value, ..old(self).config() }),
            r is Err ==> (r matches Err(Error::State { .. })),
            r is Err ==> final(self).config() == old(self).config(),
    {
        match self.check_configurable() {
            Ok(()) => {},
            Err(e) => return Err(e),
        }
        self.config.hidden = value;
        Ok(())
    }

    /// Whether ignore files of parent directories apply.
    pub fn parents(&self) -> (r: bool)
        ensures
            r == self.config().parents,
    {
        self.config.parents
    }

    /// Sets `parents`; fails once iteration has started.
    pub fn set_parents(&mut self, value: bool) -> (r: Result<(), Error>)
        requires
            old(self).wf(),
        ensures
            final(self).wf(),
            final(self).phase() == old(self).phase(),
            r is Ok <==> configurable(old(self).phase()),
            r is Ok ==> final(self).config() == (Config { parents: value, ..old(self).config() }),
            r is Err ==> (r matches Err(Error::State { .. })),
            r is Err ==> final(self).config() == old(self).config(),
    {
        match self.check_configurable() {
            Ok(()) => {},
            Err(e) => return Err(e),
        }
        self.config.parents = value;
        Ok(())
    }

    /// Whether `.ignore` files apply.
    pub fn ignore(&self) -> (r: bool)
        ensures
            r == self.config().ignore,
    {
        self.config.ignore
    }

    /// Sets `ignore`; fails once iteration has started.
    pub fn set_ignore(&mut self, value: bool) -> (r: Result<(), Error>)
        requires
            old(self).wf(),
        ensures
            final(self).wf(),
            final(self).phase() == old(self).phase(),
            r is Ok <==> configurable(old(self).phase()),
            r is Ok ==> final(self).config() == (Config { ignore: value, ..old(self).config() }),
            r is Err ==> (r matches Err(Error::State { .. })),
            r is Err ==> final(self).config() == old(self).config(),
    {
        match self.check_configurable() {
            Ok(()) => {},
            Err(e) => return Err(e),
        }
        self.config.ignore = value;
        Ok(())
    }

    /// Whether the global git ignore file applies.
    pub fn git_global(&self) -> (r: bool)
        ensures
            r == self.config().git_global,
    {
        self.config.git_global
    }

    /// Sets `git_global`; fails once iteration has started.
    pub fn set_git_global(&mut self, value: bool) -> (r: Result<(), Error>)
        requires
            old(self).wf(),
        ensures
            final(self).wf(),
            final(self).phase() == old(self).phase(),
            r is Ok <==> configurable(old(self).phase()),
            r is Ok ==> final(self).config() == (Config { git_global: value, ..old(self).config() }),
            r is Err ==> (r matches Err(Error::State { .. })),
            r is Err ==> final(self).config() == old(self).config(),
    {
        match self.check_configurable() {
            Ok(()) => {},
            Err(e) => return Err(e),
        }
        self.config.git_global = value;
        Ok(())
    }

    /// Whether `.gitignore` files apply.
    pub fn git_ignore(&self) -> (r: bool)
        ensures
            r == self.config().git_ignore,
    {
        self.config.git_ignore
    }

    /// Sets `git_ignore`; fails once iteration has started.
    pub fn set_git_ignore(&mut self, value: bool) -> (r: Result<(), Error>)
        requires
            old(self).wf(),
        ensures
            final(self).wf(),
            final(self).phase() == old(self).phase(),
            r is Ok <==> configurable(old(self).phase()),
            r is Ok ==> final(self).config() == (Config { git_ignore: value, ..old(self).config() }),
            r is Err ==> (r matches Err(Error::State { .. })),
            r is Err ==> final(self).config() == old(self).config(),
    {
        match self.check_configurable() {
            Ok(()) => {},
            Err(e) => return Err(e),
        }
        self.config.git_ignore = value;
        Ok(())
    }

    /// Whether `.git/info/exclude` files apply.
    pub fn git_exclude(&self) -> (r: bool)
        ensures
            r == self.config().git_exclude,
    {
        self.config.git_exclude
    }

    /// Sets `git_exclude`; fails once iteration has started.
    pub fn set_git_exclude(&mut self, value: bool) -> (r: Result<(), Error>)
        requires
            old(self).wf(),
        ensures
            final(self).wf(),
            final(self).phase() == old(self).phase(),
            r is Ok <==> configurable(old(self).phase()),
            r is Ok ==> final(self).config() == (Config { git_exclude: value, ..old(self).config() }),
            r is Err ==> (r matches Err(Error::State { .. })),
            r is Err ==> final(self).config() == old(self).config(),
    {
        match self.check_configurable() {
            Ok(()) => {},
            Err(e) => return Err(e),
        }
        self.config.git_exclude = value;
        Ok(())
    }

    /// Whether git rules apply only inside a repository.
    pub fn require_git(&self) -> (r: bool)
        ensures
            r == self.config().require_git,
    {
        self.config.require_git
    }

    /// Sets `require_git`; fails once iteration has started.
    pub fn set_require_git(&mut self, value: bool) -> (r: Result<(), Error>)
        requires
            old(self).wf(),
        ensures
            final(self).wf(),
            final(self).phase() == old(self).phase(),
            r is Ok <==> configurable(old(self).phase()),
            r is Ok ==> final(self).config() == (Config { require_git: value, ..old(self).config() }),
            r is Err ==> (r matches Err(Error::State { .. })),
            r is Err ==> final(self).config() == old(self).config(),
    {
        match self.check_configurable() {
            Ok(()) => {},
            Err(e) => return Err(e),
        }
        self.config.require_git = value;
        Ok(())
    }

    /// Whether ignore rules match without regard to case.
    pub fn ignore_case_insensitive(&self) -> (r: bool)
        ensures
            r == self.config().ignore_case_insensitive,
    {
        self.config.ignore_case_insensitive
    }

    /// Sets `ignore_case_insensitive`; fails once iteration has started.
    pub fn set_ignore_case_insensitive(&mut self, value: bool) -> (r: Result<(), Error>)
        requires
            old(self).wf(),
        ensures
            final(self).wf(),
            final(self).phase() == old(self).phase(),
            r is Ok <==> configurable(old(self).phase()),
            r is Ok ==> final(self).config() == (Config { ignore_case_insensitive: value, ..old(self).config() }),
            r is Err ==> (r matches Err(Error::State { .. })),
            r is Err ==> final(self).config() == old(self).config(),
    {
        match self.check_configurable() {
            Ok(()) => {},
            Err(e) => return Err(e),
        }
        self.config.ignore_case_insensitive = value;
        Ok(())
    }

    /// Whether the traversal stays on the roots' file systems.
    pub fn same_file_system(&self) -> (r: bool)
        ensures
            r == self.config().same_file_system,
    {
        self.config.same_file_system
    }

    /// Sets `same_file_system`; fails once iteration has started.
    pub fn set_same_file_system(&mut self, value: bool) -> (r: Result<(), Error>)
        requires
            old(self).wf(),
        ensures
            final(self).wf(),
            final(self).phase() == old(self).phase(),
            r is Ok <==> configurable(old(self).phase()),
            r is Ok ==> final(self).config() == (Config { same_file_system: value, ..old(self).config() }),
            r is Err ==> (r matches Err(Error::State { .. })),
            r is Err ==> final(self).config() == old(self).config(),
    {
        match self.check_configurable() {
            Ok(()) => {},
            Err(e) => return Err(e),
        }
        self.config.same_file_system = value;
        Ok(())
    }

    /// Whether the file standard output writes to is left out.
    pub fn skip_stdout(&self) -> (r: bool)
        ensures
            r == self.config().skip_stdout,
    {
        self.config.skip_stdout
    }

    /// Sets `skip_stdout`; fails once iteration has started.
    pub fn set_skip_stdout(&mut self, value: bool) -> (r: Result<(), Error>)
        requires
            old(self).wf(),
        ensures
            final(self).wf(),
            final(self).phase() == old(self).phase(),
            r is Ok <==> configurable(old(self).phase()),
            r is Ok ==> final(self).config() == (Config { skip_stdout: value, ..old(self).config() }),
            r is Err ==> (r matches Err(Error::State { .. })),
            r is Err ==> final(self).config() == old(self).config(),
    {
        match self.check_configurable() {
            Ok(()) => {},
            Err(e) => return Err(e),
        }
        self.config.skip_stdout = value;
        Ok(())
    }

    /// The roots, in order.
    pub fn paths(&self) -> (r: &Vec<String>)
        ensures
            *r == self.config().paths,
    {
        &self.config.paths
    }

    /// Extra ignore files, at the lowest precedence.
    pub fn global_ignore_files(&self) -> (r: &Vec<String>)
        ensures
            *r == self.config().global_ignore_files,
    {
        &self.config.global_ignore_files
    }

    /// Sets `global_ignore_files`; fails once iteration has started.
    pub fn set_global_ignore_files(&mut self, value: Vec<String>) -> (r: Result<(), Error>)
        requires
            old(self).wf(),
        ensures
            final(self).wf(),
            final(self).phase() == old(self).phase(),
            r is Ok <==> configurable(old(self).phase()),
            r is Ok ==> final(self).config() == (Config { global_ignore_files: value, ..old(self).config() }),
            r is Err ==> (r matches Err(Error::State { .. })),
            r is Err ==> final(self).config() == old(self).config(),
    {
        match self.check_configurable() {
            Ok(()) => {},
            Err(e) => return Err(e),
        }
        self.config.global_ignore_files = value;
        Ok(())
    }

    /// Extra ignore-file names, read in every directory.
    pub fn custom_ignore_filenames(&self) -> (r: &Vec<String>)
        ensures
            *r == self.config().custom_ignore_filenames,
    {
        &self.config.custom_ignore_filenames
    }

    /// Sets `custom_ignore_filenames`; fails once iteration has started.
    pub fn set_custom_ignore_filenames(&mut self, value: Vec<String>) -> (r: Result<(), Error>)
        requires
            old(self).wf(),
        ensures
            final(self).wf(),
            final(self).phase() == old(self).phase(),
            r is Ok <==> configurable(old(self).phase()),
            r is Ok ==> final(self).config() == (Config { custom_ignore_filenames: value, ..old(self).config() }),
            r is Err ==> (r matches Err(Error::State { .. })),
            r is Err ==> final(self).config() == old(self).config(),
    {
        match self.check_configurable() {
            Ok(()) => {},
            Err(e) => return Err(e),
        }
        self.config.custom_ignore_filenames = value;
        Ok(())
    }

    /// The override globs, if any.
    pub fn overrides(&self) -> (r: &Option<Overrides>)
        ensures
            *r == self.config().overrides,
    {
        &self.config.overrides
    }

    /// Sets `overrides`; fails once iteration has started.
    pub fn set_overrides(&mut self, value: Option<Overrides>) -> (r: Result<(), Error>)
        requires
            old(self).wf(),
        ensures
            final(self).wf(),
            final(self).phase() == old(self).phase(),
            r is Ok <==> configurable(old(self).phase()),
            r is Ok ==> final(self).config() == (Config { overrides: value, ..old(self).config() }),
            r is Err ==> (r matches Err(Error::State { .. })),
            r is Err ==> final(self).config() == old(self).config(),
    {
        match self.check_configurable() {
            Ok(()) => {},
            Err(e) => return Err(e),
        }
        self.config.overrides = value;
        Ok(())
    }

    /// The file-type registry, if any.
    pub fn types(&self) -> (r: &Option<Types>)
        ensures
            *r == self.config().types,
    {
        &self.config.types
    }

    /// Sets `types`; fails once iteration has started.
    pub fn set_types(&mut self, value: Option<Types>) -> (r: Result<(), Error>)
        requires
            old(self).wf(),
            value matches Some(t) ==> t.wf(),
        ensures
            final(self).wf(),
            final(self).phase() == old(self).phase(),
            r is Ok <==> configurable(old(self).phase()),
            r is Ok ==> final(self).config() == (Config { types: value, ..old(self).config() }),
            r is Err ==> (r matches Err(Error::State { .. })),
            r is Err ==> final(self).config() == old(self).config(),
    {
        match self.check_configurable() {
            Ok(()) => {},
            Err(e) => return Err(e),
        }
        self.config.types = value;
        Ok(())
    }

    /// How siblings are ordered.
    pub fn sort(&self) -> (r: &Sort)
        ensures
            *r == self.config().sort,
    {
        &self.config.sort
    }

    /// Sets `sort`; fails once iteration has started.
    pub fn set_sort(&mut self, value: Sort) -> (r: Result<(), Error>)
        requires
            old(self).wf(),
        ensures
            final(self).wf(),
            final(self).phase() == old(self).phase(),
            r is Ok <==> configurable(old(self).phase()),
            r is Ok ==> final(self).config() == (Config { sort: value, ..old(self).config() }),
            r is Err ==> (r matches Err(Error::State { .. })),
            r is Err ==> final(self).config() == old(self).config(),
    {
        match self.check_configurable() {
            Ok(()) => {},
            Err(e) => return Err(e),
        }
        self.config.sort = value;
        Ok(())
    }

    /// The caller's entry filter, if any.
    pub fn filter_entry(&self) -> (r: &Option<SharedFilter>)
        ensures
            *r == self.config().filter_entry,
    {
        &self.config.filter_entry
    }

    /// Sets `filter_entry`; fails once iteration has started.
    pub fn set_filter_entry(&mut self, value: Option<SharedFilter>) -> (r: Result<(), Error>)
        requires
            old(self).wf(),
        ensures
            final(self).wf(),
            final(self).phase() == old(self).phase(),
            r is Ok <==> configurable(old(self).phase()),
            r is Ok ==> final(self).config() == (Config { filter_entry: value, ..old(self).config() }),
            r is Err ==> (r matches Err(Error::State { .. })),
            r is Err ==> final(self).config() == old(self).config(),
    {
        match self.check_configurable() {
            Ok(()) => {},
            Err(e) => return Err(e),
        }
        self.config.filter_entry = value;
        Ok(())
    }

    /// The caller's error handler, if any.
    pub fn onerror(&self) -> (r: &Option<SharedHandler>)
        ensures
            *r == self.config().onerror,
    {
        &self.config.onerror
    }

    /// Sets `onerror`; fails once iteration has started.
    pub fn set_onerror(&mut self, value: Option<SharedHandler>) -> (r: Result<(), Error>)
        requires
            old(self).wf(),
        ensures
            final(self).wf(),
            final(self).phase() == old(self).phase(),
            r is Ok <==> configurable(old(self).phase()),
            r is Ok ==> final(self).config() == (Config { onerror: value, ..old(self).config() }),
            r is Err ==> (r matches Err(Error::State { .. })),
            r is Err ==> final(self).config() == old(self).config(),
    {
        match self.check_configurable() {
            Ok(()) => {},
            Err(e) => return Err(e),
        }
        self.config.onerror = value;
        Ok(())
    }
}

impl Walk {
    /// Opens the session for scoped use; a session can be opened once.
    pub fn enter(&mut self) -> (r: Result<(), Error>)
        requires
            old(self).wf(),
        ensures
            final(self).wf(),
            final(self).config() == old(self).config(),
            r is Ok <==> old(self).phase() == Phase::Unopened,
            r is Ok ==> final(self).phase() == Phase::Opened,
            r is Err ==> final(self).phase() == old(self).phase(),
            r is Err ==> (r matches Err(Error::State { .. })),
    {
        match self.phase {
            Phase::Unopened => {
                self.phase = Phase::Opened;
                Ok(())
            },
            Phase::Opened | Phase::Started => Err(
                Error::State { message: "Walk context manager is not reentrant".to_owned() },
            ),
            Phase::Closed => Err(Error::State { message: "Walk is closed".to_owned() }),
        }
    }

    /// Closes the session and lets go of its traversal; closing again does
    /// nothing more.
    pub fn close(&mut self)
        requires
            old(self).wf(),
        ensures
            final(self).wf(),
            final(self).config() == old(self).config(),
            final(self).phase() == Phase::Closed,
    {
        self.phase = Phase::Closed;
        self.traversal = None;
    }

    /// Leaves a scope opened by `enter`, however the scope ended: closes.
    pub fn exit(&mut self)
        requires
            old(self).wf(),
        ensures
            final(self).wf(),
            final(self).config() == old(self).config(),
            final(self).phase() == Phase::Closed,
    {
        self.close()
    }

    /// The warning owed when a session is dropped while started and not
    /// closed.
    pub fn leak_warning(&self) -> (r: Option<String>)
        ensures
            r is Some <==> self.phase() == Phase::Started,
    {
        match self.phase {
            Phase::Started => Some("unclosed traversal iterator".to_owned()),
            _ => None,
        }
    }

    /// Hands `e` to the error handler, if one is set; a failure of the
    /// handler comes back.
    fn report(&self, e: Error) -> (r: Result<(), Error>)
        ensures
            self.config().onerror is None ==> r is Ok,
    {
        match &self.config.onerror {
            Some(h) => h.on_error(e),
            None => Ok(()),
        }
    }

    /// Hands every step of `steps` after `from` to the builder. A global
    /// ignore file that fails goes to the error handler and the rest still
    /// apply; a malformed override glob or type pattern stops the build with
    /// the engine's error.
    #[verifier::rlimit(60)]
    fn replay(&self, b: &mut ignore::WalkBuilder, steps: &Vec<BuildStep>) -> (r: Result<(), Error>)
        requires
            all_allowed(steps_view(steps@), self.config()),
        ensures
            r is Err ==> self.config().overrides is Some || self.config().types is Some || (
            self.config().global_ignore_files@.len() > 0 && self.config().onerror is Some),
            r matches Err(e) ==> (self.config().onerror is None ==> exists|ee: ignore::Error|
                mirrors(ee, e)),
    {
        let c = &self.config;
        let mut o: Option<ignore::overrides::OverrideBuilder> = None;
        let mut t = types_new();
        let mut i: usize = 0;
        while i < steps.len()
            invariant
                c == &self.config,
                all_allowed(steps_view(steps@), self.config()),
                i <= steps@.len(),
            decreases steps@.len() - i,
        {
            proof {
                assert(step_allowed(steps_view(steps@)[i as int], self.config()));
                assert(steps_view(steps@)[i as int] == steps@[i as int]@);
            }
            match &steps[i] {
                BuildStep::Root(p) => builder_add_root(b, p.as_str()),
                BuildStep::MaxDepth(d) => builder_max_depth(b, *d),
                BuildStep::FollowLinks(yes) => builder_follow_links(b, *yes),
                BuildStep::MaxFilesize(n) => builder_max_filesize(b, *n),
                BuildStep::Hidden(yes) => builder_hidden(b, *yes),
                BuildStep::Parents(yes) => builder_parents(b, *yes),
                BuildStep::Ignore(yes) => builder_ignore(b, *yes),
                BuildStep::GitGlobal(yes) => builder_git_global(b, *yes),
                BuildStep::GitIgnore(yes) => builder_git_ignore(b, *yes),
                BuildStep::GitExclude(yes) => builder_git_exclude(b, *yes),
                BuildStep::RequireGit(yes) => builder_require_git(b, *yes),
                BuildStep::IgnoreCaseInsensitive(yes) => builder_ignore_case_insensitive(b, *yes),
                BuildStep::SameFileSystem(yes) => builder_same_file_system(b, *yes),
                BuildStep::SkipStdout(yes) => builder_skip_stdout(b, *yes),
                BuildStep::IgnoreFile(p) => match builder_add_ignore(b, p.as_str()) {
                    Some(e) => match self.report(from_engine(e)) {
                        Ok(()) => {},
                        Err(h) => return Err(h),
                    },
                    None => {},
                },
                BuildStep::CustomIgnoreFilename(n) => builder_add_custom_ignore_filename(b, n.as_str()),
                BuildStep::Filter => match &c.filter_entry {
                    Some(f) => builder_filter_entry(b, f, &self.pending, c.follow_symlinks),
                    None => {},
                },
                BuildStep::SortByPath => builder_sort_by_file_path(b, None, &self.pending),
                BuildStep::SortCustom => match &c.sort {
                    Sort::Custom(custom) => builder_sort_by_file_path(b, Some(custom), &self.pending),
                    _ => {},
                },
                BuildStep::OverrideBase(p) => {
                    o = Some(overrides_new(p.as_str()));
                },
                BuildStep::OverrideGlob(g, case_insensitive) => {
                    let mut current: Option<ignore::overrides::OverrideBuilder> = None;
                    std::mem::swap(&mut current, &mut o);
                    match current {
                        Some(mut ob) => {
                            match overrides_case_insensitive(&mut ob, *case_insensitive) {
                                Some(e) => return Err(from_engine(e)),
                                None => {},
                            }
                            match overrides_add(&mut ob, g.as_str()) {
                                Some(e) => return Err(from_engine(e)),
                                None => {},
                            }
                            o = Some(ob);
                        },
                        None => {},
                    }
                },
                BuildStep::OverridesDone => match &o {
                    Some(ob) => match builder_overrides(b, ob) {
                        Some(e) => return Err(from_engine(e)),
                        None => {},
                    },
                    None => {},
                },
                BuildStep::TypeDef(name, globs) => {
                    let mut j: usize = 0;
                    while j < globs.len()
                        invariant
                            j <= globs@.len(),
                            self.config().types is Some,
                        decreases globs@.len() - j,
                    {
                        match types_add(&mut t, name.as_str(), globs[j].as_str()) {
                            Some(e) => return Err(from_engine(e)),
                            None => {},
                        }
                        j = j + 1;
                    }
                },
                BuildStep::Select(name) => types_select(&mut t, name.as_str()),
                BuildStep::Negate(name) => types_negate(&mut t, name.as_str()),
                BuildStep::TypesDone => match builder_types(b, &t) {
                    Some(e) => return Err(from_engine(e)),
                    None => {},
                },
            }
            i = i + 1;
        }
        Ok(())
    }

    /// Compiles the configuration into a traversal by replaying its plan on
    /// a builder made from the first root. Invalid roots fail first, then a
    /// selection of an unregistered type; after that only global ignore files
    /// (through a failing error handler), overrides and types can fail.
    fn compile(&self) -> (r: Result<ignore::Walk, Error>)
        requires
            self.wf(),
        ensures
            r is Ok ==> roots_valid(self.config().paths@),
            !roots_valid(self.config().paths@) ==> (r matches Err(Error::TypeConversion { .. })),
            match self.config().types {
                Some(t) => roots_valid(self.config().paths@) && !selections_registered(t) ==> (
                r matches Err(Error::UnrecognizedFileType { .. })),
                None => true,
            },
            r is Err && roots_valid(self.config().paths@) ==> self.config().overrides is Some
                || self.config().types is Some || (self.config().global_ignore_files@.len() > 0
                && self.config().onerror is Some),
            r matches Err(e) ==> (roots_valid(self.config().paths@) && self.config().onerror is None
                ==> (e is UnrecognizedFileType || exists|ee: ignore::Error| mirrors(ee, e))),
    {
        let c = &self.config;
        match check_roots(&c.paths) {
            Ok(()) => {},
            Err(e) => return Err(e),
        }
        match &c.types {
            Some(t) => match check_selections(t) {
                Ok(()) => {},
                Err(e) => return Err(e),
            },
            None => {},
        }
        let steps = plan(c);
        proof {
            lemma_plan_allowed(self.config);
        }
        let mut b = builder_new(c.paths[0].as_str());
        match self.replay(&mut b, &steps) {
            Ok(()) => Ok(builder_build(&b)),
            Err(e) => Err(e),
        }
    }

    /// Compiles on first use. A closed session fails; a compilation failure
    /// leaves the session where it was.
    fn ensure_started(&mut self) -> (r: Result<(), Error>)
        requires
            old(self).wf(),
        ensures
            final(self).wf(),
            final(self).config() == old(self).config(),
            old(self).phase() == Phase::Closed ==> (r matches Err(Error::State { .. })),
            r is Ok <==> final(self).phase() == Phase::Started,
            r is Err ==> final(self).phase() == old(self).phase(),
            old(self).phase() == Phase::Started ==> r is Ok,
            configurable(old(self).phase()) && roots_valid(old(self).config().paths@)
                && old(self).config().global_ignore_files@.len() == 0
                && old(self).config().overrides is None && old(self).config().types is None
                ==> r is Ok,
            configurable(old(self).phase()) && !roots_valid(old(self).config().paths@) ==> (
            r matches Err(Error::TypeConversion { .. })),
            match old(self).config().types {
                Some(t) => configurable(old(self).phase()) && roots_valid(old(self).config().paths@)
                    && !selections_registered(t) ==> (r matches Err(Error::UnrecognizedFileType { .. })),
                None => true,
            },
            configurable(old(self).phase()) && roots_valid(old(self).config().paths@) && r is Err
                ==> old(self).config().overrides is Some || old(self).config().types is Some || (
            old(self).config().global_ignore_files@.len() > 0 && old(self).config().onerror is Some),
            r matches Err(e) ==> (configurable(old(self).phase()) && roots_valid(old(self).config().paths@)
                && old(self).config().onerror is None ==> (e is UnrecognizedFileType || exists|
                ee: ignore::Error,
            | mirrors(ee, e))),
    {
        match self.phase {
            Phase::Closed => Err(Error::State { message: "Walk is closed".to_owned() }),
            Phase::Started => Ok(()),
            _ => match self.compile() {
                Ok(t) => {
                    self.traversal = Some(t);
                    self.phase = Phase::Started;
                    Ok(())
                },
                Err(e) => Err(e),
            },
        }
    }

    /// Pulls the next result from the traversal.
    fn pull(&mut self) -> (r: Pulled)
        requires
            old(self).wf(),
            old(self).phase() == Phase::Started,
        ensures
            final(self).wf(),
            final(self).config() == old(self).config(),
            final(self).phase() == old(self).phase(),
            r matches Pulled::Entry(d, _) ==> d.follow_symlinks == old(self).config().follow_symlinks,
    {
        let mut current: Option<ignore::Walk> = None;
        std::mem::swap(&mut current, &mut self.traversal);
        let pulled = match current {
            Some(mut t) => {
                let next = traversal_next(&mut t);
                self.traversal = Some(t);
                match next {
                    None => Pulled::End,
                    Some(Ok(raw)) => {
                        let warning = match raw_warning(&raw) {
                            Some(w) => Some(from_engine(w)),
                            None => None,
                        };
                        Pulled::Entry(DirEntry::from_raw(&raw, self.config.follow_symlinks), warning)
                    },
                    Some(Err(e)) => Pulled::Failed(from_engine(e)),
                }
            },
            None => Pulled::End,
        };
        pulled
    }

    /// One step of iteration. The first step compiles the configuration. A
    /// failure a callback left behind is raised at once; an entry is yielded,
    /// its warning first handed to the error handler if one is set; an error
    /// is handed to the handler if one is set and skipped otherwise. A
    /// failure of the handler ends the step with that failure.
    pub fn advance(&mut self) -> (r: Result<Step, Error>)
        requires
            old(self).wf(),
        ensures
            final(self).wf(),
            final(self).config() == old(self).config(),
            old(self).phase() == Phase::Closed ==> (r matches Err(Error::State { .. }))
                && final(self).phase() == Phase::Closed,
            r is Ok ==> final(self).phase() == Phase::Started,
            old(self).phase() == Phase::Started ==> final(self).phase() == Phase::Started,
            r is Err ==> final(self).phase() == old(self).phase() || final(self).phase()
                == Phase::Started,
            configurable(old(self).phase()) && !roots_valid(old(self).config().paths@) ==> (
            r matches Err(Error::TypeConversion { .. })) && final(self).phase() == old(
                self,
            ).phase(),
            configurable(old(self).phase()) && roots_valid(old(self).config().paths@)
                && old(self).config().global_ignore_files@.len() == 0
                && old(self).config().overrides is None && old(self).config().types is None
                ==> final(self).phase() == Phase::Started,
            final(self).phase() == Phase::Started ==> exists|pending: Option<Error>, pulled: Pulled|
                (pending is Some ==> hooked(old(self).config())) && (pulled matches Pulled::Entry(
                    d,
                    _,
                ) ==> d.follow_symlinks == old(self).config().follow_symlinks) && step_follows(
                    r,
                    #[trigger] decision(pending, pulled, old(self).config().onerror is Some),
                ),
            r matches Ok(Step::Entry(d)) ==> d.follow_symlinks == old(self).config().follow_symlinks,
            old(self).phase() == Phase::Started && old(self).config().onerror is None && !hooked(
                old(self).config(),
            ) ==> r is Ok,
            old(self).phase() == Phase::Started && r is Err ==> old(self).config().onerror is Some
                || hooked(old(self).config()),
            match old(self).config().types {
                Some(t) => configurable(old(self).phase()) && roots_valid(old(self).config().paths@)
                    && !selections_registered(t) ==> (r matches Err(Error::UnrecognizedFileType { .. }))
                    && final(self).phase() == old(self).phase(),
                None => true,
            },
            configurable(old(self).phase()) && roots_valid(old(self).config().paths@) && r is Err
                && final(self).phase() == old(self).phase() ==> old(self).config().overrides is Some
                || old(self).config().types is Some || (old(self).config().global_ignore_files@.len()
                > 0 && old(self).config().onerror is Some),
            r matches Err(e) ==> (configurable(old(self).phase()) && roots_valid(old(self).config().paths@)
                && old(self).config().onerror is None && final(self).phase() == old(self).phase() ==> (
            e is UnrecognizedFileType || exists|ee: ignore::Error| mirrors(ee, e))),
    {
        match self.ensure_started() {
            Ok(()) => {},
            Err(e) => return Err(e),
        }
        let pulled = self.pull();
        let hooks = self.config.filter_entry.is_some() || match &self.config.sort {
            Sort::Custom(_) => true,
            _ => false,
        };
        let pending = if hooks {
            slot_take(&self.pending)
        } else {
            None
        };
        let ghost seen = (pending, pulled);
        let chosen = route(pending, pulled, self.config.onerror.is_some());
        let ghost decided = chosen;
        let result = match chosen {
            Route::Raise(e) => Err(e),
            Route::Done => Ok(Step::Done),
            Route::Yield(d) => Ok(Step::Entry(d)),
            Route::Skip => Ok(Step::Skipped),
            Route::Report(e, d) => {
                let handled = self.report(e);
                finish_report(d, handled)
            },
        };
        proof {
            assert(decided == decision(seen.0, seen.1, self.config.onerror is Some));
            assert(step_follows(result, decided));
            assert(seen.0 is Some ==> hooked(self.config));
        }
        result
    }

}

/// Turning the standard filters off and then on again leaves all six on,
/// whatever they were before, and every other setting as it was.
pub proof fn lemma_standard_filters_restored(c: Config)
    ensures
        ({
            let d = with_standard_filters(with_standard_filters(c, false), true);
            &&& d.hidden && d.parents && d.ignore
            &&& d.git_ignore && d.git_global && d.git_exclude
            &&& d == with_standard_filters(c, true)
        }),
{
}

/// A session that has started, or is closed, takes no configuration change;
/// one that has not started takes every one.
pub proof fn lemma_configurable_until_started(w: Walk)
    ensures
        configurable(w.phase()) <==> (w.phase() != Phase::Started && w.phase() != Phase::Closed),
{
}

} // verus!

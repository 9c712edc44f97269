//! The traversal plan: every step a session's configuration hands to the
//! engine's builder, in the order that gives later steps precedence.

use vstd::prelude::*;

use crate::error::Error;
use crate::registry::{pairs, texts, Selection, Types};
use crate::session::{Config, Sort};

verus! {

/// One call a session makes on the engine's builder, after the builder is
/// made from the first root.
pub enum BuildStep {
    Root(String),
    MaxDepth(Option<usize>),
    FollowLinks(bool),
    MaxFilesize(Option<u64>),
    Hidden(bool),
    Parents(bool),
    Ignore(bool),
    GitGlobal(bool),
    GitIgnore(bool),
    GitExclude(bool),
    RequireGit(bool),
    IgnoreCaseInsensitive(bool),
    SameFileSystem(bool),
    SkipStdout(bool),
    IgnoreFile(String),
    CustomIgnoreFilename(String),
    Filter,
    SortByPath,
    SortCustom,
    OverrideBase(String),
    OverrideGlob(String, bool),
    OverridesDone,
    TypeDef(String, Vec<String>),
    Select(String),
    Negate(String),
    TypesDone,
}

/// A build step with its texts as sequences of characters.
pub enum StepView {
    Root(Seq<char>),
    MaxDepth(Option<usize>),
    FollowLinks(bool),
    MaxFilesize(Option<u64>),
    Hidden(bool),
    Parents(bool),
    Ignore(bool),
    GitGlobal(bool),
    GitIgnore(bool),
    GitExclude(bool),
    RequireGit(bool),
    IgnoreCaseInsensitive(bool),
    SameFileSystem(bool),
    SkipStdout(bool),
    IgnoreFile(Seq<char>),
    CustomIgnoreFilename(Seq<char>),
    Filter,
    SortByPath,
    SortCustom,
    OverrideBase(Seq<char>),
    OverrideGlob(Seq<char>, bool),
    OverridesDone,
    TypeDef(Seq<char>, Seq<Seq<char>>),
    Select(Seq<char>),
    Negate(Seq<char>),
    TypesDone,
}

impl View for BuildStep {
    type V = StepView;

    open spec fn view(&self) -> StepView {
        match self {
            BuildStep::Root(p) => StepView::Root(p@),
            BuildStep::MaxDepth(d) => StepView::MaxDepth(*d),
            BuildStep::FollowLinks(b) => StepView::FollowLinks(*b),
            BuildStep::MaxFilesize(n) => StepView::MaxFilesize(*n),
            BuildStep::Hidden(b) => StepView::Hidden(*b),
            BuildStep::Parents(b) => StepView::Parents(*b),
            BuildStep::Ignore(b) => StepView::Ignore(*b),
            BuildStep::GitGlobal(b) => StepView::GitGlobal(*b),
            BuildStep::GitIgnore(b) => StepView::GitIgnore(*b),
            BuildStep::GitExclude(b) => StepView::GitExclude(*b),
            BuildStep::RequireGit(b) => StepView::RequireGit(*b),
            BuildStep::IgnoreCaseInsensitive(b) => StepView::IgnoreCaseInsensitive(*b),
            BuildStep::SameFileSystem(b) => StepView::SameFileSystem(*b),
            BuildStep::SkipStdout(b) => StepView::SkipStdout(*b),
            BuildStep::IgnoreFile(p) => StepView::IgnoreFile(p@),
            BuildStep::CustomIgnoreFilename(n) => StepView::CustomIgnoreFilename(n@),
            BuildStep::Filter => StepView::Filter,
            BuildStep::SortByPath => StepView::SortByPath,
            BuildStep::SortCustom => StepView::SortCustom,
            BuildStep::OverrideBase(p) => StepView::OverrideBase(p@),
            BuildStep::OverrideGlob(g, c) => StepView::OverrideGlob(g@, *c),
            BuildStep::OverridesDone => StepView::OverridesDone,
            BuildStep::TypeDef(n, g) => StepView::TypeDef(n@, texts(g@)),
            BuildStep::Select(n) => StepView::Select(n@),
            BuildStep::Negate(n) => StepView::Negate(n@),
            BuildStep::TypesDone => StepView::TypesDone,
        }
    }
}

/// The view of each step.
pub open spec fn steps_view(v: Seq<BuildStep>) -> Seq<StepView> {
    v.map_values(|s: BuildStep| s@)
}

/// The roots after the first, each added as a root.
pub open spec fn plan_roots(paths: Seq<String>) -> Seq<StepView> {
    if paths.len() == 0 {
        Seq::empty()
    } else {
        paths.subrange(1, paths.len() as int).map_values(|p: String| StepView::Root(p@))
    }
}

/// The scalar options, in the builder's order.
pub open spec fn plan_options(c: Config) -> Seq<StepView> {
    seq![
        StepView::MaxDepth(c.max_depth),
        StepView::FollowLinks(c.follow_symlinks),
        StepView::MaxFilesize(c.max_filesize),
        StepView::Hidden(c.hidden),
        StepView::Parents(c.parents),
        StepView::Ignore(c.ignore),
        StepView::GitGlobal(c.git_global),
        StepView::GitIgnore(c.git_ignore),
        StepView::GitExclude(c.git_exclude),
        StepView::RequireGit(c.require_git),
        StepView::IgnoreCaseInsensitive(c.ignore_case_insensitive),
        StepView::SameFileSystem(c.same_file_system),
        StepView::SkipStdout(c.skip_stdout),
    ]
}

/// The filter and the sort order, if set.
pub open spec fn plan_callbacks(c: Config) -> Seq<StepView> {
    (if c.filter_entry is Some {
        seq![StepView::Filter]
    } else {
        Seq::empty()
    }) + match c.sort {
        Sort::Disabled => Seq::empty(),
        Sort::ByPath => seq![StepView::SortByPath],
        Sort::Custom(_) => seq![StepView::SortCustom],
    }
}

/// The override layer: its base, each glob with its case mode, its
/// completion.
pub open spec fn plan_overrides(c: Config) -> Seq<StepView> {
    match c.overrides {
        Some(o) => seq![StepView::OverrideBase(o.path@)] + o.globs@.map_values(
            |g: (String, bool)| StepView::OverrideGlob(g.0@, g.1),
        ) + seq![StepView::OverridesDone],
        None => Seq::empty(),
    }
}

/// The type layer: each type with its globs, the selection log in order,
/// its completion.
pub open spec fn plan_types(c: Config) -> Seq<StepView> {
    match c.types {
        Some(t) => pairs(t.names(), t.lists()).map_values(
            |p: (Seq<char>, Seq<Seq<char>>)| StepView::TypeDef(p.0, p.1),
        ) + t.log().map_values(
            |d: (bool, Seq<char>)|
                if d.0 {
                    StepView::Select(d.1)
                } else {
                    StepView::Negate(d.1)
                },
        ) + seq![StepView::TypesDone],
        None => Seq::empty(),
    }
}

/// Every step, in order: roots, options, global ignore files, custom ignore
/// names, filter, sort, overrides, types.
pub open spec fn plan_of(c: Config) -> Seq<StepView> {
    plan_roots(c.paths@) + plan_options(c) + c.global_ignore_files@.map_values(
        |p: String| StepView::IgnoreFile(p@),
    ) + c.custom_ignore_filenames@.map_values(|n: String| StepView::CustomIgnoreFilename(n@))
        + plan_callbacks(c) + plan_overrides(c) + plan_types(c)
}

/// A step the configuration `c` can give rise to: a global ignore file only
/// when there are some, an override step only with overrides, a type step
/// only with a registry.
pub open spec fn step_allowed(v: StepView, c: Config) -> bool {
    match v {
        StepView::IgnoreFile(_) => c.global_ignore_files@.len() > 0,
        StepView::OverrideBase(_) => c.overrides is Some,
        StepView::OverrideGlob(_, _) => c.overrides is Some,
        StepView::OverridesDone => c.overrides is Some,
        StepView::TypeDef(_, _) => c.types is Some,
        StepView::Select(_) => c.types is Some,
        StepView::Negate(_) => c.types is Some,
        StepView::TypesDone => c.types is Some,
        _ => true,
    }
}

/// Every step of `s` is allowed by `c`.
pub open spec fn all_allowed(s: Seq<StepView>, c: Config) -> bool {
    forall|k: int| 0 <= k < s.len() ==> step_allowed(#[trigger] s[k], c)
}

proof fn lemma_concat_allowed(a: Seq<StepView>, b: Seq<StepView>, c: Config)
    requires
        all_allowed(a, c),
        all_allowed(b, c),
    ensures
        all_allowed(a + b, c),
{
    assert forall|k: int| 0 <= k < (a + b).len() implies step_allowed(#[trigger] (a + b)[k], c) by {
        if k < a.len() {
            assert((a + b)[k] == a[k]);
        } else {
            assert((a + b)[k] == b[k - a.len()]);
        }
    }
}

/// The plan holds only steps its configuration allows.
pub proof fn lemma_plan_allowed(c: Config)
    ensures
        all_allowed(plan_of(c), c),
{
    let files = c.global_ignore_files@.map_values(|p: String| StepView::IgnoreFile(p@));
    let names = c.custom_ignore_filenames@.map_values(|n: String| StepView::CustomIgnoreFilename(n@));
    assert(all_allowed(plan_roots(c.paths@), c));
    assert(all_allowed(plan_options(c), c));
    assert(all_allowed(files, c));
    assert(all_allowed(names, c));
    assert(all_allowed(plan_callbacks(c), c));
    match c.overrides {
        Some(o) => {
            let globs = o.globs@.map_values(|g: (String, bool)| StepView::OverrideGlob(g.0@, g.1));
            assert(all_allowed(globs, c));
            lemma_concat_allowed(seq![StepView::OverrideBase(o.path@)], globs, c);
            lemma_concat_allowed(
                seq![StepView::OverrideBase(o.path@)] + globs,
                seq![StepView::OverridesDone],
                c,
            );
        },
        None => {},
    }
    assert(all_allowed(plan_overrides(c), c));
    match c.types {
        Some(t) => {
            let defs = pairs(t.names(), t.lists()).map_values(
                |p: (Seq<char>, Seq<Seq<char>>)| StepView::TypeDef(p.0, p.1),
            );
            let sels = t.log().map_values(
                |d: (bool, Seq<char>)|
                    if d.0 {
                        StepView::Select(d.1)
                    } else {
                        StepView::Negate(d.1)
                    },
            );
            assert(all_allowed(defs, c));
            assert(all_allowed(sels, c));
            lemma_concat_allowed(defs, sels, c);
            lemma_concat_allowed(defs + sels, seq![StepView::TypesDone], c);
        },
        None => {},
    }
    assert(all_allowed(plan_types(c), c));
    lemma_concat_allowed(plan_roots(c.paths@), plan_options(c), c);
    lemma_concat_allowed(plan_roots(c.paths@) + plan_options(c), files, c);
    lemma_concat_allowed(plan_roots(c.paths@) + plan_options(c) + files, names, c);
    lemma_concat_allowed(plan_roots(c.paths@) + plan_options(c) + files + names, plan_callbacks(c), c);
    lemma_concat_allowed(
        plan_roots(c.paths@) + plan_options(c) + files + names + plan_callbacks(c),
        plan_overrides(c),
        c,
    );
    lemma_concat_allowed(
        plan_roots(c.paths@) + plan_options(c) + files + names + plan_callbacks(c)
            + plan_overrides(c),
        plan_types(c),
        c,
    );
}

/// Every directive of the selection log names a registered type.
pub open spec fn selections_registered(t: Types) -> bool {
    forall|i: int| 0 <= i < t.log().len() ==> t.mapping().contains_key((#[trigger] t.log()[i]).1)
}

/// Appends `StepView`s made from each string of `items` by `make`.
fn push_each(
    out: &mut Vec<BuildStep>,
    items: &Vec<String>,
    from: usize,
    kind: u8,
    Ghost(seg): Ghost<Seq<StepView>>,
)
    requires
        from <= items@.len(),
        kind == 0 ==> seg == items@.subrange(from as int, items@.len() as int).map_values(
            |p: String| StepView::Root(p@),
        ),
        kind == 1 ==> seg == items@.subrange(from as int, items@.len() as int).map_values(
            |p: String| StepView::IgnoreFile(p@),
        ),
        kind == 2 ==> seg == items@.subrange(from as int, items@.len() as int).map_values(
            |p: String| StepView::CustomIgnoreFilename(p@),
        ),
        kind <= 2,
    ensures
        steps_view(final(out)@) == steps_view(old(out)@) + seg,
{
    let ghost base = steps_view(out@);
    let mut i: usize = from;
    while i < items.len()
        invariant
            from <= i <= items@.len(),
            kind <= 2,
            kind == 0 ==> seg == items@.subrange(from as int, items@.len() as int).map_values(
                |p: String| StepView::Root(p@),
            ),
            kind == 1 ==> seg == items@.subrange(from as int, items@.len() as int).map_values(
                |p: String| StepView::IgnoreFile(p@),
            ),
            kind == 2 ==> seg == items@.subrange(from as int, items@.len() as int).map_values(
                |p: String| StepView::CustomIgnoreFilename(p@),
            ),
            steps_view(out@) == base + seg.subrange(0, (i - from) as int),
        decreases items@.len() - i,
    {
        let text = items[i].clone();
        let step = if kind == 0 {
            BuildStep::Root(text)
        } else if kind == 1 {
            BuildStep::IgnoreFile(text)
        } else {
            BuildStep::CustomIgnoreFilename(text)
        };
        let ghost prev = out@;
        out.push(step);
        proof {
            assert forall|k: int| 0 <= k < prev.len() implies out@[k]@ == prev[k]@ by {
                assert(out@[k] == prev[k]);
            }
            assert(steps_view(out@) =~= steps_view(prev).push(out@[prev.len() as int]@));
        }
        i = i + 1;
        proof {
            assert(steps_view(out@) =~= base + seg.subrange(0, (i - from) as int));
        }
    }
    proof {
        assert(seg.subrange(0, (i - from) as int) =~= seg);
    }
}

/// Appends one step.
fn push_step(out: &mut Vec<BuildStep>, step: BuildStep)
    ensures
        steps_view(final(out)@) == steps_view(old(out)@).push(step@),
{
    let ghost prev = out@;
    out.push(step);
    proof {
        assert forall|k: int| 0 <= k < prev.len() implies out@[k]@ == prev[k]@ by {
            assert(out@[k] == prev[k]);
        }
        assert(steps_view(out@) =~= steps_view(prev).push(step@));
    }
}

/// Appends the scalar options.
#[verifier::rlimit(50)]
fn push_options(out: &mut Vec<BuildStep>, c: &Config)
    ensures
        steps_view(final(out)@) == steps_view(old(out)@) + plan_options(*c),
{
    let ghost start = steps_view(out@);
    push_step(out, BuildStep::MaxDepth(c.max_depth));
    push_step(out, BuildStep::FollowLinks(c.follow_symlinks));
    push_step(out, BuildStep::MaxFilesize(c.max_filesize));
    push_step(out, BuildStep::Hidden(c.hidden));
    push_step(out, BuildStep::Parents(c.parents));
    push_step(out, BuildStep::Ignore(c.ignore));
    push_step(out, BuildStep::GitGlobal(c.git_global));
    push_step(out, BuildStep::GitIgnore(c.git_ignore));
    push_step(out, BuildStep::GitExclude(c.git_exclude));
    push_step(out, BuildStep::RequireGit(c.require_git));
    push_step(out, BuildStep::IgnoreCaseInsensitive(c.ignore_case_insensitive));
    push_step(out, BuildStep::SameFileSystem(c.same_file_system));
    push_step(out, BuildStep::SkipStdout(c.skip_stdout));
    proof {
        assert(steps_view(out@) =~= start + plan_options(*c));
    }
}

/// Appends the filter and sort steps.
fn push_callbacks(out: &mut Vec<BuildStep>, c: &Config)
    ensures
        steps_view(final(out)@) == steps_view(old(out)@) + plan_callbacks(*c),
{
    let ghost start = steps_view(out@);
    match &c.filter_entry {
        Some(_) => push_step(out, BuildStep::Filter),
        None => {},
    }
    match &c.sort {
        Sort::Disabled => {},
        Sort::ByPath => push_step(out, BuildStep::SortByPath),
        Sort::Custom(_) => push_step(out, BuildStep::SortCustom),
    }
    proof {
        assert(steps_view(out@) =~= start + plan_callbacks(*c));
    }
}

/// Appends the override layer.
fn push_overrides(out: &mut Vec<BuildStep>, c: &Config)
    ensures
        steps_view(final(out)@) == steps_view(old(out)@) + plan_overrides(*c),
{
    let ghost before_overrides = steps_view(out@);
    match &c.overrides {
        Some(o) => {
            push_step(out, BuildStep::OverrideBase(o.path.clone()));
            let ghost mid = steps_view(out@);
            let mut i: usize = 0;
            while i < o.globs.len()
                invariant
                    i <= o.globs@.len(),
                    steps_view(out@) == mid + o.globs@.subrange(0, i as int).map_values(
                        |g: (String, bool)| StepView::OverrideGlob(g.0@, g.1),
                    ),
                decreases o.globs@.len() - i,
            {
                push_step(out, BuildStep::OverrideGlob(o.globs[i].0.clone(), o.globs[i].1));
                i = i + 1;
                proof {
                    assert(steps_view(out@) =~= mid + o.globs@.subrange(0, i as int).map_values(
                        |g: (String, bool)| StepView::OverrideGlob(g.0@, g.1),
                    ));
                }
            }
            proof {
                assert(o.globs@.subrange(0, i as int) =~= o.globs@);
            }
            push_step(out, BuildStep::OverridesDone);
            proof {
                assert(steps_view(out@) =~= before_overrides + plan_overrides(*c));
            }
        },
        None => {
            proof {
                assert(steps_view(out@) =~= before_overrides + plan_overrides(*c));
            }
        },
    }
}

/// Appends the type layer.
fn push_types(out: &mut Vec<BuildStep>, c: &Config)
    requires
        c.types matches Some(t) ==> t.wf(),
    ensures
        steps_view(final(out)@) == steps_view(old(out)@) + plan_types(*c),
{
    let ghost before_types = steps_view(out@);
    match &c.types {
        Some(t) => {
            let items = t.items();
            let ghost defs = pairs(t.names(), t.lists()).map_values(
                |p: (Seq<char>, Seq<Seq<char>>)| StepView::TypeDef(p.0, p.1),
            );
            let mut i: usize = 0;
            while i < items.len()
                invariant
                    i <= items@.len(),
                    crate::registry::items_view(items@) == pairs(t.names(), t.lists()),
                    defs == pairs(t.names(), t.lists()).map_values(
                        |p: (Seq<char>, Seq<Seq<char>>)| StepView::TypeDef(p.0, p.1),
                    ),
                    steps_view(out@) == before_types + defs.subrange(0, i as int),
                decreases items@.len() - i,
            {
                let step = BuildStep::TypeDef(items[i].0.clone(), copy_all(&items[i].1));
                proof {
                    assert(crate::registry::items_view(items@)[i as int] == (
                        items@[i as int].0@,
                        texts(items@[i as int].1@),
                    ));
                }
                push_step(out, step);
                i = i + 1;
                proof {
                    assert(steps_view(out@) =~= before_types + defs.subrange(0, i as int));
                }
            }
            proof {
                assert(defs.subrange(0, i as int) =~= defs);
            }
            let ghost mid = steps_view(out@);
            let log = t.selections();
            let ghost sels = t.log().map_values(
                |d: (bool, Seq<char>)|
                    if d.0 {
                        StepView::Select(d.1)
                    } else {
                        StepView::Negate(d.1)
                    },
            );
            let mut k: usize = 0;
            while k < log.len()
                invariant
                    k <= log@.len(),
                    log@.map_values(|s: Selection| s@) == t.log(),
                    sels == t.log().map_values(
                        |d: (bool, Seq<char>)|
                            if d.0 {
                                StepView::Select(d.1)
                            } else {
                                StepView::Negate(d.1)
                            },
                    ),
                    steps_view(out@) == mid + sels.subrange(0, k as int),
                decreases log@.len() - k,
            {
                proof {
                    assert(log@.map_values(|s: Selection| s@)[k as int] == log@[k as int]@);
                }
                let step = match &log[k] {
                    Selection::Select(n) => BuildStep::Select(n.clone()),
                    Selection::Negate(n) => BuildStep::Negate(n.clone()),
                };
                push_step(out, step);
                k = k + 1;
                proof {
                    assert(steps_view(out@) =~= mid + sels.subrange(0, k as int));
                }
            }
            proof {
                assert(sels.subrange(0, k as int) =~= sels);
            }
            push_step(out, BuildStep::TypesDone);
            proof {
                assert(steps_view(out@) =~= before_types + plan_types(*c));
            }
        },
        None => {
            proof {
                assert(steps_view(out@) =~= before_types + plan_types(*c));
            }
        },
    }
}

/// The steps a configuration hands to the builder, in order.
pub fn plan(c: &Config) -> (r: Vec<BuildStep>)
    requires
        c.types matches Some(t) ==> t.wf(),
    ensures
        steps_view(r@) == plan_of(*c),
{
    let mut out: Vec<BuildStep> = Vec::new();
    proof {
        assert(steps_view(out@) =~= Seq::<StepView>::empty());
    }
    if c.paths.len() > 0 {
        push_each(&mut out, &c.paths, 1, 0, Ghost(plan_roots(c.paths@)));
    } else {
        proof {
            assert(plan_roots(c.paths@) =~= Seq::<StepView>::empty());
            assert(steps_view(out@) =~= plan_roots(c.paths@));
        }
    }
    push_options(&mut out, c);
    proof {
        assert(c.global_ignore_files@.subrange(0, c.global_ignore_files@.len() as int)
            =~= c.global_ignore_files@);
        assert(c.custom_ignore_filenames@.subrange(0, c.custom_ignore_filenames@.len() as int)
            =~= c.custom_ignore_filenames@);
    }
    push_each(
        &mut out,
        &c.global_ignore_files,
        0,
        1,
        Ghost(c.global_ignore_files@.map_values(|p: String| StepView::IgnoreFile(p@))),
    );
    push_each(
        &mut out,
        &c.custom_ignore_filenames,
        0,
        2,
        Ghost(c.custom_ignore_filenames@.map_values(|n: String| StepView::CustomIgnoreFilename(n@))),
    );
    push_callbacks(&mut out, c);
    push_overrides(&mut out, c);
    push_types(&mut out, c);
    proof {
        assert(steps_view(out@) =~= plan_of(*c));
    }
    out
}

/// A copy of `v`.
fn copy_all(v: &Vec<String>) -> (r: Vec<String>)
    ensures
        r@ == v@,
{
    let mut out: Vec<String> = Vec::new();
    let mut i: usize = 0;
    while i < v.len()
        invariant
            i <= v@.len(),
            out@ == v@.subrange(0, i as int),
        decreases v@.len() - i,
    {
        out.push(v[i].clone());
        i = i + 1;
        proof {
            assert(out@ =~= v@.subrange(0, i as int));
        }
    }
    proof {
        assert(v@.subrange(0, i as int) =~= v@);
    }
    out
}

/// Checks that every directive of the selection log names a registered
/// type; fails with the first name that is not.
pub fn check_selections(t: &Types) -> (r: Result<(), Error>)
    requires
        t.wf(),
    ensures
        r is Ok <==> selections_registered(*t),
        r is Err ==> (r matches Err(Error::UnrecognizedFileType { .. })),
        r matches Err(Error::UnrecognizedFileType { name }) ==> exists|i: int|
            0 <= i < t.log().len() && (#[trigger] t.log()[i]).1 == name@
                && !t.mapping().contains_key(name@) && forall|j: int|
                0 <= j < i ==> t.mapping().contains_key((#[trigger] t.log()[j]).1),
{
    let log = t.selections();
    let mut k: usize = 0;
    while k < log.len()
        invariant
            t.wf(),
            k <= log@.len(),
            log@.map_values(|s: Selection| s@) == t.log(),
            forall|j: int| 0 <= j < k ==> t.mapping().contains_key((#[trigger] t.log()[j]).1),
        decreases log@.len() - k,
    {
        proof {
            assert(log@.map_values(|s: Selection| s@)[k as int] == log@[k as int]@);
        }
        let name = match &log[k] {
            Selection::Select(n) => n,
            Selection::Negate(n) => n,
        };
        if !t.contains(name.as_str()) {
            return Err(Error::UnrecognizedFileType { name: name.clone() });
        }
        k = k + 1;
    }
    Ok(())
}

} // verus!

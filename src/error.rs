//! Errors of the library, and how the engine's errors become them.

use vstd::prelude::*;

use crate::engine::{io_error_text, path_text};

verus! {

/// Every error a traversal session or a type registry reports.
#[derive(Debug)]
pub enum Error {
    /// Several errors met while reading one ignore source, in order.
    Partial(Vec<Error>),
    /// An error at a line of an ignore file.
    WithLineNumber { line: u64, err: Box<Error> },
    /// An error about a path.
    WithPath { path: String, err: Box<Error> },
    /// An error met at a depth of the traversal.
    WithDepth { depth: usize, err: Box<Error> },
    /// A symbolic link cycle: `child` leads back to `ancestor`.
    Loop { ancestor: String, child: String },
    /// An operating-system failure.
    Io { message: String },
    /// A malformed glob, with the glob's text when known.
    Glob { glob: Option<String>, message: String },
    /// A selection named a file type with no patterns.
    UnrecognizedFileType { name: String },
    /// A file-type name broke the naming rule or was the reserved `all`.
    InvalidDefinition,
    /// A value could not be used as a path.
    TypeConversion { message: String },
    /// An operation the session's state forbids.
    State { message: String },
    /// A registry lookup of a name that is absent.
    KeyNotFound { key: String },
    /// An entry was asked of an empty registry.
    EmptyRegistry,
    /// A saved registry state holds a directive that is neither a select nor
    /// a negate.
    InvalidState,
    /// A failure raised by a caller-supplied callback.
    Callback { message: String },
}

/// `r` is `e` carried over: the same variant at every level, with the same
/// numbers, names and glob texts, and as many causes in a partial error.
pub open spec fn mirrors(e: ignore::Error, r: Error) -> bool
    decreases e,
    via mirrors_decreases
{
    match e {
        ignore::Error::Partial(errs) => match r {
            Error::Partial(causes) => causes@.len() == errs@.len() && forall|i: int|
                0 <= i < errs@.len() ==> mirrors(#[trigger] errs@[i], causes@[i]),
            _ => false,
        },
        ignore::Error::WithLineNumber { line, err } => match r {
            Error::WithLineNumber { line: l, err: inner } => l == line && mirrors(*err, *inner),
            _ => false,
        },
        ignore::Error::WithPath { path, err } => match r {
            Error::WithPath { path: _, err: inner } => mirrors(*err, *inner),
            _ => false,
        },
        ignore::Error::WithDepth { depth, err } => match r {
            Error::WithDepth { depth: d, err: inner } => d == depth && mirrors(*err, *inner),
            _ => false,
        },
        ignore::Error::Loop { .. } => r is Loop,
        ignore::Error::Io(_) => r is Io,
        ignore::Error::Glob { glob, err } => match r {
            Error::Glob { glob: g, message } => message@ == err@ && match (glob, g) {
                (Some(a), Some(b)) => a@ == b@,
                (None, None) => true,
                _ => false,
            },
            _ => false,
        },
        ignore::Error::UnrecognizedFileType(name) => match r {
            Error::UnrecognizedFileType { name: n } => n@ == name@,
            _ => false,
        },
        ignore::Error::InvalidDefinition => r is InvalidDefinition,
    }
}

#[via_fn]
proof fn mirrors_decreases(e: ignore::Error, r: Error) {
    broadcast use vstd::std_specs::vec::axiom_vec_decreases_to_view;

    if let ignore::Error::Partial(errs) = e {
        assert(decreases_to!(e => errs));
        assert forall|i: int| 0 <= i < errs@.len() implies decreases_to!(e => errs@[i]) by {
            assert(decreases_to!(errs => errs@));
            assert(decreases_to!(errs@ => errs@[i]));
        }
    }
}

/// Carries an engine error over into the library's error type, keeping every
/// annotation (depth, line, path) and every cause.
pub fn from_engine(e: ignore::Error) -> (r: Error)
    ensures
        mirrors(e, r),
    decreases e,
{
    let ghost whole = e;
    match e {
        ignore::Error::Partial(errs) => {
            let ghost given = errs;
            let ghost all = errs@;
            let mut rest = errs;
            let mut out: Vec<Error> = Vec::new();
            while rest.len() > 0
                invariant
                    all == given@,
                    whole == ignore::Error::Partial(given),
                    whole == e,
                    out@.len() + rest@.len() == all.len(),
                    forall|j: int| 0 <= j < out@.len() ==> mirrors(#[trigger] all[j], out@[j]),
                    rest@ == all.subrange(out@.len() as int, all.len() as int),
                decreases rest@.len(),
            {
                let ghost k = out@.len() as int;
                let first = rest.remove(0);
                proof {
                    broadcast use vstd::std_specs::vec::axiom_vec_index_decreases;
                    assert(first == all[k]);
                    assert(decreases_to!(given => given[k]));
                    if let ignore::Error::Partial(v) = whole {
                        assert(decreases_to!(whole => v));
                    }
                    assert(decreases_to!(whole => first));
                }
                let converted = from_engine(first);
                let ghost prev = out@;
                out.push(converted);
                proof {
                    assert forall|j: int| 0 <= j < out@.len() implies mirrors(
                        #[trigger] all[j],
                        out@[j],
                    ) by {
                        if j < prev.len() {
                            assert(out@[j] == prev[j]);
                        }
                    }
                }
            }
            Error::Partial(out)
        },
        ignore::Error::WithLineNumber { line, err } => {
            Error::WithLineNumber { line, err: Box::new(from_engine(*err)) }
        },
        ignore::Error::WithPath { path, err } => {
            Error::WithPath { path: path_text(&path), err: Box::new(from_engine(*err)) }
        },
        ignore::Error::WithDepth { depth, err } => {
            Error::WithDepth { depth, err: Box::new(from_engine(*err)) }
        },
        ignore::Error::Loop { ancestor, child } => {
            Error::Loop { ancestor: path_text(&ancestor), child: path_text(&child) }
        },
        ignore::Error::Io(err) => Error::Io { message: io_error_text(&err) },
        ignore::Error::Glob { glob, err } => Error::Glob { glob, message: err },
        ignore::Error::UnrecognizedFileType(name) => Error::UnrecognizedFileType { name },
        ignore::Error::InvalidDefinition => Error::InvalidDefinition,
    }
}

} // verus!

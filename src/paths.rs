//! Conversion of caller-supplied path-like values into paths.

use vstd::prelude::*;

use crate::engine::{decode_utf8, utf8_text};
use crate::error::Error;

verus! {

/// A value a caller may give where a path is wanted.
#[derive(Debug, Clone)]
pub enum PathLike {
    /// A path written as text.
    Text(String),
    /// A path given as raw bytes.
    Bytes(Vec<u8>),
}

/// The path a value denotes, if it has one: text as it is, bytes when they
/// are UTF-8.
pub open spec fn path_of(p: PathLike) -> Option<Seq<char>> {
    match p {
        PathLike::Text(s) => Some(s@),
        PathLike::Bytes(b) => utf8_text(b@),
    }
}

/// The path `path` denotes; fails when it has none.
pub fn fspath(path: PathLike) -> (r: Result<String, Error>)
    ensures
        match path_of(path) {
            Some(t) => r matches Ok(s) && s@ == t,
            None => r matches Err(Error::TypeConversion { .. }),
        },
{
    match path {
        PathLike::Text(s) => Ok(s),
        PathLike::Bytes(b) => match decode_utf8(b) {
            Some(s) => Ok(s),
            None => Err(
                Error::TypeConversion { message: "expected a path, found bytes that are not UTF-8".to_owned() },
            ),
        },
    }
}

/// The paths a list of values denotes, in order; fails at the first value
/// that has none.
pub fn fspath_list(paths: Vec<PathLike>) -> (r: Result<Vec<String>, Error>)
    ensures
        r is Ok <==> forall|i: int| 0 <= i < paths@.len() ==> (#[trigger] path_of(paths@[i])) is Some,
        r matches Ok(v) ==> v@.len() == paths@.len() && forall|i: int|
            0 <= i < paths@.len() ==> Some((#[trigger] v@[i])@) == path_of(paths@[i]),
        r is Err ==> (r matches Err(Error::TypeConversion { .. })),
{
    let ghost all = paths@;
    let mut rest = paths;
    let mut out: Vec<String> = Vec::new();
    while rest.len() > 0
        invariant
            all == paths@,
            out@.len() + rest@.len() == all.len(),
            rest@ == all.subrange(out@.len() as int, all.len() as int),
            forall|i: int| 0 <= i < out@.len() ==> Some((#[trigger] out@[i])@) == path_of(all[i]),
        decreases rest@.len(),
    {
        let ghost k = out@.len() as int;
        let first = rest.remove(0);
        proof {
            assert(first == all[k]);
        }
        match fspath(first) {
            Ok(s) => out.push(s),
            Err(e) => {
                proof {
                    assert(path_of(all[k]) is None);
                }
                return Err(e);
            },
        }
    }
    proof {
        assert forall|i: int| 0 <= i < all.len() implies (#[trigger] path_of(all[i])) is Some by {
            assert(Some(out@[i]@) == path_of(all[i]));
        }
    }
    Ok(out)
}

} // verus!

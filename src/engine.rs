//! The traversal engine: declarations of the `ignore` crate's types and the
//! calls made into it. Everything in this file is trusted: each item names the
//! outside function it relies on.

use vstd::prelude::*;

use ignore::DirEntry as RawEntry;
use ignore::Error as EngineError;
use ignore::Walk as Traversal;

use crate::error::Error;

verus! {

#[verifier::external_type_specification]
#[verifier::external_body]
pub struct ExPathBuf(std::path::PathBuf);

#[verifier::external_type_specification]
#[verifier::external_body]
pub struct ExIoError(std::io::Error);

/// `ignore::Error` is a plain enum whose variants `from_engine` reads.
#[verifier::external_type_specification]
pub struct ExEngineError(EngineError);

/// Relies on `Path::to_string_lossy`: the path as text, with invalid UTF-8
/// replaced.
#[verifier::external_body]
pub(crate) fn path_text(p: &std::path::PathBuf) -> String {
    p.to_string_lossy().into_owned()
}

/// Relies on `io::Error`'s `Display`: the error's message.
#[verifier::external_body]
pub(crate) fn io_error_text(e: &std::io::Error) -> String {
    e.to_string()
}

/// What `regex::Regex::new(pattern)` followed by `is_match(text)` answers:
/// whether the pattern compiles and matches somewhere in `text`.
pub uninterp spec fn regex_match(pattern: Seq<char>, text: Seq<char>) -> bool;

/// Relies on `regex::Regex::new` and `Regex::is_match`: the answer depends on
/// the pattern and the text alone; a pattern that does not compile matches
/// nothing.
#[verifier::external_body]
pub(crate) fn regex_is_match(pattern: &str, text: &str) -> (r: bool)
    ensures
        r == regex_match(pattern@, text@),
{
    match regex::Regex::new(pattern) {
        Ok(re) => re.is_match(text),
        Err(_) => false,
    }
}

/// The engine's built-in catalog of file types, as (name, globs) pairs: a
/// constant of the `ignore` crate.
pub uninterp spec fn default_catalog(marker: ()) -> Seq<(Seq<char>, Seq<Seq<char>>)>;

/// Relies on `ignore::types::TypesBuilder::add_defaults` and `definitions`:
/// the engine's built-in catalog of file types, as (name, globs) pairs; the
/// same on every call.
#[verifier::external_body]
pub(crate) fn default_type_definitions() -> (r: Vec<(String, Vec<String>)>)
    ensures
        crate::registry::items_view(r@) == default_catalog(()),
{
    let mut builder = ignore::types::TypesBuilder::new();
    builder.add_defaults();
    let mut out = Vec::new();
    for d in builder.definitions() {
        out.push((d.name().to_string(), d.globs().to_vec()));
    }
    out
}

/// A running traversal of the engine.
#[verifier::external_type_specification]
#[verifier::external_body]
pub struct ExTraversal(Traversal);

/// One entry as the engine yields it.
#[verifier::external_type_specification]
#[verifier::external_body]
pub struct ExRawEntry(RawEntry);

#[verifier::external_type_specification]
#[verifier::external_body]
pub struct ExWalkBuilder(ignore::WalkBuilder);

#[verifier::external_type_specification]
#[verifier::external_body]
pub struct ExOverrideBuilder(ignore::overrides::OverrideBuilder);

#[verifier::external_type_specification]
#[verifier::external_body]
pub struct ExTypesBuilder(ignore::types::TypesBuilder);

#[verifier::external_type_specification]
#[verifier::external_body]
#[verifier::reject_recursive_types(T)]
pub struct ExMutex<T: ?Sized>(std::sync::Mutex<T>);

/// Where a failure of a caller's callback waits, while the engine runs it,
/// until the session collects it.
pub type FailureSlot = std::sync::Arc<std::sync::Mutex<Option<Error>>>;

/// What `String::from_utf8` gives for a byte sequence: its text when the
/// bytes are UTF-8.
pub uninterp spec fn utf8_text(bytes: Seq<u8>) -> Option<Seq<char>>;

/// Relies on `String::from_utf8`: the text of the bytes when they are UTF-8,
/// and nothing otherwise.
#[verifier::external_body]
pub(crate) fn decode_utf8(bytes: Vec<u8>) -> (r: Option<String>)
    ensures
        match utf8_text(bytes@) {
            Some(t) => r matches Some(s) && s@ == t,
            None => r is None,
        },
{
    String::from_utf8(bytes).ok()
}

/// Relies on `Mutex::new`: an empty slot.
#[verifier::external_body]
pub(crate) fn new_slot() -> FailureSlot {
    std::sync::Arc::new(std::sync::Mutex::new(None))
}

/// Relies on `Mutex::lock` and `Option::take`: empties the slot, handing back
/// what it held.
#[verifier::external_body]
pub(crate) fn slot_take(slot: &FailureSlot) -> Option<Error> {
    match slot.lock() {
        Ok(mut held) => held.take(),
        Err(_) => None,
    }
}

/// Relies on `Mutex::lock`: puts `e` in the slot.
#[verifier::external_body]
pub(crate) fn slot_put(slot: &FailureSlot, e: Error) {
    if let Ok(mut held) = slot.lock() {
        *held = Some(e);
    }
}

/// Relies on `WalkBuilder::new`: a builder with `root` as its first root.
#[verifier::external_body]
pub(crate) fn builder_new(root: &str) -> ignore::WalkBuilder {
    ignore::WalkBuilder::new(root)
}

/// Relies on `WalkBuilder::add`: one more root.
#[verifier::external_body]
pub(crate) fn builder_add_root(b: &mut ignore::WalkBuilder, root: &str) {
    b.add(root);
}

/// Relies on `WalkBuilder::max_depth`.
#[verifier::external_body]
pub(crate) fn builder_max_depth(b: &mut ignore::WalkBuilder, depth: Option<usize>) {
    b.max_depth(depth);
}

/// Relies on `WalkBuilder::follow_links`.
#[verifier::external_body]
pub(crate) fn builder_follow_links(b: &mut ignore::WalkBuilder, yes: bool) {
    b.follow_links(yes);
}

/// Relies on `WalkBuilder::max_filesize`.
#[verifier::external_body]
pub(crate) fn builder_max_filesize(b: &mut ignore::WalkBuilder, size: Option<u64>) {
    b.max_filesize(size);
}

/// Relies on `WalkBuilder::hidden`.
#[verifier::external_body]
pub(crate) fn builder_hidden(b: &mut ignore::WalkBuilder, yes: bool) {
    b.hidden(yes);
}

/// Relies on `WalkBuilder::parents`.
#[verifier::external_body]
pub(crate) fn builder_parents(b: &mut ignore::WalkBuilder, yes: bool) {
    b.parents(yes);
}

/// Relies on `WalkBuilder::ignore`.
#[verifier::external_body]
pub(crate) fn builder_ignore(b: &mut ignore::WalkBuilder, yes: bool) {
    b.ignore(yes);
}

/// Relies on `WalkBuilder::git_global`.
#[verifier::external_body]
pub(crate) fn builder_git_global(b: &mut ignore::WalkBuilder, yes: bool) {
    b.git_global(yes);
}

/// Relies on `WalkBuilder::git_ignore`.
#[verifier::external_body]
pub(crate) fn builder_git_ignore(b: &mut ignore::WalkBuilder, yes: bool) {
    b.git_ignore(yes);
}

/// Relies on `WalkBuilder::git_exclude`.
#[verifier::external_body]
pub(crate) fn builder_git_exclude(b: &mut ignore::WalkBuilder, yes: bool) {
    b.git_exclude(yes);
}

/// Relies on `WalkBuilder::require_git`.
#[verifier::external_body]
pub(crate) fn builder_require_git(b: &mut ignore::WalkBuilder, yes: bool) {
    b.require_git(yes);
}

/// Relies on `WalkBuilder::ignore_case_insensitive`.
#[verifier::external_body]
pub(crate) fn builder_ignore_case_insensitive(b: &mut ignore::WalkBuilder, yes: bool) {
    b.ignore_case_insensitive(yes);
}

/// Relies on `WalkBuilder::same_file_system`.
#[verifier::external_body]
pub(crate) fn builder_same_file_system(b: &mut ignore::WalkBuilder, yes: bool) {
    b.same_file_system(yes);
}

/// Relies on `WalkBuilder::skip_stdout`.
#[verifier::external_body]
pub(crate) fn builder_skip_stdout(b: &mut ignore::WalkBuilder, yes: bool) {
    b.skip_stdout(yes);
}

/// Relies on `WalkBuilder::add_ignore`: reads a global ignore file, handing
/// back what went wrong, if anything.
#[verifier::external_body]
pub(crate) fn builder_add_ignore(b: &mut ignore::WalkBuilder, path: &str) -> Option<EngineError> {
    b.add_ignore(path)
}

/// Relies on `WalkBuilder::add_custom_ignore_filename`.
#[verifier::external_body]
pub(crate) fn builder_add_custom_ignore_filename(b: &mut ignore::WalkBuilder, name: &str) {
    b.add_custom_ignore_filename(name);
}

/// Relies on `WalkBuilder::filter_entry`: the engine asks the caller's
/// filter of every entry whether to keep it, through `FilterHook::keep_raw`.
#[verifier::external_body]
pub(crate) fn builder_filter_entry(
    b: &mut ignore::WalkBuilder,
    filter: &crate::session::SharedFilter,
    pending: &FailureSlot,
    follow_symlinks: bool,
) {
    let hook = crate::session::FilterHook {
        filter: std::sync::Arc::clone(filter),
        pending: std::sync::Arc::clone(pending),
        follow_symlinks,
    };
    b.filter_entry(move |raw| hook.keep_raw(raw));
}

/// Relies on `WalkBuilder::sort_by_file_path`: the engine orders siblings
/// through `OrderHook::order`, by the caller's order if one is given and by
/// bytes otherwise; paths reach it as text.
#[verifier::external_body]
pub(crate) fn builder_sort_by_file_path(
    b: &mut ignore::WalkBuilder,
    custom: Option<&crate::session::CustomOrder>,
    pending: &FailureSlot,
) {
    let hook = crate::session::OrderHook {
        order: match custom {
            Some(c) => Some(std::sync::Arc::clone(&c.order)),
            None => None,
        },
        pending: std::sync::Arc::clone(pending),
    };
    b.sort_by_file_path(move |x, y| hook.order(&x.to_string_lossy(), &y.to_string_lossy()));
}

/// Relies on `OverrideBuilder::new`: overrides anchored at `base`.
#[verifier::external_body]
pub(crate) fn overrides_new(base: &str) -> ignore::overrides::OverrideBuilder {
    ignore::overrides::OverrideBuilder::new(base)
}

/// Relies on `OverrideBuilder::case_insensitive`.
#[verifier::external_body]
pub(crate) fn overrides_case_insensitive(
    o: &mut ignore::overrides::OverrideBuilder,
    yes: bool,
) -> Option<EngineError> {
    o.case_insensitive(yes).err()
}

/// Relies on `OverrideBuilder::add`: parses one glob.
#[verifier::external_body]
pub(crate) fn overrides_add(o: &mut ignore::overrides::OverrideBuilder, glob: &str) -> Option<
    EngineError,
> {
    o.add(glob).err()
}

/// Relies on `OverrideBuilder::build` and `WalkBuilder::overrides`: compiles
/// the overrides and hands them to the walk.
#[verifier::external_body]
pub(crate) fn builder_overrides(
    b: &mut ignore::WalkBuilder,
    o: &ignore::overrides::OverrideBuilder,
) -> Option<EngineError> {
    match o.build() {
        Ok(built) => {
            b.overrides(built);
            None
        },
        Err(e) => Some(e),
    }
}

/// Relies on `TypesBuilder::new`: no types, no selections.
#[verifier::external_body]
pub(crate) fn types_new() -> ignore::types::TypesBuilder {
    ignore::types::TypesBuilder::new()
}

/// Relies on `TypesBuilder::add`: one glob for a type name.
#[verifier::external_body]
pub(crate) fn types_add(t: &mut ignore::types::TypesBuilder, name: &str, glob: &str) -> Option<
    EngineError,
> {
    t.add(name, glob).err()
}

/// Relies on `TypesBuilder::select`.
#[verifier::external_body]
pub(crate) fn types_select(t: &mut ignore::types::TypesBuilder, name: &str) {
    t.select(name);
}

/// Relies on `TypesBuilder::negate`.
#[verifier::external_body]
pub(crate) fn types_negate(t: &mut ignore::types::TypesBuilder, name: &str) {
    t.negate(name);
}

/// Relies on `TypesBuilder::build` and `WalkBuilder::types`: compiles the
/// types and hands them to the walk.
#[verifier::external_body]
pub(crate) fn builder_types(b: &mut ignore::WalkBuilder, t: &ignore::types::TypesBuilder) -> Option<
    EngineError,
> {
    match t.build() {
        Ok(built) => {
            b.types(built);
            None
        },
        Err(e) => Some(e),
    }
}

/// Relies on `WalkBuilder::build`: the traversal the builder describes.
#[verifier::external_body]
pub(crate) fn builder_build(b: &ignore::WalkBuilder) -> Traversal {
    b.build()
}

/// Relies on `Walk::next`: the next entry or error, or nothing once the
/// traversal is over.
#[verifier::external_body]
pub(crate) fn traversal_next(t: &mut Traversal) -> Option<Result<RawEntry, EngineError>> {
    t.next()
}

/// Relies on `DirEntry::path`: the entry's path as text.
#[verifier::external_body]
pub(crate) fn raw_path(d: &RawEntry) -> String {
    d.path().to_string_lossy().into_owned()
}

/// Relies on `DirEntry::file_name`: the last component as text.
#[verifier::external_body]
pub(crate) fn raw_file_name(d: &RawEntry) -> String {
    d.file_name().to_string_lossy().into_owned()
}

/// Relies on `DirEntry::depth`.
#[verifier::external_body]
pub(crate) fn raw_depth(d: &RawEntry) -> usize {
    d.depth()
}

/// Relies on `DirEntry::file_type` and `FileType::is_dir`.
#[verifier::external_body]
pub(crate) fn raw_is_dir(d: &RawEntry) -> Option<bool> {
    match d.file_type() {
        Some(t) => Some(t.is_dir()),
        None => None,
    }
}

/// Relies on `DirEntry::file_type` and `FileType::is_file`.
#[verifier::external_body]
pub(crate) fn raw_is_file(d: &RawEntry) -> Option<bool> {
    match d.file_type() {
        Some(t) => Some(t.is_file()),
        None => None,
    }
}

/// Relies on `DirEntry::path_is_symlink`.
#[verifier::external_body]
pub(crate) fn raw_is_symlink(d: &RawEntry) -> bool {
    d.path_is_symlink()
}

/// Relies on `DirEntry::ino`.
#[verifier::external_body]
pub(crate) fn raw_inode(d: &RawEntry) -> Option<u64> {
    d.ino()
}

/// Relies on `DirEntry::error`: a warning the engine attached to the entry.
#[verifier::external_body]
pub(crate) fn raw_warning(d: &RawEntry) -> Option<EngineError> {
    d.error().cloned()
}

} // verus!

//! One entry of a traversal, held as plain values.

use vstd::prelude::*;

use crate::engine::{
    raw_depth, raw_file_name, raw_inode, raw_is_dir, raw_is_file, raw_is_symlink, raw_path,
};

verus! {

/// A path the traversal reached, with what was learned of it on the way.
#[derive(Debug, Clone)]
pub struct DirEntry {
    /// The full path.
    pub path: String,
    /// The last component of the path.
    pub name: String,
    /// How many steps below its root the entry lies.
    pub depth: usize,
    /// Whether the entry is a directory; unknown for a stream.
    pub dir: Option<bool>,
    /// Whether the entry is a regular file; unknown for a stream.
    pub file: Option<bool>,
    /// Whether the path itself is a symbolic link.
    pub symlink: bool,
    /// The file-system identity of the entry, where the platform has one.
    pub inode: Option<u64>,
    /// Whether the traversal followed symbolic links.
    pub follow_symlinks: bool,
}

impl DirEntry {
    /// Reads what an engine entry tells of itself.
    pub(crate) fn from_raw(raw: &ignore::DirEntry, follow_symlinks: bool) -> (r: DirEntry)
        ensures
            r.follow_symlinks == follow_symlinks,
    {
        DirEntry {
            path: raw_path(raw),
            name: raw_file_name(raw),
            depth: raw_depth(raw),
            dir: raw_is_dir(raw),
            file: raw_is_file(raw),
            symlink: raw_is_symlink(raw),
            inode: raw_inode(raw),
            follow_symlinks,
        }
    }

    /// The full path.
    pub fn path(&self) -> (r: &str)
        ensures
            r@ == self.path@,
    {
        self.path.as_str()
    }

    /// The last component of the path.
    pub fn name(&self) -> (r: &str)
        ensures
            r@ == self.name@,
    {
        self.name.as_str()
    }

    /// How many steps below its root the entry lies.
    pub fn depth(&self) -> (r: usize)
        ensures
            r == self.depth,
    {
        self.depth
    }

    /// Whether the entry is known to be a directory.
    pub fn is_dir(&self) -> (r: bool)
        ensures
            r == (self.dir == Some(true)),
    {
        match self.dir {
            Some(b) => b,
            None => false,
        }
    }

    /// Whether the entry is known to be a regular file.
    pub fn is_file(&self) -> (r: bool)
        ensures
            r == (self.file == Some(true)),
    {
        match self.file {
            Some(b) => b,
            None => false,
        }
    }

    /// Whether the path itself is a symbolic link.
    pub fn is_symlink(&self) -> (r: bool)
        ensures
            r == self.symlink,
    {
        self.symlink
    }

    /// The file-system identity of the entry, where the platform has one.
    pub fn inode(&self) -> (r: Option<u64>)
        ensures
            r == self.inode,
    {
        self.inode
    }
}

} // verus!

//! The tree of a project's files.
use vstd::prelude::*;

use std::collections::HashMap;

verus! {

/// A file, or a directory of named nodes.
#[derive(Debug)]
pub enum FileNode {
    File,
    Directory(HashMap<String, FileNode>),
}

impl FileNode {
    /// The entries of a directory, to change them in place; `None` for a
    /// file.
    pub fn as_directory_mut(&mut self) -> (r: Option<&mut HashMap<String, FileNode>>)
        ensures
            match *old(self) {
                FileNode::File => r is None && *final(self) == FileNode::File,
                FileNode::Directory(d) => r matches Some(m) && *m == d && *final(self)
                    == FileNode::Directory(*final(m)),
            },
    {
        match self {
            FileNode::Directory(dir) => Some(dir),
            FileNode::File => None,
        }
    }
}

} // verus!

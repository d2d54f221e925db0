//! What a listing knows of one entry: its name, a snapshot of its metadata,
//! and what was found out about its link target, its extended attributes and
//! the names of its owner and group.

use crate::time::Timestamp;
use vstd::prelude::*;

verus! {

/// The type of a filesystem object.
#[derive(Clone, Copy, Debug, PartialEq, Eq, Structural)]
pub enum FileKind {
    Regular,
    Directory,
    Symlink,
    BlockDevice,
    CharDevice,
    Fifo,
    Socket,
    Unknown,
}

/// A point-in-time snapshot of an entry's metadata. For a symbolic link it
/// describes the link, not what the link points to.
#[derive(Clone, Copy, Debug, PartialEq, Eq)]
pub struct Metadata {
    pub kind: FileKind,
    /// The mode bits; the low nine are the permissions.
    pub mode: u32,
    pub uid: u32,
    pub gid: u32,
    pub nlink: u64,
    pub len: u64,
    pub ino: u64,
    pub modified: Timestamp,
}

/// Where a symbolic link points, and whether anything is there.
#[derive(Clone, Debug, PartialEq, Eq)]
pub struct LinkTarget {
    pub path: String,
    pub exists: bool,
}

/// The mathematical value of a [`LinkTarget`].
pub ghost struct LinkTargetView {
    pub path: Seq<char>,
    pub exists: bool,
}

impl View for LinkTarget {
    type V = LinkTargetView;

    open spec fn view(&self) -> LinkTargetView {
        LinkTargetView { path: self.path@, exists: self.exists }
    }
}

/// One entry of a listing.
#[derive(Clone, Debug, PartialEq, Eq)]
pub struct Entry {
    /// The last component of the entry's path; `.` and `..` stand for the
    /// two pseudo-entries of a directory.
    pub name: String,
    /// The snapshot, or `None` where it could not be fetched.
    pub metadata: Option<Metadata>,
    /// The target of a symbolic link, where it could be read.
    pub target: Option<LinkTarget>,
    /// The names of the extended attributes, in the order in which the
    /// system lists them.
    pub xattrs: Vec<String>,
    /// The owner's name, where the lookup of `uid` found one.
    pub owner: Option<String>,
    /// The group's name, where the lookup of `gid` found one.
    pub group: Option<String>,
}

/// The mathematical value of an [`Entry`].
pub ghost struct EntryView {
    pub name: Seq<char>,
    pub metadata: Option<Metadata>,
    pub target: Option<LinkTargetView>,
    pub xattrs: Seq<Seq<char>>,
    pub owner: Option<Seq<char>>,
    pub group: Option<Seq<char>>,
}

/// The view of an optional string.
pub open spec fn text_of(s: Option<String>) -> Option<Seq<char>> {
    match s {
        Some(s) => Some(s@),
        None => None,
    }
}

/// The views of a vector of strings.
pub open spec fn texts_of(v: Seq<String>) -> Seq<Seq<char>> {
    Seq::new(v.len(), |i: int| v[i]@)
}

impl View for Entry {
    type V = EntryView;

    open spec fn view(&self) -> EntryView {
        EntryView {
            name: self.name@,
            metadata: self.metadata,
            target: match self.target {
                Some(t) => Some(t@),
                None => None,
            },
            xattrs: texts_of(self.xattrs@),
            owner: text_of(self.owner),
            group: text_of(self.group),
        }
    }
}

/// The views of a sequence of entries.
pub open spec fn entries_of(v: Seq<Entry>) -> Seq<EntryView> {
    Seq::new(v.len(), |i: int| v[i]@)
}

/// The name `.`.
pub open spec fn dot() -> Seq<char> {
    seq!['.']
}

/// The name `..`.
pub open spec fn dot_dot() -> Seq<char> {
    seq!['.', '.']
}

/// The name is `.` or `..`.
pub open spec fn is_pseudo_name(name: Seq<char>) -> bool {
    name == dot() || name == dot_dot()
}

impl EntryView {
    /// The entry is one of the pseudo-entries `.` and `..`.
    pub open spec fn is_pseudo(self) -> bool {
        is_pseudo_name(self.name)
    }
}

} // verus!

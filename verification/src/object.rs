//! The plain values that the store is described with: object ids and the
//! entries of trees.

use vstd::prelude::*;
use crate::bytes::{copy_bytes, same_bytes};

verus! {

/// What an entry of a tree points at.
#[derive(Clone, Copy, Debug, PartialEq, Eq, Structural)]
pub enum EntryKind {
    /// A blob: the content of a file.
    File,
    /// Another tree: a directory.
    Directory,
    /// Anything else, such as a commit of another repository.
    Other,
}

/// The permission mode of a directory entry.
pub const DIRECTORY_MODE: i32 = 0o040000;

/// The permission mode of a new, non-executable file.
pub const FILE_MODE: i32 = 0o100644;

/// The permission mode of an entry that points at a commit.
pub const COMMIT_MODE: i32 = 0o160000;

/// The id of an object: the bytes of its hash.
#[derive(Debug)]
pub struct ObjectId {
    pub bytes: Vec<u8>,
}

impl Clone for ObjectId {
    fn clone(&self) -> (r: ObjectId)
        ensures
            r@ == self@,
    {
        ObjectId { bytes: copy_bytes(self.bytes.as_slice()) }
    }
}

impl ObjectId {
    /// Whether two ids are the same.
    pub fn same_as(&self, other: &ObjectId) -> (r: bool)
        ensures
            r == (self@ == other@),
    {
        same_bytes(self.bytes.as_slice(), other.bytes.as_slice())
    }
}

impl View for ObjectId {
    type V = Seq<u8>;

    open spec fn view(&self) -> Seq<u8> {
        self.bytes@
    }
}

/// One entry of a tree, as a mathematical value.
pub struct Entry {
    pub id: Seq<u8>,
    pub kind: EntryKind,
    pub mode: int,
}

/// One entry of a tree, as read from the store.
#[derive(Debug)]
pub struct EntryInfo {
    pub id: ObjectId,
    pub kind: EntryKind,
    pub mode: i32,
}

impl View for EntryInfo {
    type V = Entry;

    open spec fn view(&self) -> Entry {
        Entry { id: self.id@, kind: self.kind, mode: self.mode as int }
    }
}

/// The entries of one tree, by name.
pub type Level = Map<Seq<u8>, Entry>;

/// The kind of entry that a tree builder makes for a permission mode.
pub open spec fn kind_of_mode(mode: int) -> EntryKind {
    if mode == DIRECTORY_MODE {
        EntryKind::Directory
    } else if mode == COMMIT_MODE {
        EntryKind::Other
    } else {
        EntryKind::File
    }
}

/// The longest name that a tree can hold, in bytes.
pub const MAX_NAME_LENGTH: usize = 0xffff;

/// Whether a tree can hold an entry of this name: the name is not empty, not
/// longer than a tree can record, and free of zero bytes.
pub open spec fn is_entry_name(name: Seq<u8>) -> bool {
    0 < name.len() <= MAX_NAME_LENGTH && forall|i: int| 0 <= i < name.len() ==> name[i] != 0
}

/// Whether every name of `level` is one that a tree can hold.
pub open spec fn well_named(level: Level) -> bool {
    forall|name: Seq<u8>| #[trigger] level.contains_key(name) ==> is_entry_name(name)
}

/// The tree without entries.
pub open spec fn empty_level() -> Level {
    Map::empty()
}

} // verus!

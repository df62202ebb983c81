//! What a tree of the store means, and what editing one does.
//!
//! A tree is a level of entries by name. A directory entry names the tree one
//! level down, so a path is resolved level by level. Inserting a file and
//! removing an entry are stated here as relations between the level before
//! and the level after; the functions of [`crate::git`] are proved against
//! them.

use vstd::prelude::*;
use crate::git::GitError;
use crate::object::{
    empty_level, Entry, EntryKind, Level, DIRECTORY_MODE, FILE_MODE, MAX_NAME_LENGTH,
};
use crate::path::{is_segment, lemma_split_segment, split};
use crate::store::{tree_entries, tree_names};

verus! {

/// The entry that the root of a tree stands for: a directory.
pub open spec fn root_entry(root: Seq<u8>) -> Entry {
    Entry { id: root, kind: EntryKind::Directory, mode: DIRECTORY_MODE as int }
}

/// The level below the entry `name` of `level`: the tree that the entry
/// names, or the empty tree where `level` has no such entry.
pub open spec fn below(level: Level, name: Seq<u8>) -> Level {
    if level.contains_key(name) {
        tree_entries(level[name].id)
    } else {
        empty_level()
    }
}

/// Whether the tree with this id lists its entries as a tree that was built
/// here does: each name once, and no other names.
pub open spec fn well_listed(id: Seq<u8>) -> bool {
    tree_names(id).no_duplicates() && tree_names(id).to_set() == tree_entries(id).dom()
}

/// The entry that a non-empty `path` leads to from `level`, if there is one:
/// every segment but the last must name a directory.
pub open spec fn lookup(level: Level, path: Seq<Seq<u8>>) -> Option<Entry>
    decreases path.len(),
{
    if path.len() == 0 || !level.contains_key(path[0]) {
        None
    } else if path.len() == 1 {
        Some(level[path[0]])
    } else if level[path[0]].kind != EntryKind::Directory {
        None
    } else {
        lookup(tree_entries(level[path[0]].id), path.skip(1))
    }
}

/// What `path` names in the tree with id `root`. The empty path names the
/// root itself, which always exists and is a directory.
pub open spec fn resolve(root: Seq<u8>, path: Seq<Seq<u8>>) -> Option<Entry> {
    if path.len() == 0 {
        Some(root_entry(root))
    } else {
        lookup(tree_entries(root), path)
    }
}

/// Whether something could exist at `path`: the nearest ancestor that exists
/// is a directory. The root and its direct children always can.
pub open spec fn can_exist(level: Level, path: Seq<Seq<u8>>) -> bool
    decreases path.len(),
{
    if path.len() <= 1 {
        true
    } else {
        match lookup(level, path.drop_last()) {
            Some(parent) => parent.kind == EntryKind::Directory,
            None => can_exist(level, path.drop_last()),
        }
    }
}

/// The permission mode for a file written at `name`: that of the entry it
/// replaces, or the default where there is none.
pub open spec fn file_mode_at(level: Level, name: Seq<u8>) -> int {
    if level.contains_key(name) {
        level[name].mode
    } else {
        FILE_MODE as int
    }
}

/// Whether every segment of `path` is short enough for a tree to record it.
pub open spec fn short_names(path: Seq<Seq<u8>>) -> bool {
    forall|i: int| 0 <= i < path.len() ==> (#[trigger] path[i]).len() <= MAX_NAME_LENGTH
}

/// Why the blob `blob` cannot be written at `path` below `level`, if it
/// cannot: the target is no file (`IsDir`), as the level itself never is; it
/// is a file with that very content (`NoChange`); an ancestor is no directory
/// (`CannotCreate`); or an entry would have to be made under a name that is
/// too long for a tree to record (`CannotCreate`).
pub open spec fn insert_conflict(level: Level, path: Seq<Seq<u8>>, blob: Seq<u8>) -> Option<
    GitError,
>
    decreases path.len(),
{
    if path.len() == 0 {
        Some(GitError::IsDir)
    } else if !level.contains_key(path[0]) && path[0].len() > MAX_NAME_LENGTH {
        Some(GitError::CannotCreate)
    } else if path.len() == 1 {
        if !level.contains_key(path[0]) {
            None
        } else if level[path[0]].kind != EntryKind::File {
            Some(GitError::IsDir)
        } else if level[path[0]].id == blob {
            Some(GitError::NoChange)
        } else {
            None
        }
    } else if level.contains_key(path[0]) && level[path[0]].kind != EntryKind::Directory {
        Some(GitError::CannotCreate)
    } else {
        insert_conflict(below(level, path[0]), path.skip(1), blob)
    }
}

/// Whether `after` is `before` with the blob `blob` written at `path`.
///
/// At the last segment the level gains a file entry for the blob. At every
/// segment before it, the level's entry of that name becomes a directory
/// whose tree is the old one, or the empty one, with the rest of the path
/// written into it, and is well listed; all other entries stay as they are.
pub open spec fn inserted(before: Level, path: Seq<Seq<u8>>, blob: Seq<u8>, after: Level) -> bool
    decreases path.len(),
{
    if path.len() == 0 {
        false
    } else if path.len() == 1 {
        after == before.insert(
            path[0],
            Entry { id: blob, kind: EntryKind::File, mode: file_mode_at(before, path[0]) },
        )
    } else {
        &&& after.contains_key(path[0])
        &&& after[path[0]].kind == EntryKind::Directory
        &&& after[path[0]].mode == DIRECTORY_MODE
        &&& after == before.insert(path[0], after[path[0]])
        &&& well_listed(after[path[0]].id)
        &&& inserted(below(before, path[0]), path.skip(1), blob, tree_entries(after[path[0]].id))
    }
}

/// Whether `after` is `before` with the entry at `path` removed, and with it
/// every directory that the removal left empty.
///
/// At the last segment the level loses the entry. At every segment before
/// it, the entry is a directory from whose tree the rest of the path is
/// removed: where that leaves the tree empty the level loses the entry, else
/// the entry names the tree that is left, which is well listed.
pub open spec fn removed(before: Level, path: Seq<Seq<u8>>, after: Level) -> bool
    decreases path.len(),
{
    if path.len() == 0 || !before.contains_key(path[0]) {
        false
    } else if path.len() == 1 {
        after == before.remove(path[0])
    } else if before[path[0]].kind != EntryKind::Directory {
        false
    } else if after.contains_key(path[0]) {
        &&& after[path[0]].kind == EntryKind::Directory
        &&& after[path[0]].mode == DIRECTORY_MODE
        &&& after == before.insert(path[0], after[path[0]])
        &&& tree_entries(after[path[0]].id) != empty_level()
        &&& well_listed(after[path[0]].id)
        &&& removed(tree_entries(before[path[0]].id), path.skip(1), tree_entries(after[path[0]].id))
    } else {
        &&& after == before.remove(path[0])
        &&& removed(tree_entries(before[path[0]].id), path.skip(1), empty_level())
    }
}

/// A conflict is one of three: `IsDir`, `NoChange` or `CannotCreate`.
pub proof fn lemma_conflict_kinds(level: Level, path: Seq<Seq<u8>>, blob: Seq<u8>)
    ensures
        insert_conflict(level, path, blob) matches Some(err) ==> err is IsDir || err is NoChange
            || err is CannotCreate,
    decreases path.len(),
{
    if path.len() > 1 {
        lemma_conflict_kinds(below(level, path[0]), path.skip(1), blob);
    }
}

/// What stands against a write to a path that names something: `IsDir`
/// where that is no file, `NoChange` where it is a file with the very blob
/// that is to be written, and nothing where it is a file with another.
pub proof fn lemma_conflict_at_target(level: Level, path: Seq<Seq<u8>>, blob: Seq<u8>)
    requires
        lookup(level, path) is Some,
    ensures
        insert_conflict(level, path, blob) == if lookup(level, path)->Some_0.kind
            != EntryKind::File {
            Some(GitError::IsDir)
        } else if lookup(level, path)->Some_0.id == blob {
            Some(GitError::NoChange)
        } else {
            None
        },
    decreases path.len(),
{
    if path.len() > 1 {
        lemma_conflict_at_target(tree_entries(level[path[0]].id), path.skip(1), blob);
    }
}

/// Whether neither path leads through the other: they part ways at some
/// segment.
pub open spec fn apart(p: Seq<Seq<u8>>, q: Seq<Seq<u8>>) -> bool {
    !p.is_prefix_of(q) && !q.is_prefix_of(p)
}

/// Paths that are apart and start alike are longer than one segment, and
/// their rests are apart.
proof fn lemma_apart_rest(p: Seq<Seq<u8>>, q: Seq<Seq<u8>>)
    requires
        apart(p, q),
        p.len() > 0,
        q.len() > 0,
        p[0] == q[0],
    ensures
        p.len() > 1,
        q.len() > 1,
        apart(p.skip(1), q.skip(1)),
{
    if p.len() == 1 {
        assert(p =~= q.subrange(0, 1));
    }
    if q.len() == 1 {
        assert(q =~= p.subrange(0, 1));
    }
    let ps = p.skip(1);
    let qs = q.skip(1);
    if ps.is_prefix_of(qs) {
        assert(p =~= q.subrange(0, p.len() as int)) by {
            assert(ps == qs.subrange(0, ps.len() as int));
            assert forall|i: int| 0 <= i < p.len() implies p[i] == q[i] by {
                if i > 0 {
                    assert(ps[i - 1] == qs.subrange(0, ps.len() as int)[i - 1]);
                }
            }
        }
    }
    if qs.is_prefix_of(ps) {
        assert(q =~= p.subrange(0, q.len() as int)) by {
            assert(qs == ps.subrange(0, qs.len() as int));
            assert forall|i: int| 0 <= i < q.len() implies q[i] == p[i] by {
                if i > 0 {
                    assert(qs[i - 1] == ps.subrange(0, qs.len() as int)[i - 1]);
                }
            }
        }
    }
}

/// In an empty tree no path names anything, every write below the root is
/// free of conflict unless a name is too long, and everything can exist.
pub proof fn lemma_empty_tree(path: Seq<Seq<u8>>, blob: Seq<u8>)
    ensures
        lookup(empty_level(), path) is None,
        path.len() > 0 && short_names(path) ==> insert_conflict(empty_level(), path, blob)
            is None,
        can_exist(empty_level(), path),
    decreases path.len(),
{
    if path.len() > 1 {
        lemma_empty_tree(path.drop_last(), blob);
        lemma_empty_tree(path.skip(1), blob);
        if short_names(path) {
            assert(path[0].len() <= MAX_NAME_LENGTH);
            assert(short_names(path.skip(1))) by {
                assert forall|i: int| 0 <= i < path.skip(1).len() implies (#[trigger] path.skip(
                    1,
                )[i]).len() <= MAX_NAME_LENGTH by {
                    assert(path.skip(1)[i] == path[i + 1]);
                }
            }
        }
    } else if path.len() == 1 && short_names(path) {
        assert(path[0].len() <= MAX_NAME_LENGTH);
    }
}

/// A write that meets no conflict makes no entry under a name that is too
/// long: a segment of the path that is too long names something that is
/// there already.
pub proof fn lemma_no_entry_under_a_long_name(
    level: Level,
    path: Seq<Seq<u8>>,
    blob: Seq<u8>,
    k: int,
)
    requires
        insert_conflict(level, path, blob) is None,
        0 <= k < path.len(),
        path[k].len() > MAX_NAME_LENGTH,
    ensures
        lookup(level, path.take(k + 1)) is Some,
    decreases path.len(),
{
    let upto = path.take(k + 1);
    assert(upto[0] == path[0]);
    if k > 0 {
        let rest = path.skip(1);
        assert(rest[k - 1] == path[k]);
        assert(upto.skip(1) =~= rest.take(k));
        lemma_no_entry_under_a_long_name(below(level, path[0]), rest, blob, k - 1);
        if !level.contains_key(path[0]) {
            lemma_empty_tree(rest.take(k), blob);
        }
    }
}

/// Where a path names something, each of its proper ancestors names a
/// directory.
pub proof fn lemma_ancestors_are_directories(level: Level, path: Seq<Seq<u8>>, k: int)
    requires
        lookup(level, path) is Some,
        0 < k < path.len(),
    ensures
        lookup(level, path.take(k)) is Some,
        lookup(level, path.take(k))->Some_0.kind == EntryKind::Directory,
    decreases path.len(),
{
    let ancestor = path.take(k);
    assert(ancestor[0] == path[0]);
    if k > 1 {
        lemma_ancestors_are_directories(tree_entries(level[path[0]].id), path.skip(1), k - 1);
        assert(ancestor.skip(1) =~= path.skip(1).take(k - 1));
    }
}

/// Where an ancestor of a path names something that is no directory, the
/// path names nothing.
pub proof fn lemma_nothing_below_a_file(level: Level, path: Seq<Seq<u8>>, k: int)
    requires
        0 < k < path.len(),
        lookup(level, path.take(k)) is Some,
        lookup(level, path.take(k))->Some_0.kind != EntryKind::Directory,
    ensures
        lookup(level, path) is None,
{
    if lookup(level, path) is Some {
        lemma_ancestors_are_directories(level, path, k);
    }
}

/// After a write, the path names a file with the blob that was written.
pub proof fn lemma_written_file_is_found(
    before: Level,
    path: Seq<Seq<u8>>,
    blob: Seq<u8>,
    after: Level,
)
    requires
        inserted(before, path, blob, after),
    ensures
        lookup(after, path) is Some,
        lookup(after, path)->Some_0.id == blob,
        lookup(after, path)->Some_0.kind == EntryKind::File,
    decreases path.len(),
{
    if path.len() > 1 {
        lemma_written_file_is_found(
            below(before, path[0]),
            path.skip(1),
            blob,
            tree_entries(after[path[0]].id),
        );
    } else {
        assert(after.contains_key(path[0]));
    }
}

/// A write keeps the permission mode of the file that it replaces, and gives
/// a new file the default mode.
pub proof fn lemma_write_keeps_mode(
    before: Level,
    path: Seq<Seq<u8>>,
    blob: Seq<u8>,
    after: Level,
)
    requires
        inserted(before, path, blob, after),
        insert_conflict(before, path, blob) is None,
    ensures
        lookup(after, path) is Some,
        lookup(after, path)->Some_0.mode == match lookup(before, path) {
            Some(replaced) => replaced.mode,
            None => FILE_MODE as int,
        },
    decreases path.len(),
{
    if path.len() > 1 {
        let rest = path.skip(1);
        if !before.contains_key(path[0]) {
            lemma_empty_tree(rest, blob);
        }
        lemma_write_keeps_mode(below(before, path[0]), rest, blob, tree_entries(after[path[0]].id));
    } else {
        assert(after.contains_key(path[0]));
    }
}

/// After a write, every proper ancestor of the path names a directory: the
/// directories that were missing have been made. Each of them is well
/// listed, and lists the next segment of the path.
pub proof fn lemma_write_makes_directories(
    before: Level,
    path: Seq<Seq<u8>>,
    blob: Seq<u8>,
    after: Level,
    k: int,
)
    requires
        inserted(before, path, blob, after),
        0 < k < path.len(),
    ensures
        lookup(after, path.take(k)) is Some,
        lookup(after, path.take(k))->Some_0.kind == EntryKind::Directory,
        well_listed(lookup(after, path.take(k))->Some_0.id),
        tree_entries(lookup(after, path.take(k))->Some_0.id).contains_key(path[k]),
    decreases path.len(),
{
    let ancestor = path.take(k);
    let rest = path.skip(1);
    let sub_after = tree_entries(after[path[0]].id);
    assert(ancestor[0] == path[0]);
    assert(inserted(below(before, path[0]), rest, blob, sub_after));
    if k > 1 {
        assert(ancestor.skip(1) =~= rest.take(k - 1));
        assert(rest[k - 1] == path[k]);
        lemma_write_makes_directories(below(before, path[0]), rest, blob, sub_after, k - 1);
    } else {
        assert(rest[0] == path[1]);
        assert(sub_after.contains_key(rest[0]));
    }
}

/// What a path names one level below a directory: the entry of that name
/// in the directory's tree, if it has one.
pub proof fn lemma_lookup_in_directory(level: Level, path: Seq<Seq<u8>>, name: Seq<u8>)
    requires
        lookup(level, path) is Some,
        lookup(level, path)->Some_0.kind == EntryKind::Directory,
    ensures
        lookup(level, path.push(name)) == (if tree_entries(
            lookup(level, path)->Some_0.id,
        ).contains_key(name) {
            Some(tree_entries(lookup(level, path)->Some_0.id)[name])
        } else {
            None
        }),
    decreases path.len(),
{
    let longer = path.push(name);
    let sub = tree_entries(level[path[0]].id);
    assert(longer[0] == path[0]);
    if path.len() == 1 {
        let last = longer.skip(1);
        assert(last =~= seq![name]);
        assert(last[0] == name);
        assert(lookup(level, longer) == lookup(sub, last));
    } else {
        assert(longer.skip(1) =~= path.skip(1).push(name));
        assert(lookup(level, longer) == lookup(sub, longer.skip(1)));
        lemma_lookup_in_directory(sub, path.skip(1), name);
    }
}

/// What a well-listed directory lists is there: a listed name that is a
/// segment names, appended to the directory's path, an entry of the tree.
pub proof fn lemma_listed_child_is_there(root: Seq<u8>, path: Seq<Seq<u8>>, i: int)
    requires
        resolve(root, path) is Some,
        resolve(root, path)->Some_0.kind == EntryKind::Directory,
        well_listed(resolve(root, path)->Some_0.id),
        0 <= i < tree_names(resolve(root, path)->Some_0.id).len(),
        is_segment(tree_names(resolve(root, path)->Some_0.id)[i]),
    ensures
        resolve(root, path + split(tree_names(resolve(root, path)->Some_0.id)[i])) is Some,
{
    let directory = resolve(root, path)->Some_0.id;
    let name = tree_names(directory)[i];
    lemma_split_segment(name);
    assert(path + seq![name] =~= path.push(name));
    assert(tree_names(directory).to_set().contains(name));
    if path.len() == 0 {
        assert(path.push(name)[0] == name);
    } else {
        lemma_lookup_in_directory(tree_entries(root), path, name);
    }
}

/// A well-listed tree lists each of its entries exactly once.
pub proof fn lemma_listed_once(id: Seq<u8>, name: Seq<u8>)
    requires
        well_listed(id),
        tree_entries(id).contains_key(name),
    ensures
        exists|i: int| 0 <= i < tree_names(id).len() && tree_names(id)[i] == name,
        forall|i: int, j: int|
            0 <= i < tree_names(id).len() && 0 <= j < tree_names(id).len() && tree_names(id)[i]
                == name && tree_names(id)[j] == name ==> i == j,
{
    assert(tree_names(id).to_set().contains(name));
}

/// Writing the same blob at the same path once more is refused: there is
/// nothing to change.
pub proof fn lemma_same_write_is_no_change(
    before: Level,
    path: Seq<Seq<u8>>,
    blob: Seq<u8>,
    after: Level,
)
    requires
        inserted(before, path, blob, after),
    ensures
        insert_conflict(after, path, blob) == Some(GitError::NoChange),
    decreases path.len(),
{
    if path.len() > 1 {
        lemma_same_write_is_no_change(
            below(before, path[0]),
            path.skip(1),
            blob,
            tree_entries(after[path[0]].id),
        );
    } else {
        assert(after.contains_key(path[0]));
    }
}

/// A write that meets no conflict leaves every path alone that is apart
/// from the one written.
pub proof fn lemma_write_leaves_others(
    before: Level,
    path: Seq<Seq<u8>>,
    blob: Seq<u8>,
    after: Level,
    other: Seq<Seq<u8>>,
)
    requires
        inserted(before, path, blob, after),
        insert_conflict(before, path, blob) is None,
        apart(other, path),
    ensures
        lookup(after, other) == lookup(before, other),
    decreases path.len(),
{
    if other.len() == 0 {
    } else if other[0] != path[0] {
        assert(after.contains_key(other[0]) == before.contains_key(other[0]));
    } else {
        lemma_apart_rest(other, path);
        let rest = path.skip(1);
        let sub_after = tree_entries(after[path[0]].id);
        if !before.contains_key(path[0]) {
            lemma_empty_tree(rest, blob);
            lemma_empty_tree(other.skip(1), blob);
        }
        lemma_write_leaves_others(below(before, path[0]), rest, blob, sub_after, other.skip(1));
    }
}

/// Only what exists can be removed.
pub proof fn lemma_removed_was_there(before: Level, path: Seq<Seq<u8>>, after: Level)
    requires
        removed(before, path, after),
    ensures
        lookup(before, path) is Some,
    decreases path.len(),
{
    if path.len() > 1 {
        let sub_after = if after.contains_key(path[0]) {
            tree_entries(after[path[0]].id)
        } else {
            empty_level()
        };
        lemma_removed_was_there(tree_entries(before[path[0]].id), path.skip(1), sub_after);
    }
}

/// After a removal, the path names nothing.
pub proof fn lemma_removed_is_gone(before: Level, path: Seq<Seq<u8>>, after: Level)
    requires
        removed(before, path, after),
    ensures
        lookup(after, path) is None,
    decreases path.len(),
{
    if path.len() > 1 && after.contains_key(path[0]) {
        lemma_removed_is_gone(
            tree_entries(before[path[0]].id),
            path.skip(1),
            tree_entries(after[path[0]].id),
        );
    }
}

/// Writing a file into an empty tree and removing it again leaves the empty
/// tree: the directories that the write made go with the file.
pub proof fn lemma_write_then_removal_in_empty_tree(
    path: Seq<Seq<u8>>,
    blob: Seq<u8>,
    written: Level,
    after: Level,
)
    requires
        inserted(empty_level(), path, blob, written),
        removed(written, path, after),
    ensures
        after == empty_level(),
    decreases path.len(),
{
    if path.len() == 1 {
        assert(after =~= empty_level());
    } else {
        let sub_written = tree_entries(written[path[0]].id);
        if after.contains_key(path[0]) {
            let sub_after = tree_entries(after[path[0]].id);
            lemma_write_then_removal_in_empty_tree(path.skip(1), blob, sub_written, sub_after);
        } else {
            assert(after =~= empty_level());
        }
    }
}

/// A removal leaves every path alone that is apart from the one removed.
pub proof fn lemma_removal_leaves_others(
    before: Level,
    path: Seq<Seq<u8>>,
    after: Level,
    other: Seq<Seq<u8>>,
)
    requires
        removed(before, path, after),
        apart(other, path),
    ensures
        lookup(after, other) == lookup(before, other),
    decreases path.len(),
{
    if other.len() == 0 {
    } else if other[0] != path[0] {
        assert(after.contains_key(other[0]) == before.contains_key(other[0]));
        if after.contains_key(other[0]) {
            assert(after[other[0]] == before[other[0]]);
        }
    } else {
        lemma_apart_rest(other, path);
        let sub_before = tree_entries(before[path[0]].id);
        if after.contains_key(path[0]) {
            lemma_removal_leaves_others(
                sub_before,
                path.skip(1),
                tree_entries(after[path[0]].id),
                other.skip(1),
            );
        } else {
            lemma_removal_leaves_others(sub_before, path.skip(1), empty_level(), other.skip(1));
            lemma_empty_tree(other.skip(1), Seq::empty());
        }
    }
}

/// A removal leaves no empty directory on the path: an ancestor that still
/// names something names a directory with entries.
pub proof fn lemma_no_empty_directory_left(
    before: Level,
    path: Seq<Seq<u8>>,
    after: Level,
    k: int,
)
    requires
        removed(before, path, after),
        0 < k < path.len(),
        lookup(after, path.take(k)) is Some,
    ensures
        lookup(after, path.take(k))->Some_0.kind == EntryKind::Directory,
        tree_entries(lookup(after, path.take(k))->Some_0.id) != empty_level(),
        well_listed(lookup(after, path.take(k))->Some_0.id),
    decreases path.len(),
{
    let ancestor = path.take(k);
    assert(ancestor[0] == path[0]);
    if k > 1 {
        assert(ancestor.skip(1) =~= path.skip(1).take(k - 1));
        lemma_no_empty_directory_left(
            tree_entries(before[path[0]].id),
            path.skip(1),
            tree_entries(after[path[0]].id),
            k - 1,
        );
    }
}

/// What a removal does to the directory that held the entry. Where the
/// entry was the directory's only one, the directory is gone too. Where it
/// had others, it still exists and holds exactly the others.
pub proof fn lemma_removal_in_directory(before: Level, path: Seq<Seq<u8>>, after: Level)
    requires
        removed(before, path, after),
        path.len() > 1,
    ensures
        lookup(before, path.drop_last()) is Some,
        ({
            let held = tree_entries(lookup(before, path.drop_last())->Some_0.id);
            let left = held.remove(path.last());
            if left == empty_level() {
                lookup(after, path.drop_last()) is None
            } else {
                &&& lookup(after, path.drop_last()) is Some
                &&& lookup(after, path.drop_last())->Some_0.kind == EntryKind::Directory
                &&& tree_entries(lookup(after, path.drop_last())->Some_0.id) == left
            }
        }),
    decreases path.len(),
{
    let parent = path.drop_last();
    let rest = path.skip(1);
    let sub_before = tree_entries(before[path[0]].id);
    assert(parent[0] == path[0]);
    assert(rest.last() == path.last());
    if path.len() == 2 {
        assert(parent.len() == 1);
        assert(rest.len() == 1);
        assert(rest[0] == path.last());
        if after.contains_key(path[0]) {
            let sub_after = tree_entries(after[path[0]].id);
            assert(removed(sub_before, rest, sub_after));
            assert(sub_after == sub_before.remove(rest[0]));
        } else {
            assert(removed(sub_before, rest, empty_level()));
            assert(sub_before.remove(rest[0]) == empty_level());
        }
    } else {
        assert(parent.skip(1) =~= rest.drop_last());
        if after.contains_key(path[0]) {
            lemma_removal_in_directory(sub_before, rest, tree_entries(after[path[0]].id));
        } else {
            lemma_removal_in_directory(sub_before, rest, empty_level());
            let held = tree_entries(lookup(before, parent)->Some_0.id);
            if held.remove(path.last()) != empty_level() {
                // The directory would still be there, below a level that
                // is empty.
                lemma_empty_tree(rest.drop_last(), Seq::empty());
            }
        }
    }
}

/// Below something that is no directory nothing can be written: the write is
/// refused with `CannotCreate`.
pub proof fn lemma_no_write_below_a_file(
    level: Level,
    path: Seq<Seq<u8>>,
    blob: Seq<u8>,
    k: int,
)
    requires
        0 < k < path.len(),
        lookup(level, path.take(k)) is Some,
        lookup(level, path.take(k))->Some_0.kind != EntryKind::Directory,
    ensures
        insert_conflict(level, path, blob) == Some(GitError::CannotCreate),
    decreases path.len(),
{
    let ancestor = path.take(k);
    assert(ancestor[0] == path[0]);
    if k > 1 {
        assert(ancestor.skip(1) =~= path.skip(1).take(k - 1));
        lemma_no_write_below_a_file(tree_entries(level[path[0]].id), path.skip(1), blob, k - 1);
    }
}

/// Below something that is no directory nothing can exist.
pub proof fn lemma_no_existence_below_a_file(level: Level, path: Seq<Seq<u8>>, k: int)
    requires
        0 < k < path.len(),
        lookup(level, path.take(k)) is Some,
        lookup(level, path.take(k))->Some_0.kind != EntryKind::Directory,
    ensures
        !can_exist(level, path),
    decreases path.len(),
{
    let parent = path.drop_last();
    if k == path.len() - 1 {
        assert(path.take(k) =~= parent);
    } else {
        assert(parent.take(k) =~= path.take(k));
        lemma_nothing_below_a_file(level, parent, k);
        lemma_no_existence_below_a_file(level, parent, k);
    }
}

/// A write makes nothing appear but the file and the directories above it:
/// a path that named nothing, and that does not lead to the file, names
/// nothing afterwards.
pub proof fn lemma_write_makes_nothing_else(
    before: Level,
    path: Seq<Seq<u8>>,
    blob: Seq<u8>,
    after: Level,
    other: Seq<Seq<u8>>,
)
    requires
        inserted(before, path, blob, after),
        insert_conflict(before, path, blob) is None,
        lookup(before, other) is None,
        !other.is_prefix_of(path),
    ensures
        lookup(after, other) is None,
{
    if path.is_prefix_of(other) {
        assert(other.take(path.len() as int) =~= path);
        lemma_written_file_is_found(before, path, blob, after);
        lemma_nothing_below_a_file(after, other, path.len() as int);
    } else {
        lemma_write_leaves_others(before, path, blob, after, other);
    }
}

/// A removal makes nothing appear: a path that named nothing names nothing
/// afterwards.
pub proof fn lemma_removal_makes_nothing_appear(
    before: Level,
    path: Seq<Seq<u8>>,
    after: Level,
    other: Seq<Seq<u8>>,
)
    requires
        removed(before, path, after),
        lookup(before, other) is None,
    ensures
        lookup(after, other) is None,
{
    if apart(other, path) {
        lemma_removal_leaves_others(before, path, after, other);
    } else if other.is_prefix_of(path) {
        lemma_removed_was_there(before, path, after);
        if other.len() == path.len() {
            assert(other =~= path);
        } else if other.len() > 0 {
            assert(path.take(other.len() as int) =~= other);
            lemma_ancestors_are_directories(before, path, other.len() as int);
        }
    } else {
        assert(other.take(path.len() as int) =~= path);
        lemma_removed_is_gone(before, path, after);
        if lookup(after, other) is Some {
            lemma_ancestors_are_directories(after, other, path.len() as int);
        }
    }
}

/// Where a path cannot exist, one of its proper ancestors names something
/// that is no directory. The result is the length of such an ancestor.
pub proof fn lemma_what_stands_in_the_way(level: Level, path: Seq<Seq<u8>>) -> (k: int)
    requires
        !can_exist(level, path),
    ensures
        0 < k < path.len(),
        lookup(level, path.take(k)) is Some,
        lookup(level, path.take(k))->Some_0.kind != EntryKind::Directory,
    decreases path.len(),
{
    let parent = path.drop_last();
    if lookup(level, parent) is Some {
        assert(path.take(path.len() - 1) =~= parent);
        assert(parent.len() > 0);
        path.len() - 1
    } else {
        let k = lemma_what_stands_in_the_way(level, parent);
        assert(parent.take(k) =~= path.take(k));
        k
    }
}

/// Where a write is refused with `CannotCreate` though no name is too long,
/// one of the path's proper ancestors names something that is no directory.
/// The result is the length of such an ancestor.
pub proof fn lemma_what_refuses_the_write(level: Level, path: Seq<Seq<u8>>, blob: Seq<u8>) -> (k:
    int)
    requires
        insert_conflict(level, path, blob) == Some(GitError::CannotCreate),
        short_names(path),
    ensures
        0 < k < path.len(),
        lookup(level, path.take(k)) is Some,
        lookup(level, path.take(k))->Some_0.kind != EntryKind::Directory,
    decreases path.len(),
{
    let rest = path.skip(1);
    assert(path[0].len() <= MAX_NAME_LENGTH);
    assert(short_names(rest)) by {
        assert forall|i: int| 0 <= i < rest.len() implies (#[trigger] rest[i]).len()
            <= MAX_NAME_LENGTH by {
            assert(rest[i] == path[i + 1]);
        }
    }
    if !level.contains_key(path[0]) {
        lemma_empty_tree(rest, blob);
        0
    } else if level[path[0]].kind != EntryKind::Directory {
        assert(path.take(1)[0] == path[0]);
        1
    } else {
        let k = lemma_what_refuses_the_write(tree_entries(level[path[0]].id), rest, blob);
        let ancestor = path.take(k + 1);
        assert(ancestor[0] == path[0]);
        assert(ancestor.skip(1) =~= rest.take(k));
        k + 1
    }
}

/// A path whose names are not too long can exist exactly where a write to it
/// is not refused with `CannotCreate`.
pub proof fn lemma_can_exist_means_can_create(level: Level, path: Seq<Seq<u8>>, blob: Seq<u8>)
    requires
        short_names(path),
    ensures
        can_exist(level, path) <==> insert_conflict(level, path, blob) != Some(
            GitError::CannotCreate,
        ),
{
    if !can_exist(level, path) {
        let k = lemma_what_stands_in_the_way(level, path);
        lemma_no_write_below_a_file(level, path, blob, k);
    }
    if insert_conflict(level, path, blob) == Some(GitError::CannotCreate) {
        let k = lemma_what_refuses_the_write(level, path, blob);
        lemma_no_existence_below_a_file(level, path, k);
    }
}

} // verus!

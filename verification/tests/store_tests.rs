use smeagol::bytes::holds_byte;
use smeagol::git::{
    head_reference, head_step, root_message, store_options, system_address, system_name,
    GitError, HeadLookup, HeadStep,
};
use smeagol::object::{EntryKind, ObjectId, MAX_NAME_LENGTH};
use smeagol::{GitItem, GitRepository, Path, Snapshot};
use tempdir::TempDir;

fn fresh() -> (TempDir, GitRepository) {
    let tmp = TempDir::new("smeagol").unwrap();
    let repo = GitRepository::new(&tmp.path().to_path_buf()).unwrap();
    (tmp, repo)
}

fn item<'a>(repo: &'a GitRepository, path: &str) -> GitItem<'a> {
    repo.item(Path::from(path.to_string())).unwrap()
}

fn head_id(tmp: &TempDir) -> git2::Oid {
    let raw = git2::Repository::open(tmp.path()).unwrap();
    let id = raw.head().unwrap().target().unwrap();
    id
}

fn names(items: &[GitItem]) -> Vec<String> {
    items.iter().map(|i| i.path().to_string()).collect()
}

#[test]
fn unedited_path_does_not_exist() {
    let (_tmp, repo) = fresh();
    for path in ["a", "a/b", "index.md", "x/y/z.md"] {
        let it = item(&repo, path);
        assert!(!it.is_present().unwrap());
        assert!(matches!(it.content(), Err(GitError::NotFound)));
        assert!(matches!(it.list(), Err(GitError::NotFound)));
        assert!(matches!(it.is_dir(), Err(GitError::NotFound)));
        assert!(matches!(it.is_file(), Err(GitError::NotFound)));
    }
}

#[test]
fn first_access_makes_one_root_commit() {
    let (tmp, repo) = fresh();
    let root = repo.item(Path::new()).unwrap();
    assert!(root.is_present().unwrap());
    let first = head_id(&tmp);
    assert!(root.is_present().unwrap());
    assert_eq!(head_id(&tmp), first);

    let raw = git2::Repository::open(tmp.path()).unwrap();
    let commit = raw.find_commit(first).unwrap();
    assert_eq!(commit.parent_count(), 0);
    assert_eq!(commit.message().unwrap(), "Root commit");
    assert_eq!(commit.author().name().unwrap(), "smeagol");
    assert_eq!(commit.author().email().unwrap(), "smeagol@smeagol");
    assert_eq!(commit.tree().unwrap().len(), 0);
    assert!(root.list().unwrap().is_empty());
}

#[test]
fn edit_round_trips_content() {
    let (_tmp, repo) = fresh();
    let it = item(&repo, "notes/today.md");
    let content: Vec<u8> = vec![0, 1, 2, 255, b'\n', b'a'];
    it.edit(&content, "binary").unwrap();
    assert!(it.is_present().unwrap());
    assert!(it.is_file().unwrap());
    assert_eq!(it.content().unwrap(), content);
}

#[test]
fn edit_publishes_one_commit_on_the_previous_head() {
    let (tmp, repo) = fresh();
    let it = item(&repo, "index.md");
    assert!(!it.is_present().unwrap());
    let before = head_id(&tmp);
    it.edit(b"one", "first edit").unwrap();
    let after = head_id(&tmp);
    assert_ne!(before, after);

    let raw = git2::Repository::open(tmp.path()).unwrap();
    let commit = raw.find_commit(after).unwrap();
    assert_eq!(commit.parent_count(), 1);
    assert_eq!(commit.parent_id(0).unwrap(), before);
    assert_eq!(commit.message().unwrap(), "first edit");

    it.remove("removal").unwrap();
    let last = head_id(&tmp);
    let commit = raw.find_commit(last).unwrap();
    assert_eq!(commit.parent_count(), 1);
    assert_eq!(commit.parent_id(0).unwrap(), after);
    assert_eq!(commit.message().unwrap(), "removal");
}

#[test]
fn same_content_twice_is_no_change() {
    let (tmp, repo) = fresh();
    let it = item(&repo, "dir/index.md");
    it.edit(b"same", "first").unwrap();
    let head = head_id(&tmp);
    assert!(matches!(it.edit(b"same", "second"), Err(GitError::NoChange)));
    assert_eq!(head_id(&tmp), head);
    assert_eq!(it.content().unwrap(), b"same".to_vec());
}

#[test]
fn failed_edits_and_removals_leave_the_head() {
    let (tmp, repo) = fresh();
    item(&repo, "file").edit(b"x", "m").unwrap();
    item(&repo, "dir/inner").edit(b"y", "m").unwrap();
    let head = head_id(&tmp);

    assert!(matches!(item(&repo, "file/below").edit(b"z", "m"), Err(GitError::CannotCreate)));
    assert!(matches!(item(&repo, "dir").edit(b"z", "m"), Err(GitError::IsDir)));
    assert!(matches!(item(&repo, "missing").remove("m"), Err(GitError::NotFound)));
    assert!(matches!(item(&repo, "dir/missing").remove("m"), Err(GitError::NotFound)));
    assert!(matches!(item(&repo, "file/below").remove("m"), Err(GitError::NotFound)));
    assert!(matches!(item(&repo, "none/below").remove("m"), Err(GitError::NotFound)));
    assert_eq!(head_id(&tmp), head);
}

#[test]
fn editing_below_a_directory_makes_it_once() {
    let (_tmp, repo) = fresh();
    let it = item(&repo, "test/index.md");
    it.edit(b"content", "m").unwrap();
    let dir = item(&repo, "test");
    assert!(dir.is_dir().unwrap());
    assert!(!dir.is_file().unwrap());

    let root = repo.item(Path::new()).unwrap();
    assert_eq!(names(&root.list().unwrap()), vec!["test".to_string()]);
    assert_eq!(names(&dir.list().unwrap()), vec!["test/index.md".to_string()]);

    item(&repo, "test/other.md").edit(b"more", "m").unwrap();
    assert_eq!(names(&root.list().unwrap()), vec!["test".to_string()]);
}

#[test]
fn deep_paths_make_every_directory() {
    let (_tmp, repo) = fresh();
    item(&repo, "a/b/c/d.md").edit(b"deep", "m").unwrap();
    assert!(item(&repo, "a").is_dir().unwrap());
    assert!(item(&repo, "a/b").is_dir().unwrap());
    assert!(item(&repo, "a/b/c").is_dir().unwrap());
    assert!(item(&repo, "a/b/c/d.md").is_file().unwrap());
    assert_eq!(item(&repo, "a/b/c/d.md").content().unwrap(), b"deep".to_vec());
}

#[test]
fn removal_prunes_directories_up_to_the_first_that_has_more() {
    let (_tmp, repo) = fresh();
    item(&repo, "a/b/c/d.md").edit(b"deep", "m").unwrap();
    item(&repo, "a/keep.md").edit(b"keep", "m").unwrap();
    item(&repo, "a/b/c/d.md").remove("m").unwrap();
    assert!(!item(&repo, "a/b/c/d.md").is_present().unwrap());
    assert!(!item(&repo, "a/b/c").is_present().unwrap());
    assert!(!item(&repo, "a/b").is_present().unwrap());
    assert!(item(&repo, "a").is_dir().unwrap());
    assert_eq!(names(&item(&repo, "a").list().unwrap()), vec!["a/keep.md".to_string()]);
}

#[test]
fn removing_the_last_file_below_the_root_leaves_the_root() {
    let (_tmp, repo) = fresh();
    item(&repo, "a/b/c.md").edit(b"x", "m").unwrap();
    item(&repo, "a/b/c.md").remove("m").unwrap();
    let root = repo.item(Path::new()).unwrap();
    assert!(root.is_present().unwrap());
    assert!(root.is_dir().unwrap());
    assert!(root.list().unwrap().is_empty());
}

#[test]
fn sibling_at_root_survives_removal_of_an_emptied_directory() {
    let (_tmp, repo) = fresh();
    item(&repo, "test/index.md").edit(b"one", "m").unwrap();
    item(&repo, "sibling.md").edit(b"two", "m").unwrap();
    item(&repo, "test/index.md").remove("m").unwrap();
    assert!(!item(&repo, "test/index.md").is_present().unwrap());
    assert!(!item(&repo, "test").is_present().unwrap());
    assert_eq!(item(&repo, "sibling.md").content().unwrap(), b"two".to_vec());
    let root = repo.item(Path::new()).unwrap();
    assert_eq!(names(&root.list().unwrap()), vec!["sibling.md".to_string()]);
}

#[test]
fn sibling_in_directory_survives_removal() {
    let (_tmp, repo) = fresh();
    item(&repo, "dir/a.md").edit(b"a", "m").unwrap();
    item(&repo, "dir/b.md").edit(b"b", "m").unwrap();
    item(&repo, "dir/a.md").remove("m").unwrap();
    let dir = item(&repo, "dir");
    assert!(dir.is_present().unwrap());
    assert_eq!(names(&dir.list().unwrap()), vec!["dir/b.md".to_string()]);
    assert_eq!(item(&repo, "dir/b.md").content().unwrap(), b"b".to_vec());
}

#[test]
fn removing_a_directory_removes_what_it_holds() {
    let (_tmp, repo) = fresh();
    item(&repo, "dir/a.md").edit(b"a", "m").unwrap();
    item(&repo, "dir/sub/b.md").edit(b"b", "m").unwrap();
    item(&repo, "other.md").edit(b"o", "m").unwrap();
    item(&repo, "dir").remove("m").unwrap();
    assert!(!item(&repo, "dir").is_present().unwrap());
    assert!(!item(&repo, "dir/a.md").is_present().unwrap());
    assert!(!item(&repo, "dir/sub/b.md").is_present().unwrap());
    assert!(item(&repo, "other.md").is_present().unwrap());
}

#[test]
fn nothing_can_exist_below_a_file() {
    let (_tmp, repo) = fresh();
    item(&repo, "index.md").edit(b"", "m").unwrap();
    assert!(!item(&repo, "index.md/x.md").can_exist().unwrap());
    assert!(!item(&repo, "index.md/x/y.md").can_exist().unwrap());
    assert!(matches!(item(&repo, "index.md/x.md").edit(b"", "m"), Err(GitError::CannotCreate)));
    assert!(matches!(
        item(&repo, "index.md/x/y.md").edit(b"", "m"),
        Err(GitError::CannotCreate)
    ));
}

#[test]
fn things_can_exist_below_directories_and_below_nothing() {
    let (_tmp, repo) = fresh();
    item(&repo, "dir/file.md").edit(b"", "m").unwrap();
    assert!(repo.item(Path::new()).unwrap().can_exist().unwrap());
    assert!(item(&repo, "anything").can_exist().unwrap());
    assert!(item(&repo, "dir/new.md").can_exist().unwrap());
    assert!(item(&repo, "dir/file.md").can_exist().unwrap());
    assert!(item(&repo, "none/deeper/new.md").can_exist().unwrap());
    assert!(item(&repo, "dir/none/new.md").can_exist().unwrap());
}

#[test]
fn root_cannot_be_removed() {
    let (tmp, repo) = fresh();
    let root = repo.item(Path::new()).unwrap();
    assert!(root.is_root());
    assert!(matches!(root.remove("m"), Err(GitError::NotFound)));
    item(&repo, "a.md").edit(b"a", "m").unwrap();
    let head = head_id(&tmp);
    assert!(matches!(root.remove("m"), Err(GitError::NotFound)));
    assert_eq!(head_id(&tmp), head);
    assert!(item(&repo, "a.md").is_present().unwrap());
}

#[test]
fn root_cannot_be_written() {
    let (tmp, repo) = fresh();
    let root = repo.item(Path::new()).unwrap();
    assert!(matches!(root.edit(b"x", "m"), Err(GitError::IsDir)));
    item(&repo, "a.md").edit(b"a", "m").unwrap();
    let head = head_id(&tmp);
    assert!(matches!(root.edit(b"x", "m"), Err(GitError::IsDir)));
    assert_eq!(head_id(&tmp), head);

    let snapshot = repo.snapshot().unwrap();
    let blob = snapshot.entry(&Path::from_bytes(b"a.md")).unwrap().id;
    assert!(matches!(snapshot.with_file(&Path::new(), &blob), Err(GitError::IsDir)));
}

#[test]
fn empty_content_round_trips() {
    let (_tmp, repo) = fresh();
    let it = item(&repo, "empty.md");
    it.edit(b"", "m").unwrap();
    assert!(it.is_file().unwrap());
    assert_eq!(it.content().unwrap(), Vec::<u8>::new());
}

#[test]
fn root_is_a_directory_without_a_parent() {
    let (_tmp, repo) = fresh();
    let root = repo.item(Path::new()).unwrap();
    assert!(matches!(root.parent(), Err(GitError::NoParent)));
    assert!(matches!(root.content(), Err(GitError::IsDir)));
    assert!(root.can_exist().unwrap());
    assert!(!item(&repo, "a").is_root());
}

#[test]
fn listing_a_file_and_reading_a_directory_fail() {
    let (_tmp, repo) = fresh();
    item(&repo, "dir/file.md").edit(b"x", "m").unwrap();
    assert!(matches!(item(&repo, "dir/file.md").list(), Err(GitError::IsFile)));
    assert!(matches!(item(&repo, "dir").content(), Err(GitError::IsDir)));
}

#[test]
fn parent_is_bound_to_the_same_repository() {
    let (_tmp, repo) = fresh();
    let it = item(&repo, "dir/file.md");
    it.edit(b"x", "m").unwrap();
    let dir = it.parent().unwrap();
    assert_eq!(dir.path().bytes(), b"dir".to_vec());
    assert!(dir.is_dir().unwrap());
    assert!(dir.parent().unwrap().is_root());
}

#[test]
fn listing_is_in_the_order_of_the_tree() {
    let (_tmp, repo) = fresh();
    for name in ["c.md", "a.md", "b/x.md"] {
        item(&repo, name).edit(name.as_bytes(), "m").unwrap();
    }
    let root = repo.item(Path::new()).unwrap();
    assert_eq!(
        names(&root.list().unwrap()),
        vec!["a.md".to_string(), "b".to_string(), "c.md".to_string()]
    );
}

#[test]
fn mode_of_an_edited_file_is_kept() {
    let (tmp, repo) = fresh();
    item(&repo, "plain.md").edit(b"plain", "m").unwrap();

    let raw = git2::Repository::open(tmp.path()).unwrap();
    let head = raw.head().unwrap().peel_to_commit().unwrap();
    let tree = head.tree().unwrap();
    assert_eq!(tree.get_name("plain.md").unwrap().filemode(), 0o100644);

    let script = raw.blob(b"#!/bin/sh\n").unwrap();
    let mut builder = raw.treebuilder(Some(&tree)).unwrap();
    builder.insert("run.sh", script, 0o100755).unwrap();
    let with_script = raw.find_tree(builder.write().unwrap()).unwrap();
    let sig = git2::Signature::now("t", "t@t").unwrap();
    raw.commit(Some("HEAD"), &sig, &sig, "script", &with_script, &[&head]).unwrap();

    let it = item(&repo, "run.sh");
    assert_eq!(it.content().unwrap(), b"#!/bin/sh\n".to_vec());
    it.edit(b"#!/bin/sh\necho hi\n", "m").unwrap();

    let tree = raw.head().unwrap().peel_to_commit().unwrap().tree().unwrap();
    let entry = tree.get_name("run.sh").unwrap();
    assert_eq!(entry.filemode(), 0o100755);
    assert_eq!(raw.find_blob(entry.id()).unwrap().content(), b"#!/bin/sh\necho hi\n");
    assert_eq!(tree.get_name("plain.md").unwrap().filemode(), 0o100644);
}

#[test]
fn new_directories_have_the_directory_mode() {
    let (tmp, repo) = fresh();
    item(&repo, "dir/file.md").edit(b"x", "m").unwrap();
    let raw = git2::Repository::open(tmp.path()).unwrap();
    let tree = raw.head().unwrap().peel_to_commit().unwrap().tree().unwrap();
    let entry = tree.get_name("dir").unwrap();
    assert_eq!(entry.filemode(), 0o040000);
    assert_eq!(entry.kind(), Some(git2::ObjectType::Tree));
}

#[test]
fn store_failures_are_passed_on() {
    let (_tmp, repo) = fresh();
    let bad = repo.item(Path::from_bytes(&[b'a', 0, b'b'])).unwrap();
    assert!(matches!(bad.edit(b"x", "m"), Err(GitError::Git(_))));
    assert!(matches!(item(&repo, ".git").edit(b"x", "m"), Err(GitError::Git(_))));
    let nowhere = std::path::PathBuf::from("/dev/null/repository");
    assert!(matches!(GitRepository::new(&nowhere), Err(GitError::Git(_))));
}

#[test]
fn opening_twice_keeps_the_content() {
    let tmp = TempDir::new("smeagol").unwrap();
    let dir = tmp.path().to_path_buf();
    {
        let repo = GitRepository::new(&dir).unwrap();
        item(&repo, "kept.md").edit(b"kept", "m").unwrap();
    }
    let repo = GitRepository::new(&dir).unwrap();
    assert_eq!(item(&repo, "kept.md").content().unwrap(), b"kept".to_vec());
}

#[test]
fn snapshot_is_fixed_while_the_head_moves() {
    let (_tmp, repo) = fresh();
    item(&repo, "a.md").edit(b"a", "m").unwrap();
    let snapshot = repo.snapshot().unwrap();
    item(&repo, "b.md").edit(b"b", "m").unwrap();
    item(&repo, "a.md").remove("m").unwrap();

    let a = Path::from_bytes(b"a.md");
    let b = Path::from_bytes(b"b.md");
    assert!(snapshot.is_present(&a).unwrap());
    assert!(!snapshot.is_present(&b).unwrap());
    assert_eq!(snapshot.content(&a).unwrap(), b"a".to_vec());

    let now = repo.snapshot().unwrap();
    assert!(!now.is_present(&a).unwrap());
    assert!(now.is_present(&b).unwrap());
}

#[test]
fn snapshot_edits_publish_nothing() {
    let (tmp, repo) = fresh();
    item(&repo, "dir/a.md").edit(b"a", "m").unwrap();
    let head = head_id(&tmp);
    let snapshot = repo.snapshot().unwrap();

    let blob = repo.write_blob(b"new").unwrap();
    let path = Path::from_bytes(b"dir/sub/new.md");
    let edited = snapshot.with_file(&path, &blob).unwrap();
    assert_eq!(head_id(&tmp), head);
    assert!(!snapshot.is_present(&path).unwrap());
    assert!(edited.is_present(&path).unwrap());
    assert_eq!(edited.content(&path).unwrap(), b"new".to_vec());
    assert!(edited.is_dir(&Path::from_bytes(b"dir/sub")).unwrap());
    assert_eq!(edited.content(&Path::from_bytes(b"dir/a.md")).unwrap(), b"a".to_vec());
    assert!(matches!(edited.with_file(&path, &blob), Err(GitError::NoChange)));

    let entry = edited.entry(&path).unwrap();
    assert_eq!(entry.kind, EntryKind::File);
    assert_eq!(entry.mode, 0o100644);
    assert_eq!(entry.id.bytes, blob.bytes);

    let pruned = edited.without(&path).unwrap();
    assert!(!pruned.is_present(&Path::from_bytes(b"dir/sub")).unwrap());
    assert_eq!(pruned.root().bytes, snapshot.root().bytes);
    assert_eq!(head_id(&tmp), head);
}

#[test]
fn snapshot_answers_like_the_item() {
    let (_tmp, repo) = fresh();
    item(&repo, "dir/a.md").edit(b"a", "m").unwrap();
    let snapshot = repo.snapshot().unwrap();
    let root = Path::new();
    let dir = Path::from_bytes(b"dir");
    let file = Path::from_bytes(b"dir/a.md");
    let below = Path::from_bytes(b"dir/a.md/x");
    let missing = Path::from_bytes(b"nothing/here");

    assert!(snapshot.is_dir(&root).unwrap());
    assert!(!snapshot.is_file(&root).unwrap());
    assert_eq!(snapshot.entry(&root).unwrap().id.bytes, snapshot.root().bytes);
    assert!(snapshot.is_dir(&dir).unwrap());
    assert!(snapshot.is_file(&file).unwrap());
    assert!(matches!(snapshot.is_file(&missing), Err(GitError::NotFound)));
    assert!(matches!(snapshot.entry(&below), Err(GitError::NotFound)));
    assert!(matches!(snapshot.content(&dir), Err(GitError::IsDir)));
    assert!(matches!(snapshot.list(&file), Err(GitError::IsFile)));
    assert!(matches!(snapshot.list(&missing), Err(GitError::NotFound)));
    assert!(matches!(snapshot.without(&root), Err(GitError::NotFound)));
    assert!(matches!(snapshot.without(&missing), Err(GitError::NotFound)));
    assert!(snapshot.can_exist(&missing).unwrap());
    assert!(!snapshot.can_exist(&below).unwrap());
    let listed: Vec<Vec<u8>> = snapshot.list(&dir).unwrap().iter().map(|p| p.bytes()).collect();
    assert_eq!(listed, vec![b"dir/a.md".to_vec()]);

    let same = Snapshot::at(&repo, snapshot.root().clone());
    assert_eq!(same.content(&file).unwrap(), b"a".to_vec());
}

#[test]
fn blob_id_is_the_hash_of_the_content() {
    let (tmp, repo) = fresh();
    let id = repo.write_blob(b"hello\n").unwrap();
    let expected = git2::Oid::hash_object(git2::ObjectType::Blob, b"hello\n").unwrap();
    assert_eq!(id.bytes, expected.as_bytes().to_vec());
    assert!(repo.write_blob(b"hello\n").unwrap().same_as(&id));
    assert!(!repo.write_blob(b"hello").unwrap().same_as(&id));

    let raw = git2::Repository::open(tmp.path()).unwrap();
    assert_eq!(raw.find_blob(expected).unwrap().content(), b"hello\n");
}

#[test]
fn object_ids_compare_by_their_bytes() {
    let a = ObjectId { bytes: vec![1, 2, 3] };
    let b = ObjectId { bytes: vec![1, 2, 3] };
    let c = ObjectId { bytes: vec![1, 2, 4] };
    assert!(a.same_as(&b));
    assert!(!a.same_as(&c));
    assert!(!a.same_as(&ObjectId { bytes: vec![1, 2] }));
    assert!(a.clone().same_as(&a));
}

#[test]
fn failures_are_put_in_words() {
    assert_eq!(GitError::NotFound.message(), "Not found");
    assert_eq!(GitError::NoParent.message(), "No parent");
    assert_eq!(GitError::IsDir.message(), "Is directory");
    assert_eq!(GitError::IsFile.message(), "Is file");
    assert_eq!(GitError::CannotCreate.message(), "Cannot create file at that location");
    assert_eq!(GitError::NoChange.message(), "The file has not changed.");
    let git = GitError::from(git2::Error::from_str("broken"));
    assert!(matches!(git, GitError::Git(_)));
    assert_eq!(git.message(), "Git error: broken");
    let io = GitError::from(std::io::Error::new(std::io::ErrorKind::Other, "full"));
    assert!(matches!(io, GitError::IO(_)));
    assert_eq!(io.message(), "IO error: full");
}

#[test]
fn path_with_a_zero_byte_names_nothing() {
    let (tmp, repo) = fresh();
    item(&repo, "dir/file.md").edit(b"x", "m").unwrap();
    let head = head_id(&tmp);
    for bytes in [&[b'a', 0, b'b'][..], &[0][..], &[b'd', b'i', b'r', b'/', 0][..]] {
        let it = repo.item(Path::from_bytes(bytes)).unwrap();
        assert!(!it.is_present().unwrap());
        assert!(matches!(it.content(), Err(GitError::NotFound)));
        assert!(matches!(it.list(), Err(GitError::NotFound)));
        assert!(matches!(it.is_file(), Err(GitError::NotFound)));
        assert!(matches!(it.remove("m"), Err(GitError::NotFound)));
    }
    let below = repo.item(Path::from_bytes(&[b'a', 0, b'/', b'b', b'/', b'c'])).unwrap();
    assert!(below.can_exist().unwrap());
    assert_eq!(head_id(&tmp), head);
}

#[test]
fn name_that_is_too_long_cannot_be_created() {
    let (tmp, repo) = fresh();
    item(&repo, "dir/file.md").edit(b"x", "m").unwrap();
    let head = head_id(&tmp);
    let long = vec![b'n'; MAX_NAME_LENGTH + 1];

    let at_root = repo.item(Path::from_bytes(&long)).unwrap();
    assert!(matches!(at_root.edit(b"x", "m"), Err(GitError::CannotCreate)));
    assert!(!at_root.is_present().unwrap());

    let mut in_dir = Path::from_bytes(b"dir");
    in_dir.push(&long);
    assert!(matches!(repo.item(in_dir).unwrap().edit(b"x", "m"), Err(GitError::CannotCreate)));

    let mut as_dir = Path::from_bytes(&long);
    as_dir.push(b"file.md");
    assert!(matches!(repo.item(as_dir).unwrap().edit(b"x", "m"), Err(GitError::CannotCreate)));

    let mut below_new = Path::from_bytes(b"new");
    below_new.push(&long);
    assert!(matches!(
        repo.item(below_new).unwrap().edit(b"x", "m"),
        Err(GitError::CannotCreate)
    ));
    assert_eq!(head_id(&tmp), head);
}

#[test]
fn longest_name_can_be_stored() {
    let (_tmp, repo) = fresh();
    let longest = vec![b'n'; MAX_NAME_LENGTH];
    let mut path = Path::from_bytes(&longest);
    path.push(b"file.md");
    let it = repo.item(path).unwrap();
    it.edit(b"far", "m").unwrap();
    assert_eq!(it.content().unwrap(), b"far".to_vec());
    let dir = it.parent().unwrap();
    assert!(dir.is_dir().unwrap());
    let root = repo.item(Path::new()).unwrap();
    let listed = root.list().unwrap();
    assert_eq!(listed.len(), 1);
    assert_eq!(listed[0].path().bytes(), longest);
    it.remove("m").unwrap();
    assert!(root.list().unwrap().is_empty());
}

#[test]
fn only_an_unborn_head_is_bootstrapped() {
    assert_eq!(head_step(HeadLookup::Found), HeadStep::Resolve);
    assert_eq!(head_step(HeadLookup::Unborn), HeadStep::BootstrapAndLookAgain);
    assert_eq!(head_step(HeadLookup::Failed), HeadStep::Fail);
}

#[test]
fn repository_is_opened_bare_in_a_directory_that_is_made() {
    let options = store_options();
    assert!(options.bare);
    assert!(options.mkdir);
    assert!(!options.mkpath);

    let tmp = TempDir::new("smeagol").unwrap();
    let dir = tmp.path().join("made");
    let _repo = GitRepository::new(&dir).unwrap();
    assert!(git2::Repository::open(&dir).unwrap().is_bare());
}

#[test]
fn commits_are_signed_by_the_library_on_the_head() {
    assert_eq!(head_reference(), "HEAD");
    assert_eq!(system_name(), "smeagol");
    assert_eq!(system_address(), "smeagol@smeagol");
    assert_eq!(root_message(), "Root commit");

    let (tmp, repo) = fresh();
    item(&repo, "a.md").edit(b"a", "first").unwrap();
    let raw = git2::Repository::open(tmp.path()).unwrap();
    let commit = raw.head().unwrap().peel_to_commit().unwrap();
    assert_eq!(commit.message().unwrap(), "first");
    assert_eq!(commit.author().name().unwrap(), "smeagol");
    assert_eq!(commit.author().email().unwrap(), "smeagol@smeagol");
    assert_eq!(commit.committer().name().unwrap(), "smeagol");
    assert_eq!(commit.committer().email().unwrap(), "smeagol@smeagol");
}

#[test]
fn bytes_are_searched() {
    assert!(holds_byte(&[1, 0, 2], 0));
    assert!(holds_byte(&[0], 0));
    assert!(!holds_byte(&[1, 2, 3], 0));
    assert!(!holds_byte(&[], 0));
    assert!(holds_byte(b"a/b", b'/'));
}

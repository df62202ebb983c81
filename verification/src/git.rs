//! The store's public face: a repository, its snapshots, and items.
//!
//! A [`Snapshot`] is one tree of the history, fixed by the id of its root; its
//! functions are exact about what they return. A [`GitItem`] is a path bound
//! to a repository: each of its functions reads the head anew and works on the
//! snapshot found there, so its result depends on what the repository holds
//! at that moment.

use vstd::prelude::*;
use crate::bytes::holds_byte;
use crate::object::{
    empty_level, kind_of_mode, well_named, EntryInfo, EntryKind, ObjectId, DIRECTORY_MODE,
    FILE_MODE, MAX_NAME_LENGTH,
};
use crate::path::{split, Path};
use crate::store::{
    author_of_commit, blob_bytes, blob_id, blob_writer, builder_get, builder_insert,
    builder_len, builder_remove, builder_view, builder_write, commit_id, commit_tree,
    committer_of_commit, create_commit, find_tree, init_repository, io_error_text,
    is_unborn_branch, message_of_commit, new_builder, parents_of_commit, read_blob,
    reference_commit, repository_head, signature_now, signer, store_error_text, tree_entries,
    tree_handle_id, tree_id, tree_len, tree_name_at, tree_names, tree_of_commit, writer_commit,
    writer_write,
};
use crate::tree::{
    can_exist, inserted, insert_conflict, lemma_conflict_kinds, lookup, removed, resolve,
    well_listed,
};

verus! {

/// Why an operation on the store failed.
#[derive(Debug)]
pub enum GitError {
    /// The object store reported a failure.
    Git(git2::Error),
    /// Writing to the object store failed.
    IO(std::io::Error),
    /// Nothing exists at the path.
    NotFound,
    /// The root has no parent.
    NoParent,
    /// The path names a directory where a file was needed.
    IsDir,
    /// The path names a file where a directory was needed.
    IsFile,
    /// An ancestor of the path is a file.
    CannotCreate,
    /// The file already has this content.
    NoChange,
}

impl GitError {
    /// Whether the failure is the object store's own, as opposed to one of
    /// the conditions that this library detects.
    pub open spec fn is_store_failure(&self) -> bool {
        self is Git || self is IO
    }

    /// The failure in words. Those of the object store start with a fixed
    /// label and go on with the store's own message.
    pub fn message(&self) -> (text: String)
        ensures
            self is Git ==> "Git error: "@.is_prefix_of(text@),
            self is IO ==> "IO error: "@.is_prefix_of(text@),
            self is NotFound ==> text@ == "Not found"@,
            self is NoParent ==> text@ == "No parent"@,
            self is IsDir ==> text@ == "Is directory"@,
            self is IsFile ==> text@ == "Is file"@,
            self is CannotCreate ==> text@ == "Cannot create file at that location"@,
            self is NoChange ==> text@ == "The file has not changed."@,
    {
        match self {
            GitError::Git(err) => {
                let mut text = "Git error: ".to_owned();
                text.push_str(store_error_text(err).as_str());
                text
            },
            GitError::IO(err) => {
                let mut text = "IO error: ".to_owned();
                text.push_str(io_error_text(err).as_str());
                text
            },
            GitError::NotFound => "Not found".to_owned(),
            GitError::NoParent => "No parent".to_owned(),
            GitError::IsDir => "Is directory".to_owned(),
            GitError::IsFile => "Is file".to_owned(),
            GitError::CannotCreate => "Cannot create file at that location".to_owned(),
            GitError::NoChange => "The file has not changed.".to_owned(),
        }
    }
}

impl vstd::std_specs::convert::FromSpecImpl<git2::Error> for GitError {
    open spec fn obeys_from_spec() -> bool {
        true
    }

    open spec fn from_spec(err: git2::Error) -> GitError {
        GitError::Git(err)
    }
}

impl From<git2::Error> for GitError {
    fn from(err: git2::Error) -> (r: GitError) {
        GitError::Git(err)
    }
}

impl vstd::std_specs::convert::FromSpecImpl<std::io::Error> for GitError {
    open spec fn obeys_from_spec() -> bool {
        true
    }

    open spec fn from_spec(err: std::io::Error) -> GitError {
        GitError::IO(err)
    }
}

impl From<std::io::Error> for GitError {
    fn from(err: std::io::Error) -> (r: GitError) {
        GitError::IO(err)
    }
}

/// Passes a result of the object store on, its error as a [`GitError`].
fn stored<T>(result: Result<T, git2::Error>) -> (r: Result<T, GitError>)
    ensures
        result is Ok ==> r == Ok::<T, GitError>(result->Ok_0),
        result is Err ==> r == Err::<T, GitError>(GitError::Git(result->Err_0)),
{
    match result {
        Ok(value) => Ok(value),
        Err(err) => Err(GitError::from(err)),
    }
}

/// How a repository is opened.
#[derive(Clone, Copy, Debug, PartialEq, Eq, Structural)]
pub struct StoreOptions {
    /// Without a working directory.
    pub bare: bool,
    /// Make the directory where it is missing.
    pub mkdir: bool,
    /// Make the directories above it too.
    pub mkpath: bool,
}

/// How the library opens its repository: bare, in a directory that is made
/// where it is missing, below directories that are not.
pub fn store_options() -> (options: StoreOptions)
    ensures
        options.bare,
        options.mkdir,
        !options.mkpath,
{
    StoreOptions { bare: true, mkdir: true, mkpath: false }
}

/// The reference that every new commit is published under.
pub fn head_reference() -> (name: &'static str)
    ensures
        name@ == "HEAD"@,
{
    "HEAD"
}

/// The name under which the library signs its commits.
pub fn system_name() -> (name: &'static str)
    ensures
        name@ == "smeagol"@,
{
    "smeagol"
}

/// The address under which the library signs its commits.
pub fn system_address() -> (address: &'static str)
    ensures
        address@ == "smeagol@smeagol"@,
{
    "smeagol@smeagol"
}

/// The message of the first commit.
pub fn root_message() -> (message: &'static str)
    ensures
        message@ == "Root commit"@,
{
    "Root commit"
}

/// The name and the address under which the library signs its commits.
pub open spec fn system_signer() -> (Seq<char>, Seq<char>) {
    ("smeagol"@, "smeagol@smeagol"@)
}

/// What a look at the head gave.
#[derive(Clone, Copy, Debug, PartialEq, Eq, Structural)]
pub enum HeadLookup {
    /// The head points at something.
    Found,
    /// The head's branch has no commit yet.
    Unborn,
    /// The look failed for another reason.
    Failed,
}

/// What to do after a look at the head.
#[derive(Clone, Copy, Debug, PartialEq, Eq, Structural)]
pub enum HeadStep {
    /// Take the commit that the head points at.
    Resolve,
    /// Make the first commit, then look at the head again.
    BootstrapAndLookAgain,
    /// Give the failure back.
    Fail,
}

/// What to do after a look at the head: a repository without commits gets its
/// first one, and only such a repository does.
pub fn head_step(lookup: HeadLookup) -> (step: HeadStep)
    ensures
        lookup is Found ==> step is Resolve,
        lookup is Unborn ==> step is BootstrapAndLookAgain,
        lookup is Failed ==> step is Fail,
{
    match lookup {
        HeadLookup::Found => HeadStep::Resolve,
        HeadLookup::Unborn => HeadStep::BootstrapAndLookAgain,
        HeadLookup::Failed => HeadStep::Fail,
    }
}

/// A signature of the library, with the current time.
fn system_signature() -> (r: Result<git2::Signature<'static>, GitError>)
    ensures
        r is Ok ==> signer(r->Ok_0) == system_signer(),
        r is Err ==> r->Err_0.is_store_failure(),
{
    proof {
        reveal_strlit("smeagol");
        reveal_strlit("smeagol@smeagol");
    }
    stored(signature_now(system_name(), system_address()))
}

/// The entry of this name in the tree under construction, if it holds one.
/// No tree holds a name with a zero byte in it, so for such a name the answer
/// is given without asking.
fn held(tree: &git2::TreeBuilder, name: &[u8]) -> (r: Result<Option<EntryInfo>, GitError>)
    requires
        well_named(builder_view(*tree)),
    ensures
        r is Ok ==> (r->Ok_0 is Some <==> builder_view(*tree).contains_key(name@)),
        r is Ok && r->Ok_0 is Some ==> r->Ok_0->Some_0@ == builder_view(*tree)[name@],
        r is Ok && r->Ok_0 is Some && r->Ok_0->Some_0.kind == EntryKind::File ==> kind_of_mode(
            r->Ok_0->Some_0.mode as int,
        ) == EntryKind::File,
        r is Err ==> r->Err_0.is_store_failure(),
        (exists|i: int| 0 <= i < name@.len() && name@[i] == 0) ==> r is Ok,
{
    if holds_byte(name, 0) {
        Ok(None)
    } else {
        stored(builder_get(tree, name))
    }
}

/// A repository: the object store with its head.
pub struct GitRepository {
    repo: git2::Repository,
}

impl GitRepository {
    /// Opens the bare repository in the directory `dir`, creating the
    /// directory and the repository where they do not exist yet.
    pub fn new(dir: &std::path::PathBuf) -> (r: Result<GitRepository, GitError>)
        ensures
            r is Err ==> r->Err_0.is_store_failure(),
    {
        let options = store_options();
        let repo = stored(init_repository(dir, options.bare, options.mkdir, options.mkpath))?;
        Ok(GitRepository { repo })
    }

    /// Makes the first commit of a repository that has none: an empty tree,
    /// no parent, the message `Root commit`, signed by the library. The id
    /// that comes back is that of the commit.
    fn bootstrap(&self) -> (r: Result<ObjectId, GitError>)
        ensures
            r is Ok ==> tree_entries(tree_of_commit(r->Ok_0@)) == empty_level(),
            r is Ok ==> parents_of_commit(r->Ok_0@) == Seq::<Seq<u8>>::empty(),
            r is Ok ==> message_of_commit(r->Ok_0@) == "Root commit"@,
            r is Ok ==> author_of_commit(r->Ok_0@) == system_signer(),
            r is Ok ==> committer_of_commit(r->Ok_0@) == system_signer(),
            r is Err ==> r->Err_0.is_store_failure(),
    {
        let signature = system_signature()?;
        let builder = stored(new_builder(&self.repo, None))?;
        let tree_oid = stored(builder_write(&builder))?;
        let tree = stored(find_tree(&self.repo, &tree_oid))?;
        stored(
            create_commit(
                &self.repo,
                head_reference(),
                &signature,
                &signature,
                root_message(),
                &tree,
                None,
            ),
        )
    }

    /// The current commit. A repository without commits first gets a root
    /// commit with an empty tree; what is done after the first look at the
    /// head is what [`head_step`] says.
    fn head<'repo>(&'repo self) -> (r: Result<git2::Commit<'repo>, GitError>)
        ensures
            r is Err ==> r->Err_0.is_store_failure(),
    {
        let first = repository_head(&self.repo);
        let lookup = match &first {
            Ok(_) => HeadLookup::Found,
            Err(err) => {
                if is_unborn_branch(err) {
                    HeadLookup::Unborn
                } else {
                    HeadLookup::Failed
                }
            },
        };
        let head_ref = match head_step(lookup) {
            HeadStep::Resolve => stored(first)?,
            HeadStep::BootstrapAndLookAgain => {
                self.bootstrap()?;
                stored(repository_head(&self.repo))?
            },
            HeadStep::Fail => stored(first)?,
        };
        stored(reference_commit(&head_ref))
    }

    /// The item at `path`.
    pub fn item<'repo>(&'repo self, path: Path) -> (r: Result<GitItem<'repo>, GitError>)
        ensures
            r is Ok,
            r->Ok_0@ == path@,
            r->Ok_0.repository() == self,
    {
        Ok(GitItem { repo: self, path: path })
    }

    /// Writes the blob `object` at `path` into the tree under construction.
    ///
    /// On success the builder holds the level with the file written into it;
    /// the trees below it that changed are in the store. A failure that is
    /// not the store's own is the conflict that the tree has with the write,
    /// and leaves the builder as it was; where there is such a conflict the
    /// write fails. No entry is made under a name that is too long for a tree
    /// to record.
    fn add_to_tree(&self, tree: &mut git2::TreeBuilder, path: Path, object: &ObjectId) -> (r:
        Result<(), GitError>)
        requires
            well_named(builder_view(*old(tree))),
        ensures
            r is Ok ==> well_named(builder_view(*final(tree))),
            r is Ok ==> inserted(
                builder_view(*old(tree)),
                path@,
                object@,
                builder_view(*final(tree)),
            ),
            r is Err ==> r->Err_0.is_store_failure() || insert_conflict(
                builder_view(*old(tree)),
                path@,
                object@,
            ) == Some(r->Err_0),
            insert_conflict(builder_view(*old(tree)), path@, object@) is Some ==> r is Err,
            r is Err && !r->Err_0.is_store_failure() ==> builder_view(*final(tree)) == builder_view(
                *old(tree),
            ),
        decreases path@.len(),
    {
        let mut path = path;
        let first = match path.pop_first() {
            Some(first) => first,
            // The level itself is the target, and it is a directory.
            None => { return Err(GitError::IsDir); },
        };
        let found = held(tree, first.as_slice())?;
        if found.is_none() && first.len() > MAX_NAME_LENGTH {
            return Err(GitError::CannotCreate);
        }
        if path.is_empty() {
            // The mode of the file that is replaced is kept.
            let filemode: i32 = match found {
                Some(entry) => {
                    if entry.kind != EntryKind::File {
                        return Err(GitError::IsDir);
                    }
                    // An id is a hash of the content, so equal ids mean an
                    // unchanged file.
                    if entry.id.same_as(object) {
                        return Err(GitError::NoChange);
                    }
                    entry.mode
                },
                None => FILE_MODE,
            };
            stored(builder_insert(tree, first.as_slice(), object, filemode))?;
            Ok(())
        } else {
            let mut subtree_builder = match found {
                Some(entry) => {
                    if entry.kind == EntryKind::Directory {
                        let subtree = stored(find_tree(&self.repo, &entry.id))?;
                        stored(new_builder(&self.repo, Some(&subtree)))?
                    } else {
                        return Err(GitError::CannotCreate);
                    }
                },
                None => stored(new_builder(&self.repo, None))?,
            };
            self.add_to_tree(&mut subtree_builder, path, object)?;
            let subtree_oid = stored(builder_write(&subtree_builder))?;
            stored(builder_insert(tree, first.as_slice(), &subtree_oid, DIRECTORY_MODE))?;
            Ok(())
        }
    }

    /// Removes the entry at `path` from the tree under construction, and with
    /// it every directory that this leaves empty.
    ///
    /// On success the builder holds the level that is left, and the result
    /// says whether that level is empty. A failure that is not the store's
    /// own is `NotFound`, says that nothing exists at the path, and leaves the
    /// builder as it was; where nothing exists there, the removal fails.
    fn remove_from_tree(&self, tree: &mut git2::TreeBuilder, path: Path) -> (r: Result<
        bool,
        GitError,
    >)
        requires
            builder_view(*old(tree)).dom().finite(),
            well_named(builder_view(*old(tree))),
        ensures
            r is Ok ==> well_named(builder_view(*final(tree))),
            r is Ok ==> removed(builder_view(*old(tree)), path@, builder_view(*final(tree))),
            r is Ok ==> r->Ok_0 == (builder_view(*final(tree)) == empty_level()),
            r is Ok ==> builder_view(*final(tree)).dom().finite(),
            r is Err ==> r->Err_0.is_store_failure() || (r->Err_0 is NotFound && lookup(
                builder_view(*old(tree)),
                path@,
            ) is None),
            lookup(builder_view(*old(tree)), path@) is None ==> r is Err,
            r is Err && !r->Err_0.is_store_failure() ==> builder_view(*final(tree)) == builder_view(
                *old(tree),
            ),
        decreases path@.len(),
    {
        let mut path = path;
        let first = match path.pop_first() {
            Some(first) => first,
            // The level itself is no entry of it.
            None => { return Err(GitError::NotFound); },
        };
        if path.is_empty() {
            if held(tree, first.as_slice())?.is_none() {
                Err(GitError::NotFound)
            } else {
                stored(builder_remove(tree, first.as_slice()))?;
                Ok(self.is_empty_tree(tree))
            }
        } else {
            let mut subtree_builder = match held(tree, first.as_slice())? {
                Some(entry) => {
                    if entry.kind == EntryKind::Directory {
                        let subtree = stored(find_tree(&self.repo, &entry.id))?;
                        stored(new_builder(&self.repo, Some(&subtree)))?
                    } else {
                        return Err(GitError::NotFound);
                    }
                },
                None => { return Err(GitError::NotFound); },
            };
            if self.remove_from_tree(&mut subtree_builder, path)? {
                // The directory is empty now: it goes too.
                stored(builder_remove(tree, first.as_slice()))?;
                return Ok(self.is_empty_tree(tree));
            }
            let subtree_oid = stored(builder_write(&subtree_builder))?;
            stored(builder_insert(tree, first.as_slice(), &subtree_oid, DIRECTORY_MODE))?;
            proof {
                assert(builder_view(*tree).contains_key(first@));
            }
            Ok(false)
        }
    }

    /// Whether the tree under construction has no entries.
    fn is_empty_tree(&self, tree: &git2::TreeBuilder) -> (r: bool)
        requires
            builder_view(*tree).dom().finite(),
        ensures
            r == (builder_view(*tree) == empty_level()),
    {
        let n: usize = builder_len(tree);
        proof {
            if n == 0 {
                assert(builder_view(*tree).dom() =~= Set::<Seq<u8>>::empty());
                assert(builder_view(*tree) =~= empty_level());
            }
        }
        n == 0
    }

    /// The snapshot that the head points at: the tree of the commit that the
    /// head held when it was read.
    pub fn snapshot<'repo>(&'repo self) -> (r: Result<Snapshot<'repo>, GitError>)
        ensures
            r is Ok ==> r->Ok_0.repository() == self,
            r is Ok ==> exists|head: Seq<u8>| r->Ok_0@ == tree_of_commit(head),
            r is Err ==> r->Err_0.is_store_failure(),
    {
        let head = self.head()?;
        let tree = stored(commit_tree(&head))?;
        Ok(Snapshot { repo: self, root: tree_handle_id(&tree) })
    }

    /// Makes the tree `root` the head's new state: a commit with `message`
    /// whose parent is `head`.
    ///
    /// The id that comes back is that of the new commit, which records the
    /// tree `root`, the one parent `head`, the message, and the library as
    /// author and committer. That the head points at it afterwards is the
    /// store's part and is not stated.
    fn publish(&self, head: &git2::Commit, root: &ObjectId, message: &str) -> (r: Result<
        ObjectId,
        GitError,
    >)
        ensures
            r is Ok ==> tree_of_commit(r->Ok_0@) == root@,
            r is Ok ==> parents_of_commit(r->Ok_0@) == seq![commit_id(*head)],
            r is Ok ==> message_of_commit(r->Ok_0@) == message@,
            r is Ok ==> author_of_commit(r->Ok_0@) == system_signer(),
            r is Ok ==> committer_of_commit(r->Ok_0@) == system_signer(),
            r is Err ==> r->Err_0.is_store_failure(),
    {
        let new_tree = stored(find_tree(&self.repo, root))?;
        let signature = system_signature()?;
        stored(
            create_commit(
                &self.repo,
                head_reference(),
                &signature,
                &signature,
                message,
                &new_tree,
                Some(head),
            ),
        )
    }

    /// Stores `content` as a blob and gives its id: the hash of the content,
    /// which names a blob with exactly this content.
    pub fn write_blob(&self, content: &[u8]) -> (r: Result<ObjectId, GitError>)
        ensures
            r is Ok ==> r->Ok_0@ == blob_id(content@),
            r is Ok ==> blob_bytes(r->Ok_0@) == content@,
            r is Err ==> r->Err_0.is_store_failure(),
    {
        let mut writer = stored(blob_writer(&self.repo))?;
        match writer_write(&mut writer, content) {
            Ok(_) => {},
            Err(err) => { return Err(GitError::from(err)); },
        }
        proof {
            assert(Seq::<u8>::empty() + content@ =~= content@);
        }
        stored(writer_commit(writer))
    }
}

/// One tree of the history: a repository and the id of a root tree in it.
pub struct Snapshot<'repo> {
    repo: &'repo GitRepository,
    root: ObjectId,
}

impl<'repo> View for Snapshot<'repo> {
    type V = Seq<u8>;

    /// A snapshot is viewed as the id of its root tree.
    closed spec fn view(&self) -> Seq<u8> {
        self.root@
    }
}

impl<'repo> Snapshot<'repo> {
    /// The repository that the snapshot belongs to.
    pub closed spec fn repository(&self) -> &GitRepository {
        self.repo
    }

    /// The snapshot of `repo` whose root tree has the id `root`.
    pub fn at(repo: &'repo GitRepository, root: ObjectId) -> (r: Snapshot<'repo>)
        ensures
            r@ == root@,
            r.repository() == repo,
    {
        Snapshot { repo, root }
    }

    /// The id of the root tree.
    pub fn root(&self) -> (r: &ObjectId)
        ensures
            r@ == self@,
    {
        &self.root
    }

    /// What `path` names in this snapshot.
    ///
    /// An entry that comes back is the one that the path resolves to. A
    /// failure that is not the store's own is `NotFound`, and says that the
    /// path names nothing; where it names nothing, the call fails. The root
    /// is found without a look at the store.
    pub fn entry(&self, path: &Path) -> (r: Result<EntryInfo, GitError>)
        ensures
            r is Ok ==> resolve(self@, path@) == Some(r->Ok_0@),
            r is Err ==> r->Err_0.is_store_failure() || (r->Err_0 is NotFound && resolve(
                self@,
                path@,
            ) is None),
            resolve(self@, path@) is None ==> r is Err,
            path@.len() == 0 ==> r is Ok,
    {
        let n: usize = path.segments();
        if n == 0 {
            return Ok(EntryInfo {
                id: self.root.clone(),
                kind: EntryKind::Directory,
                mode: DIRECTORY_MODE,
            });
        }
        let mut current: ObjectId = self.root.clone();
        let mut i: usize = 0;
        assert(path@.skip(0) =~= path@);
        loop
            invariant
                i < n,
                n == path@.len(),
                lookup(tree_entries(self@), path@) == lookup(
                    tree_entries(current@),
                    path@.skip(i as int),
                ),
            decreases n - i,
        {
            let tree = stored(find_tree(&self.repo.repo, &current))?;
            let builder = stored(new_builder(&self.repo.repo, Some(&tree)))?;
            let ghost rest = path@.skip(i as int);
            assert(rest[0] == path@[i as int]);
            assert(rest.skip(1) =~= path@.skip(i + 1));
            match held(&builder, path.segment(i))? {
                None => { return Err(GitError::NotFound); },
                Some(entry) => {
                    if i + 1 == n {
                        return Ok(entry);
                    }
                    if entry.kind != EntryKind::Directory {
                        return Err(GitError::NotFound);
                    }
                    current = entry.id;
                    i = i + 1;
                },
            }
        }
    }

    /// The content of the file at `path`.
    ///
    /// Bytes that come back are the content of the blob that the path
    /// resolves to, whose id is their hash. `IsDir` says that the path names
    /// something that is no file, `NotFound` that it names nothing; in both
    /// cases the call fails. The root is a directory: for it the answer is
    /// `IsDir`, without a look at the store.
    pub fn content(&self, path: &Path) -> (r: Result<Vec<u8>, GitError>)
        ensures
            r is Ok ==> resolve(self@, path@) is Some && resolve(self@, path@)->Some_0.kind
                == EntryKind::File,
            r is Ok ==> r->Ok_0@ == blob_bytes(resolve(self@, path@)->Some_0.id),
            r is Ok ==> blob_id(r->Ok_0@) == resolve(self@, path@)->Some_0.id,
            r is Err ==> r->Err_0.is_store_failure() || (r->Err_0 is NotFound && resolve(
                self@,
                path@,
            ) is None) || (r->Err_0 is IsDir && resolve(self@, path@) is Some && resolve(
                self@,
                path@,
            )->Some_0.kind != EntryKind::File),
            resolve(self@, path@) is None || resolve(self@, path@)->Some_0.kind
                != EntryKind::File ==> r is Err,
            path@.len() == 0 ==> r is Err && r->Err_0 is IsDir,
    {
        let entry = self.entry(path)?;
        if entry.kind == EntryKind::File {
            stored(read_blob(&self.repo.repo, &entry.id))
        } else {
            Err(GitError::IsDir)
        }
    }

    /// The children of the directory at `path`: one path per entry of its
    /// tree, in the tree's order.
    ///
    /// `IsFile` says that the path names something that is no directory,
    /// `NotFound` that it names nothing; in both cases the call fails.
    pub fn list(&self, path: &Path) -> (r: Result<Vec<Path>, GitError>)
        ensures
            r is Ok ==> resolve(self@, path@) is Some && resolve(self@, path@)->Some_0.kind
                == EntryKind::Directory,
            r is Ok ==> r->Ok_0@.len() == tree_names(resolve(self@, path@)->Some_0.id).len(),
            r is Ok ==> forall|i: int|
                0 <= i < r->Ok_0@.len() ==> (#[trigger] r->Ok_0@[i])@ == path@ + split(
                    tree_names(resolve(self@, path@)->Some_0.id)[i],
                ),
            r is Err ==> r->Err_0.is_store_failure() || (r->Err_0 is NotFound && resolve(
                self@,
                path@,
            ) is None) || (r->Err_0 is IsFile && resolve(self@, path@) is Some && resolve(
                self@,
                path@,
            )->Some_0.kind != EntryKind::Directory),
            resolve(self@, path@) is None || resolve(self@, path@)->Some_0.kind
                != EntryKind::Directory ==> r is Err,
    {
        let entry = self.entry(path)?;
        if entry.kind != EntryKind::Directory {
            return Err(GitError::IsFile);
        }
        let tree = stored(find_tree(&self.repo.repo, &entry.id))?;
        let n: usize = tree_len(&tree);
        let ghost names = tree_names(entry.id@);
        let mut items: Vec<Path> = Vec::new();
        let mut i: usize = 0;
        while i < n
            invariant
                i <= n,
                n == names.len(),
                names == tree_names(tree_id(tree)),
                items@.len() == i,
                forall|k: int| 0 <= k < i ==> (#[trigger] items@[k])@ == path@ + split(names[k]),
            decreases n - i,
        {
            if let Some(name) = tree_name_at(&tree, i) {
                let mut child = path.clone();
                child.push(name.as_slice());
                items.push(child);
            }
            i = i + 1;
        }
        Ok(items)
    }

    /// Whether `path` names something.
    pub fn is_present(&self, path: &Path) -> (r: Result<bool, GitError>)
        ensures
            r is Ok ==> r->Ok_0 == resolve(self@, path@) is Some,
            r is Err ==> r->Err_0.is_store_failure(),
            path@.len() == 0 ==> r is Ok,
    {
        match self.entry(path) {
            Ok(_) => Ok(true),
            Err(GitError::NotFound) => Ok(false),
            Err(err) => Err(err),
        }
    }

    /// Whether `path` names a directory. Fails with `NotFound` where it
    /// names nothing.
    pub fn is_dir(&self, path: &Path) -> (r: Result<bool, GitError>)
        ensures
            r is Ok ==> resolve(self@, path@) is Some && r->Ok_0 == (resolve(
                self@,
                path@,
            )->Some_0.kind == EntryKind::Directory),
            r is Err ==> r->Err_0.is_store_failure() || (r->Err_0 is NotFound && resolve(
                self@,
                path@,
            ) is None),
            resolve(self@, path@) is None ==> r is Err,
            path@.len() == 0 ==> r is Ok,
    {
        let entry = self.entry(path)?;
        Ok(entry.kind == EntryKind::Directory)
    }

    /// Whether `path` names a file. Fails with `NotFound` where it names
    /// nothing.
    pub fn is_file(&self, path: &Path) -> (r: Result<bool, GitError>)
        ensures
            r is Ok ==> resolve(self@, path@) is Some && r->Ok_0 == (resolve(
                self@,
                path@,
            )->Some_0.kind == EntryKind::File),
            r is Err ==> r->Err_0.is_store_failure() || (r->Err_0 is NotFound && resolve(
                self@,
                path@,
            ) is None),
            resolve(self@, path@) is None ==> r is Err,
            path@.len() == 0 ==> r is Ok,
    {
        let entry = self.entry(path)?;
        Ok(entry.kind == EntryKind::File)
    }

    /// Whether something could exist at `path`: no ancestor of it is
    /// anything but a directory. For the root and its direct children the
    /// answer is yes, without a look at the store.
    pub fn can_exist(&self, path: &Path) -> (r: Result<bool, GitError>)
        ensures
            r is Ok ==> r->Ok_0 == can_exist(tree_entries(self@), path@),
            r is Err ==> r->Err_0.is_store_failure(),
            path@.len() <= 1 ==> r is Ok,
        decreases path@.len(),
    {
        let parent = match path.parent() {
            Some(parent) => parent,
            // The root always exists.
            None => { return Ok(true); },
        };
        if parent.is_empty() {
            // Directly below the root, which is a directory.
            return Ok(true);
        }
        match self.entry(&parent) {
            Ok(entry) => Ok(entry.kind == EntryKind::Directory),
            Err(GitError::NotFound) => self.can_exist(&parent),
            Err(err) => Err(err),
        }
    }

    /// The snapshot with the blob `blob` written at `path`.
    ///
    /// On success the new root tree is the old one with the file written
    /// into it, and is well listed. A failure that is not the store's own is
    /// the conflict that the tree has with the write (`IsDir`, `CannotCreate`
    /// or `NoChange`), and where there is such a conflict the call fails. The
    /// root is a directory: a write to it is refused without a look at the
    /// store.
    pub fn with_file(&self, path: &Path, blob: &ObjectId) -> (r: Result<Snapshot<'repo>, GitError>)
        ensures
            r is Ok ==> inserted(tree_entries(self@), path@, blob@, tree_entries(r->Ok_0@)),
            r is Ok ==> well_listed(r->Ok_0@),
            r is Ok ==> r->Ok_0.repository() == self.repository(),
            r is Err ==> r->Err_0.is_store_failure() || insert_conflict(
                tree_entries(self@),
                path@,
                blob@,
            ) == Some(r->Err_0),
            insert_conflict(tree_entries(self@), path@, blob@) is Some ==> r is Err,
            path@.len() == 0 ==> r is Err && r->Err_0 is IsDir,
    {
        if path.is_empty() {
            return Err(GitError::IsDir);
        }
        let root_tree = stored(find_tree(&self.repo.repo, &self.root))?;
        let mut tree_builder = stored(new_builder(&self.repo.repo, Some(&root_tree)))?;
        self.repo.add_to_tree(&mut tree_builder, path.clone(), blob)?;
        let root = stored(builder_write(&tree_builder))?;
        Ok(Snapshot { repo: self.repo, root })
    }

    /// The snapshot without the entry at `path`, and without the directories
    /// that its removal leaves empty.
    ///
    /// On success the new root tree is the old one with the entry removed,
    /// and is well listed. A failure that is not the store's own is
    /// `NotFound`, and says that nothing exists at the path; where nothing
    /// exists there, and for the root, the call fails.
    pub fn without(&self, path: &Path) -> (r: Result<Snapshot<'repo>, GitError>)
        ensures
            r is Ok ==> removed(tree_entries(self@), path@, tree_entries(r->Ok_0@)),
            r is Ok ==> well_listed(r->Ok_0@),
            r is Ok ==> r->Ok_0.repository() == self.repository(),
            r is Err ==> r->Err_0.is_store_failure() || (r->Err_0 is NotFound && lookup(
                tree_entries(self@),
                path@,
            ) is None),
            lookup(tree_entries(self@), path@) is None ==> r is Err,
            path@.len() == 0 ==> r is Err && r->Err_0 is NotFound,
    {
        if path.is_empty() {
            return Err(GitError::NotFound);
        }
        let root_tree = stored(find_tree(&self.repo.repo, &self.root))?;
        let mut tree_builder = stored(new_builder(&self.repo.repo, Some(&root_tree)))?;
        // Where the removal empties the root, the empty tree is written.
        self.repo.remove_from_tree(&mut tree_builder, path.clone())?;
        let root = stored(builder_write(&tree_builder))?;
        Ok(Snapshot { repo: self.repo, root })
    }
}

/// A path bound to a repository.
pub struct GitItem<'repo> {
    repo: &'repo GitRepository,
    path: Path,
}

impl<'repo> View for GitItem<'repo> {
    type V = Seq<Seq<u8>>;

    /// An item is viewed as its path.
    closed spec fn view(&self) -> Seq<Seq<u8>> {
        self.path@
    }
}

impl<'repo> GitItem<'repo> {
    /// The repository that the item is bound to.
    pub closed spec fn repository(&self) -> &GitRepository {
        self.repo
    }

    /// The item's path.
    pub fn path(&self) -> (r: &Path)
        ensures
            r@ == self@,
    {
        &self.path
    }

    /// The item one level up. The root has none: `NoParent`.
    pub fn parent(&self) -> (r: Result<GitItem<'repo>, GitError>)
        ensures
            self@.len() == 0 ==> r is Err && r->Err_0 is NoParent,
            self@.len() > 0 ==> r is Ok && r->Ok_0@ == self@.drop_last() && r->Ok_0.repository()
                == self.repository(),
    {
        if let Some(parent) = self.path.parent() {
            Ok(GitItem { repo: self.repo, path: parent })
        } else {
            Err(GitError::NoParent)
        }
    }

    /// What the item's path names at the head: the answer of
    /// [`Snapshot::entry`] for the tree that the head held when it was read.
    fn object(&self) -> (r: Result<EntryInfo, GitError>)
        ensures
            exists|root: Seq<u8>| entry_at(root, self@, r),
            r is Err ==> r->Err_0.is_store_failure() || (r->Err_0 is NotFound && self@.len() > 0),
            r is Ok && self@.len() == 0 ==> r->Ok_0.kind == EntryKind::Directory,
    {
        let snapshot = match self.repo.snapshot() {
            Ok(snapshot) => snapshot,
            Err(err) => {
                assert(entry_at(Seq::empty(), self@, Err(err)));
                return Err(err);
            },
        };
        let r = snapshot.entry(&self.path);
        assert(entry_at(snapshot@, self@, r));
        r
    }

    /// The content of the file that the item names at the head. Fails with
    /// `IsDir` where it names something else, as the root does, and with
    /// `NotFound` where it names nothing.
    ///
    /// The answer is that of [`Snapshot::content`] for the tree that the
    /// head held when it was read.
    pub fn content(&self) -> (r: Result<Vec<u8>, GitError>)
        ensures
            exists|root: Seq<u8>| content_at(root, self@, r),
            r is Err ==> r->Err_0.is_store_failure() || r->Err_0 is NotFound || r->Err_0 is IsDir,
            r is Err && r->Err_0 is NotFound ==> self@.len() > 0,
            self@.len() == 0 ==> r is Err,
    {
        let snapshot = match self.repo.snapshot() {
            Ok(snapshot) => snapshot,
            Err(err) => {
                assert(content_at(Seq::empty(), self@, Err(err)));
                return Err(err);
            },
        };
        let r = snapshot.content(&self.path);
        assert(content_at(snapshot@, self@, r));
        r
    }

    /// The children of the directory that the item names at the head, each
    /// an item whose path extends this one. Fails with `IsFile` where the
    /// item names something else, and with `NotFound` where it names nothing.
    ///
    /// The answer is that of [`Snapshot::list`] for the tree that the head
    /// held when it was read: one item per entry of the directory's tree, in
    /// the tree's order.
    pub fn list(&self) -> (r: Result<Vec<GitItem<'repo>>, GitError>)
        ensures
            exists|root: Seq<u8>| listing_at(root, self@, r),
            r is Ok ==> forall|i: int|
                0 <= i < r->Ok_0@.len() ==> {
                    &&& (#[trigger] r->Ok_0@[i]).repository() == self.repository()
                    &&& self@.is_prefix_of(r->Ok_0@[i]@)
                },
            r is Err ==> r->Err_0.is_store_failure() || r->Err_0 is NotFound || r->Err_0 is IsFile,
            r is Err && (r->Err_0 is NotFound || r->Err_0 is IsFile) ==> self@.len() > 0,
    {
        let snapshot = match self.repo.snapshot() {
            Ok(snapshot) => snapshot,
            Err(err) => {
                assert(listing_at(Seq::empty(), self@, Err::<Vec<GitItem>, GitError>(err)));
                return Err(err);
            },
        };
        let paths = match snapshot.list(&self.path) {
            Ok(paths) => paths,
            Err(err) => {
                assert(listing_at(snapshot@, self@, Err::<Vec<GitItem>, GitError>(err)));
                return Err(err);
            },
        };
        let mut items: Vec<GitItem<'repo>> = Vec::new();
        let mut i: usize = 0;
        while i < paths.len()
            invariant
                i <= paths@.len(),
                items@.len() == i,
                forall|k: int|
                    0 <= k < paths@.len() ==> self@.is_prefix_of((#[trigger] paths@[k])@),
                forall|k: int|
                    0 <= k < i ==> {
                        &&& (#[trigger] items@[k]).repository() == self.repository()
                        &&& items@[k]@ == paths@[k]@
                    },
            decreases paths@.len() - i,
        {
            items.push(GitItem { repo: self.repo, path: paths[i].clone() });
            i = i + 1;
        }
        assert(listing_at(snapshot@, self@, Ok::<Vec<GitItem>, GitError>(items)));
        Ok(items)
    }

    /// Whether the item names something at the head. The root always does.
    ///
    /// The answer is that of [`Snapshot::is_present`] for the tree that the
    /// head held when it was read.
    pub fn is_present(&self) -> (r: Result<bool, GitError>)
        ensures
            exists|root: Seq<u8>| presence_at(root, self@, r),
            r is Err ==> r->Err_0.is_store_failure(),
            r is Ok && self@.len() == 0 ==> r->Ok_0,
    {
        let object = self.object();
        let ghost root = choose|root: Seq<u8>| entry_at(root, self@, object);
        let r = match object {
            Ok(_) => Ok(true),
            Err(GitError::NotFound) => Ok(false),
            Err(err) => Err(err),
        };
        assert(presence_at(root, self@, r));
        r
    }

    /// Whether something could exist at the item's path, as the head is: no
    /// ancestor of it is anything but a directory. For the root and its
    /// direct children the answer is yes, without a look at the store.
    ///
    /// The answer is that of [`Snapshot::can_exist`] for the tree that the
    /// head held when it was read.
    pub fn can_exist(&self) -> (r: Result<bool, GitError>)
        ensures
            exists|root: Seq<u8>| possibility_at(root, self@, r),
            self@.len() <= 1 ==> r is Ok && r->Ok_0,
            r is Err ==> r->Err_0.is_store_failure(),
    {
        if self.path.segments() <= 1 {
            assert(possibility_at(Seq::empty(), self@, Ok(true)));
            Ok(true)
        } else {
            let snapshot = match self.repo.snapshot() {
                Ok(snapshot) => snapshot,
                Err(err) => {
                    assert(possibility_at(Seq::empty(), self@, Err(err)));
                    return Err(err);
                },
            };
            let r = snapshot.can_exist(&self.path);
            assert(possibility_at(snapshot@, self@, r));
            r
        }
    }

    /// Whether the item names a directory at the head, as the root does.
    /// Fails with `NotFound` where it names nothing.
    ///
    /// The answer is that of [`Snapshot::is_dir`] for the tree that the head
    /// held when it was read.
    pub fn is_dir(&self) -> (r: Result<bool, GitError>)
        ensures
            exists|root: Seq<u8>| kind_at(root, self@, EntryKind::Directory, r),
            r is Err ==> r->Err_0.is_store_failure() || (r->Err_0 is NotFound && self@.len() > 0),
            r is Ok && self@.len() == 0 ==> r->Ok_0,
    {
        let object = self.object();
        let ghost root = choose|root: Seq<u8>| entry_at(root, self@, object);
        let r = match object {
            Ok(entry) => Ok(entry.kind == EntryKind::Directory),
            Err(err) => Err(err),
        };
        assert(kind_at(root, self@, EntryKind::Directory, r));
        r
    }

    /// Whether the item names a file at the head, which the root never does.
    /// Fails with `NotFound` where it names nothing.
    ///
    /// The answer is that of [`Snapshot::is_file`] for the tree that the head
    /// held when it was read.
    pub fn is_file(&self) -> (r: Result<bool, GitError>)
        ensures
            exists|root: Seq<u8>| kind_at(root, self@, EntryKind::File, r),
            r is Err ==> r->Err_0.is_store_failure() || (r->Err_0 is NotFound && self@.len() > 0),
            r is Ok && self@.len() == 0 ==> !r->Ok_0,
    {
        let object = self.object();
        let ghost root = choose|root: Seq<u8>| entry_at(root, self@, object);
        let r = match object {
            Ok(entry) => Ok(entry.kind == EntryKind::File),
            Err(err) => Err(err),
        };
        assert(kind_at(root, self@, EntryKind::File, r));
        r
    }

    /// Whether the item is the root.
    pub fn is_root(&self) -> (r: bool)
        ensures
            r == (self@.len() == 0),
    {
        self.path.is_empty()
    }

    /// Writes `content` at the item's path and publishes the result as a
    /// new commit with `message`.
    ///
    /// The content is stored as a blob and written into the tree of the
    /// commit that the head held when it was read. On success a commit was
    /// made that records the tree with the file written into it, that one
    /// commit as its parent, and the message. A failure that is not the
    /// store's own is the conflict that the tree has with the write (`IsDir`,
    /// `CannotCreate` or `NoChange`), and then no commit is made. The root is
    /// a directory: for it the call fails with `IsDir` without a look at the
    /// store.
    pub fn edit(&self, content: &[u8], message: &str) -> (r: Result<(), GitError>)
        ensures
            exists|previous: Seq<u8>, commit: Seq<u8>|
                edit_at(previous, commit, self@, content@, message@, r),
            self@.len() == 0 ==> r is Err && r->Err_0 is IsDir,
            r is Err ==> r->Err_0.is_store_failure() || r->Err_0 is IsDir || r->Err_0
                is CannotCreate || r->Err_0 is NoChange,
    {
        if self.is_root() {
            assert(edit_at(
                Seq::empty(),
                Seq::empty(),
                self@,
                content@,
                message@,
                Err(GitError::IsDir),
            ));
            return Err(GitError::IsDir);
        }
        let blob_oid = match self.repo.write_blob(content) {
            Ok(blob_oid) => blob_oid,
            Err(err) => {
                assert(edit_at(Seq::empty(), Seq::empty(), self@, content@, message@, Err(err)));
                return Err(err);
            },
        };
        let head = match self.repo.head() {
            Ok(head) => head,
            Err(err) => {
                assert(edit_at(Seq::empty(), Seq::empty(), self@, content@, message@, Err(err)));
                return Err(err);
            },
        };
        let ghost previous = commit_id(head);
        let head_tree = match stored(commit_tree(&head)) {
            Ok(head_tree) => head_tree,
            Err(err) => {
                assert(edit_at(previous, Seq::empty(), self@, content@, message@, Err(err)));
                return Err(err);
            },
        };
        let snapshot = Snapshot { repo: self.repo, root: tree_handle_id(&head_tree) };
        proof {
            lemma_conflict_kinds(tree_entries(snapshot@), self@, blob_oid@);
        }
        let edited = match snapshot.with_file(&self.path, &blob_oid) {
            Ok(edited) => edited,
            Err(err) => {
                assert(edit_at(previous, Seq::empty(), self@, content@, message@, Err(err)));
                return Err(err);
            },
        };
        match self.repo.publish(&head, &edited.root, message) {
            Ok(commit) => {
                assert(edit_at(previous, commit@, self@, content@, message@, Ok(())));
                Ok(())
            },
            Err(err) => {
                assert(edit_at(previous, Seq::empty(), self@, content@, message@, Err(err)));
                Err(err)
            },
        }
    }

    /// Removes what the item names, and the directories that this leaves
    /// empty, and publishes the result as a new commit with `message`.
    ///
    /// The entry is removed from the tree of the commit that the head held
    /// when it was read. On success a commit was made that records the tree
    /// that is left, that one commit as its parent, and the message. A
    /// failure that is not the store's own is `NotFound`, and says that
    /// nothing exists at the path; then no commit is made. The root cannot be
    /// removed: for it the call fails with `NotFound` without a look at the
    /// store.
    pub fn remove(&self, message: &str) -> (r: Result<(), GitError>)
        ensures
            exists|previous: Seq<u8>, commit: Seq<u8>|
                removal_at(previous, commit, self@, message@, r),
            self@.len() == 0 ==> r is Err && r->Err_0 is NotFound,
            r is Err ==> r->Err_0.is_store_failure() || r->Err_0 is NotFound,
    {
        if self.is_root() {
            assert(removal_at(
                Seq::empty(),
                Seq::empty(),
                self@,
                message@,
                Err(GitError::NotFound),
            ));
            return Err(GitError::NotFound);
        }
        let head = match self.repo.head() {
            Ok(head) => head,
            Err(err) => {
                assert(removal_at(Seq::empty(), Seq::empty(), self@, message@, Err(err)));
                return Err(err);
            },
        };
        let ghost previous = commit_id(head);
        let head_tree = match stored(commit_tree(&head)) {
            Ok(head_tree) => head_tree,
            Err(err) => {
                assert(removal_at(previous, Seq::empty(), self@, message@, Err(err)));
                return Err(err);
            },
        };
        let snapshot = Snapshot { repo: self.repo, root: tree_handle_id(&head_tree) };
        let pruned = match snapshot.without(&self.path) {
            Ok(pruned) => pruned,
            Err(err) => {
                assert(removal_at(previous, Seq::empty(), self@, message@, Err(err)));
                return Err(err);
            },
        };
        match self.repo.publish(&head, &pruned.root, message) {
            Ok(commit) => {
                assert(removal_at(previous, commit@, self@, message@, Ok(())));
                Ok(())
            },
            Err(err) => {
                assert(removal_at(previous, Seq::empty(), self@, message@, Err(err)));
                Err(err)
            },
        }
    }
}

/// Whether `r` is what looking `path` up in the tree with id `root` gives:
/// the entry that the path names, `NotFound` where it names nothing, or a
/// failure of the store.
pub open spec fn entry_at(root: Seq<u8>, path: Seq<Seq<u8>>, r: Result<EntryInfo, GitError>) -> bool {
    match r {
        Ok(entry) => resolve(root, path) == Some(entry@),
        Err(err) => err.is_store_failure() || (err is NotFound && resolve(root, path) is None),
    }
}

/// Whether `r` is what asking whether `path` names something in the tree
/// with id `root` gives: the answer, or a failure of the store.
pub open spec fn presence_at(root: Seq<u8>, path: Seq<Seq<u8>>, r: Result<bool, GitError>) -> bool {
    match r {
        Ok(present) => present == resolve(root, path) is Some,
        Err(err) => err.is_store_failure(),
    }
}

/// Whether `r` is what asking whether `path` names something of the kind
/// `kind` in the tree with id `root` gives: the answer where the path names
/// something, `NotFound` where it names nothing, or a failure of the store.
pub open spec fn kind_at(
    root: Seq<u8>,
    path: Seq<Seq<u8>>,
    kind: EntryKind,
    r: Result<bool, GitError>,
) -> bool {
    match r {
        Ok(is_kind) => resolve(root, path) is Some && is_kind == (resolve(root, path)->Some_0.kind
            == kind),
        Err(err) => err.is_store_failure() || (err is NotFound && resolve(root, path) is None),
    }
}

/// Whether `r` is what asking whether something could exist at `path` in the
/// tree with id `root` gives: the answer, or a failure of the store.
pub open spec fn possibility_at(root: Seq<u8>, path: Seq<Seq<u8>>, r: Result<bool, GitError>) -> bool {
    match r {
        Ok(possible) => possible == can_exist(tree_entries(root), path),
        Err(err) => err.is_store_failure(),
    }
}

/// Whether `r` is what listing `path` in the tree with id `root` gives: one
/// item per entry of the directory's tree, in the tree's order, each at the
/// path with the entry's name appended; `IsFile` where the path names
/// something that is no directory; `NotFound` where it names nothing; or a
/// failure of the store.
pub open spec fn listing_at(
    root: Seq<u8>,
    path: Seq<Seq<u8>>,
    r: Result<Vec<GitItem>, GitError>,
) -> bool {
    match r {
        Ok(items) => {
            &&& resolve(root, path) is Some
            &&& resolve(root, path)->Some_0.kind == EntryKind::Directory
            &&& items@.len() == tree_names(resolve(root, path)->Some_0.id).len()
            &&& forall|i: int|
                0 <= i < items@.len() ==> (#[trigger] items@[i])@ == path + split(
                    tree_names(resolve(root, path)->Some_0.id)[i],
                )
        },
        Err(err) => {
            ||| err.is_store_failure()
            ||| (err is NotFound && resolve(root, path) is None)
            ||| (err is IsFile && resolve(root, path) is Some && resolve(root, path)->Some_0.kind
                != EntryKind::Directory)
        },
    }
}

/// Whether `r` is what reading the file at `path` in the tree with id
/// `root` gives: the content of the blob that the path names, whose id is its
/// hash; `IsDir` where the path names something that is no file; `NotFound`
/// where it names nothing; or a failure of the store.
pub open spec fn content_at(root: Seq<u8>, path: Seq<Seq<u8>>, r: Result<Vec<u8>, GitError>) -> bool {
    match r {
        Ok(bytes) => {
            &&& resolve(root, path) is Some
            &&& resolve(root, path)->Some_0.kind == EntryKind::File
            &&& bytes@ == blob_bytes(resolve(root, path)->Some_0.id)
            &&& blob_id(bytes@) == resolve(root, path)->Some_0.id
        },
        Err(err) => {
            ||| err.is_store_failure()
            ||| (err is NotFound && resolve(root, path) is None)
            ||| (err is IsDir && resolve(root, path) is Some && resolve(root, path)->Some_0.kind
                != EntryKind::File)
        },
    }
}

/// Whether `r` is what writing `content` at `path` on top of the commit
/// `previous` gives.
///
/// On success `commit` is the commit that was made: its tree is that of
/// `previous` with a blob of this content written at the path, its one
/// parent is `previous`, its message is `message`, and the library signed
/// it. A failure is the
/// store's own, or the conflict that the tree of `previous` has with the
/// write.
pub open spec fn edit_at(
    previous: Seq<u8>,
    commit: Seq<u8>,
    path: Seq<Seq<u8>>,
    content: Seq<u8>,
    message: Seq<char>,
    r: Result<(), GitError>,
) -> bool {
    let before = tree_entries(tree_of_commit(previous));
    match r {
        Ok(_) => {
            &&& blob_bytes(blob_id(content)) == content
            &&& inserted(before, path, blob_id(content), tree_entries(tree_of_commit(commit)))
            &&& well_listed(tree_of_commit(commit))
            &&& parents_of_commit(commit) == seq![previous]
            &&& message_of_commit(commit) == message
            &&& author_of_commit(commit) == system_signer()
            &&& committer_of_commit(commit) == system_signer()
        },
        Err(err) => err.is_store_failure() || insert_conflict(before, path, blob_id(content))
            == Some(err),
    }
}

/// Whether `r` is what removing the entry at `path` on top of the commit
/// `previous` gives.
///
/// On success `commit` is the commit that was made: its tree is that of
/// `previous` without the entry and without the directories that this left
/// empty, its one parent is `previous`, its message is `message`, and the
/// library signed it. A
/// failure is the store's own, or `NotFound` where the path names no entry
/// of the tree of `previous`, as the root never does.
pub open spec fn removal_at(
    previous: Seq<u8>,
    commit: Seq<u8>,
    path: Seq<Seq<u8>>,
    message: Seq<char>,
    r: Result<(), GitError>,
) -> bool {
    let before = tree_entries(tree_of_commit(previous));
    match r {
        Ok(_) => {
            &&& removed(before, path, tree_entries(tree_of_commit(commit)))
            &&& well_listed(tree_of_commit(commit))
            &&& parents_of_commit(commit) == seq![previous]
            &&& message_of_commit(commit) == message
            &&& author_of_commit(commit) == system_signer()
            &&& committer_of_commit(commit) == system_signer()
        },
        Err(err) => err.is_store_failure() || (err is NotFound && lookup(before, path) is None),
    }
}

} // verus!

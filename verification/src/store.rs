//! The object store: a git repository, reached through `git2`.
//!
//! Nothing in this file is proved. It declares the outside types that the
//! library carries around, gives names to what the store's objects hold, and
//! wraps each `git2` call that the library makes. Each wrapper's contract
//! says what the call is trusted to do; where it says nothing, nothing is
//! assumed of the result.
//!
//! Objects are addressed by content: an id is a hash of the object it names,
//! so an id determines its object wherever that object is stored. The names
//! [`tree_entries`], [`tree_names`], [`blob_bytes`], [`tree_of_commit`],
//! [`parents_of_commit`] and [`message_of_commit`] stand for that object, and
//! rest on the hash being free of collisions. [`blob_id`] is the hash itself,
//! for blobs. Whether a given repository holds an object is not stated
//! anywhere: every call that reads or writes the store may fail.

use vstd::prelude::*;
use std::io::Write;
use crate::object::{
    empty_level, kind_of_mode, well_named, Entry, EntryInfo, EntryKind, ObjectId,
    MAX_NAME_LENGTH,
};

verus! {

/// `git2::Repository`: an open repository.
#[verifier::external_type_specification]
#[verifier::external_body]
pub struct ExRepository(git2::Repository);

/// `git2::Tree`: a handle on a tree object.
#[verifier::external_type_specification]
#[verifier::external_body]
pub struct ExTree<'repo>(git2::Tree<'repo>);

/// `git2::TreeBuilder`: one tree under construction, in memory.
#[verifier::external_type_specification]
#[verifier::external_body]
pub struct ExTreeBuilder<'repo>(git2::TreeBuilder<'repo>);

/// `git2::Commit`: a handle on a commit object.
#[verifier::external_type_specification]
#[verifier::external_body]
pub struct ExCommit<'repo>(git2::Commit<'repo>);

/// `git2::Reference`: a reference, such as the head.
#[verifier::external_type_specification]
#[verifier::external_body]
pub struct ExReference<'repo>(git2::Reference<'repo>);

/// `git2::Signature`: who made a commit, and when.
#[verifier::external_type_specification]
#[verifier::external_body]
pub struct ExSignature<'a>(git2::Signature<'a>);

/// `git2::BlobWriter`: a blob that is being written.
#[verifier::external_type_specification]
#[verifier::external_body]
pub struct ExBlobWriter<'repo>(git2::BlobWriter<'repo>);

/// `git2::Error`: a failure of the object store.
#[verifier::external_type_specification]
#[verifier::external_body]
pub struct ExGitError(git2::Error);

/// `std::path::PathBuf`: the name of a file or directory.
#[verifier::external_type_specification]
#[verifier::external_body]
pub struct ExFilePath(std::path::PathBuf);

/// `std::io::Error`: a failure of a write.
#[verifier::external_type_specification]
#[verifier::external_body]
pub struct ExIoError(std::io::Error);

/// The entries of the tree object with this id: what a tree builder holds
/// after it was loaded from that tree.
pub uninterp spec fn tree_entries(id: Seq<u8>) -> Map<Seq<u8>, Entry>;

/// The names of the entries of the tree object with this id, in the order in
/// which the object stores them.
pub uninterp spec fn tree_names(id: Seq<u8>) -> Seq<Seq<u8>>;

/// The content of the blob object with this id.
pub uninterp spec fn blob_bytes(id: Seq<u8>) -> Seq<u8>;

/// The id of the blob object with this content: the hash of the content.
pub uninterp spec fn blob_id(content: Seq<u8>) -> Seq<u8>;

/// The id of the tree that the commit object with this id records.
pub uninterp spec fn tree_of_commit(id: Seq<u8>) -> Seq<u8>;

/// The ids of the parents that the commit object with this id records, in
/// order.
pub uninterp spec fn parents_of_commit(id: Seq<u8>) -> Seq<Seq<u8>>;

/// The message that the commit object with this id records.
pub uninterp spec fn message_of_commit(id: Seq<u8>) -> Seq<char>;

/// The name and the address of the author that the commit object with this
/// id records.
pub uninterp spec fn author_of_commit(id: Seq<u8>) -> (Seq<char>, Seq<char>);

/// The name and the address of the committer that the commit object with
/// this id records.
pub uninterp spec fn committer_of_commit(id: Seq<u8>) -> (Seq<char>, Seq<char>);

/// The name and the address that a signature holds.
pub uninterp spec fn signer(signature: git2::Signature) -> (Seq<char>, Seq<char>);

/// Whether a signature strips `c` from the ends of a name: a blank, a control
/// character, or one of `, : ; < > " \ '`.
pub open spec fn is_crud(c: char) -> bool {
    c as u32 <= 32 || c == ',' || c == ':' || c == ';' || c == '<' || c == '>' || c == '"' || c
        == '\\' || c == '\''
}

/// Whether a signature keeps `text` as it is: it is not empty, and nothing
/// is stripped from its ends.
pub open spec fn is_kept(text: Seq<char>) -> bool {
    text.len() > 0 && !is_crud(text[0]) && !is_crud(text.last())
}

/// The id of the tree object that a tree handle was loaded for.
pub uninterp spec fn tree_id(tree: git2::Tree) -> Seq<u8>;

/// The id of the commit object that a commit handle was loaded for.
pub uninterp spec fn commit_id(commit: git2::Commit) -> Seq<u8>;

/// The entries that a tree builder holds, by name.
pub uninterp spec fn builder_view(builder: git2::TreeBuilder) -> Map<Seq<u8>, Entry>;

/// The bytes written to a blob writer so far.
pub uninterp spec fn writer_bytes(writer: git2::BlobWriter) -> Seq<u8>;

/// `Display` of `git2::Error`: the error's own message. Nothing is claimed of
/// the result.
#[verifier::external_body]
pub(crate) fn store_error_text(error: &git2::Error) -> (text: String) {
    error.to_string()
}

/// `Display` of `std::io::Error`: the error's own message. Nothing is claimed
/// of the result.
#[verifier::external_body]
pub(crate) fn io_error_text(error: &std::io::Error) -> (text: String) {
    error.to_string()
}

/// `Repository::init_opts`, with `RepositoryInitOptions::{new, bare, mkdir,
/// mkpath}`: opens the repository at `dir`, creating it as the options say.
/// Nothing is claimed of the result.
#[verifier::external_body]
pub(crate) fn init_repository(
    dir: &std::path::PathBuf,
    bare: bool,
    mkdir: bool,
    mkpath: bool,
) -> (r: Result<git2::Repository, git2::Error>) {
    let mut options = git2::RepositoryInitOptions::new();
    options.bare(bare).mkdir(mkdir).mkpath(mkpath);
    git2::Repository::init_opts(dir, &options)
}

/// `Repository::head`: the reference that the head points at. Nothing is
/// claimed of the result.
#[verifier::external_body]
pub(crate) fn repository_head<'repo>(repo: &'repo git2::Repository) -> (r: Result<
    git2::Reference<'repo>,
    git2::Error,
>) {
    repo.head()
}

/// `Reference::peel_to_commit`: the commit that a reference leads to. Nothing
/// is claimed of the result.
#[verifier::external_body]
pub(crate) fn reference_commit<'repo>(reference: &git2::Reference<'repo>) -> (r: Result<
    git2::Commit<'repo>,
    git2::Error,
>) {
    reference.peel_to_commit()
}

/// `Error::code`, compared with `ErrorCode::UnbornBranch`: whether the error
/// says that the head's branch has no commit yet. Nothing is claimed of the
/// result.
#[verifier::external_body]
pub(crate) fn is_unborn_branch(error: &git2::Error) -> (r: bool) {
    error.code() == git2::ErrorCode::UnbornBranch
}

/// `Commit::tree`: the tree of a commit. A handle that comes back is one for
/// the tree that the commit records.
#[verifier::external_body]
pub(crate) fn commit_tree<'repo>(commit: &git2::Commit<'repo>) -> (r: Result<
    git2::Tree<'repo>,
    git2::Error,
>)
    ensures
        r is Ok ==> tree_id(r->Ok_0) == tree_of_commit(commit_id(*commit)),
{
    commit.tree()
}

/// `Repository::find_tree`: a handle for the tree with this id. A handle that
/// comes back is one for that id.
#[verifier::external_body]
pub(crate) fn find_tree<'repo>(repo: &'repo git2::Repository, id: &ObjectId) -> (r: Result<
    git2::Tree<'repo>,
    git2::Error,
>)
    ensures
        r is Ok ==> tree_id(r->Ok_0) == id@,
{
    repo.find_tree(git2::Oid::from_bytes(&id.bytes)?)
}

/// `Tree::id`: the id that a tree handle was loaded for.
#[verifier::external_body]
pub(crate) fn tree_handle_id(tree: &git2::Tree) -> (id: ObjectId)
    ensures
        id@ == tree_id(*tree),
{
    ObjectId { bytes: tree.id().as_bytes().to_vec() }
}

/// `Tree::len`: the number of entries that the tree stores.
#[verifier::external_body]
pub(crate) fn tree_len(tree: &git2::Tree) -> (n: usize)
    ensures
        n == tree_names(tree_id(*tree)).len(),
{
    tree.len()
}

/// `Tree::get` and `TreeEntry::name_bytes`: the name of the entry at position
/// `i`, and nothing past the last entry.
#[verifier::external_body]
pub(crate) fn tree_name_at(tree: &git2::Tree, i: usize) -> (name: Option<Vec<u8>>)
    ensures
        name is Some <==> i < tree_names(tree_id(*tree)).len(),
        name is Some ==> name->Some_0@ == tree_names(tree_id(*tree))[i as int],
{
    tree.get(i).map(|entry| entry.name_bytes().to_vec())
}

/// `Repository::treebuilder`: a new tree builder. One that comes back holds
/// the entries of `source`, or none where there is no source, and in either
/// case finitely many. A tree that can be read holds no name that is empty,
/// longer than a tree can record, or with a zero byte in it, so the builder
/// holds none.
#[verifier::external_body]
pub(crate) fn new_builder<'repo>(
    repo: &'repo git2::Repository,
    source: Option<&git2::Tree>,
) -> (r: Result<git2::TreeBuilder<'repo>, git2::Error>)
    ensures
        r is Ok && source is Some ==> builder_view(r->Ok_0) == tree_entries(
            tree_id(*source->Some_0),
        ),
        r is Ok && source is None ==> builder_view(r->Ok_0) == empty_level(),
        r is Ok ==> builder_view(r->Ok_0).dom().finite(),
        r is Ok ==> well_named(builder_view(r->Ok_0)),
{
    repo.treebuilder(source)
}

/// `TreeBuilder::get`, with `TreeEntry::{id, kind, filemode}`: the entry of
/// this name, if the builder holds one. An answer that comes back is exact,
/// and the mode of an entry that points at a blob is a file's mode.
#[verifier::external_body]
pub(crate) fn builder_get(builder: &git2::TreeBuilder, name: &[u8]) -> (r: Result<
    Option<EntryInfo>,
    git2::Error,
>)
    ensures
        r is Ok ==> (r->Ok_0 is Some <==> builder_view(*builder).contains_key(name@)),
        r is Ok && r->Ok_0 is Some ==> r->Ok_0->Some_0@ == builder_view(*builder)[name@],
        r is Ok && r->Ok_0 is Some && r->Ok_0->Some_0.kind == EntryKind::File ==> kind_of_mode(
            r->Ok_0->Some_0.mode as int,
        ) == EntryKind::File,
{
    match builder.get(name)? {
        None => Ok(None),
        Some(entry) => {
            let kind = match entry.kind() {
                Some(git2::ObjectType::Blob) => EntryKind::File,
                Some(git2::ObjectType::Tree) => EntryKind::Directory,
                _ => EntryKind::Other,
            };
            let id = ObjectId { bytes: entry.id().as_bytes().to_vec() };
            Ok(Some(EntryInfo { id, kind, mode: entry.filemode() }))
        },
    }
}

/// `TreeBuilder::insert`: adds an entry, or replaces the one of the same name.
/// On success the builder holds the new entry, of the kind that goes with the
/// mode, and its other entries as before; a name that is empty or has a zero
/// byte in it is never accepted. A name longer than a tree can record is
/// accepted but not kept whole, and is left out here.
#[verifier::external_body]
pub(crate) fn builder_insert(
    builder: &mut git2::TreeBuilder,
    name: &[u8],
    id: &ObjectId,
    mode: i32,
) -> (r: Result<(), git2::Error>)
    requires
        name@.len() <= MAX_NAME_LENGTH,
    ensures
        r is Ok ==> builder_view(*final(builder)) == builder_view(*old(builder)).insert(
            name@,
            (Entry { id: id@, kind: kind_of_mode(mode as int), mode: mode as int }),
        ),
        r is Ok ==> well_named(builder_view(*final(builder))),
{
    builder.insert(name, git2::Oid::from_bytes(&id.bytes)?, mode).map(|_| ())
}

/// `TreeBuilder::remove`: removes the entry of this name. On success the
/// builder holds the other entries as before.
#[verifier::external_body]
pub(crate) fn builder_remove(builder: &mut git2::TreeBuilder, name: &[u8]) -> (r: Result<
    (),
    git2::Error,
>)
    ensures
        r is Ok ==> builder_view(*final(builder)) == builder_view(*old(builder)).remove(name@),
{
    builder.remove(name)
}

/// `TreeBuilder::len`: the number of entries.
#[verifier::external_body]
pub(crate) fn builder_len(builder: &git2::TreeBuilder) -> (n: usize)
    ensures
        n == builder_view(*builder).len(),
{
    builder.len()
}

/// `TreeBuilder::write`: stores the builder's entries as a tree object and
/// gives its id. That tree holds exactly the builder's entries, each name
/// once. This is so for names that a tree can hold; others are left out.
#[verifier::external_body]
pub(crate) fn builder_write(builder: &git2::TreeBuilder) -> (r: Result<ObjectId, git2::Error>)
    requires
        well_named(builder_view(*builder)),
    ensures
        r is Ok ==> tree_entries(r->Ok_0@) == builder_view(*builder),
        r is Ok ==> tree_names(r->Ok_0@).no_duplicates(),
        r is Ok ==> tree_names(r->Ok_0@).to_set() == builder_view(*builder).dom(),
{
    builder.write().map(|oid| ObjectId { bytes: oid.as_bytes().to_vec() })
}

/// `Signature::now`: a signature with the current time. It holds the name
/// and the address given, where nothing is stripped from their ends. Of the
/// time nothing is claimed.
#[verifier::external_body]
pub(crate) fn signature_now(name: &str, email: &str) -> (r: Result<
    git2::Signature<'static>,
    git2::Error,
>)
    ensures
        r is Ok && is_kept(name@) ==> signer(r->Ok_0).0 == name@,
        r is Ok && is_kept(email@) ==> signer(r->Ok_0).1 == email@,
{
    git2::Signature::now(name, email)
}

/// `Repository::commit`: stores a commit of `tree` with at most one parent and
/// moves the reference `update_ref` to it. The commit whose id comes back
/// records that tree, that parent, that message, and the name and address of
/// the two signatures. Of the reference nothing is claimed.
#[verifier::external_body]
pub(crate) fn create_commit(
    repo: &git2::Repository,
    update_ref: &str,
    author: &git2::Signature,
    committer: &git2::Signature,
    message: &str,
    tree: &git2::Tree,
    parent: Option<&git2::Commit>,
) -> (r: Result<ObjectId, git2::Error>)
    ensures
        r is Ok ==> tree_of_commit(r->Ok_0@) == tree_id(*tree),
        r is Ok && parent is Some ==> parents_of_commit(r->Ok_0@) == seq![
            commit_id(*parent->Some_0),
        ],
        r is Ok && parent is None ==> parents_of_commit(r->Ok_0@) == Seq::<Seq<u8>>::empty(),
        r is Ok ==> message_of_commit(r->Ok_0@) == message@,
        r is Ok ==> author_of_commit(r->Ok_0@) == signer(*author),
        r is Ok ==> committer_of_commit(r->Ok_0@) == signer(*committer),
{
    let parents: Vec<&git2::Commit> = parent.into_iter().collect();
    repo.commit(Some(update_ref), author, committer, message, tree, &parents).map(
        |oid| ObjectId { bytes: oid.as_bytes().to_vec() },
    )
}

/// `Repository::blob_writer`: a writer for a new blob, with nothing written
/// yet.
#[verifier::external_body]
pub(crate) fn blob_writer<'repo>(repo: &'repo git2::Repository) -> (r: Result<
    git2::BlobWriter<'repo>,
    git2::Error,
>)
    ensures
        r is Ok ==> writer_bytes(r->Ok_0) == Seq::<u8>::empty(),
{
    repo.blob_writer(None)
}

/// `Write::write` of `BlobWriter`: hands bytes to the writer. On success all
/// of `bytes` stands after what was written before.
#[verifier::external_body]
pub(crate) fn writer_write(writer: &mut git2::BlobWriter, bytes: &[u8]) -> (r: Result<
    usize,
    std::io::Error,
>)
    ensures
        r is Ok ==> writer_bytes(*final(writer)) == writer_bytes(*old(writer)) + bytes@,
{
    writer.write(bytes)
}

/// `BlobWriter::commit`: stores what was written as a blob object and gives
/// its id, the hash of what was written.
#[verifier::external_body]
pub(crate) fn writer_commit(writer: git2::BlobWriter) -> (r: Result<ObjectId, git2::Error>)
    ensures
        r is Ok ==> r->Ok_0@ == blob_id(writer_bytes(writer)),
        r is Ok ==> blob_bytes(r->Ok_0@) == writer_bytes(writer),
{
    writer.commit().map(|oid| ObjectId { bytes: oid.as_bytes().to_vec() })
}

/// `Repository::find_blob` and `Blob::content`: the content of the blob with
/// this id, of which the id is the hash.
#[verifier::external_body]
pub(crate) fn read_blob(repo: &git2::Repository, id: &ObjectId) -> (r: Result<
    Vec<u8>,
    git2::Error,
>)
    ensures
        r is Ok ==> r->Ok_0@ == blob_bytes(id@),
        r is Ok ==> blob_id(r->Ok_0@) == id@,
{
    Ok(repo.find_blob(git2::Oid::from_bytes(&id.bytes)?)?.content().to_vec())
}

} // verus!

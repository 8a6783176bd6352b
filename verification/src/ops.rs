//! Repository operations answered by the `gix` library: resolving a revision
//! to an object id, and checking a commit's signature.
//!
//! What a repository holds is on disk, so the results of these operations are
//! not functions of their arguments: the contracts state what holds of every
//! outcome, and which error each failing step yields.

use vstd::prelude::*;
use gix::refs::transaction;
use crate::protocol::v2::shallow::contains_string;
use crate::text::{
    append_chars, decode_strict, chars_eq, chars_of, copy_string, int_text, spec_int_text, string_chars, string_of, svs,
};

verus! {

#[verifier::external_type_specification]
#[verifier::external_body]
pub struct ExRepository(gix::Repository);

#[verifier::external_type_specification]
#[verifier::external_body]
pub struct ExGixError(gix::Error);

#[verifier::external_type_specification]
#[verifier::external_body]
pub struct ExId<'r>(gix::Id<'r>);

#[verifier::external_type_specification]
#[verifier::external_body]
pub struct ExObject<'r>(gix::Object<'r>);

#[verifier::external_type_specification]
#[verifier::external_body]
pub struct ExCommit<'r>(gix::Commit<'r>);

#[verifier::external_type_specification]
#[verifier::external_body]
pub struct ExOutcome(gix::commit::verify::Outcome);

#[verifier::external_type_specification]
#[verifier::external_body]
pub struct ExTree<'r>(gix::Tree<'r>);

#[verifier::external_type_specification]
#[verifier::external_body]
pub struct ExEntry<'r>(gix::object::tree::Entry<'r>);

#[verifier::external_type_specification]
#[verifier::external_body]
pub struct ExFullName(gix::refs::FullName);

#[verifier::external_type_specification]
#[verifier::external_body]
pub struct ExNameError(gix::validate::reference::name::Error);

#[verifier::external_type_specification]
#[verifier::external_body]
pub struct ExStream(gix::worktree::stream::Stream);

#[verifier::external_type_specification]
#[verifier::external_body]
pub struct ExObjectId(gix::ObjectId);

#[verifier::external_type_specification]
#[verifier::external_body]
pub struct ExMergeOptions(gix::merge::tree::Options);

#[verifier::external_type_specification]
#[verifier::external_body]
pub struct ExMergeOutcome<'r>(gix::merge::tree::Outcome<'r>);

#[verifier::external_type_specification]
#[verifier::external_body]
pub struct ExSignatureRef<'a>(gix::actor::SignatureRef<'a>);

/// Calls `gix::open` on the directory.
#[verifier::external_body]
pub(crate) fn open_repository(path: &str) -> (r: Result<gix::Repository, gix::Error>) {
    gix::open(path)
}

/// Calls `Repository::rev_parse_single`: the single object a revision
/// specification names, if it names one.
#[verifier::external_body]
pub(crate) fn rev_parse_single<'r>(repo: &'r gix::Repository, spec: &str) -> (r: Result<gix::Id<'r>, gix::Error>) {
    repo.rev_parse_single(spec)
}

/// Whether a text can write an object id: 40 (SHA-1) or 64 (SHA-256)
/// hexadecimal digits, of either case.
pub open spec fn is_hex_id(s: Seq<char>) -> bool {
    &&& (s.len() == 40 || s.len() == 64)
    &&& forall|i: int| 0 <= i < s.len() ==> ('0' <= #[trigger] s[i] <= '9' || 'a' <= s[i] <= 'f' || 'A' <= s[i] <= 'F')
}

/// Whether the characters are lowercase hexadecimal digits.
pub open spec fn is_lower_hex(s: Seq<char>) -> bool {
    forall|i: int| 0 <= i < s.len() ==> ('0' <= #[trigger] s[i] <= '9' || 'a' <= s[i] <= 'f')
}

/// Calls `Display` of `gix::Id`, which writes the hash in lowercase
/// hexadecimal, two digits per byte: 40 digits for SHA-1, 64 for SHA-256.
#[verifier::external_body]
pub(crate) fn id_hex(id: &gix::Id) -> (s: String)
    ensures
        is_lower_hex(s@),
        s@.len() > 0,
        s@.len() % 2 == 0,
        s@.len() == 40 || s@.len() == 64,
{
    id.to_string()
}

/// Calls `Id::object`: the object with this id, read from the database.
#[verifier::external_body]
fn id_object<'r>(id: &gix::Id<'r>) -> (r: Result<gix::Object<'r>, gix::Error>) {
    id.object()
}

/// Calls `Commit::verify_signature`: `None` for an unsigned commit, else the
/// verifier's verdict on the signature.
#[verifier::external_body]
fn verify_signature(commit: &gix::Commit) -> (r: Result<Option<gix::commit::verify::Outcome>, gix::Error>) {
    commit.verify_signature()
}

/// Calls `Outcome::is_valid`: whether git would accept the signature.
#[verifier::external_body]
fn outcome_is_valid(outcome: &gix::commit::verify::Outcome) -> (b: bool) {
    outcome.is_valid()
}

/// What a reference must point at for an edit of it to go through.
pub enum RefExpectation {
    /// Anything, or nothing.
    Any,
    /// This object.
    MustEqual(gix::ObjectId),
}

/// Calls `Repository::reference`: points the named reference at the id
/// under the expectation on its current value, with a reflog message.
#[verifier::external_body]
pub(crate) fn set_reference(repo: &gix::Repository, ref_name: &str, id: &gix::ObjectId, expected: RefExpectation, log_message: &str) -> (r: Result<(), gix::Error>) {
    let expected = match expected {
        RefExpectation::Any => transaction::PreviousValue::Any,
        RefExpectation::MustEqual(old) => transaction::PreviousValue::ExistingMustMatch(gix::refs::Target::Object(old)),
    };
    repo.reference(ref_name, *id, expected, log_message).map(|_| ())
}

/// Whether `gix` accepts a text as the full name of a reference (the rules
/// of `git check-ref-format`, as `gix_validate::reference::name` applies
/// them).
pub uninterp spec fn valid_ref_name(name: Seq<char>) -> bool;

/// Calls `FullName::try_from`: the validated full name of a reference. It
/// succeeds exactly on the names `valid_ref_name` holds of.
#[verifier::external_body]
fn full_ref_name(ref_name: &str) -> (r: Result<gix::refs::FullName, gix::validate::reference::name::Error>)
    ensures
        r is Ok <==> valid_ref_name(ref_name@),
{
    gix::refs::FullName::try_from(ref_name)
}

/// Calls `Repository::edit_reference` with an edit that deletes the
/// reference and its log, under the expectation on its current value.
#[verifier::external_body]
fn delete_reference(repo: &gix::Repository, name: gix::refs::FullName, expected: RefExpectation) -> (r: Result<(), gix::Error>) {
    let expected = match expected {
        RefExpectation::Any => transaction::PreviousValue::Any,
        RefExpectation::MustEqual(old) => transaction::PreviousValue::ExistingMustMatch(gix::refs::Target::Object(old)),
    };
    repo.edit_reference(gix::refs::transaction::RefEdit {
        change: gix::refs::transaction::Change::Delete {
            expected,
            log: gix::refs::transaction::RefLog::AndReference,
        },
        name,
        deref: false,
    })
    .map(|_| ())
}

/// Calls `Tree::lookup_entry_by_path`: the entry at a path, if any. Also
/// hands back, as a ghost value, the path it looked up.
#[verifier::external_body]
fn lookup_entry<'r>(tree: &gix::Tree<'r>, path: &str) -> (r: (
    Result<Option<gix::object::tree::Entry<'r>>, gix::Error>,
    Ghost<Seq<char>>,
))
    ensures
        r.1@ == path@,
{
    (tree.lookup_entry_by_path(path), Ghost(path@))
}

/// Calls `Entry::id`: the id of the entry's object.
#[verifier::external_body]
fn entry_id<'r>(entry: &gix::object::tree::Entry<'r>) -> (id: gix::Id<'r>) {
    entry.id()
}

/// The kind of a git object.
#[derive(Debug, Clone, Copy, PartialEq, Eq, Structural)]
pub enum ObjectKind {
    Blob,
    Tree,
    Commit,
    Tag,
}

/// Reads the `kind` of an object.
#[verifier::external_body]
fn object_kind(object: &gix::Object) -> (k: ObjectKind) {
    match object.kind {
        gix::object::Kind::Blob => ObjectKind::Blob,
        gix::object::Kind::Tree => ObjectKind::Tree,
        gix::object::Kind::Commit => ObjectKind::Commit,
        gix::object::Kind::Tag => ObjectKind::Tag,
    }
}

/// Calls `Object::try_into_tree`: the object as a tree, if it is one.
#[verifier::external_body]
fn object_into_tree<'r>(object: gix::Object<'r>) -> (r: Option<gix::Tree<'r>>) {
    object.try_into_tree().ok()
}

/// Follow an object through the tags that point at it to a commit: `None`
/// when it leads to no commit or an object on the way cannot be read.
fn peel_commit<'r>(object: gix::Object<'r>) -> (r: Option<gix::Commit<'r>>) {
    let mut object = object;
    let mut steps: u64 = 0;
    while steps < u64::MAX
        decreases u64::MAX - steps,
    {
        match object_kind(&object) {
            ObjectKind::Commit => return object_into_commit(object),
            ObjectKind::Tag => {
                let tag = match crate::refs::object_into_tag(object) {
                    Some(tag) => tag,
                    None => return None,
                };
                let target = match crate::refs::tag_target_id(&tag) {
                    Ok(target) => target,
                    Err(_) => return None,
                };
                object = match id_object(&target) {
                    Ok(next) => next,
                    Err(_) => return None,
                };
            },
            _ => return None,
        }
        steps = steps + 1;
    }
    None
}

/// Follow an object through tags and commits to a tree (a commit leads to
/// its tree): `None` when it leads to no tree or an object on the way cannot
/// be read.
fn peel_tree<'r>(object: gix::Object<'r>) -> (r: Option<gix::Tree<'r>>) {
    let mut object = object;
    let mut steps: u64 = 0;
    while steps < u64::MAX
        decreases u64::MAX - steps,
    {
        match object_kind(&object) {
            ObjectKind::Tree => return object_into_tree(object),
            ObjectKind::Commit => {
                let commit = match object_into_commit(object) {
                    Some(commit) => commit,
                    None => return None,
                };
                let tree = match commit_tree_id(&commit) {
                    Ok(tree) => tree,
                    Err(_) => return None,
                };
                object = match id_object(&tree) {
                    Ok(next) => next,
                    Err(_) => return None,
                };
            },
            ObjectKind::Tag => {
                let tag = match crate::refs::object_into_tag(object) {
                    Some(tag) => tag,
                    None => return None,
                };
                let target = match crate::refs::tag_target_id(&tag) {
                    Ok(target) => target,
                    Err(_) => return None,
                };
                object = match id_object(&target) {
                    Ok(next) => next,
                    Err(_) => return None,
                };
            },
            ObjectKind::Blob => return None,
        }
        steps = steps + 1;
    }
    None
}

/// Calls `Display` of the object's kind (`commit`, `tree`, `blob`, `tag`).
#[verifier::external_body]
fn object_kind_text(object: &gix::Object) -> (s: String) {
    object.kind.to_string()
}

/// Copies the `data` of an object.
#[verifier::external_body]
fn object_data(object: &gix::Object) -> (d: Vec<u8>) {
    object.data.to_vec()
}

/// Calls `Commit::tree_id`: the id of the commit's tree.
#[verifier::external_body]
pub(crate) fn commit_tree_id<'r>(commit: &gix::Commit<'r>) -> (r: Result<gix::Id<'r>, gix::Error>) {
    commit.tree_id()
}

/// Calls `Commit::time`: the commit time in seconds, `None` when it cannot
/// be read.
#[verifier::external_body]
fn commit_seconds(commit: &gix::Commit) -> (t: Option<i64>) {
    commit.time().ok().map(|time| time.seconds)
}

/// The time of a commit in seconds; 0 when it cannot be read.
fn commit_time_or_zero(commit: &gix::Commit) -> i64 {
    match commit_seconds(commit) {
        Some(t) => t,
        None => 0,
    }
}

/// Calls `Repository::worktree_stream`: the entries of a tree as an archive
/// stream (its index is not kept).
#[verifier::external_body]
fn worktree_stream(repo: &gix::Repository, tree: &gix::Id) -> (r: Result<gix::worktree::stream::Stream, gix::Error>) {
    repo.worktree_stream(tree.detach()).map(|(stream, _index)| stream)
}

/// Calls `Repository::worktree_archive`: writes the stream as an archive of
/// the format, every entry stamped with the time, into memory.
#[verifier::external_body]
fn write_archive(repo: &gix::Repository, stream: gix::worktree::stream::Stream, format: ArchiveFormat, modification_time: i64) -> (r: Result<Vec<u8>, gix::Error>) {
    let format = match format {
        ArchiveFormat::Tar => gix::worktree::archive::Format::Tar,
        ArchiveFormat::TarGz => gix::worktree::archive::Format::TarGz { compression_level: None },
        ArchiveFormat::Zip => gix::worktree::archive::Format::Zip { compression_level: None },
    };
    let options = gix::worktree::archive::Options { format, tree_prefix: None, modification_time };
    let mut out = std::io::Cursor::new(Vec::new());
    let stop = std::sync::atomic::AtomicBool::new(false);
    repo.worktree_archive(stream, &mut out, gix::progress::Discard, &stop, options).map(|()| out.into_inner())
}

/// Calls `Display` of a `gix` error: its message.
#[verifier::external_body]
pub(crate) fn gix_error_text(e: &gix::Error) -> (s: String) {
    e.to_string()
}

/// Calls `Display` of a reference name error: its message.
#[verifier::external_body]
fn name_error_text(e: &gix::validate::reference::name::Error) -> (s: String) {
    e.to_string()
}

/// Calls `Id::detach`: the bare object id.
#[verifier::external_body]
pub(crate) fn id_detach(id: &gix::Id) -> (oid: gix::ObjectId) {
    id.detach()
}

/// Calls `Display` of `ObjectId`, which writes the hash in lowercase
/// hexadecimal, two digits per byte: 40 digits for SHA-1, 64 for SHA-256.
#[verifier::external_body]
pub(crate) fn oid_hex(oid: &gix::ObjectId) -> (s: String)
    ensures
        is_lower_hex(s@),
        s@.len() > 0,
        s@.len() % 2 == 0,
        s@.len() == 40 || s@.len() == 64,
{
    oid.to_string()
}

/// Calls `Repository::merge_base`: the best common ancestor of the two
/// commits, `None` when they have none. Also hands back, as a ghost value,
/// the two commits it was asked about.
#[verifier::external_body]
fn merge_base_of<'r>(repo: &'r gix::Repository, one: &gix::ObjectId, two: &gix::ObjectId) -> (r: (
    Result<Option<gix::Id<'r>>, gix::Error>,
    Ghost<(gix::ObjectId, gix::ObjectId)>,
))
    ensures
        r.1@ == (*one, *two),
{
    (repo.merge_base(*one, *two), Ghost((*one, *two)))
}

/// Calls `Repository::rev_walk` from `tip`, hiding what `hidden` reaches
/// (`git rev-list hidden..tip`); each item of the walk is its commit id, or
/// `None` where reading the item failed. Also hands back, as a ghost value,
/// the tip and the hidden commit the walk was asked for.
#[verifier::external_body]
pub(crate) fn walk_excluding(repo: &gix::Repository, tip: &gix::ObjectId, hidden: &gix::ObjectId) -> (r: (
    Result<Vec<Option<gix::ObjectId>>, gix::Error>,
    Ghost<(gix::ObjectId, gix::ObjectId)>,
))
    ensures
        r.1@ == (*tip, *hidden),
{
    let walked = repo.rev_walk([*tip]).with_hidden([*hidden]).all().map(|walk| walk.map(|item| item.ok().map(|info| info.id)).collect());
    (walked, Ghost((*tip, *hidden)))
}

/// Calls `Repository::find_object`: the object with this id.
#[verifier::external_body]
pub(crate) fn find_object<'r>(repo: &'r gix::Repository, id: &gix::ObjectId) -> (r: Result<gix::Object<'r>, gix::Error>) {
    repo.find_object(*id)
}

/// Calls `Object::try_into_commit`: the object as a commit, if it is one.
#[verifier::external_body]
fn object_into_commit<'r>(object: gix::Object<'r>) -> (r: Option<gix::Commit<'r>>) {
    object.try_into_commit().ok()
}

/// The commit with this id, `None` when the object is no commit.
pub(crate) fn find_commit<'r>(repo: &'r gix::Repository, id: &gix::ObjectId) -> (r: Result<Option<gix::Commit<'r>>, gix::Error>) {
    match find_object(repo, id) {
        Ok(object) => Ok(object_into_commit(object)),
        Err(e) => Err(e),
    }
}

/// Calls `Commit::parent_ids`: the ids of the commit's parents, in order.
#[verifier::external_body]
fn commit_parent_ids(commit: &gix::Commit) -> (ids: Vec<gix::ObjectId>) {
    commit.parent_ids().map(|id| id.detach()).collect()
}

/// Calls `Repository::tree_merge_options`: the tree-merge settings of the
/// repository's configuration.
#[verifier::external_body]
fn tree_merge_options(repo: &gix::Repository) -> (r: Result<gix::merge::tree::Options, gix::Error>) {
    repo.tree_merge_options()
}

/// Calls `gix::date::Time::now_utc`: the current time in seconds.
#[verifier::external_body]
fn now_seconds() -> (t: i64) {
    gix::date::Time::now_utc().seconds
}

/// Calls `Repository::merge_trees`: the three-way merge of `ours` and
/// `theirs` against `ancestor`, the current side labelled `current_label`
/// and the other side `other_label`. Also hands back, as a ghost value, the
/// three trees it was asked to merge.
#[verifier::external_body]
fn merge_trees<'r>(
    repo: &'r gix::Repository,
    ancestor: &gix::ObjectId,
    ours: &gix::ObjectId,
    theirs: &gix::ObjectId,
    current_label: &str,
    other_label: &str,
    options: &gix::merge::tree::Options,
) -> (r: (Result<gix::merge::tree::Outcome<'r>, gix::Error>, Ghost<(gix::ObjectId, gix::ObjectId, gix::ObjectId)>))
    ensures
        r.1@ == (*ancestor, *ours, *theirs),
{
    let labels = gix::merge::blob::builtin_driver::text::Labels {
        current: Some(current_label.into()),
        other: Some(other_label.into()),
        ancestor: None,
    };
    (repo.merge_trees(ancestor, ours, theirs, labels, options.clone()), Ghost((*ancestor, *ours, *theirs)))
}

/// Reads the `conflicts` of a tree merge: whether there is any.
#[verifier::external_body]
fn merge_has_conflicts(outcome: &gix::merge::tree::Outcome) -> (b: bool) {
    !outcome.conflicts.is_empty()
}

/// Calls `Editor::write` on the merged tree: the id of the written tree.
#[verifier::external_body]
fn write_merged_tree(outcome: gix::merge::tree::Outcome) -> (r: Result<gix::ObjectId, gix::Error>) {
    let mut outcome = outcome;
    outcome.tree.write().map(|id| id.detach())
}

/// Calls `Commit::author`: the commit's author signature.
#[verifier::external_body]
pub(crate) fn commit_author<'c>(commit: &'c gix::Commit) -> (r: Result<gix::actor::SignatureRef<'c>, gix::Error>) {
    commit.author()
}

/// Calls `Commit::message_raw`: the bytes of the commit message.
#[verifier::external_body]
pub(crate) fn commit_message_bytes(commit: &gix::Commit) -> (r: Result<Vec<u8>, gix::Error>) {
    commit.message_raw().map(|message| message.to_vec())
}

/// What a commit is written with besides its tree and parent: its
/// committer (name, email, raw time), its author (name and email as bytes,
/// raw time) and its message.
pub struct CommitFields {
    pub committer_name: String,
    pub committer_email: String,
    pub committer_time: String,
    pub author_name: Vec<u8>,
    pub author_email: Vec<u8>,
    pub author_time: String,
    pub message: String,
}

/// Calls `Repository::new_commit_as`: writes a commit of `tree` with the
/// single parent `parent` and the committer, author and message of
/// `fields`; the id of the new commit. Also hands back, as a ghost value,
/// what it was asked to write.
#[verifier::external_body]
fn new_commit_as(repo: &gix::Repository, fields: &CommitFields, tree: &gix::ObjectId, parent: &gix::ObjectId) -> (r: (
    Result<gix::ObjectId, gix::Error>,
    Ghost<(CommitFields, gix::ObjectId, gix::ObjectId)>,
))
    ensures
        r.1@ == (*fields, *tree, *parent),
{
    let f = fields;
    let committer = gix::actor::SignatureRef { name: f.committer_name.as_str().into(), email: f.committer_email.as_str().into(), time: f.committer_time.as_str() };
    let author = gix::actor::SignatureRef { name: f.author_name.as_slice().into(), email: f.author_email.as_slice().into(), time: f.author_time.as_str() };
    let written = repo.new_commit_as(committer, author, f.message.as_str(), *tree, [*parent]).map(|commit| commit.id);
    (written, Ghost((*fields, *tree, *parent)))
}

/// Reads the name, email and raw time of a signature.
#[verifier::external_body]
pub(crate) fn signature_parts(signature: &gix::actor::SignatureRef) -> (parts: (Vec<u8>, Vec<u8>, String)) {
    (signature.name.to_vec(), signature.email.to_vec(), signature.time.to_string())
}

/// Calls `Repository::edit_reference` with an edit that points the
/// reference at `new` under the expectation on its current value, with a
/// reflog entry of the message; the edit is refused when the expectation
/// fails.
#[verifier::external_body]
fn move_reference(repo: &gix::Repository, name: gix::refs::FullName, expected: RefExpectation, new: &gix::ObjectId, log_message: &str) -> (r: Result<(), gix::Error>) {
    let expected = match expected {
        RefExpectation::Any => transaction::PreviousValue::Any,
        RefExpectation::MustEqual(old) => transaction::PreviousValue::ExistingMustMatch(gix::refs::Target::Object(old)),
    };
    let log = transaction::LogChange { mode: transaction::RefLog::AndReference, force_create_reflog: false, message: log_message.into() };
    let change = transaction::Change::Update {
        log,
        expected,
        new: gix::refs::Target::Object(*new),
    };
    repo.edit_reference(transaction::RefEdit { change, name, deref: false }).map(|_| ())
}

/// Why a repository operation failed.
#[derive(Debug, Clone, PartialEq, Eq)]
pub enum OpsError {
    /// The repository could not be opened.
    OpenFailed { path: String },
    /// The revision does not name a single object.
    UnresolvedRevision { spec: String },
    /// The commit to verify does not resolve.
    UnresolvedCommit { sha: String },
    /// The object of the commit to verify cannot be read.
    UnreadableObject { sha: String },
    /// The object named is not a commit.
    NotACommit { sha: String },
    /// The signature could not be checked.
    SignatureCheckFailed { sha: String },
    /// The new value of a reference does not resolve.
    UnresolvedNewValue { new_sha: String, ref_name: String },
    /// Writing the reference failed.
    RefUpdateFailed { ref_name: String, new_sha: String },
    /// The reference name is not valid.
    InvalidRefName { ref_name: String },
    /// Deleting the reference failed.
    RefDeleteFailed { ref_name: String },
    /// The object a revision names cannot be read.
    ObjectUnreadable { rev: String },
    /// The revision names nothing that has a tree.
    NotATree { rev: String },
    /// Looking up a path in the tree failed.
    LookupFailed { path: String, rev: String },
    /// The object at a path cannot be read.
    BlobUnreadable { path: String },
    /// The object at a path is not a file; carries its kind.
    NotABlob { path: String, rev: String, kind: String },
    /// The tree of a commit cannot be resolved.
    TreeUnresolved { rev: String },
    /// The tree cannot be streamed into an archive.
    StreamFailed,
    /// The archive cannot be written.
    ArchiveFailed,
}

/// The message of an error.
pub open spec fn spec_ops_message(e: OpsError) -> Seq<char> {
    match e {
        OpsError::OpenFailed { path } => "failed to open repository: "@ + path@,
        OpsError::UnresolvedRevision { spec } => "failed to resolve revision '"@ + spec@ + "'"@,
        OpsError::UnresolvedCommit { sha } => "failed to resolve commit '"@ + sha@ + "'"@,
        OpsError::UnreadableObject { sha } => "failed to read object for commit '"@ + sha@ + "'"@,
        OpsError::NotACommit { sha } => "'"@ + sha@ + "' is not a commit"@,
        OpsError::SignatureCheckFailed { sha } => "signature verification failed for commit "@ + sha@,
        OpsError::UnresolvedNewValue { new_sha, ref_name } => "failed to resolve new value '"@ + new_sha@
            + "' for '"@ + ref_name@ + "'"@,
        OpsError::RefUpdateFailed { ref_name, new_sha } => "failed to update ref '"@ + ref_name@ + "' to "@
            + new_sha@,
        OpsError::InvalidRefName { ref_name } => "invalid ref name '"@ + ref_name@ + "'"@,
        OpsError::RefDeleteFailed { ref_name } => "failed to delete ref '"@ + ref_name@ + "'"@,
        OpsError::ObjectUnreadable { rev } => "failed to read object for '"@ + rev@ + "'"@,
        OpsError::NotATree { rev } => "failed to peel '"@ + rev@ + "' to a tree"@,
        OpsError::LookupFailed { path, rev } => "failed to look up '"@ + path@ + "' in tree of '"@ + rev@ + "'"@,
        OpsError::BlobUnreadable { path } => "failed to read blob for '"@ + path@ + "'"@,
        OpsError::NotABlob { path, rev, kind } => "'"@ + path@ + "' in '"@ + rev@ + "' is not a blob but "@ + kind@,
        OpsError::TreeUnresolved { rev } => "failed to resolve tree of '"@ + rev@ + "'"@,
        OpsError::StreamFailed => "failed to stream tree for archive"@,
        OpsError::ArchiveFailed => "failed to write archive"@,
    }
}

fn message5(a: &str, b: &String, c: &str, d: &String, e: &str) -> (m: String)
    ensures
        m@ == a@ + b@ + c@ + d@ + e@,
{
    let mut v = chars_of(a);
    append_chars(&mut v, string_chars(b).as_slice());
    append_chars(&mut v, chars_of(c).as_slice());
    append_chars(&mut v, string_chars(d).as_slice());
    append_chars(&mut v, chars_of(e).as_slice());
    string_of(v.as_slice())
}

fn message3(a: &str, b: &String, c: &str) -> (m: String)
    ensures
        m@ == a@ + b@ + c@,
{
    let mut v = chars_of(a);
    append_chars(&mut v, string_chars(b).as_slice());
    append_chars(&mut v, chars_of(c).as_slice());
    string_of(v.as_slice())
}

impl OpsError {
    /// The message of the error.
    pub fn describe(&self) -> (m: String)
        ensures
            m@ == spec_ops_message(*self),
    {
        proof {
            reveal_strlit("");
        }
        match self {
            OpsError::OpenFailed { path } => message3("failed to open repository: ", path, ""),
            OpsError::UnresolvedRevision { spec } => message3("failed to resolve revision '", spec, "'"),
            OpsError::UnresolvedCommit { sha } => message3("failed to resolve commit '", sha, "'"),
            OpsError::UnreadableObject { sha } => message3("failed to read object for commit '", sha, "'"),
            OpsError::NotACommit { sha } => message3("'", sha, "' is not a commit"),
            OpsError::SignatureCheckFailed { sha } => message3("signature verification failed for commit ", sha, ""),
            OpsError::UnresolvedNewValue { new_sha, ref_name } => message5(
                "failed to resolve new value '",
                new_sha,
                "' for '",
                ref_name,
                "'",
            ),
            OpsError::RefUpdateFailed { ref_name, new_sha } => message5("failed to update ref '", ref_name, "' to ", new_sha, ""),
            OpsError::InvalidRefName { ref_name } => message3("invalid ref name '", ref_name, "'"),
            OpsError::RefDeleteFailed { ref_name } => message3("failed to delete ref '", ref_name, "'"),
            OpsError::ObjectUnreadable { rev } => message3("failed to read object for '", rev, "'"),
            OpsError::NotATree { rev } => message3("failed to peel '", rev, "' to a tree"),
            OpsError::LookupFailed { path, rev } => message5("failed to look up '", path, "' in tree of '", rev, "'"),
            OpsError::BlobUnreadable { path } => message3("failed to read blob for '", path, "'"),
            OpsError::NotABlob { path, rev, kind } => {
                let mut v = string_chars(&message5("'", path, "' in '", rev, "' is not a blob but "));
                append_chars(&mut v, string_chars(kind).as_slice());
                string_of(v.as_slice())
            },
            OpsError::TreeUnresolved { rev } => message3("failed to resolve tree of '", rev, "'"),
            OpsError::StreamFailed => String::from_str("failed to stream tree for archive"),
            OpsError::ArchiveFailed => String::from_str("failed to write archive"),
        }
    }
}

/// How `rev_parse` answers, given what it saw of the repository (`None` when
/// it could not be opened, else `Some` of the id the specification resolves
/// to, or `None` when it resolves to no single object).
pub open spec fn rev_parse_fits(repo_path: Seq<char>, spec: Seq<char>, seen: Option<Option<Seq<char>>>, r: Result<String, OpsError>) -> bool {
    match seen {
        None => r matches Err(OpsError::OpenFailed { path }) && path@ == repo_path,
        Some(None) => r matches Err(OpsError::UnresolvedRevision { spec: s }) && s@ == spec,
        Some(Some(id)) => r matches Ok(i) && i@ == id && is_lower_hex(id) && is_hex_id(id),
    }
}

/// How `try_rev_parse` answers, given what it saw of the repository (as in
/// `rev_parse_fits`).
pub open spec fn try_rev_parse_fits(repo_path: Seq<char>, seen: Option<Option<Seq<char>>>, r: Result<Option<String>, OpsError>) -> bool {
    match seen {
        None => r matches Err(OpsError::OpenFailed { path }) && path@ == repo_path,
        Some(None) => r matches Ok(None),
        Some(Some(id)) => r matches Ok(Some(i)) && i@ == id && is_lower_hex(id) && is_hex_id(id),
    }
}

/// Resolve a revision specification (`refs/heads/main`, `HEAD`, a hex id,
/// `<ref>^{commit}`, ...) to the hexadecimal id of the object it names.
pub fn rev_parse(repo_path: &str, spec: &str) -> (r: Result<String, OpsError>)
    ensures
        r matches Ok(id) ==> is_lower_hex(id@) && id@.len() > 0 && is_hex_id(id@),
        r matches Err(e) ==> (e matches OpsError::OpenFailed { path } && path@ == repo_path@)
            || (e matches OpsError::UnresolvedRevision { spec: s } && s@ == spec@),
        exists|seen: Option<Option<Seq<char>>>| rev_parse_fits(repo_path@, spec@, seen, r),
{
    let mut seen: Ghost<Option<Option<Seq<char>>>> = Ghost(None);
    let r = rev_parse_reported(repo_path, spec, &mut seen);
    assert(rev_parse_fits(repo_path@, spec@, seen@, r));
    r
}

/// `rev_parse`, with what it saw of the repository on the side.
pub fn rev_parse_reported(repo_path: &str, spec: &str, seen: &mut Ghost<Option<Option<Seq<char>>>>) -> (r: Result<
    String,
    OpsError,
>)
    ensures
        rev_parse_fits(repo_path@, spec@, final(seen)@, r),
{
    *seen = Ghost(None);
    let repo = match open_repository(repo_path) {
        Ok(repo) => repo,
        Err(_) => return Err(OpsError::OpenFailed { path: String::from_str(repo_path) }),
    };
    match rev_parse_single(&repo, spec) {
        Ok(id) => {
            let hex = id_hex(&id);
            *seen = Ghost(Some(Some(hex@)));
            Ok(hex)
        },
        Err(_) => {
            *seen = Ghost(Some(None));
            Err(OpsError::UnresolvedRevision { spec: String::from_str(spec) })
        },
    }
}

/// Resolve a revision specification in the optional style: `Ok(None)` when
/// it names no single object.
pub fn try_rev_parse(repo_path: &str, spec: &str) -> (r: Result<Option<String>, OpsError>)
    ensures
        r matches Ok(Some(id)) ==> is_lower_hex(id@) && id@.len() > 0 && is_hex_id(id@),
        r matches Err(e) ==> e matches OpsError::OpenFailed { path } && path@ == repo_path@,
        exists|seen: Option<Option<Seq<char>>>| try_rev_parse_fits(repo_path@, seen, r),
{
    let mut seen: Ghost<Option<Option<Seq<char>>>> = Ghost(None);
    let r = try_rev_parse_reported(repo_path, spec, &mut seen);
    assert(try_rev_parse_fits(repo_path@, seen@, r));
    r
}

/// `try_rev_parse`, with what it saw of the repository on the side.
pub fn try_rev_parse_reported(repo_path: &str, spec: &str, seen: &mut Ghost<Option<Option<Seq<char>>>>) -> (r: Result<
    Option<String>,
    OpsError,
>)
    ensures
        try_rev_parse_fits(repo_path@, final(seen)@, r),
{
    *seen = Ghost(None);
    let repo = match open_repository(repo_path) {
        Ok(repo) => repo,
        Err(_) => return Err(OpsError::OpenFailed { path: String::from_str(repo_path) }),
    };
    match rev_parse_single(&repo, spec) {
        Ok(id) => {
            let hex = id_hex(&id);
            *seen = Ghost(Some(Some(hex@)));
            Ok(Some(hex))
        },
        Err(_) => {
            *seen = Ghost(Some(None));
            Ok(None)
        },
    }
}

/// On a repository that both see alike, `try_rev_parse` answers what
/// `rev_parse` answers, in the optional style: the same id when the
/// specification resolves, `None` where `rev_parse` fails to resolve it, and
/// an error only where the repository cannot be opened.
pub proof fn lemma_try_rev_parse_is_optional_rev_parse(
    repo_path: Seq<char>,
    spec: Seq<char>,
    seen: Option<Option<Seq<char>>>,
    strict: Result<String, OpsError>,
    optional: Result<Option<String>, OpsError>,
)
    requires
        rev_parse_fits(repo_path, spec, seen, strict),
        try_rev_parse_fits(repo_path, seen, optional),
    ensures
        strict matches Ok(a) ==> (optional matches Ok(Some(b)) && a@ == b@),
        strict matches Err(OpsError::UnresolvedRevision { .. }) ==> optional matches Ok(None),
        strict matches Err(OpsError::OpenFailed { .. }) <==> optional is Err,
{
}

/// The verdict on a commit's signature check: valid only for a signed commit
/// whose signature git would accept.
pub fn signature_verdict(checked: Option<bool>) -> (valid: bool)
    ensures
        valid == (checked == Some(true)),
{
    match checked {
        Some(v) => v,
        None => false,
    }
}

/// Whether the commit carries a cryptographically valid signature, as
/// `git verify-commit` decides it (the configured signature program runs).
pub fn verify_commit(repo_path: &str, sha: &str) -> (r: Result<bool, OpsError>)
    ensures
        r matches Err(e) ==> (e matches OpsError::OpenFailed { path } && path@ == repo_path@)
            || (e matches OpsError::UnresolvedCommit { sha: s } && s@ == sha@)
            || (e matches OpsError::UnreadableObject { sha: s } && s@ == sha@)
            || (e matches OpsError::NotACommit { sha: s } && s@ == sha@)
            || (e matches OpsError::SignatureCheckFailed { sha: s } && s@ == sha@),
{
    let repo = match open_repository(repo_path) {
        Ok(repo) => repo,
        Err(_) => return Err(OpsError::OpenFailed { path: String::from_str(repo_path) }),
    };
    verify_commit_with_repo(&repo, sha)
}

/// `verify_commit` on a repository already open.
pub fn verify_commit_with_repo(repo: &gix::Repository, sha: &str) -> (r: Result<bool, OpsError>)
    ensures
        r matches Err(e) ==> (e matches OpsError::UnresolvedCommit { sha: s } && s@ == sha@)
            || (e matches OpsError::UnreadableObject { sha: s } && s@ == sha@)
            || (e matches OpsError::NotACommit { sha: s } && s@ == sha@)
            || (e matches OpsError::SignatureCheckFailed { sha: s } && s@ == sha@),
{
    let mut report: Ghost<Option<Option<bool>>> = Ghost(None);
    verify_commit_reported(repo, sha, &mut report)
}

/// `verify_commit_with_repo`, with what the signature check of `gix`
/// answered on the side: `Some(None)` for an unsigned commit, `Some(Some(v))`
/// for a signed one whose signature git would accept exactly when `v`;
/// `None` when no check ran. A verdict is given only on an answer, and is
/// `signature_verdict` of it.
pub fn verify_commit_reported(repo: &gix::Repository, sha: &str, report: &mut Ghost<Option<Option<bool>>>) -> (r: Result<
    bool,
    OpsError,
>)
    ensures
        r matches Ok(b) ==> final(report)@ matches Some(checked) && b == (checked == Some(true)),
        r matches Err(e) ==> (e matches OpsError::UnresolvedCommit { sha: s } && s@ == sha@)
            || (e matches OpsError::UnreadableObject { sha: s } && s@ == sha@)
            || (e matches OpsError::NotACommit { sha: s } && s@ == sha@)
            || (e matches OpsError::SignatureCheckFailed { sha: s } && s@ == sha@),
{
    *report = Ghost(None);
    let id = match rev_parse_single(repo, sha) {
        Ok(id) => id,
        Err(_) => return Err(OpsError::UnresolvedCommit { sha: String::from_str(sha) }),
    };
    let object = match id_object(&id) {
        Ok(object) => object,
        Err(_) => return Err(OpsError::UnreadableObject { sha: String::from_str(sha) }),
    };
    let commit = match peel_commit(object) {
        Some(commit) => commit,
        None => return Err(OpsError::NotACommit { sha: String::from_str(sha) }),
    };
    let checked = match verify_signature(&commit) {
        Ok(Some(outcome)) => Some(outcome_is_valid(&outcome)),
        Ok(None) => None,
        Err(_) => return Err(OpsError::SignatureCheckFailed { sha: String::from_str(sha) }),
    };
    *report = Ghost(Some(checked));
    Ok(signature_verdict(checked))
}

/// Create or move a reference to the object a revision names, whatever it
/// pointed at before, writing the message into its log.
pub fn update_ref(repo_path: &str, ref_name: &str, new_sha: &str, log_message: &str) -> (r: Result<(), OpsError>)
    ensures
        r matches Err(e) ==> (e matches OpsError::OpenFailed { path } && path@ == repo_path@)
            || (e matches OpsError::UnresolvedNewValue { new_sha: v, ref_name: n } && v@ == new_sha@ && n@ == ref_name@)
            || (e matches OpsError::RefUpdateFailed { ref_name: n, new_sha: v } && v@ == new_sha@ && n@ == ref_name@),
{
    let repo = match open_repository(repo_path) {
        Ok(repo) => repo,
        Err(_) => return Err(OpsError::OpenFailed { path: String::from_str(repo_path) }),
    };
    let id = match rev_parse_single(&repo, new_sha) {
        Ok(id) => id,
        Err(_) => {
            return Err(
                OpsError::UnresolvedNewValue { new_sha: String::from_str(new_sha), ref_name: String::from_str(ref_name) },
            )
        },
    };
    match set_reference(&repo, ref_name, &id_detach(&id), RefExpectation::Any, log_message) {
        Ok(()) => Ok(()),
        Err(_) => Err(OpsError::RefUpdateFailed { ref_name: String::from_str(ref_name), new_sha: String::from_str(new_sha) }),
    }
}

/// Delete a reference.
pub fn delete_ref(repo_path: &str, ref_name: &str) -> (r: Result<(), OpsError>)
    ensures
        r is Ok ==> valid_ref_name(ref_name@),
        r matches Err(e) ==> (e matches OpsError::OpenFailed { path } && path@ == repo_path@)
            || (e matches OpsError::InvalidRefName { ref_name: n } && n@ == ref_name@ && !valid_ref_name(ref_name@))
            || (e matches OpsError::RefDeleteFailed { ref_name: n } && n@ == ref_name@),
{
    let repo = match open_repository(repo_path) {
        Ok(repo) => repo,
        Err(_) => return Err(OpsError::OpenFailed { path: String::from_str(repo_path) }),
    };
    let name = match full_ref_name(ref_name) {
        Ok(name) => name,
        Err(_) => return Err(OpsError::InvalidRefName { ref_name: String::from_str(ref_name) }),
    };
    match delete_reference(&repo, name, RefExpectation::Any) {
        Ok(()) => Ok(()),
        Err(_) => Err(OpsError::RefDeleteFailed { ref_name: String::from_str(ref_name) }),
    }
}

/// What was found at a path of a tree, viewed: the entry's object id, kind,
/// kind name and data; `None` when the tree has no entry there.
pub open spec fn found_view(found: Option<(String, ObjectKind, String, Vec<u8>)>) -> Option<(Seq<char>, ObjectKind, Seq<char>, Seq<u8>)> {
    match found {
        Some((id, kind, text, data)) => Some((id@, kind, text@, data@)),
        None => None,
    }
}

/// How a lookup of `path` in the tree of `rev` is answered: nothing there
/// gives `Ok(None)`, a blob gives its id and data, any other object is
/// `NotABlob` naming its kind.
pub open spec fn blob_outcome_holds(
    path: Seq<char>,
    rev: Seq<char>,
    found: Option<(Seq<char>, ObjectKind, Seq<char>, Seq<u8>)>,
    r: Result<Option<(String, Vec<u8>)>, OpsError>,
) -> bool {
    match found {
        None => r matches Ok(None),
        Some((id, kind, text, data)) => if kind == ObjectKind::Blob {
            r matches Ok(Some((i, d))) && i@ == id && d@ == data
        } else {
            r matches Err(OpsError::NotABlob { path: p, rev: v, kind: k }) && p@ == path && v@ == rev && k@ == text
        },
    }
}

/// The answer of `blob_at` once the entry at `path` has been looked up.
pub fn blob_outcome(path: &str, commitish: &str, found: Option<(String, ObjectKind, String, Vec<u8>)>) -> (r: Result<
    Option<(String, Vec<u8>)>,
    OpsError,
>)
    ensures
        blob_outcome_holds(path@, commitish@, found_view(found), r),
{
    match found {
        None => Ok(None),
        Some((id, kind, text, data)) => {
            if kind == ObjectKind::Blob {
                Ok(Some((id, data)))
            } else {
                Err(OpsError::NotABlob { path: String::from_str(path), rev: String::from_str(commitish), kind: text })
            }
        },
    }
}

/// The blob at `path` in the tree of `commitish`: its id and contents, or
/// `None` when the tree has nothing at that path.
pub fn blob_at(repo_path: &str, commitish: &str, path: &str) -> (r: Result<Option<(String, Vec<u8>)>, OpsError>)
    ensures
        r matches Ok(Some((id, _))) ==> is_lower_hex(id@) && id@.len() > 0,
        (r is Ok || r matches Err(OpsError::NotABlob { .. })) ==> exists|found: Option<(Seq<char>, ObjectKind, Seq<char>, Seq<u8>)>|
            blob_outcome_holds(path@, commitish@, found, r),
        r matches Err(e) ==> (e matches OpsError::OpenFailed { path: p } && p@ == repo_path@)
            || (e matches OpsError::UnresolvedRevision { spec } && spec@ == commitish@)
            || (e matches OpsError::ObjectUnreadable { rev } && rev@ == commitish@)
            || (e matches OpsError::NotATree { rev } && rev@ == commitish@)
            || (e matches OpsError::LookupFailed { path: p, rev } && p@ == path@ && rev@ == commitish@)
            || (e matches OpsError::BlobUnreadable { path: p } && p@ == path@)
            || (e matches OpsError::NotABlob { path: p, rev, .. } && p@ == path@ && rev@ == commitish@),
{
    let mut seen: Ghost<Option<(Seq<char>, Option<(Seq<char>, ObjectKind, Seq<char>, Seq<u8>)>)>> = Ghost(None);
    let r = blob_at_reported(repo_path, commitish, path, &mut seen);
    proof {
        if r is Ok || r matches Err(OpsError::NotABlob { .. }) {
            let pair = seen@->0;
            let f = pair.1;
            assert(blob_outcome_holds(path@, commitish@, f, r));
        }
    }
    r
}

/// `blob_at`, with what the lookup in the tree answered on the side: the
/// path looked up and what was found there (as `found_view` gives it). A
/// result other than a failure to read is `blob_outcome` of that lookup,
/// made at `path` itself.
pub fn blob_at_reported(
    repo_path: &str,
    commitish: &str,
    path: &str,
    seen: &mut Ghost<Option<(Seq<char>, Option<(Seq<char>, ObjectKind, Seq<char>, Seq<u8>)>)>>,
) -> (r: Result<Option<(String, Vec<u8>)>, OpsError>)
    ensures
        r matches Ok(Some((id, _))) ==> is_lower_hex(id@) && id@.len() > 0,
        (r is Ok || r matches Err(OpsError::NotABlob { .. })) ==> (final(seen)@ matches Some((looked, found))
            && looked == path@ && blob_outcome_holds(path@, commitish@, found, r)),
        r matches Err(e) ==> (e matches OpsError::OpenFailed { path: p } && p@ == repo_path@)
            || (e matches OpsError::UnresolvedRevision { spec } && spec@ == commitish@)
            || (e matches OpsError::ObjectUnreadable { rev } && rev@ == commitish@)
            || (e matches OpsError::NotATree { rev } && rev@ == commitish@)
            || (e matches OpsError::LookupFailed { path: p, rev } && p@ == path@ && rev@ == commitish@)
            || (e matches OpsError::BlobUnreadable { path: p } && p@ == path@)
            || (e matches OpsError::NotABlob { path: p, rev, .. } && p@ == path@ && rev@ == commitish@),
{
    *seen = Ghost(None);
    let repo = match open_repository(repo_path) {
        Ok(repo) => repo,
        Err(_) => return Err(OpsError::OpenFailed { path: String::from_str(repo_path) }),
    };
    let id = match rev_parse_single(&repo, commitish) {
        Ok(id) => id,
        Err(_) => return Err(OpsError::UnresolvedRevision { spec: String::from_str(commitish) }),
    };
    let object = match id_object(&id) {
        Ok(object) => object,
        Err(_) => return Err(OpsError::ObjectUnreadable { rev: String::from_str(commitish) }),
    };
    let tree = match peel_tree(object) {
        Some(tree) => tree,
        None => return Err(OpsError::NotATree { rev: String::from_str(commitish) }),
    };
    let (lookup, looked) = lookup_entry(&tree, path);
    let found = match lookup {
        Ok(Some(entry)) => {
            let blob_id = entry_id(&entry);
            let blob = match id_object(&blob_id) {
                Ok(blob) => blob,
                Err(_) => return Err(OpsError::BlobUnreadable { path: String::from_str(path) }),
            };
            Some((id_hex(&blob_id), object_kind(&blob), object_kind_text(&blob), object_data(&blob)))
        },
        Ok(None) => None,
        Err(_) => {
            return Err(OpsError::LookupFailed { path: String::from_str(path), rev: String::from_str(commitish) })
        },
    };
    let ghost fv = found_view(found);
    *seen = Ghost(Some((looked@, fv)));
    let r = blob_outcome(path, commitish, found);
    assert(blob_outcome_holds(path@, commitish@, fv, r));
    r
}

/// The archive of the tree of `commitish`, its entries stamped with the
/// commit's time.
pub fn archive(repo_path: &str, commitish: &str, format: ArchiveFormat) -> (r: Result<Vec<u8>, OpsError>)
    ensures
        r matches Err(e) ==> (e matches OpsError::OpenFailed { path } && path@ == repo_path@)
            || (e matches OpsError::UnresolvedRevision { spec } && spec@ == commitish@)
            || (e matches OpsError::ObjectUnreadable { rev } && rev@ == commitish@)
            || (e matches OpsError::NotACommit { sha } && sha@ == commitish@)
            || (e matches OpsError::TreeUnresolved { rev } && rev@ == commitish@)
            || e is StreamFailed || e is ArchiveFailed,
{
    let repo = match open_repository(repo_path) {
        Ok(repo) => repo,
        Err(_) => return Err(OpsError::OpenFailed { path: String::from_str(repo_path) }),
    };
    let id = match rev_parse_single(&repo, commitish) {
        Ok(id) => id,
        Err(_) => return Err(OpsError::UnresolvedRevision { spec: String::from_str(commitish) }),
    };
    let object = match id_object(&id) {
        Ok(object) => object,
        Err(_) => return Err(OpsError::ObjectUnreadable { rev: String::from_str(commitish) }),
    };
    let commit = match peel_commit(object) {
        Some(commit) => commit,
        None => return Err(OpsError::NotACommit { sha: String::from_str(commitish) }),
    };
    let tree = match commit_tree_id(&commit) {
        Ok(tree) => tree,
        Err(_) => return Err(OpsError::TreeUnresolved { rev: String::from_str(commitish) }),
    };
    let stream = match worktree_stream(&repo, &tree) {
        Ok(stream) => stream,
        Err(_) => return Err(OpsError::StreamFailed),
    };
    match write_archive(&repo, stream, format, commit_time_or_zero(&commit)) {
        Ok(bytes) => Ok(bytes),
        Err(_) => Err(OpsError::ArchiveFailed),
    }
}

// ── Rebase ───────────────────────────────────────────────────────────────

/// Outcome of a rebase-and-merge of a head onto a base branch.
#[derive(Debug)]
pub enum RebaseOutcome {
    /// The base ref was moved to the rebased head; carries the new base id.
    Rebased(String),
    /// A head commit conflicts while being replayed; carries a description.
    /// The base ref is left untouched.
    Conflict(String),
    /// The base ref advanced while commits were being replayed; the update
    /// was rejected.
    BaseAdvanced,
}

/// The description of a conflicting replay.
pub open spec fn spec_conflict_message(commit: Seq<char>, base_branch: Seq<char>) -> Seq<char> {
    "commit "@ + commit + " conflicts while rebasing onto "@ + base_branch
}

/// The outcome of a replay that conflicts.
pub fn conflict_outcome(commit: &String, base_branch: &str) -> (o: RebaseOutcome)
    ensures
        o matches RebaseOutcome::Conflict(m) && m@ == spec_conflict_message(commit@, base_branch@),
{
    let mut v = chars_of("commit ");
    append_chars(&mut v, string_chars(commit).as_slice());
    append_chars(&mut v, chars_of(" conflicts while rebasing onto ").as_slice());
    append_chars(&mut v, chars_of(base_branch).as_slice());
    RebaseOutcome::Conflict(string_of(v.as_slice()))
}

/// A commit to replay: its id, its commit time, whether it is a merge, and
/// those of its parents that are to be replayed too.
pub struct ReplayNode {
    pub id: String,
    pub time: i64,
    pub is_merge: bool,
    pub parents_in_set: Vec<String>,
}

/// The abstract value of a replay node.
pub struct ReplayNodeView {
    pub id: Seq<char>,
    pub time: i64,
    pub is_merge: bool,
    pub parents: Seq<Seq<char>>,
}

impl View for ReplayNode {
    type V = ReplayNodeView;

    open spec fn view(&self) -> ReplayNodeView {
        ReplayNodeView {
            id: self.id@,
            time: self.time,
            is_merge: self.is_merge,
            parents: svs(self.parents_in_set@),
        }
    }
}

/// The views of replay nodes.
pub open spec fn nodes_view(ns: Seq<ReplayNode>) -> Seq<ReplayNodeView> {
    ns.map_values(|n: ReplayNode| n@)
}

/// A node is ready once all its parents to replay are done.
pub open spec fn node_ready(n: ReplayNodeView, done: Set<Seq<char>>) -> bool {
    forall|i: int| 0 <= i < n.parents.len() ==> done.contains(#[trigger] n.parents[i])
}

/// `k` is the pick among the ready nodes: the oldest one, the first of them
/// on a tie.
pub open spec fn is_pick(ns: Seq<ReplayNodeView>, done: Set<Seq<char>>, k: int) -> bool {
    &&& 0 <= k < ns.len()
    &&& node_ready(ns[k], done)
    &&& forall|j: int| 0 <= j < ns.len() && node_ready(#[trigger] ns[j], done) ==> ns[k].time <= ns[j].time
    &&& forall|j: int| 0 <= j < k && node_ready(#[trigger] ns[j], done) ==> ns[k].time < ns[j].time
}

/// The node picked next, if any node is ready.
pub open spec fn spec_pick(ns: Seq<ReplayNodeView>, done: Set<Seq<char>>) -> Option<int> {
    if exists|k: int| is_pick(ns, done, k) {
        Some(choose|k: int| is_pick(ns, done, k))
    } else {
        None
    }
}

/// `prefix` before the sequence, if there is one.
pub open spec fn prepend(prefix: Seq<Seq<char>>, r: Option<Seq<Seq<char>>>) -> Option<Seq<Seq<char>>> {
    match r {
        Some(s) => Some(prefix + s),
        None => None,
    }
}

/// The replay order of Kahn's algorithm: repeatedly take the pick among the
/// ready nodes (the picked node's place is taken by the last node), mark it
/// done, and append it unless it is a merge (merges are dropped). `None` when
/// nodes remain and none is ready (a cycle).
pub open spec fn replay_chain(ns: Seq<ReplayNodeView>, done: Set<Seq<char>>) -> Option<Seq<Seq<char>>>
    decreases ns.len(),
{
    if ns.len() == 0 {
        Some(Seq::empty())
    } else {
        match spec_pick(ns, done) {
            Some(k) => if 0 <= k < ns.len() {
                let n = ns[k];
                let rest = replay_chain(ns.update(k, ns.last()).drop_last(), done.insert(n.id));
                prepend(
                    if n.is_merge {
                        Seq::empty()
                    } else {
                        seq![n.id]
                    },
                    rest,
                )
            } else {
                None
            },
            None => None,
        }
    }
}

/// Why the commits to replay could not be ordered.
#[derive(Debug)]
pub enum ReplayError {
    /// Nodes remain and none of them is ready.
    Cycle,
}

proof fn lemma_pick_unique(ns: Seq<ReplayNodeView>, done: Set<Seq<char>>, a: int, b: int)
    requires
        is_pick(ns, done, a),
        is_pick(ns, done, b),
    ensures
        a == b,
{
    if a < b {
        assert(node_ready(ns[a], done));
    } else if b < a {
        assert(node_ready(ns[b], done));
    }
}

proof fn lemma_prepend_prepend(a: Seq<Seq<char>>, b: Seq<Seq<char>>, r: Option<Seq<Seq<char>>>)
    ensures
        prepend(a, prepend(b, r)) == prepend(a + b, r),
{
    match r {
        Some(s) => {
            assert(a + (b + s) =~= (a + b) + s);
        },
        None => {},
    }
}

/// No two nodes have the same id.
pub open spec fn ids_distinct(ns: Seq<ReplayNodeView>) -> bool {
    forall|a: int, b: int| 0 <= a < b < ns.len() ==> (#[trigger] ns[a]).id != (#[trigger] ns[b]).id
}

/// Every commit of the chain is a node that is no merge.
pub open spec fn chain_of_nodes(ns: Seq<ReplayNodeView>, c: Seq<Seq<char>>) -> bool {
    forall|i: int|
        0 <= i < c.len() ==> exists|k: int| 0 <= k < ns.len() && (#[trigger] ns[k]).id == #[trigger] c[i] && !ns[k].is_merge
}

/// A commit of the chain comes after every parent of it that is in the
/// chain.
pub open spec fn parents_first(ns: Seq<ReplayNodeView>, c: Seq<Seq<char>>) -> bool {
    forall|i: int, j: int, k: int|
        0 <= i < c.len() && 0 <= j < c.len() && 0 <= k < ns.len() && (#[trigger] ns[k]).id == #[trigger] c[i]
            && ns[k].parents.contains(#[trigger] c[j]) ==> j < i
}

proof fn lemma_chain(ns: Seq<ReplayNodeView>, done: Set<Seq<char>>)
    requires
        ids_distinct(ns),
        forall|k: int| 0 <= k < ns.len() ==> !done.contains(#[trigger] ns[k].id),
        replay_chain(ns, done) is Some,
    ensures
        chain_of_nodes(ns, replay_chain(ns, done)->0),
        parents_first(ns, replay_chain(ns, done)->0),
        (replay_chain(ns, done)->0).no_duplicates(),
        forall|i: int| 0 <= i < (replay_chain(ns, done)->0).len() ==> !done.contains(#[trigger] (replay_chain(ns, done)->0)[i]),
    decreases ns.len(),
{
    if ns.len() == 0 {
        assert(replay_chain(ns, done)->0 =~= Seq::<Seq<char>>::empty());
    } else {
        let k0 = spec_pick(ns, done)->0;
        assert(exists|k: int| is_pick(ns, done, k));
        assert(is_pick(ns, done, k0));
        let n = ns[k0];
        let last = ns.len() - 1;
        let ns2 = ns.update(k0, ns.last()).drop_last();
        let d2 = done.insert(n.id);
        // Where each remaining node came from.
        assert forall|x: int| 0 <= x < ns2.len() implies #[trigger] ns2[x] == ns[if x == k0 { last } else { x }] by {}
        assert(ids_distinct(ns2)) by {
            assert forall|a: int, b: int| 0 <= a < b < ns2.len() implies (#[trigger] ns2[a]).id != (#[trigger] ns2[b]).id by {
                let ya = if a == k0 { last } else { a };
                let yb = if b == k0 { last } else { b };
                assert(ns2[a] == ns[ya] && ns2[b] == ns[yb]);
                assert(ya != yb);
                if ya < yb {
                    assert(ns[ya].id != ns[yb].id);
                } else {
                    assert(ns[yb].id != ns[ya].id);
                }
            }
        }
        assert forall|k: int| 0 <= k < ns2.len() implies !d2.contains(#[trigger] ns2[k].id) by {
            let y = if k == k0 { last } else { k };
            assert(ns2[k] == ns[y]);
            assert(y != k0);
            if y < k0 {
                assert(ns[y].id != ns[k0].id);
            } else {
                assert(ns[k0].id != ns[y].id);
            }
            assert(!done.contains(ns[y].id));
        }
        let head = if n.is_merge {
            Seq::<Seq<char>>::empty()
        } else {
            seq![n.id]
        };
        assert(replay_chain(ns, done) == prepend(head, replay_chain(ns2, d2)));
        lemma_chain(ns2, d2);
        let r = replay_chain(ns2, d2)->0;
        let c = head + r;
        assert(replay_chain(ns, done)->0 == c);
        // Members of the rest are nodes other than the picked one.
        assert forall|i: int| 0 <= i < r.len() implies exists|k: int|
            0 <= k < ns.len() && k != k0 && (#[trigger] ns[k]).id == #[trigger] r[i] && !ns[k].is_merge by {
            let k2 = choose|k2: int| 0 <= k2 < ns2.len() && (#[trigger] ns2[k2]).id == r[i] && !ns2[k2].is_merge;
            let y = if k2 == k0 { last } else { k2 };
            assert(ns2[k2] == ns[y]);
        }
        assert(chain_of_nodes(ns, c)) by {
            assert forall|i: int| 0 <= i < c.len() implies exists|k: int|
                0 <= k < ns.len() && (#[trigger] ns[k]).id == #[trigger] c[i] && !ns[k].is_merge by {
                if i < head.len() {
                    assert(ns[k0].id == c[i]);
                } else {
                    assert(c[i] == r[i - head.len()]);
                    let k = choose|k: int| 0 <= k < ns.len() && k != k0 && (#[trigger] ns[k]).id == r[i - head.len()] && !ns[k].is_merge;
                    assert(ns[k].id == c[i]);
                }
            }
        }
        // No commit of the chain was done before.
        assert forall|i: int| 0 <= i < c.len() implies !done.contains(#[trigger] c[i]) by {
            if i < head.len() {
                assert(c[i] == n.id);
            } else {
                assert(c[i] == r[i - head.len()]);
                assert(!d2.contains(r[i - head.len()]));
            }
        }
        assert(c.no_duplicates()) by {
            assert forall|a: int, b: int| 0 <= a < c.len() && 0 <= b < c.len() && a != b implies c[a] != c[b] by {
                if a >= head.len() && b >= head.len() {
                    assert(c[a] == r[a - head.len()] && c[b] == r[b - head.len()]);
                } else if a < head.len() {
                    assert(c[b] == r[b - head.len()]);
                    assert(!d2.contains(r[b - head.len()]));
                } else {
                    assert(c[a] == r[a - head.len()]);
                    assert(!d2.contains(r[a - head.len()]));
                }
            }
        }
        assert(parents_first(ns, c)) by {
            assert forall|i: int, j: int, k: int|
                0 <= i < c.len() && 0 <= j < c.len() && 0 <= k < ns.len() && (#[trigger] ns[k]).id == #[trigger] c[i]
                    && ns[k].parents.contains(#[trigger] c[j]) implies j < i by {
                if i < head.len() {
                    // The picked node: its parents were all done, and no
                    // commit of the chain was.
                    assert(c[i] == n.id);
                    if k != k0 {
                        if k < k0 {
                            assert(ns[k].id != ns[k0].id);
                        } else {
                            assert(ns[k0].id != ns[k].id);
                        }
                    }
                    let pi = choose|pi: int| 0 <= pi < n.parents.len() && n.parents[pi] == c[j];
                    assert(node_ready(n, done));
                    assert(done.contains(n.parents[pi]));
                    assert(!done.contains(c[j]));
                } else if j >= head.len() {
                    let ii = i - head.len();
                    let jj = j - head.len();
                    assert(c[i] == r[ii] && c[j] == r[jj]);
                    let k2 = choose|k2: int| 0 <= k2 < ns2.len() && (#[trigger] ns2[k2]).id == r[ii] && !ns2[k2].is_merge;
                    let y = if k2 == k0 { last } else { k2 };
                    assert(ns2[k2] == ns[y]);
                    if y != k {
                        if y < k {
                            assert(ns[y].id != ns[k].id);
                        } else {
                            assert(ns[k].id != ns[y].id);
                        }
                    }
                    assert(ns2[k2].parents.contains(r[jj]));
                    assert(jj < ii);
                }
            }
        }
    }
}

/// The replay order puts a commit after every parent of it that is
/// replayed too; it replays only commits of the nodes that are no merges,
/// and none twice (the nodes being distinct commits).
pub proof fn lemma_replay_order_respects_parents(ns: Seq<ReplayNodeView>)
    requires
        ids_distinct(ns),
        replay_chain(ns, Set::empty()) is Some,
    ensures
        chain_of_nodes(ns, replay_chain(ns, Set::empty())->0),
        parents_first(ns, replay_chain(ns, Set::empty())->0),
        (replay_chain(ns, Set::empty())->0).no_duplicates(),
{
    lemma_chain(ns, Set::empty());
}

/// Whether every parent of the node is done.
fn ready(n: &ReplayNode, done: &Vec<String>) -> (r: bool)
    ensures
        r == node_ready(n@, svs(done@).to_set()),
{
    let mut i: usize = 0;
    while i < n.parents_in_set.len()
        invariant
            i <= n.parents_in_set@.len(),
            forall|k: int| 0 <= k < i ==> svs(done@).to_set().contains(#[trigger] n@.parents[k]),
        decreases n.parents_in_set@.len() - i,
    {
        if !contains_string(done.as_slice(), &n.parents_in_set[i]) {
            assert(!svs(done@).to_set().contains(n@.parents[i as int]));
            return false;
        }
        i = i + 1;
    }
    true
}

/// Order the commits to replay: parents before children, the oldest first
/// among those ready, merges dropped.
#[verifier::loop_isolation(false)]
pub fn replay_order(nodes: Vec<ReplayNode>) -> (r: Result<Vec<String>, ReplayError>)
    ensures
        match r {
            Ok(chain) => replay_chain(nodes_view(nodes@), Set::empty()) == Some(svs(chain@)),
            Err(_) => replay_chain(nodes_view(nodes@), Set::empty()) is None,
        },
{
    let ghost orig = nodes_view(nodes@);
    let mut nodes = nodes;
    let mut done: Vec<String> = Vec::new();
    let mut chain: Vec<String> = Vec::new();
    proof {
        assert(svs(done@).to_set() =~= Set::<Seq<char>>::empty());
        assert(svs(chain@) =~= Seq::<Seq<char>>::empty());
        match replay_chain(orig, Set::empty()) {
            Some(s) => {
                assert(Seq::<Seq<char>>::empty() + s =~= s);
            },
            None => {},
        }
    }
    while nodes.len() > 0
        invariant
            replay_chain(orig, Set::empty()) == prepend(
                svs(chain@),
                replay_chain(nodes_view(nodes@), svs(done@).to_set()),
            ),
        decreases nodes@.len(),
    {
        let ghost ns = nodes_view(nodes@);
        let ghost d = svs(done@).to_set();
        // The first ready node with the least time.
        let mut best: Option<usize> = None;
        let mut i: usize = 0;
        while i < nodes.len()
            invariant
                i <= nodes@.len(),
                ns == nodes_view(nodes@),
                d == svs(done@).to_set(),
                match best {
                    Some(b) => {
                        &&& b < i
                        &&& node_ready(ns[b as int], d)
                        &&& forall|j: int| 0 <= j < i && node_ready(#[trigger] ns[j], d) ==> ns[b as int].time <= ns[j].time
                        &&& forall|j: int| 0 <= j < b && node_ready(#[trigger] ns[j], d) ==> ns[b as int].time < ns[j].time
                    },
                    None => forall|j: int| 0 <= j < i ==> !node_ready(#[trigger] ns[j], d),
                },
            decreases nodes@.len() - i,
        {
            assert(ns[i as int] == nodes@[i as int]@);
            if ready(&nodes[i], &done) {
                match best {
                    Some(b) => {
                        if nodes[i].time < nodes[b].time {
                            best = Some(i);
                        }
                    },
                    None => {
                        best = Some(i);
                    },
                }
            }
            i = i + 1;
        }
        match best {
            None => {
                proof {
                    if exists|k: int| is_pick(ns, d, k) {
                        let k = choose|k: int| is_pick(ns, d, k);
                        assert(node_ready(ns[k], d));
                    }
                    assert(spec_pick(ns, d) is None);
                    assert(replay_chain(ns, d) is None);
                }
                return Err(ReplayError::Cycle);
            },
            Some(k) => {
                proof {
                    assert(is_pick(ns, d, k as int));
                    lemma_pick_unique(ns, d, k as int, choose|j: int| is_pick(ns, d, j));
                    assert(spec_pick(ns, d) == Some(k as int));
                }
                let node = nodes.swap_remove(k);
                let ghost head = if node.is_merge {
                    Seq::<Seq<char>>::empty()
                } else {
                    seq![node.id@]
                };
                proof {
                    assert(nodes_view(nodes@) =~= ns.update(k as int, ns.last()).drop_last());
                    lemma_prepend_prepend(
                        svs(chain@),
                        head,
                        replay_chain(nodes_view(nodes@), d.insert(node.id@)),
                    );
                }
                let ghost chain_before = svs(chain@);
                let ghost done_before = svs(done@);
                done.push(copy_string(&node.id));
                proof {
                    assert(svs(done@) =~= done_before.push(node.id@));
                    done_before.lemma_push_to_set_commute(node.id@);
                }
                if !node.is_merge {
                    chain.push(node.id);
                    assert(svs(chain@) =~= chain_before + head);
                } else {
                    assert(svs(chain@) =~= chain_before + head);
                }
            },
        }
    }
    proof {
        assert(svs(chain@) + Seq::<Seq<char>>::empty() =~= svs(chain@));
    }
    Ok(chain)
}

/// The commits of a replay order are commits of the nodes.
proof fn lemma_chain_members(ns: Seq<ReplayNodeView>, done: Set<Seq<char>>)
    requires
        replay_chain(ns, done) is Some,
    ensures
        forall|i: int|
            0 <= i < (replay_chain(ns, done)->0).len() ==> exists|k: int|
                0 <= k < ns.len() && (#[trigger] ns[k]).id == #[trigger] (replay_chain(ns, done)->0)[i],
    decreases ns.len(),
{
    if ns.len() == 0 {
        assert(replay_chain(ns, done)->0 =~= Seq::<Seq<char>>::empty());
    } else {
        let k0 = spec_pick(ns, done)->0;
        let n = ns[k0];
        let last = ns.len() - 1;
        let ns2 = ns.update(k0, ns.last()).drop_last();
        let d2 = done.insert(n.id);
        let head = if n.is_merge {
            Seq::<Seq<char>>::empty()
        } else {
            seq![n.id]
        };
        lemma_chain_members(ns2, d2);
        let r = replay_chain(ns2, d2)->0;
        let c = head + r;
        assert(replay_chain(ns, done)->0 == c);
        assert forall|i: int| 0 <= i < c.len() implies exists|k: int| 0 <= k < ns.len() && (#[trigger] ns[k]).id == #[trigger] c[i] by {
            if i < head.len() {
                assert(ns[k0].id == c[i]);
            } else {
                assert(c[i] == r[i - head.len()]);
                let k2 = choose|k2: int| 0 <= k2 < ns2.len() && (#[trigger] ns2[k2]).id == r[i - head.len()];
                let y = if k2 == k0 { last } else { k2 };
                assert(ns2[k2] == ns[y]);
                assert(ns[y].id == c[i]);
            }
        }
    }
}

/// Where a string that occurs in a list first occurs.
fn index_of(v: &Vec<String>, x: &String) -> (p: usize)
    requires
        exists|k: int| 0 <= k < v@.len() && (#[trigger] v@[k])@ == x@,
    ensures
        p < v@.len(),
        v@[p as int]@ == x@,
{
    let key = string_chars(x);
    let mut i: usize = 0;
    while i < v.len()
        invariant
            i <= v@.len(),
            key@ == x@,
            forall|k: int| 0 <= k < i ==> (#[trigger] v@[k])@ != x@,
            exists|k: int| 0 <= k < v@.len() && (#[trigger] v@[k])@ == x@,
        decreases v@.len() - i,
    {
        if chars_eq(string_chars(&v[i]).as_slice(), key.as_slice()) {
            return i;
        }
        i = i + 1;
    }
    proof {
        let k = choose|k: int| 0 <= k < v@.len() && (#[trigger] v@[k])@ == x@;
        assert(v@[k]@ != x@);
    }
    0
}

/// Why a rebase-and-merge failed.
#[derive(Debug)]
pub enum RebaseError {
    /// The repository could not be opened.
    OpenFailed { path: String },
    /// `refs/heads/<base>` is not a valid reference name.
    InvalidBaseRef { detail: String },
    /// The base branch does not resolve.
    BaseNotFound { base_branch: String },
    /// The head revision does not resolve.
    HeadNotFound { head_rev: String },
    /// The base and the head have no common ancestor.
    NoMergeBase { base_branch: String, head_rev: String },
    /// The history of the head could not be walked.
    WalkFailed { detail: String },
    /// A commit to replay cannot be read.
    CommitUnreadable { id: String },
    /// The commits to replay could not be ordered.
    Cycle,
    /// The tree-merge settings could not be read.
    MergeOptionsFailed { detail: String },
    /// The tree of the base commit cannot be resolved.
    BaseTreeUnresolved { id: String },
    /// An object could not be read.
    ObjectLookup { detail: String },
    /// A commit to replay has no parent.
    NoParent { id: String },
    /// The tree of the parent of a commit to replay cannot be resolved.
    ParentTreeUnresolved { id: String },
    /// The tree merge of a replay failed.
    MergeFailed { id: String, detail: String },
    /// The merged tree could not be written.
    TreeWriteFailed { detail: String },
    /// The author of a commit to replay cannot be read.
    AuthorUnreadable { id: String },
    /// The message of a commit to replay cannot be read.
    MessageUnreadable { id: String },
    /// The message of a commit to replay is not UTF-8.
    MessageNotUtf8 { id: String },
    /// The replayed commit could not be written.
    CommitWriteFailed { id: String, detail: String },
}

/// The message of a rebase error.
pub open spec fn spec_rebase_message(e: RebaseError) -> Seq<char> {
    match e {
        RebaseError::OpenFailed { path } => "failed to open repository: "@ + path@,
        RebaseError::InvalidBaseRef { detail } => "invalid base branch ref: "@ + detail@,
        RebaseError::BaseNotFound { base_branch } => "base branch '"@ + base_branch@ + "' not found"@,
        RebaseError::HeadNotFound { head_rev } => "head revision '"@ + head_rev@ + "' not found"@,
        RebaseError::NoMergeBase { base_branch, head_rev } => "no merge base between '"@ + base_branch@ + "' and '"@
            + head_rev@ + "'"@,
        RebaseError::WalkFailed { detail } => "failed to walk head history: "@ + detail@,
        RebaseError::CommitUnreadable { id } => "failed to read commit "@ + id@,
        RebaseError::Cycle => "cycle detected while ordering replay commits"@,
        RebaseError::MergeOptionsFailed { detail } => "failed to get tree merge options: "@ + detail@,
        RebaseError::BaseTreeUnresolved { id } => "failed to resolve tree of base commit "@ + id@,
        RebaseError::ObjectLookup { detail } => detail@,
        RebaseError::NoParent { id } => "commit "@ + id@ + " on the head chain has no parent"@,
        RebaseError::ParentTreeUnresolved { id } => "failed to resolve parent tree for replay of "@ + id@,
        RebaseError::MergeFailed { id, detail } => "failed to merge tree while replaying "@ + id@ + ": "@ + detail@,
        RebaseError::TreeWriteFailed { detail } => "failed to write replayed tree: "@ + detail@,
        RebaseError::AuthorUnreadable { id } => "failed to read author of "@ + id@,
        RebaseError::MessageUnreadable { id } => "failed to read message of "@ + id@,
        RebaseError::MessageNotUtf8 { id } => "commit message of "@ + id@ + " is not UTF-8"@,
        RebaseError::CommitWriteFailed { id, detail } => "failed to create rebased commit for "@ + id@ + ": "@
            + detail@,
    }
}

fn message2(a: &str, b: &String) -> (m: String)
    ensures
        m@ == a@ + b@,
{
    let mut v = chars_of(a);
    append_chars(&mut v, string_chars(b).as_slice());
    string_of(v.as_slice())
}

fn message4(a: &str, b: &String, c: &str, d: &String) -> (m: String)
    ensures
        m@ == a@ + b@ + c@ + d@,
{
    let mut v = chars_of(a);
    append_chars(&mut v, string_chars(b).as_slice());
    append_chars(&mut v, chars_of(c).as_slice());
    append_chars(&mut v, string_chars(d).as_slice());
    string_of(v.as_slice())
}

impl RebaseError {
    /// The message of the error.
    pub fn describe(&self) -> (m: String)
        ensures
            m@ == spec_rebase_message(*self),
    {
        match self {
            RebaseError::OpenFailed { path } => message2("failed to open repository: ", path),
            RebaseError::InvalidBaseRef { detail } => message2("invalid base branch ref: ", detail),
            RebaseError::BaseNotFound { base_branch } => message3("base branch '", base_branch, "' not found"),
            RebaseError::HeadNotFound { head_rev } => message3("head revision '", head_rev, "' not found"),
            RebaseError::NoMergeBase { base_branch, head_rev } => message5(
                "no merge base between '",
                base_branch,
                "' and '",
                head_rev,
                "'",
            ),
            RebaseError::WalkFailed { detail } => message2("failed to walk head history: ", detail),
            RebaseError::CommitUnreadable { id } => message2("failed to read commit ", id),
            RebaseError::Cycle => String::from_str("cycle detected while ordering replay commits"),
            RebaseError::MergeOptionsFailed { detail } => message2("failed to get tree merge options: ", detail),
            RebaseError::BaseTreeUnresolved { id } => message2("failed to resolve tree of base commit ", id),
            RebaseError::ObjectLookup { detail } => copy_string(detail),
            RebaseError::NoParent { id } => message3("commit ", id, " on the head chain has no parent"),
            RebaseError::ParentTreeUnresolved { id } => message2("failed to resolve parent tree for replay of ", id),
            RebaseError::MergeFailed { id, detail } => message4("failed to merge tree while replaying ", id, ": ", detail),
            RebaseError::TreeWriteFailed { detail } => message2("failed to write replayed tree: ", detail),
            RebaseError::AuthorUnreadable { id } => message2("failed to read author of ", id),
            RebaseError::MessageUnreadable { id } => message2("failed to read message of ", id),
            RebaseError::MessageNotUtf8 { id } => message3("commit message of ", id, " is not UTF-8"),
            RebaseError::CommitWriteFailed { id, detail } => message4("failed to create rebased commit for ", id, ": ", detail),
        }
    }
}

/// What a rebase error says of the request: the path, branch and revision
/// it names are those asked for, and a commit it names is a hexadecimal id.
pub open spec fn rebase_error_fits(e: RebaseError, repo_path: Seq<char>, base_branch: Seq<char>, head_rev: Seq<char>) -> bool {
    match e {
        RebaseError::OpenFailed { path } => path@ == repo_path,
        RebaseError::InvalidBaseRef { detail } => !valid_ref_name("refs/heads/"@ + base_branch),
        RebaseError::BaseNotFound { base_branch: b } => b@ == base_branch,
        RebaseError::HeadNotFound { head_rev: h } => h@ == head_rev,
        RebaseError::NoMergeBase { base_branch: b, head_rev: h } => b@ == base_branch && h@ == head_rev,
        RebaseError::CommitUnreadable { id } => is_lower_hex(id@),
        RebaseError::BaseTreeUnresolved { id } => is_lower_hex(id@),
        RebaseError::NoParent { id } => is_lower_hex(id@),
        RebaseError::ParentTreeUnresolved { id } => is_lower_hex(id@),
        RebaseError::MergeFailed { id, detail } => is_lower_hex(id@),
        RebaseError::AuthorUnreadable { id } => is_lower_hex(id@),
        RebaseError::MessageUnreadable { id } => is_lower_hex(id@),
        RebaseError::MessageNotUtf8 { id } => is_lower_hex(id@),
        RebaseError::CommitWriteFailed { id, detail } => is_lower_hex(id@),
        _ => true,
    }
}

/// `refs/heads/<branch>`.
fn branch_ref_name(branch: &str) -> (n: String)
    ensures
        n@ == "refs/heads/"@ + branch@,
{
    let mut v = chars_of("refs/heads/");
    append_chars(&mut v, chars_of(branch).as_slice());
    string_of(v.as_slice())
}

/// What a commit's parents make of its replay.
#[derive(Debug, Clone, Copy, PartialEq, Eq, Structural)]
pub enum ReplayStart {
    /// A merge commit (more than one parent) is dropped.
    DropMerge,
    /// A commit without a parent cannot be replayed.
    NoParent,
    /// Merge the commit's change onto the current tree.
    Merge,
}

/// Decide from a commit's number of parents how its replay begins.
pub fn replay_parents(parent_count: usize) -> (s: ReplayStart)
    ensures
        s == (if parent_count > 1 {
            ReplayStart::DropMerge
        } else if parent_count == 0 {
            ReplayStart::NoParent
        } else {
            ReplayStart::Merge
        }),
{
    if parent_count > 1 {
        ReplayStart::DropMerge
    } else if parent_count == 0 {
        ReplayStart::NoParent
    } else {
        ReplayStart::Merge
    }
}

/// What merging a commit's change comes to.
#[derive(Debug, Clone, Copy, PartialEq, Eq, Structural)]
pub enum ReplayStep {
    /// The merge conflicts: the rebase stops and the base stays.
    Conflict,
    /// The merged tree is the current tree (the change is already there):
    /// no commit is written.
    Skip,
    /// Write a commit of the merged tree.
    Commit,
}

/// Decide a replay from whether its merge conflicts and whether the merged
/// tree equals the current one.
pub fn replay_result(conflicts: bool, unchanged: bool) -> (s: ReplayStep)
    ensures
        s == (if conflicts {
            ReplayStep::Conflict
        } else if unchanged {
            ReplayStep::Skip
        } else {
            ReplayStep::Commit
        }),
{
    if conflicts {
        ReplayStep::Conflict
    } else if unchanged {
        ReplayStep::Skip
    } else {
        ReplayStep::Commit
    }
}

/// The committer of replayed commits: `IronForge <noreply@ironforge.local>`.
pub fn rebase_committer() -> (c: (String, String))
    ensures
        c.0@ == "IronForge"@,
        c.1@ == "noreply@ironforge.local"@,
{
    (String::from_str("IronForge"), String::from_str("noreply@ironforge.local"))
}

/// How a rebase begins, once the base, the head and their merge base are
/// known (as hexadecimal ids).
#[derive(Debug, Clone, Copy, PartialEq, Eq, Structural)]
pub enum RebaseStart {
    /// The head is the base: nothing to do, the base stays.
    UpToDate,
    /// The base is an ancestor of the head: move the base to the head.
    FastForward,
    /// Replay the head's commits onto the base.
    Replay,
}

/// Decide how a rebase begins.
pub fn rebase_start(base: &String, head: &String, merge_base: &String) -> (s: RebaseStart)
    ensures
        s == (if base@ == head@ {
            RebaseStart::UpToDate
        } else if merge_base@ == base@ {
            RebaseStart::FastForward
        } else {
            RebaseStart::Replay
        }),
{
    if chars_eq(string_chars(base).as_slice(), string_chars(head).as_slice()) {
        RebaseStart::UpToDate
    } else if chars_eq(string_chars(merge_base).as_slice(), string_chars(base).as_slice()) {
        RebaseStart::FastForward
    } else {
        RebaseStart::Replay
    }
}

/// The outcome of the guarded update of the base ref to the new head: the
/// rebase succeeded, or the base advanced meanwhile and the update was
/// refused.
pub fn base_update_outcome(new_head: String, updated: bool) -> (o: RebaseOutcome)
    ensures
        updated ==> (o matches RebaseOutcome::Rebased(h) && h@ == new_head@),
        !updated ==> o is BaseAdvanced,
{
    if updated {
        RebaseOutcome::Rebased(new_head)
    } else {
        RebaseOutcome::BaseAdvanced
    }
}

/// The raw committer time of replayed commits: `<seconds> +0000`.
pub fn committer_time(now_seconds: i64) -> (t: String)
    ensures
        t@ == spec_int_text(now_seconds as int) + " +0000"@,
{
    let mut v = int_text(now_seconds);
    append_chars(&mut v, chars_of(" +0000").as_slice());
    string_of(v.as_slice())
}

/// The items of a walk that could be read, in order.
pub open spec fn read_items(walked: Seq<Option<gix::ObjectId>>) -> Seq<gix::ObjectId>
    decreases walked.len(),
{
    if walked.len() == 0 {
        Seq::empty()
    } else {
        match walked[0] {
            Some(id) => seq![id] + read_items(walked.drop_first()),
            None => read_items(walked.drop_first()),
        }
    }
}

/// Collect the commit ids of a history walk, with their hexadecimal form,
/// leaving out the items that could not be read.
fn walked_ids(walked: Vec<Option<gix::ObjectId>>) -> (r: (Vec<gix::ObjectId>, Vec<String>))
    ensures
        r.0@ == read_items(walked@),
        r.0@.len() == r.1@.len(),
        forall|k: int| 0 <= k < r.1@.len() ==> is_lower_hex((#[trigger] r.1@[k])@),
{
    let ghost all = walked@;
    let mut walked = walked;
    let mut ids: Vec<gix::ObjectId> = Vec::new();
    let mut hex: Vec<String> = Vec::new();
    while walked.len() > 0
        invariant
            ids@ + read_items(walked@) == read_items(all),
            ids@.len() == hex@.len(),
            forall|k: int| 0 <= k < hex@.len() ==> is_lower_hex((#[trigger] hex@[k])@),
        decreases walked@.len(),
    {
        let ghost before = walked@;
        let ghost ids_before = ids@;
        let item = walked.remove(0);
        assert(walked@ =~= before.drop_first());
        match item {
            Some(id) => {
                hex.push(oid_hex(&id));
                ids.push(id);
                assert(ids@ + read_items(walked@) =~= ids_before + read_items(before));
            },
            None => {},
        }
    }
    assert(ids@ =~= ids@ + read_items(walked@));
    (ids, hex)
}

/// The replay node of one commit of the replay set `set_hex`: its id, time,
/// whether it is a merge, and its parents that are in the set.
fn replay_node(commit: &gix::Commit, id: &String, set_hex: &Vec<String>) -> (n: ReplayNode)
    ensures
        n.id@ == id@,
{
    let parent_ids = commit_parent_ids(commit);
    let mut parents: Vec<String> = Vec::new();
    let mut i: usize = 0;
    while i < parent_ids.len()
        decreases parent_ids@.len() - i,
    {
        let p = oid_hex(&parent_ids[i]);
        if contains_string(set_hex.as_slice(), &p) {
            parents.push(p);
        }
        i = i + 1;
    }
    ReplayNode { id: copy_string(id), time: commit_time_or_zero(commit), is_merge: parent_ids.len() > 1, parents_in_set: parents }
}

/// What a rebase read at its start: the base and head commits (with their
/// hexadecimal forms), their merge base, and the two commits the merge base
/// was asked of (none when the head is the base).
pub struct RebaseRead {
    pub base: gix::ObjectId,
    pub base_hex: Seq<char>,
    pub head: gix::ObjectId,
    pub head_hex: Seq<char>,
    pub merge_base_hex: Seq<char>,
    pub merge_base_of: Option<(gix::ObjectId, gix::ObjectId)>,
}

/// The replay plan of a diverged rebase: the tip and the hidden commit the
/// history walk was asked for, the commits walked (ids and hexadecimal
/// forms), their replay nodes, the chain they are replayed in, and the tree
/// of the base (id and hexadecimal form).
pub struct RebasePlan {
    pub walk: (gix::ObjectId, gix::ObjectId),
    pub walked_ids: Seq<gix::ObjectId>,
    pub walked: Seq<Seq<char>>,
    pub nodes: Seq<ReplayNodeView>,
    pub chain: Seq<Seq<char>>,
    pub base_tree: gix::ObjectId,
    pub base_tree_hex: Seq<char>,
}

/// What came of replaying one commit of the chain.
pub enum ReplayOutcome {
    /// A merge commit: dropped.
    Dropped,
    /// Its merge onto the current tree conflicted: the rebase stops.
    Conflicted,
    /// The merged tree (`merged_tree_hex`) is the current tree: nothing is
    /// written.
    Empty { merged_tree_hex: Seq<char> },
    /// A commit `written` of the merged tree `tree` (`tree_hex`) was written
    /// with `args`; `author` (name, email, raw time) and `message` are what
    /// was read of the replayed commit.
    Written {
        tree: gix::ObjectId,
        tree_hex: Seq<char>,
        author: (Seq<u8>, Seq<u8>, Seq<char>),
        message: Seq<char>,
        args: (CommitFields, gix::ObjectId, gix::ObjectId),
        written: gix::ObjectId,
    },
}

/// The replay of one commit of the chain: the commit (hexadecimal form and
/// id), its number of parents, whether its merge conflicted, the head and
/// tree (id and hexadecimal form) it was replayed onto, the trees of its
/// first parent and of itself as read, the three trees the merge was asked
/// for (none for a dropped merge commit), and its outcome.
pub struct ReplayRecord {
    pub replayed: Seq<char>,
    pub replayed_id: gix::ObjectId,
    pub parents: nat,
    pub conflicted: bool,
    pub head_before: gix::ObjectId,
    pub tree_before: Seq<char>,
    pub tree_before_id: gix::ObjectId,
    pub read_trees: Option<(gix::ObjectId, gix::ObjectId)>,
    pub merge: Option<(gix::ObjectId, gix::ObjectId, gix::ObjectId)>,
    pub outcome: ReplayOutcome,
}

/// A move of the base ref asked of `gix`: the ref, the id it must still
/// point at, the id it is moved to (and its hexadecimal form), and whether
/// it moved.
pub struct BaseMove {
    pub base_name: Seq<char>,
    pub expected: gix::ObjectId,
    pub new: gix::ObjectId,
    pub new_hex: Seq<char>,
    pub moved: bool,
}

/// What a rebase read and did: what it read at the start, its replay plan,
/// the replays in order, and the move of the base it asked for.
pub struct RebaseReport {
    pub read: Option<RebaseRead>,
    pub plan: Option<RebasePlan>,
    pub replays: Seq<ReplayRecord>,
    pub moved: Option<BaseMove>,
}

/// The report of a rebase that has read nothing yet.
pub open spec fn empty_report() -> RebaseReport {
    RebaseReport { read: None, plan: None, replays: Seq::empty(), moved: None }
}

/// The head after a replay: the commit written, else the head before.
pub open spec fn head_after(rec: ReplayRecord) -> gix::ObjectId {
    match rec.outcome {
        ReplayOutcome::Written { written, .. } => written,
        _ => rec.head_before,
    }
}

/// The tree after a replay (hexadecimal form): the tree written, else the
/// tree before.
pub open spec fn tree_after(rec: ReplayRecord) -> Seq<char> {
    match rec.outcome {
        ReplayOutcome::Written { tree_hex, .. } => tree_hex,
        _ => rec.tree_before,
    }
}

/// The tree after a replay (id): the tree written, else the tree before.
pub open spec fn tree_id_after(rec: ReplayRecord) -> gix::ObjectId {
    match rec.outcome {
        ReplayOutcome::Written { tree, .. } => tree,
        _ => rec.tree_before_id,
    }
}

/// One replay as a rebase must make it: a merge commit is dropped, with no
/// merge; a commit with one parent is merged (its first parent's tree as
/// the ancestor, the current tree as ours, its own tree as theirs), and
/// stops the rebase when that conflicts, writes nothing when the merged tree
/// is the current tree, and otherwise is written: on the current head, with
/// the merged tree, the author and message read from the replayed commit,
/// and the committer `IronForge <noreply@ironforge.local>`.
pub open spec fn replay_record_ok(rec: ReplayRecord) -> bool {
    match rec.outcome {
        ReplayOutcome::Dropped => rec.parents > 1 && !rec.conflicted && rec.merge is None,
        _ => {
            &&& rec.parents == 1
            &&& rec.read_trees matches Some((parent_tree, commit_tree))
            &&& rec.merge == Some((parent_tree, rec.tree_before_id, commit_tree))
            &&& match rec.outcome {
                ReplayOutcome::Conflicted => rec.conflicted,
                ReplayOutcome::Empty { merged_tree_hex } => !rec.conflicted && merged_tree_hex == rec.tree_before,
                ReplayOutcome::Written { tree, tree_hex, author, message, args, .. } => {
                    &&& !rec.conflicted
                    &&& tree_hex != rec.tree_before
                    &&& args.0.committer_name@ == "IronForge"@
                    &&& args.0.committer_email@ == "noreply@ironforge.local"@
                    &&& (args.0.author_name@, args.0.author_email@, args.0.author_time@) == author
                    &&& args.0.message@ == message
                    &&& args.1 == tree
                    &&& args.2 == rec.head_before
                },
                ReplayOutcome::Dropped => false,
            }
        },
    }
}

/// The replays of a rebase follow its chain in order, each the replay of
/// the walked commit of that hexadecimal form, starting on the base and its
/// tree, each on the head and tree the previous one left, each made as
/// `replay_record_ok` says; only the last may conflict.
pub open spec fn replays_ok(rs: Seq<ReplayRecord>, p: RebasePlan, base: gix::ObjectId) -> bool {
    &&& rs.len() <= p.chain.len()
    &&& forall|i: int| 0 <= i < rs.len() ==> (#[trigger] rs[i]).replayed == p.chain[i] && replay_record_ok(rs[i])
    &&& forall|i: int|
        0 <= i < rs.len() ==> exists|j: int|
            0 <= j < p.walked.len() && p.walked[j] == (#[trigger] rs[i]).replayed && p.walked_ids[j] == rs[i].replayed_id
    &&& forall|i: int| 0 <= i < rs.len() - 1 ==> !((#[trigger] rs[i]).outcome is Conflicted)
    &&& rs.len() > 0 ==> rs[0].head_before == base && rs[0].tree_before == p.base_tree_hex && rs[0].tree_before_id
        == p.base_tree
    &&& forall|i: int|
        0 < i < rs.len() ==> (#[trigger] rs[i]).head_before == head_after(rs[i - 1]) && rs[i].tree_before
            == tree_after(rs[i - 1]) && rs[i].tree_before_id == tree_id_after(rs[i - 1])
}

/// The head after all the replays.
pub open spec fn final_head(rs: Seq<ReplayRecord>, base: gix::ObjectId) -> gix::ObjectId {
    if rs.len() == 0 {
        base
    } else {
        head_after(rs.last())
    }
}

/// The tree after all the replays (hexadecimal form).
pub open spec fn final_tree(rs: Seq<ReplayRecord>, base_tree: Seq<char>) -> Seq<char> {
    if rs.len() == 0 {
        base_tree
    } else {
        tree_after(rs.last())
    }
}

/// The tree after all the replays (id).
pub open spec fn final_tree_id(rs: Seq<ReplayRecord>, base_tree: gix::ObjectId) -> gix::ObjectId {
    if rs.len() == 0 {
        base_tree
    } else {
        tree_id_after(rs.last())
    }
}

/// Whether any replay wrote a commit.
pub open spec fn wrote_any(rs: Seq<ReplayRecord>) -> bool {
    exists|i: int| 0 <= i < rs.len() && (#[trigger] rs[i]).outcome is Written
}

/// The plan of a diverged rebase of `head` onto `base`: the walk is of the
/// commits reachable from the head and not from the base, with one node per
/// walked commit, and the chain `replay_chain` orders them in.
pub open spec fn plan_ok(p: RebasePlan, base: gix::ObjectId, head: gix::ObjectId) -> bool {
    &&& p.walk == (head, base)
    &&& p.walked_ids.len() == p.walked.len()
    &&& p.nodes.len() == p.walked.len()
    &&& forall|j: int| 0 <= j < p.nodes.len() ==> (#[trigger] p.nodes[j]).id == p.walked[j]
    &&& replay_chain(p.nodes, Set::empty()) == Some(p.chain)
}

/// How a rebase onto the branch `base_branch` (whose ref is
/// `"refs/heads/" + base_branch`) acts and answers, given what it read:
/// - the base ref is the only ref it asks to move, and only from the id it
///   read at the start, so a concurrent update is never overwritten; an
///   error or a conflict moves nothing;
/// - the merge base is asked of the base and the head, unless they are one;
/// - when the head is the base, nothing happens and the base is reported;
/// - when the base is the merge base, the base is fast-forwarded to the head;
/// - otherwise the commits between are planned (`plan_ok`) and replayed as
///   `replays_ok` says; once all of them are, the base moves to the last
///   commit written, or stays and is reported when nothing was written; a
///   conflict reports the commit.
/// `Rebased(h)` always names where the base now is; `BaseAdvanced` is a move
/// that `gix` refused.
pub open spec fn rebase_report_ok(rep: RebaseReport, base_branch: Seq<char>, r: Result<RebaseOutcome, RebaseError>) -> bool {
    let base_name = "refs/heads/"@ + base_branch;
    &&& (r is Err || r matches Ok(RebaseOutcome::Conflict(_))) ==> rep.moved is None
    &&& r is Ok ==> rep.read is Some
    &&& r matches Ok(RebaseOutcome::BaseAdvanced) ==> (rep.moved matches Some(m) && !m.moved)
    &&& r matches Ok(RebaseOutcome::Rebased(h)) ==> match rep.moved {
        Some(m) => m.moved && h@ == m.new_hex,
        None => rep.read matches Some(rd) && h@ == rd.base_hex,
    }
    &&& match rep.read {
        None => rep.plan is None && rep.replays.len() == 0 && rep.moved is None,
        Some(rd) => {
            &&& rep.moved matches Some(m) ==> m.base_name == base_name && m.expected == rd.base
            &&& rd.merge_base_of == if rd.base_hex == rd.head_hex {
                None
            } else {
                Some((rd.base, rd.head))
            }
            &&& if rd.base_hex == rd.head_hex {
                rep.plan is None && rep.replays.len() == 0 && rep.moved is None
            } else if rd.merge_base_hex == rd.base_hex {
                &&& rep.plan is None && rep.replays.len() == 0
                &&& r is Ok ==> (rep.moved matches Some(m) && m.new == rd.head && m.new_hex == rd.head_hex)
            } else {
                match rep.plan {
                    None => rep.replays.len() == 0 && rep.moved is None && r is Err,
                    Some(p) => {
                        &&& plan_ok(p, rd.base, rd.head)
                        &&& replays_ok(rep.replays, p, rd.base)
                        &&& rep.moved matches Some(m) ==> rep.replays.len() == p.chain.len() && wrote_any(rep.replays)
                            && m.new == final_head(rep.replays, rd.base)
                        &&& (r matches Ok(RebaseOutcome::Rebased(_)) || r matches Ok(RebaseOutcome::BaseAdvanced))
                            ==> rep.replays.len() == p.chain.len() && (rep.moved is Some <==> wrote_any(rep.replays))
                        &&& r matches Ok(RebaseOutcome::Conflict(msg)) ==> rep.replays.len() > 0
                            && rep.replays.last().outcome is Conflicted && msg@ == spec_conflict_message(
                            rep.replays.last().replayed,
                            base_branch,
                        )
                    },
                }
            }
        },
    }
}

/// Written replays that follow each other from `base`: each one's head
/// before is the commit the previous written one wrote, the first one's is
/// `base`.
pub open spec fn writes_descend(rs: Seq<ReplayRecord>, base: gix::ObjectId, new: gix::ObjectId) -> bool {
    &&& rs.len() > 0
    &&& rs[0].head_before == base
    &&& forall|i: int| 0 < i < rs.len() ==> (#[trigger] rs[i]).head_before == head_after(rs[i - 1])
    &&& new == head_after(rs.last())
    &&& forall|i: int|
        0 <= i < rs.len() && (#[trigger] rs[i]).outcome is Written ==> rs[i].outcome->args.2 == rs[i].head_before
}

/// The base is only ever moved forward, and only from where it was: a move
/// of the base expects the id read at the start, and goes either to the head
/// when the base is their merge base (a fast-forward), or to the last of a
/// line of commits written one on the other from the base.
pub proof fn lemma_base_only_moves_forward(rep: RebaseReport, base_branch: Seq<char>, r: Result<RebaseOutcome, RebaseError>)
    requires
        rebase_report_ok(rep, base_branch, r),
    ensures
        rep.moved matches Some(m) ==> (rep.read matches Some(rd) && m.expected == rd.base && (
            (rd.merge_base_hex == rd.base_hex && m.new == rd.head)
            || writes_descend(rep.replays, rd.base, m.new))),
{
    if rep.moved is Some && rep.read is Some {
        let rd = rep.read->0;
        let m = rep.moved->0;
        if !(rd.merge_base_hex == rd.base_hex && rd.base_hex != rd.head_hex) && rd.base_hex != rd.head_hex {
            let p = rep.plan->0;
            let rs = rep.replays;
            assert(wrote_any(rs));
            assert forall|i: int| 0 <= i < rs.len() && (#[trigger] rs[i]).outcome is Written implies rs[i].outcome->args.2
                == rs[i].head_before by {
                assert(rs[i].replayed == p.chain[i] && replay_record_ok(rs[i]));
            }
        }
    }
}

/// Ask `move_reference` to move the base ref from `expected` to `new`, and
/// report it; whether the ref moved.
fn move_base(
    repo: &gix::Repository,
    base_ref: gix::refs::FullName,
    base_name: &String,
    expected: gix::ObjectId,
    new: &gix::ObjectId,
    new_hex: &String,
    report: &mut Ghost<RebaseReport>,
) -> (moved: bool)
    ensures
        final(report)@ == (RebaseReport {
            moved: Some(BaseMove { base_name: base_name@, expected, new: *new, new_hex: new_hex@, moved }),
            ..old(report)@
        }),
{
    let ghost exp = expected;
    let moved = move_reference(repo, base_ref, RefExpectation::MustEqual(expected), new, "rebase merge").is_ok();
    *report = Ghost(
        RebaseReport {
            moved: Some(BaseMove { base_name: base_name@, expected: exp, new: *new, new_hex: new_hex@, moved }),
            ..report@
        },
    );
    moved
}

/// Rebase `head_rev` (any revision: a branch ref, a fork ref, an id) onto
/// `base_branch` and move the base there, as the "rebase and merge" of a
/// pull request does, through `gix` alone:
/// - the commits reachable from the head and not from the base are replayed
///   onto the base, parents first and the oldest first among those ready;
/// - merge commits are dropped;
/// - a replay that changes nothing is skipped;
/// - each replayed commit keeps its author and message, and is committed by
///   `IronForge <noreply@ironforge.local>`;
/// - a conflicting replay stops the rebase and leaves the base alone;
/// - the base ref is moved only if it still points where it pointed at the
///   start; otherwise the outcome is `BaseAdvanced`.
///
/// When the head is the base nothing changes; when the base is an ancestor of
/// the head the base is fast-forwarded to it.
pub fn rebase_merge(repo_path: &str, base_branch: &str, head_rev: &str) -> (r: Result<RebaseOutcome, RebaseError>)
    ensures
        match r {
            Ok(RebaseOutcome::Rebased(h)) => is_lower_hex(h@) && h@.len() > 0,
            Ok(RebaseOutcome::Conflict(m)) => exists|c: Seq<char>|
                is_lower_hex(c) && m@ == spec_conflict_message(c, base_branch@),
            Ok(RebaseOutcome::BaseAdvanced) => true,
            Err(e) => rebase_error_fits(e, repo_path@, base_branch@, head_rev@),
        },
        r is Ok ==> valid_ref_name("refs/heads/"@ + base_branch@),
        exists|rep: RebaseReport| rebase_report_ok(rep, base_branch@, r),
{
    let mut report: Ghost<RebaseReport> = Ghost(empty_report());
    let r = rebase_merge_reported(repo_path, base_branch, head_rev, &mut report);
    proof {
        assert(rebase_report_ok(report@, base_branch@, r));
    }
    r
}

/// A replay appended to replays that follow the plan, the replay of the
/// next commit of the chain (the walked commit `j`), made as
/// `replay_record_ok` says on the head and tree they left, keeps them
/// following the plan.
proof fn lemma_replay_pushed(rs: Seq<ReplayRecord>, rec: ReplayRecord, p: RebasePlan, base: gix::ObjectId, j: int)
    requires
        replays_ok(rs, p, base),
        rs.len() < p.chain.len(),
        rec.replayed == p.chain[rs.len() as int],
        0 <= j < p.walked.len(),
        p.walked.len() == p.walked_ids.len(),
        p.walked[j] == rec.replayed,
        p.walked_ids[j] == rec.replayed_id,
        replay_record_ok(rec),
        rs.len() > 0 ==> !(rs.last().outcome is Conflicted),
        rec.head_before == final_head(rs, base),
        rec.tree_before == final_tree(rs, p.base_tree_hex),
        rec.tree_before_id == final_tree_id(rs, p.base_tree),
    ensures
        replays_ok(rs.push(rec), p, base),
        final_head(rs.push(rec), base) == head_after(rec),
        final_tree(rs.push(rec), p.base_tree_hex) == tree_after(rec),
        final_tree_id(rs.push(rec), p.base_tree) == tree_id_after(rec),
        wrote_any(rs.push(rec)) == (wrote_any(rs) || rec.outcome is Written),
{
    let t = rs.push(rec);
    assert forall|i: int| 0 <= i < t.len() implies (#[trigger] t[i]).replayed == p.chain[i] && replay_record_ok(t[i]) by {
        if i < rs.len() {
            assert(t[i] == rs[i]);
        }
    }
    assert forall|i: int| 0 <= i < t.len() implies exists|k: int|
        0 <= k < p.walked.len() && p.walked[k] == (#[trigger] t[i]).replayed && p.walked_ids[k] == t[i].replayed_id by {
        if i < rs.len() {
            assert(t[i] == rs[i]);
        } else {
            assert(t[i] == rec);
        }
    }
    assert forall|i: int| 0 <= i < t.len() - 1 implies !((#[trigger] t[i]).outcome is Conflicted) by {
        assert(t[i] == rs[i]);
    }
    assert forall|i: int| 0 < i < t.len() implies (#[trigger] t[i]).head_before == head_after(t[i - 1])
        && t[i].tree_before == tree_after(t[i - 1]) && t[i].tree_before_id == tree_id_after(t[i - 1]) by {
        if i < rs.len() {
            assert(t[i] == rs[i]);
            assert(t[i - 1] == rs[i - 1]);
        } else {
            assert(t[i - 1] == rs.last());
        }
    }
    if wrote_any(rs) {
        let k = choose|k: int| 0 <= k < rs.len() && (#[trigger] rs[k]).outcome is Written;
        assert(t[k] == rs[k]);
    }
    assert(t[rs.len() as int] == rec);
    if wrote_any(t) {
        let k = choose|k: int| 0 <= k < t.len() && (#[trigger] t[k]).outcome is Written;
        if k < rs.len() {
            assert(t[k] == rs[k]);
        }
    }
}

/// `rebase_merge`, with what it read and did on the side; see
/// `rebase_report_ok`.
#[verifier::rlimit(100)]
pub fn rebase_merge_reported(
    repo_path: &str,
    base_branch: &str,
    head_rev: &str,
    report: &mut Ghost<RebaseReport>,
) -> (r: Result<RebaseOutcome, RebaseError>)
    ensures
        match r {
            Ok(RebaseOutcome::Rebased(h)) => is_lower_hex(h@) && h@.len() > 0,
            Ok(RebaseOutcome::Conflict(m)) => exists|c: Seq<char>|
                is_lower_hex(c) && m@ == spec_conflict_message(c, base_branch@),
            Ok(RebaseOutcome::BaseAdvanced) => true,
            Err(e) => rebase_error_fits(e, repo_path@, base_branch@, head_rev@),
        },
        r is Ok ==> valid_ref_name("refs/heads/"@ + base_branch@),
        rebase_report_ok(final(report)@, base_branch@, r),
{
    *report = Ghost(empty_report());
    let repo = match open_repository(repo_path) {
        Ok(repo) => repo,
        Err(_) => return Err(RebaseError::OpenFailed { path: String::from_str(repo_path) }),
    };
    let base_name = branch_ref_name(base_branch);
    let base_ref = match full_ref_name(base_name.as_str()) {
        Ok(name) => name,
        Err(e) => return Err(RebaseError::InvalidBaseRef { detail: name_error_text(&e) }),
    };
    let base_sha = match rev_parse_single(&repo, base_name.as_str()) {
        Ok(id) => id_detach(&id),
        Err(_) => return Err(RebaseError::BaseNotFound { base_branch: String::from_str(base_branch) }),
    };
    let head_sha = match rev_parse_single(&repo, head_rev) {
        Ok(id) => id_detach(&id),
        Err(_) => return Err(RebaseError::HeadNotFound { head_rev: String::from_str(head_rev) }),
    };
    let base_hex = oid_hex(&base_sha);
    let head_hex = oid_hex(&head_sha);
    let mut mb_asked: Ghost<Option<(gix::ObjectId, gix::ObjectId)>> = Ghost(None);
    let merge_base_hex = if chars_eq(string_chars(&base_hex).as_slice(), string_chars(&head_hex).as_slice()) {
        copy_string(&base_hex)
    } else {
        let (found, asked) = merge_base_of(&repo, &base_sha, &head_sha);
        mb_asked = Ghost(Some(asked@));
        match found {
            Ok(Some(id)) => oid_hex(&id_detach(&id)),
            _ => return Err(
                RebaseError::NoMergeBase {
                    base_branch: String::from_str(base_branch),
                    head_rev: String::from_str(head_rev),
                },
            ),
        }
    };
    *report = Ghost(
        RebaseReport {
            read: Some(
                RebaseRead {
                    base: base_sha,
                    base_hex: base_hex@,
                    head: head_sha,
                    head_hex: head_hex@,
                    merge_base_hex: merge_base_hex@,
                    merge_base_of: mb_asked@,
                },
            ),
            ..report@
        },
    );
    match rebase_start(&base_hex, &head_hex, &merge_base_hex) {
        RebaseStart::UpToDate => return Ok(RebaseOutcome::Rebased(base_hex)),
        RebaseStart::FastForward => {
            let updated = move_base(&repo, base_ref, &base_name, base_sha, &head_sha, &head_hex, report);
            return Ok(base_update_outcome(head_hex, updated));
        },
        RebaseStart::Replay => {},
    }

    // The commits to replay: `git rev-list base..head`.
    let (walk_result, walk_args) = walk_excluding(&repo, &head_sha, &base_sha);
    let walked = match walk_result {
        Ok(walked) => walked,
        Err(e) => return Err(RebaseError::WalkFailed { detail: gix_error_text(&e) }),
    };
    let (set_ids, set_hex) = walked_ids(walked);
    let mut nodes: Vec<ReplayNode> = Vec::new();
    let mut k: usize = 0;
    while k < set_ids.len()
        invariant
            set_ids@.len() == set_hex@.len(),
            forall|j: int| 0 <= j < set_hex@.len() ==> is_lower_hex((#[trigger] set_hex@[j])@),
            k <= set_ids@.len(),
            nodes@.len() == k,
            forall|j: int| 0 <= j < k ==> (#[trigger] nodes@[j]).id@ == set_hex@[j]@,
            report@.read == Some(
                RebaseRead {
                    base: base_sha,
                    base_hex: base_hex@,
                    head: head_sha,
                    head_hex: head_hex@,
                    merge_base_hex: merge_base_hex@,
                    merge_base_of: mb_asked@,
                },
            ),
            report@.plan is None,
            report@.replays.len() == 0,
            report@.moved is None,
            mb_asked@ == Some((base_sha, head_sha)),
            base_hex@ != head_hex@,
            merge_base_hex@ != base_hex@,
            walk_args@ == (head_sha, base_sha),
        decreases set_ids@.len() - k,
    {
        let commit = match find_commit(&repo, &set_ids[k]) {
            Ok(Some(commit)) => commit,
            _ => return Err(RebaseError::CommitUnreadable { id: copy_string(&set_hex[k]) }),
        };
        nodes.push(replay_node(&commit, &set_hex[k], &set_hex));
        k = k + 1;
    }
    let ghost ns = nodes_view(nodes@);
    assert forall|j: int| 0 <= j < ns.len() implies (#[trigger] ns[j]).id == set_hex@[j]@ by {
        assert(ns[j] == nodes@[j]@);
    }
    let chain = match replay_order(nodes) {
        Ok(chain) => chain,
        Err(_) => return Err(RebaseError::Cycle),
    };
    proof {
        lemma_chain_members(ns, Set::empty());
        let c = replay_chain(ns, Set::empty())->0;
        assert(c == svs(chain@));
        assert forall|i: int| 0 <= i < chain@.len() implies exists|j: int|
            0 <= j < set_hex@.len() && (#[trigger] set_hex@[j])@ == (#[trigger] chain@[i])@ by {
            assert(c[i] == chain@[i]@);
            let j = choose|j: int| 0 <= j < ns.len() && (#[trigger] ns[j]).id == c[i];
            assert(ns[j].id == set_hex@[j]@);
        }
    }

    let ghost chain_view = svs(chain@);
    let options = match tree_merge_options(&repo) {
        Ok(options) => options,
        Err(e) => return Err(RebaseError::MergeOptionsFailed { detail: gix_error_text(&e) }),
    };
    let time = committer_time(now_seconds());
    let base_commit = match find_commit(&repo, &base_sha) {
        Ok(Some(commit)) => commit,
        Ok(None) => return Err(RebaseError::BaseTreeUnresolved { id: copy_string(&base_hex) }),
        Err(e) => return Err(RebaseError::ObjectLookup { detail: gix_error_text(&e) }),
    };
    let mut running_tree = match commit_tree_id(&base_commit) {
        Ok(id) => id_detach(&id),
        Err(_) => return Err(RebaseError::BaseTreeUnresolved { id: copy_string(&base_hex) }),
    };
    let mut running_tree_hex = oid_hex(&running_tree);
    let ghost plan = RebasePlan {
        walk: walk_args@,
        walked_ids: set_ids@,
        walked: svs(set_hex@),
        nodes: ns,
        chain: chain_view,
        base_tree: running_tree,
        base_tree_hex: running_tree_hex@,
    };
    *report = Ghost(RebaseReport { plan: Some(plan), ..report@ });
    let mut running_head = base_sha;
    let mut running_head_hex = copy_string(&base_hex);
    let mut wrote = false;

    let mut i: usize = 0;
    while i < chain.len()
        invariant
            forall|c: int| 0 <= c < chain@.len() ==> exists|j: int|
                0 <= j < set_hex@.len() && (#[trigger] set_hex@[j])@ == (#[trigger] chain@[c])@,
            forall|j: int| 0 <= j < set_hex@.len() ==> is_lower_hex((#[trigger] set_hex@[j])@),
            set_ids@.len() == set_hex@.len(),
            is_lower_hex(running_head_hex@),
            running_head_hex@.len() > 0,
            is_lower_hex(base_hex@),
            base_hex@.len() > 0,
            valid_ref_name("refs/heads/"@ + base_branch@),
            base_name@ == "refs/heads/"@ + base_branch@,
            chain_view == svs(chain@),
            report@.read == Some(
                RebaseRead {
                    base: base_sha,
                    base_hex: base_hex@,
                    head: head_sha,
                    head_hex: head_hex@,
                    merge_base_hex: merge_base_hex@,
                    merge_base_of: mb_asked@,
                },
            ),
            base_hex@ != head_hex@,
            merge_base_hex@ != base_hex@,
            report@.plan == Some(plan),
            mb_asked@ == Some((base_sha, head_sha)),
            plan_ok(plan, base_sha, head_sha),
            plan.chain == chain_view,
            plan.walked == svs(set_hex@),
            plan.walked_ids == set_ids@,
            report@.moved is None,
            report@.replays.len() == i,
            replays_ok(report@.replays, plan, base_sha),
            running_head == final_head(report@.replays, base_sha),
            running_tree_hex@ == final_tree(report@.replays, plan.base_tree_hex),
            running_tree == final_tree_id(report@.replays, plan.base_tree),
            wrote == wrote_any(report@.replays),
            report@.replays.len() > 0 ==> !(report@.replays.last().outcome is Conflicted),
        decreases chain@.len() - i,
    {
        let commit_hex = &chain[i];
        proof {
            let j = choose|j: int| 0 <= j < set_hex@.len() && (#[trigger] set_hex@[j])@ == chain@[i as int]@;
        }
        let pos = index_of(&set_hex, commit_hex);
        let ghost replayed_id = set_ids@[pos as int];
        assert(svs(set_hex@)[pos as int] == set_hex@[pos as int]@);
        let commit = match find_commit(&repo, &set_ids[pos]) {
            Ok(Some(commit)) => commit,
            _ => return Err(RebaseError::CommitUnreadable { id: copy_string(commit_hex) }),
        };
        let parents = commit_parent_ids(&commit);
        let ghost rs = report@.replays;
        assert(chain_view[i as int] == commit_hex@);
        match replay_parents(parents.len()) {
            ReplayStart::DropMerge => {
                let ghost rec = ReplayRecord {
                    replayed: commit_hex@,
                    replayed_id,
                    parents: parents@.len(),
                    conflicted: false,
                    head_before: running_head,
                    tree_before: running_tree_hex@,
                    tree_before_id: running_tree,
                    read_trees: None,
                    merge: None,
                    outcome: ReplayOutcome::Dropped,
                };
                *report = Ghost(RebaseReport { replays: rs.push(rec), ..report@ });
                proof {
                    lemma_replay_pushed(rs, rec, plan, base_sha, pos as int);
                }
                i = i + 1;
                continue;
            },
            ReplayStart::NoParent => return Err(RebaseError::NoParent { id: copy_string(commit_hex) }),
            ReplayStart::Merge => {},
        }
        let ancestor_tree = match find_commit(&repo, &parents[0]) {
            Ok(Some(parent)) => match commit_tree_id(&parent) {
                Ok(id) => id_detach(&id),
                Err(_) => return Err(RebaseError::ParentTreeUnresolved { id: copy_string(commit_hex) }),
            },
            Ok(None) => return Err(RebaseError::ParentTreeUnresolved { id: copy_string(commit_hex) }),
            Err(e) => return Err(RebaseError::ObjectLookup { detail: gix_error_text(&e) }),
        };
        let their_tree = match commit_tree_id(&commit) {
            Ok(id) => id_detach(&id),
            Err(e) => return Err(RebaseError::ObjectLookup { detail: gix_error_text(&e) }),
        };
        let (merged, merge_asked) = merge_trees(&repo, &ancestor_tree, &running_tree, &their_tree, "base", commit_hex.as_str(), &options);
        let outcome = match merged {
            Ok(outcome) => outcome,
            Err(e) => return Err(RebaseError::MergeFailed { id: copy_string(commit_hex), detail: gix_error_text(&e) }),
        };
        let conflicted = merge_has_conflicts(&outcome);
        if conflicted {
            match replay_result(true, false) {
                ReplayStep::Conflict => {
                    let ghost rec = ReplayRecord {
                        replayed: commit_hex@,
                        replayed_id,
                        parents: parents@.len(),
                        conflicted: true,
                        head_before: running_head,
                        tree_before: running_tree_hex@,
                        tree_before_id: running_tree,
                        read_trees: Some((ancestor_tree, their_tree)),
                        merge: Some(merge_asked@),
                        outcome: ReplayOutcome::Conflicted,
                    };
                    *report = Ghost(RebaseReport { replays: rs.push(rec), ..report@ });
                    proof {
                        lemma_replay_pushed(rs, rec, plan, base_sha, pos as int);
                    }
                    return Ok(conflict_outcome(commit_hex, base_branch));
                },
                _ => {},
            }
        }
        let new_tree = match write_merged_tree(outcome) {
            Ok(tree) => tree,
            Err(e) => return Err(RebaseError::TreeWriteFailed { detail: gix_error_text(&e) }),
        };
        let new_tree_hex = oid_hex(&new_tree);
        let unchanged = chars_eq(string_chars(&new_tree_hex).as_slice(), string_chars(&running_tree_hex).as_slice());
        match replay_result(false, unchanged) {
            ReplayStep::Skip => {
                // The change is already applied: an empty replay is skipped.
                let ghost rec = ReplayRecord {
                    replayed: commit_hex@,
                    replayed_id,
                    parents: parents@.len(),
                    conflicted: false,
                    head_before: running_head,
                    tree_before: running_tree_hex@,
                    tree_before_id: running_tree,
                    read_trees: Some((ancestor_tree, their_tree)),
                    merge: Some(merge_asked@),
                    outcome: ReplayOutcome::Empty { merged_tree_hex: new_tree_hex@ },
                };
                *report = Ghost(RebaseReport { replays: rs.push(rec), ..report@ });
                proof {
                    lemma_replay_pushed(rs, rec, plan, base_sha, pos as int);
                }
                i = i + 1;
                continue;
            },
            _ => {},
        }
        let (committer_name, committer_email) = rebase_committer();
        let author = match commit_author(&commit) {
            Ok(author) => author,
            Err(_) => return Err(RebaseError::AuthorUnreadable { id: copy_string(commit_hex) }),
        };
        let (author_name, author_email, author_time) = signature_parts(&author);
        let message_bytes = match commit_message_bytes(&commit) {
            Ok(bytes) => bytes,
            Err(_) => return Err(RebaseError::MessageUnreadable { id: copy_string(commit_hex) }),
        };
        let message = match decode_strict(message_bytes) {
            Some(message) => message,
            None => return Err(RebaseError::MessageNotUtf8 { id: copy_string(commit_hex) }),
        };
        let ghost author_read = (author_name@, author_email@, author_time@);
        let ghost message_read = message@;
        let fields = CommitFields {
            committer_name,
            committer_email,
            committer_time: copy_string(&time),
            author_name,
            author_email,
            author_time,
            message,
        };
        let (write, write_asked) = new_commit_as(&repo, &fields, &new_tree, &running_head);
        let rebased = match write {
            Ok(id) => id,
            Err(e) => return Err(RebaseError::CommitWriteFailed { id: copy_string(commit_hex), detail: gix_error_text(&e) }),
        };
        let ghost rec = ReplayRecord {
            replayed: commit_hex@,
            replayed_id,
            parents: parents@.len(),
            conflicted: false,
            head_before: running_head,
            tree_before: running_tree_hex@,
            tree_before_id: running_tree,
            read_trees: Some((ancestor_tree, their_tree)),
            merge: Some(merge_asked@),
            outcome: ReplayOutcome::Written {
                tree: new_tree,
                tree_hex: new_tree_hex@,
                author: author_read,
                message: message_read,
                args: write_asked@,
                written: rebased,
            },
        };
        *report = Ghost(RebaseReport { replays: rs.push(rec), ..report@ });
        proof {
            lemma_replay_pushed(rs, rec, plan, base_sha, pos as int);
        }
        wrote = true;
        running_head_hex = oid_hex(&rebased);
        running_head = rebased;
        running_tree = new_tree;
        running_tree_hex = new_tree_hex;
        i = i + 1;
    }

    if !wrote {
        // No commit was written (every replay was empty or a dropped merge):
        // nothing to move.
        return Ok(RebaseOutcome::Rebased(base_hex));
    }
    let updated = move_base(&repo, base_ref, &base_name, base_sha, &running_head, &running_head_hex, report);
    Ok(base_update_outcome(running_head_hex, updated))
}

/// Archive container formats (`.tar`, `.tar.gz`/`.tgz`, `.zip`).
#[derive(Clone, Copy, Debug, PartialEq, Eq, Structural)]
pub enum ArchiveFormat {
    Tar,
    TarGz,
    Zip,
}

} // verus!

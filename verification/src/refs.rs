//! Reading the refs and objects of a repository through `gix`, for the
//! advertisements and answers of the protocol sessions.
//!
//! What a repository holds is on disk: the functions that read it state what
//! holds of every outcome, and the functions that shape what was read into
//! an answer take it as an argument and have exact contracts.

use vstd::prelude::*;
use crate::ops::{find_object, id_hex, is_hex_id, is_lower_hex, open_repository};
use crate::pkt_line::{PktLine, PktView};
use crate::protocol::receive_pack::pairs_view;
use crate::protocol::v2::{is_listed, listed, ls_ref_line, opt_view, spec_ls_ref_line, unborn_line, wants_peel, LsRefEntry};
use crate::pkt_line::spec_text_payload;
use crate::text::svs;
use crate::text::{copy_string, string_chars};

verus! {

#[verifier::external_type_specification]
#[verifier::external_body]
pub struct ExReference<'r>(gix::Reference<'r>);

#[verifier::external_type_specification]
#[verifier::external_body]
pub struct ExRefPlatform<'r>(gix::reference::iter::Platform<'r>);

#[verifier::external_type_specification]
#[verifier::external_body]
pub struct ExTag<'r>(gix::Tag<'r>);

/// What a reference points at: an object (by its hexadecimal id) or another
/// reference.
pub enum RefTarget {
    Object(String),
    Symbolic,
}

/// A reference of a listing: its full name and target.
pub struct RefRecord {
    pub name: String,
    pub target: RefTarget,
}

/// What HEAD is: a reference to a branch, a branch yet to be born (both by
/// the branch's full name), or a detached id.
pub enum HeadKind {
    Symbolic(String),
    Unborn(String),
    Detached,
}

/// Whether each object target of a listing is a hexadecimal id.
pub open spec fn listing_hex(listing: Seq<Option<RefRecord>>) -> bool {
    forall|i: int|
        0 <= i < listing.len() ==> match #[trigger] listing[i] {
            Some(r) => match r.target {
                RefTarget::Object(h) => is_lower_hex(h@),
                RefTarget::Symbolic => true,
            },
            None => true,
        }
}

/// Calls `Repository::head_id`: the id HEAD resolves to.
#[verifier::external_body]
pub(crate) fn head_id<'r>(repo: &'r gix::Repository) -> (r: Result<gix::Id<'r>, gix::Error>) {
    repo.head_id()
}

/// Calls `Repository::head`: whether HEAD names a branch (born or not) or is
/// detached.
#[verifier::external_body]
pub(crate) fn head_kind(repo: &gix::Repository) -> (r: Result<HeadKind, gix::Error>) {
    repo.head().map(|head| match &head.kind {
        gix::head::Kind::Symbolic(r) => HeadKind::Symbolic(r.name.as_bstr().to_string()),
        gix::head::Kind::Unborn(name) => HeadKind::Unborn(name.as_bstr().to_string()),
        gix::head::Kind::Detached { .. } => HeadKind::Detached,
    })
}

/// Calls `Repository::references`: the platform to list references from.
#[verifier::external_body]
pub(crate) fn reference_platform<'r>(repo: &'r gix::Repository) -> (r: Result<gix::reference::iter::Platform<'r>, gix::Error>) {
    repo.references()
}

/// Calls `Platform::all`: every reference, each as its full name and target
/// (an object's id written in lowercase hexadecimal), or `None` where reading
/// it failed.
#[verifier::external_body]
pub(crate) fn all_references(platform: &gix::reference::iter::Platform) -> (r: Result<Vec<Option<RefRecord>>, gix::Error>)
    ensures
        r matches Ok(listing) ==> listing_hex(listing@),
{
    platform.all().map(|iter| {
        iter.map(|item| {
            item.ok().map(|reference| RefRecord {
                name: reference.name().as_bstr().to_string(),
                target: match reference.target() {
                    gix::refs::TargetRef::Object(id) => RefTarget::Object(id.to_string()),
                    gix::refs::TargetRef::Symbolic(_) => RefTarget::Symbolic,
                },
            })
        }).collect()
    })
}

/// Calls `Repository::find_reference`: the reference of that name.
#[verifier::external_body]
fn find_reference<'r>(repo: &'r gix::Repository, name: &str) -> (r: Result<gix::Reference<'r>, gix::Error>) {
    repo.find_reference(name)
}

/// Calls `Reference::peel_to_id`: the object the reference leads to.
#[verifier::external_body]
fn peel_reference<'r>(reference: gix::Reference<'r>) -> (r: Result<gix::Id<'r>, gix::Error>) {
    let mut reference = reference;
    reference.peel_to_id()
}

/// Calls `ObjectId::from_hex`: the id a hexadecimal text writes, or the
/// message of why it writes none. It refuses every text of another length
/// than 40 or 64 bytes and every one holding a byte that is no hexadecimal
/// digit.
#[verifier::external_body]
pub(crate) fn oid_from_hex(hex: &str) -> (r: Result<gix::ObjectId, String>)
    ensures
        r is Ok ==> is_hex_id(hex@),
{
    gix::ObjectId::from_hex(hex.as_bytes()).map_err(|e| e.to_string())
}

/// Calls `Object::try_into_tag`: the object as a tag, if it is one.
#[verifier::external_body]
pub(crate) fn object_into_tag<'r>(object: gix::Object<'r>) -> (r: Option<gix::Tag<'r>>) {
    object.try_into_tag().ok()
}

/// Calls `Tag::target_id`: the object the tag points to.
#[verifier::external_body]
pub(crate) fn tag_target_id<'r>(tag: &gix::Tag<'r>) -> (r: Result<gix::Id<'r>, gix::Error>) {
    tag.target_id()
}

/// Reads the length of an object's `data`.
#[verifier::external_body]
fn object_data_len(object: &gix::Object) -> (n: usize) {
    object.data.len()
}

/// Why the refs or an object of a repository could not be read.
#[derive(Debug)]
pub enum RefsError {
    /// The repository could not be opened.
    OpenFailed,
    /// The repository could not be opened to answer `ls-refs`.
    OpenFailedForLsRefs,
    /// The references could not be listed.
    ListFailed,
    /// Walking the references failed; carries the message.
    WalkFailed { detail: String },
    /// The text is no object id; carries the message.
    InvalidObjectId { detail: String },
    /// No object has the id.
    ObjectNotFound { oid: String },
}

/// The message of an error.
pub open spec fn spec_refs_message(e: RefsError) -> Seq<char> {
    match e {
        RefsError::OpenFailed => "failed to open repository"@,
        RefsError::OpenFailedForLsRefs => "failed to open repository for ls-refs"@,
        RefsError::ListFailed => "failed to list references"@,
        RefsError::WalkFailed { detail } => detail@,
        RefsError::InvalidObjectId { detail } => "invalid object ID: "@ + detail@,
        RefsError::ObjectNotFound { oid } => "object "@ + oid@ + " not found"@,
    }
}

impl RefsError {
    /// The message of the error.
    pub fn describe(&self) -> (m: String)
        ensures
            m@ == spec_refs_message(*self),
    {
        match self {
            RefsError::OpenFailed => String::from_str("failed to open repository"),
            RefsError::OpenFailedForLsRefs => String::from_str("failed to open repository for ls-refs"),
            RefsError::ListFailed => String::from_str("failed to list references"),
            RefsError::WalkFailed { detail } => copy_string(detail),
            RefsError::InvalidObjectId { detail } => {
                let mut v = crate::text::chars_of("invalid object ID: ");
                crate::text::append_chars(&mut v, string_chars(detail).as_slice());
                crate::text::string_of(v.as_slice())
            },
            RefsError::ObjectNotFound { oid } => {
                let mut v = crate::text::chars_of("object ");
                crate::text::append_chars(&mut v, string_chars(oid).as_slice());
                crate::text::append_chars(&mut v, crate::text::chars_of(" not found").as_slice());
                crate::text::string_of(v.as_slice())
            },
        }
    }
}

/// HEAD's commit id, if HEAD resolves to one.
pub fn resolve_head_sha(repo_path: &str) -> (r: Option<String>)
    ensures
        r matches Some(h) ==> is_lower_hex(h@) && h@.len() > 0,
{
    let repo = match open_repository(repo_path) {
        Ok(repo) => repo,
        Err(_) => return None,
    };
    match head_id(&repo) {
        Ok(id) => Some(id_hex(&id)),
        Err(_) => None,
    }
}

/// The `(id, name)` pairs of a listing of references: each reference that
/// points at an object, in the listing's order, and a symbolic `HEAD` with
/// the id HEAD resolves to (when it resolves); other symbolic references and
/// unreadable items are left out.
pub open spec fn spec_listed_refs(listing: Seq<Option<RefRecord>>, head: Option<Seq<char>>) -> Seq<(Seq<char>, Seq<char>)>
    decreases listing.len(),
{
    if listing.len() == 0 {
        Seq::empty()
    } else {
        let rest = spec_listed_refs(listing.drop_last(), head);
        match listing.last() {
            Some(r) => match r.target {
                RefTarget::Object(h) => rest.push((h@, r.name@)),
                RefTarget::Symbolic => if r.name@ == "HEAD"@ && head is Some {
                    rest.push((head->0, r.name@))
                } else {
                    rest
                },
            },
            None => rest,
        }
    }
}

/// Shape a listing of references into `(id, name)` pairs.
pub fn listed_refs(listing: &Vec<Option<RefRecord>>, head: &Option<String>) -> (refs: Vec<(String, String)>)
    ensures
        pairs_view(refs@) == spec_listed_refs(listing@, opt_view(*head)),
{
    let mut refs: Vec<(String, String)> = Vec::new();
    let mut i: usize = 0;
    while i < listing.len()
        invariant
            i <= listing@.len(),
            pairs_view(refs@) == spec_listed_refs(listing@.take(i as int), opt_view(*head)),
        decreases listing@.len() - i,
    {
        assert(listing@.take(i + 1).drop_last() =~= listing@.take(i as int));
        match &listing[i] {
            Some(r) => match &r.target {
                RefTarget::Object(h) => {
                    refs.push((copy_string(h), copy_string(&r.name)));
                },
                RefTarget::Symbolic => {
                    if crate::text::string_is(&r.name, "HEAD") {
                        match head {
                            Some(h) => {
                                refs.push((copy_string(h), copy_string(&r.name)));
                            },
                            None => {},
                        }
                    }
                },
            },
            None => {},
        }
        proof {
            assert(pairs_view(refs@) =~= spec_listed_refs(listing@.take(i + 1), opt_view(*head)));
        }
        i = i + 1;
    }
    assert(listing@.take(listing@.len() as int) =~= listing@);
    refs
}

/// The listing of the references of an open repository.
fn read_listing(repo: &gix::Repository) -> (r: Result<Vec<Option<RefRecord>>, RefsError>)
    ensures
        r matches Ok(listing) ==> listing_hex(listing@),
        r matches Err(e) ==> e is ListFailed || e is WalkFailed,
{
    let platform = match reference_platform(repo) {
        Ok(platform) => platform,
        Err(_) => return Err(RefsError::ListFailed),
    };
    match all_references(&platform) {
        Ok(listing) => Ok(listing),
        Err(e) => Err(RefsError::WalkFailed { detail: crate::ops::gix_error_text(&e) }),
    }
}

/// Whether every id of a ref list is a hexadecimal id.
pub open spec fn refs_hex(refs: Seq<(Seq<char>, Seq<char>)>) -> bool {
    forall|i: int| 0 <= i < refs.len() ==> is_lower_hex((#[trigger] refs[i]).0)
}

proof fn lemma_listed_refs_hex(listing: Seq<Option<RefRecord>>, head: Option<Seq<char>>)
    requires
        listing_hex(listing),
        head matches Some(h) ==> is_lower_hex(h),
    ensures
        refs_hex(spec_listed_refs(listing, head)),
    decreases listing.len(),
{
    if listing.len() > 0 {
        assert forall|i: int| 0 <= i < listing.drop_last().len() implies match #[trigger] listing.drop_last()[i] {
            Some(r) => match r.target {
                RefTarget::Object(h) => is_lower_hex(h@),
                RefTarget::Symbolic => true,
            },
            None => true,
        } by {
            assert(listing.drop_last()[i] == listing[i]);
        }
        lemma_listed_refs_hex(listing.drop_last(), head);
        let last = listing.len() - 1;
        assert(listing.last() == listing[last]);
    }
}

/// The refs of a repository as `(id, name)` pairs, for an advertisement
/// (see `spec_listed_refs`).
pub fn list_refs(repo_path: &str) -> (r: Result<Vec<(String, String)>, RefsError>)
    ensures
        r matches Ok(refs) ==> refs_hex(pairs_view(refs@)),
        r matches Err(e) ==> e is OpenFailed || e is ListFailed || e is WalkFailed,
{
    let repo = match open_repository(repo_path) {
        Ok(repo) => repo,
        Err(_) => return Err(RefsError::OpenFailed),
    };
    let listing = read_listing(&repo)?;
    let head = match head_id(&repo) {
        Ok(id) => Some(id_hex(&id)),
        Err(_) => None,
    };
    let refs = listed_refs(&listing, &head);
    proof {
        lemma_listed_refs_hex(listing@, opt_view(head));
    }
    Ok(refs)
}

/// The refs a push is offered: those of `list_refs`, nothing when they
/// cannot be read, and HEAD added when it resolves and is not listed.
pub fn build_ref_list(repo_path: &str) -> (refs: Vec<(String, String)>)
    ensures
        refs@.len() > 0,
        refs_hex(pairs_view(refs@)),
{
    let listed = match list_refs(repo_path) {
        Ok(refs) => refs,
        Err(_) => Vec::new(),
    };
    let head = resolve_head_sha(repo_path);
    let refs = crate::protocol::receive_pack::complete_ref_list(listed, head);
    assert(pairs_view(refs@).len() == refs@.len());
    proof {
        let lv = pairs_view(listed@);
        let hv = opt_view(head);
        let null = crate::protocol::receive_pack::null_sha();
        reveal_strlit("0000000000000000000000000000000000000000");
        assert(is_lower_hex(null)) by {
            assert forall|i: int| 0 <= i < null.len() implies ('0' <= #[trigger] null[i] <= '9' || 'a' <= null[i] <= 'f') by {
                assert(null[i] == '0');
            }
        }
        let with_head = match hv {
            Some(h) => if (exists|k: int| 0 <= k < lv.len() && (#[trigger] lv[k]).1 == "HEAD"@) {
                lv
            } else {
                lv.push((h, "HEAD"@))
            },
            None => lv,
        };
        assert(refs_hex(with_head)) by {
            assert forall|i: int| 0 <= i < with_head.len() implies is_lower_hex((#[trigger] with_head[i]).0) by {
                if i < lv.len() {
                    assert(with_head[i] == lv[i]);
                }
            }
        }
    }
    refs
}

/// The object a tag points to, or the id itself for any other object;
/// `None` when the repository, the id or the object cannot be read.
pub fn get_tag_peel(repo_path: &str, sha: &str) -> (r: Option<String>)
    ensures
        r matches Some(p) ==> p@ == sha@ || is_lower_hex(p@),
{
    let repo = match open_repository(repo_path) {
        Ok(repo) => repo,
        Err(_) => return None,
    };
    let id = match oid_from_hex(sha) {
        Ok(id) => id,
        Err(_) => return None,
    };
    let object = match find_object(&repo, &id) {
        Ok(object) => object,
        Err(_) => return None,
    };
    let peeled = match object_into_tag(object) {
        Some(tag) => match tag_target_id(&tag) {
            Ok(target) => Some(id_hex(&target)),
            Err(_) => None,
        },
        None => Some(String::from_str(sha)),
    };
    peeled
}

/// The size of an object's data.
pub fn get_object_size(repo_path: &str, oid: &str) -> (r: Result<u64, RefsError>)
    ensures
        r is Ok ==> is_hex_id(oid@),
        r matches Err(e) ==> e is OpenFailed || e is InvalidObjectId || (e matches RefsError::ObjectNotFound { oid: o }
            && o@ == oid@),
{
    let repo = match open_repository(repo_path) {
        Ok(repo) => repo,
        Err(_) => return Err(RefsError::OpenFailed),
    };
    let id = match oid_from_hex(oid) {
        Ok(id) => id,
        Err(detail) => return Err(RefsError::InvalidObjectId { detail }),
    };
    let size = match find_object(&repo, &id) {
        Ok(object) => Ok(object_data_len(&object) as u64),
        Err(_) => Err(RefsError::ObjectNotFound { oid: String::from_str(oid) }),
    };
    size
}

/// Which of the given ids name objects of the repository, in their order;
/// none when the repository cannot be opened.
pub fn known_objects(repo_path: &str, ids: &Vec<String>) -> (known: Vec<String>)
    ensures
        forall|i: int| 0 <= i < known@.len() ==> crate::text::svs(ids@).contains(#[trigger] known@[i]@),
        known@.len() <= ids@.len(),
{
    let mut known: Vec<String> = Vec::new();
    let repo = match open_repository(repo_path) {
        Ok(repo) => repo,
        Err(_) => return known,
    };
    let mut i: usize = 0;
    while i < ids.len()
        invariant
            i <= ids@.len(),
            known@.len() <= i,
            forall|k: int| 0 <= k < known@.len() ==> crate::text::svs(ids@).contains(#[trigger] known@[k]@),
        decreases ids@.len() - i,
    {
        match oid_from_hex(ids[i].as_str()) {
            Ok(id) => {
                if find_object(&repo, &id).is_ok() {
                    assert(crate::text::svs(ids@)[i as int] == ids@[i as int]@);
                    known.push(copy_string(&ids[i]));
                }
            },
            Err(_) => {},
        }
        i = i + 1;
    }
    known
}

/// The symbolic target `ls-refs` reports for HEAD: the branch it names,
/// born or not; none for a detached HEAD.
pub fn head_symref_target(kind: &Option<HeadKind>) -> (t: Option<String>)
    ensures
        opt_view(t) == match kind {
            Some(HeadKind::Symbolic(n)) => Some(n@),
            Some(HeadKind::Unborn(n)) => Some(n@),
            _ => None,
        },
{
    match kind {
        Some(HeadKind::Symbolic(n)) => Some(copy_string(n)),
        Some(HeadKind::Unborn(n)) => Some(copy_string(n)),
        _ => None,
    }
}

/// The `ls-refs` line of a ref, as a pkt-line.
pub open spec fn ref_line_view(sha: Seq<char>, name: Seq<char>, target: Option<Seq<char>>, symrefs: bool, peeled: Option<Seq<char>>) -> PktView {
    PktView::Data(spec_text_payload(spec_ls_ref_line(sha, name, target, symrefs, peeled)))
}

/// The lines of the refs other than HEAD, given as `(id, name)` in listing
/// order with what each peels to: one line per ref under the requested
/// prefixes, a ref named `HEAD` left out (it is answered first), the peeled
/// object shown for tags when peeling was asked for.
pub open spec fn spec_other_lines(
    others: Seq<(Seq<char>, Seq<char>)>,
    peeled: Seq<Option<Seq<char>>>,
    patterns: Seq<Seq<char>>,
    peel: bool,
    symrefs: bool,
) -> Seq<PktView>
    decreases others.len(),
{
    if others.len() == 0 {
        Seq::empty()
    } else {
        let rest = spec_other_lines(others.drop_last(), peeled.drop_last(), patterns, peel, symrefs);
        let sha = others.last().0;
        let name = others.last().1;
        if name != "HEAD"@ && listed(name, patterns) {
            rest.push(
                ref_line_view(
                    sha,
                    name,
                    None,
                    symrefs,
                    if peel && "refs/tags/"@.is_prefix_of(name) {
                        peeled.last()
                    } else {
                        None
                    },
                ),
            )
        } else {
            rest
        }
    }
}

/// The answer to an `ls-refs` command from what the repository holds: the
/// `unborn HEAD symref-target:<branch>` line when it was asked for and HEAD
/// names a branch not yet born; then HEAD's line once, first, when HEAD
/// resolves and is listed (with its target when symrefs were asked for);
/// then the other refs' lines; then a flush.
pub open spec fn spec_ls_refs_answer(
    head: Option<Seq<char>>,
    head_target: Option<Seq<char>>,
    others: Seq<(Seq<char>, Seq<char>)>,
    peeled: Seq<Option<Seq<char>>>,
    patterns: Seq<Seq<char>>,
    peel: bool,
    symrefs: bool,
    unborn: bool,
) -> Seq<PktView> {
    let unborn_part = if unborn && head is None && head_target is Some {
        seq![PktView::Data(spec_text_payload("unborn HEAD symref-target:"@ + head_target->0))]
    } else {
        Seq::empty()
    };
    let head_part = match head {
        Some(h) => if listed("HEAD"@, patterns) {
            seq![ref_line_view(h, "HEAD"@, head_target, symrefs, None)]
        } else {
            Seq::empty()
        },
        None => Seq::empty(),
    };
    unborn_part + head_part + spec_other_lines(others, peeled, patterns, peel, symrefs) + seq![PktView::Flush]
}

/// The views of pkt-lines.
pub open spec fn lines_view(lines: Seq<PktLine>) -> Seq<PktView> {
    lines.map_values(|p: PktLine| p@)
}

/// The views of optional texts.
pub open spec fn opts_view(v: Seq<Option<String>>) -> Seq<Option<Seq<char>>> {
    v.map_values(|o: Option<String>| opt_view(o))
}

/// Assemble the answer to an `ls-refs` command (see `spec_ls_refs_answer`);
/// `peeled` holds what each of `others` peels to.
pub fn ls_refs_answer(
    head: &Option<String>,
    head_target: &Option<String>,
    others: &Vec<(String, String)>,
    peeled: &Vec<Option<String>>,
    ref_patterns: &Vec<String>,
    peel: bool,
    symrefs: bool,
    unborn: bool,
) -> (lines: Vec<PktLine>)
    requires
        peeled@.len() == others@.len(),
    ensures
        lines_view(lines@) == spec_ls_refs_answer(
            opt_view(*head),
            opt_view(*head_target),
            pairs_view(others@),
            opts_view(peeled@),
            svs(ref_patterns@),
            peel,
            symrefs,
            unborn,
        ),
{
    let ghost hv = opt_view(*head);
    let ghost tv = opt_view(*head_target);
    let ghost pats = svs(ref_patterns@);
    let ghost unborn_part: Seq<PktView> = if unborn && hv is None && tv is Some {
        seq![PktView::Data(spec_text_payload("unborn HEAD symref-target:"@ + tv->0))]
    } else {
        Seq::empty()
    };
    let ghost head_part: Seq<PktView> = match hv {
        Some(h) => if listed("HEAD"@, pats) {
            seq![ref_line_view(h, "HEAD"@, tv, symrefs, None)]
        } else {
            Seq::empty()
        },
        None => Seq::empty(),
    };
    let mut lines: Vec<PktLine> = Vec::new();
    match unborn_line(unborn, head.is_some(), head_target) {
        Some(line) => lines.push(PktLine::text(line.as_str())),
        None => {},
    }
    assert(lines_view(lines@) =~= unborn_part);
    let head_name = String::from_str("HEAD");
    proof {
        reveal_strlit("HEAD");
    }
    match head {
        Some(h) => {
            if is_listed(&head_name, ref_patterns.as_slice()) {
                let target = match head_target {
                    Some(t) => Some(copy_string(t)),
                    None => None,
                };
                let entry = LsRefEntry { sha: copy_string(h), refname: copy_string(&head_name), symref_target: target };
                assert(opt_view(entry.symref_target) == tv);
                let ghost before = lines_view(lines@);
                lines.push(ls_ref_line(&entry, symrefs, &None));
                assert(lines_view(lines@) =~= before.push(lines@.last()@));
            }
        },
        None => {},
    }
    assert(lines_view(lines@) =~= unborn_part + head_part);
    let ghost start = lines_view(lines@);
    proof {
        assert(pairs_view(others@).take(0) =~= Seq::<(Seq<char>, Seq<char>)>::empty());
        assert(start =~= start + spec_other_lines(pairs_view(others@).take(0), opts_view(peeled@).take(0), svs(ref_patterns@), peel, symrefs));
    }
    let mut i: usize = 0;
    while i < others.len()
        invariant
            i <= others@.len(),
            peeled@.len() == others@.len(),
            lines_view(lines@) == start + spec_other_lines(
                pairs_view(others@).take(i as int),
                opts_view(peeled@).take(i as int),
                svs(ref_patterns@),
                peel,
                symrefs,
            ),
        decreases others@.len() - i,
    {
        let ghost ov = pairs_view(others@);
        let ghost pv = opts_view(peeled@);
        assert(ov.take(i + 1).drop_last() =~= ov.take(i as int));
        assert(pv.take(i + 1).drop_last() =~= pv.take(i as int));
        assert(ov.take(i + 1).last() == ov[i as int]);
        assert(pv.take(i + 1).last() == pv[i as int]);
        let sha = &others[i].0;
        let name = &others[i].1;
        let ghost before = lines_view(lines@);
        if !crate::text::string_is(name, "HEAD") && is_listed(name, ref_patterns.as_slice()) {
            let p = if wants_peel(peel, name) {
                match &peeled[i] {
                    Some(x) => Some(copy_string(x)),
                    None => None,
                }
            } else {
                None
            };
            let entry = LsRefEntry { sha: copy_string(sha), refname: copy_string(name), symref_target: None };
            lines.push(ls_ref_line(&entry, symrefs, &p));
            assert(lines_view(lines@) =~= before.push(lines@.last()@));
        }
        i = i + 1;
    }
    assert(pairs_view(others@).take(others@.len() as int) =~= pairs_view(others@));
    assert(opts_view(peeled@).take(others@.len() as int) =~= opts_view(peeled@));
    let ghost body = lines_view(lines@);
    lines.push(PktLine::Flush);
    assert(lines_view(lines@) =~= body.push(PktView::Flush));
    assert(lines_view(lines@) =~= unborn_part + head_part + spec_other_lines(
        pairs_view(others@),
        opts_view(peeled@),
        pats,
        peel,
        symrefs,
    ) + seq![PktView::Flush]);
    lines
}

/// The answer to an `ls-refs` command for the repository at `repo_path`:
/// `ls_refs_answer` of its HEAD, HEAD's branch, its other refs (a symbolic
/// one resolved to the object it leads to, left out when it leads nowhere)
/// and what the listed tags peel to.
pub fn ls_refs_lines(repo_path: &str, ref_patterns: &Vec<String>, peel: bool, symrefs: bool, unborn: bool) -> (r: Result<Vec<PktLine>, RefsError>)
    ensures
        r matches Ok(lines) ==> exists|
            head: Option<Seq<char>>,
            head_target: Option<Seq<char>>,
            others: Seq<(Seq<char>, Seq<char>)>,
            peeled: Seq<Option<Seq<char>>>,
        |
            peeled.len() == others.len() && lines_view(lines@) == spec_ls_refs_answer(
                head,
                head_target,
                others,
                peeled,
                svs(ref_patterns@),
                peel,
                symrefs,
                unborn,
            ),
        r matches Err(e) ==> e is OpenFailedForLsRefs || e is ListFailed || e is WalkFailed,
{
    let mut seen: Ghost<Option<LsRefsReading>> = Ghost(None);
    let r = ls_refs_lines_reported(repo_path, ref_patterns, peel, symrefs, unborn, &mut seen);
    proof {
        if r is Ok {
            let rd = seen@->0;
            assert(rd.peeled.len() == spec_resolved_refs(rd.listing, rd.resolved).len());
        }
    }
    r
}

/// What `ls-refs` read of a repository: HEAD's id (none when it does not
/// resolve), what HEAD is (none when it cannot be read), the listing of the
/// references in order, the id each symbolic one leads to (none for the
/// others, and where it leads nowhere), and what each ref listed with an id
/// peels to.
pub struct LsRefsReading {
    pub head: Option<Seq<char>>,
    pub head_kind: Option<HeadKind>,
    pub listing: Seq<Option<RefRecord>>,
    pub resolved: Seq<Option<Seq<char>>>,
    pub peeled: Seq<Option<Seq<char>>>,
}

/// The branch `ls-refs` reports for HEAD: the one it names, born or not.
pub open spec fn head_target_of(kind: Option<HeadKind>) -> Option<Seq<char>> {
    match kind {
        Some(HeadKind::Symbolic(n)) => Some(n@),
        Some(HeadKind::Unborn(n)) => Some(n@),
        _ => None,
    }
}

/// The refs of a listing as `(id, name)`, in order: a ref with an id as it
/// is, a symbolic one with the id it was resolved to (left out when it leads
/// nowhere), an unreadable entry left out.
pub open spec fn spec_resolved_refs(listing: Seq<Option<RefRecord>>, resolved: Seq<Option<Seq<char>>>) -> Seq<(Seq<char>, Seq<char>)>
    decreases listing.len(),
{
    if listing.len() == 0 {
        Seq::empty()
    } else {
        let rest = spec_resolved_refs(listing.drop_last(), resolved.drop_last());
        match listing.last() {
            Some(r) => match r.target {
                RefTarget::Object(h) => rest.push((h@, r.name@)),
                RefTarget::Symbolic => match resolved.last() {
                    Some(id) => rest.push((id, r.name@)),
                    None => rest,
                },
            },
            None => rest,
        }
    }
}

/// `ls_refs_lines`, with what it read of the repository on the side: the
/// answer is `spec_ls_refs_answer` of HEAD, HEAD's branch, the refs of the
/// listing (`spec_resolved_refs`) and what they peel to; a peeled object is
/// read only for a listed tag when peeling was asked for.
pub fn ls_refs_lines_reported(
    repo_path: &str,
    ref_patterns: &Vec<String>,
    peel: bool,
    symrefs: bool,
    unborn: bool,
    seen: &mut Ghost<Option<LsRefsReading>>,
) -> (r: Result<Vec<PktLine>, RefsError>)
    ensures
        r matches Ok(lines) ==> (final(seen)@ matches Some(rd) && ({
            let others = spec_resolved_refs(rd.listing, rd.resolved);
            &&& rd.resolved.len() == rd.listing.len()
            &&& rd.peeled.len() == others.len()
            &&& lines_view(lines@) == spec_ls_refs_answer(
                rd.head,
                head_target_of(rd.head_kind),
                others,
                rd.peeled,
                svs(ref_patterns@),
                peel,
                symrefs,
                unborn,
            )
            &&& forall|k: int| 0 <= k < rd.peeled.len() && (#[trigger] rd.peeled[k]) is Some ==> peel
                && "refs/tags/"@.is_prefix_of(others[k].1) && listed(others[k].1, svs(ref_patterns@))
        })),
        r matches Err(e) ==> e is OpenFailedForLsRefs || e is ListFailed || e is WalkFailed,
{
    *seen = Ghost(None);
    let repo = match open_repository(repo_path) {
        Ok(repo) => repo,
        Err(_) => return Err(RefsError::OpenFailedForLsRefs),
    };
    let kind = match head_kind(&repo) {
        Ok(kind) => Some(kind),
        Err(_) => None,
    };
    let head_target = head_symref_target(&kind);
    let head = match head_id(&repo) {
        Ok(id) => Some(id_hex(&id)),
        Err(_) => None,
    };
    let listing = read_listing(&repo)?;
    let mut others: Vec<(String, String)> = Vec::new();
    let ghost mut resolved: Seq<Option<Seq<char>>> = Seq::empty();
    let mut i: usize = 0;
    assert(listing@.take(0) =~= Seq::<Option<RefRecord>>::empty());
    while i < listing.len()
        invariant
            i <= listing@.len(),
            resolved.len() == i,
            pairs_view(others@) == spec_resolved_refs(listing@.take(i as int), resolved),
        decreases listing@.len() - i,
    {
        let ghost before = pairs_view(others@);
        let ghost before_resolved = resolved;
        let ghost mut target: Option<Seq<char>> = None;
        match &listing[i] {
            Some(record) => match &record.target {
                RefTarget::Object(h) => {
                    others.push((copy_string(h), copy_string(&record.name)));
                },
                RefTarget::Symbolic => {
                    match find_reference(&repo, record.name.as_str()) {
                        Ok(reference) => match peel_reference(reference) {
                            Ok(id) => {
                                let hex = id_hex(&id);
                                proof {
                                    target = Some(hex@);
                                }
                                others.push((hex, copy_string(&record.name)));
                            },
                            Err(_) => {},
                        },
                        Err(_) => {},
                    }
                },
            },
            None => {},
        }
        proof {
            resolved = resolved.push(target);
            assert(listing@.take(i + 1).drop_last() =~= listing@.take(i as int));
            assert(resolved.drop_last() =~= before_resolved);
            assert(listing@.take(i + 1).last() == listing@[i as int]);
            assert(pairs_view(others@) =~= spec_resolved_refs(listing@.take(i + 1), resolved));
        }
        i = i + 1;
    }
    assert(listing@.take(listing@.len() as int) =~= listing@);
    let mut peeled: Vec<Option<String>> = Vec::new();
    let mut k: usize = 0;
    while k < others.len()
        invariant
            k <= others@.len(),
            peeled@.len() == k,
            forall|j: int| 0 <= j < k ==> (#[trigger] peeled@[j]) is Some ==> peel && "refs/tags/"@.is_prefix_of(
                others@[j].1@,
            ) && listed(others@[j].1@, svs(ref_patterns@)),
        decreases others@.len() - k,
    {
        let name = &others[k].1;
        let p = if wants_peel(peel, name) && is_listed(name, ref_patterns.as_slice()) {
            get_tag_peel(repo_path, others[k].0.as_str())
        } else {
            None
        };
        peeled.push(p);
        k = k + 1;
    }
    *seen = Ghost(Some(LsRefsReading { head: opt_view(head), head_kind: kind, listing: listing@, resolved, peeled: opts_view(peeled@) }));
    let lines = ls_refs_answer(&head, &head_target, &others, &peeled, ref_patterns, peel, symrefs, unborn);
    Ok(lines)
}

} // verus!

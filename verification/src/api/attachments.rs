//! Uploads attached to issues, pull requests and their comments: where they
//! are listed, who may change them, how large an upload may grow and the
//! name a download is offered under.

use vstd::prelude::*;
use crate::api::archive::ReadAccess;
use crate::text::{append_chars, chars_of, int_text, spec_int_text, string_chars, string_of};

verus! {

#[derive(Debug)]
pub struct UploadQuery {
    pub name: Option<String>,
}

/// What an attachment is attached to.
#[derive(Debug, Clone, Copy, PartialEq, Eq, Structural)]
pub enum TargetKind {
    Issue,
    PullRequest,
    IssueComment,
    ReviewComment,
}

/// The largest attachment accepted: 100 MiB.
pub const MAX_ATTACHMENT_SIZE: u64 = 104857600;

/// The path segment, under the repository, of the attachments of a target.
pub open spec fn spec_kind_segment(kind: TargetKind) -> Seq<char> {
    match kind {
        TargetKind::Issue => "/issues/"@,
        TargetKind::PullRequest => "/pulls/"@,
        TargetKind::IssueComment => "/issues/comments/"@,
        TargetKind::ReviewComment => "/pulls/comments/"@,
    }
}

/// `/api/v1/repos/<owner>/<repo><segment><target>/assets`.
pub open spec fn spec_assets_base(owner: Seq<char>, repo: Seq<char>, kind: TargetKind, target_id: int) -> Seq<char> {
    "/api/v1/repos/"@ + owner + "/"@ + repo + spec_kind_segment(kind) + spec_int_text(target_id) + "/assets"@
}

fn kind_segment(kind: TargetKind) -> (s: &'static str)
    ensures
        s@ == spec_kind_segment(kind),
{
    match kind {
        TargetKind::Issue => "/issues/",
        TargetKind::PullRequest => "/pulls/",
        TargetKind::IssueComment => "/issues/comments/",
        TargetKind::ReviewComment => "/pulls/comments/",
    }
}

/// The API path under which the attachments of a target are listed.
pub fn assets_base(owner: &str, repo: &str, kind: TargetKind, target_id: i64) -> (p: String)
    ensures
        p@ == spec_assets_base(owner@, repo@, kind, target_id as int),
{
    let mut v = chars_of("/api/v1/repos/");
    append_chars(&mut v, chars_of(owner).as_slice());
    v.push('/');
    append_chars(&mut v, chars_of(repo).as_slice());
    append_chars(&mut v, chars_of(kind_segment(kind)).as_slice());
    append_chars(&mut v, int_text(target_id).as_slice());
    append_chars(&mut v, chars_of("/assets").as_slice());
    proof {
        reveal_strlit("/");
        assert(v@ =~= spec_assets_base(owner@, repo@, kind, target_id as int));
    }
    string_of(v.as_slice())
}

/// The URL an attachment is downloaded from: its id under the target's
/// attachment path.
pub fn browser_download_url(owner: &str, repo: &str, kind: TargetKind, target_id: i64, attachment_id: i64) -> (u: String)
    ensures
        u@ == spec_assets_base(owner@, repo@, kind, target_id as int) + "/"@ + spec_int_text(attachment_id as int),
{
    let base = assets_base(owner, repo, kind, target_id);
    let mut v = string_chars(&base);
    v.push('/');
    append_chars(&mut v, int_text(attachment_id).as_slice());
    proof {
        reveal_strlit("/");
        assert(v@ =~= base@ + "/"@ + spec_int_text(attachment_id as int));
    }
    string_of(v.as_slice())
}

/// Whether a request may read the attachments of a repository: a refused
/// anonymous request must authenticate, a refused signed-in one is denied.
pub fn attachment_read_access(can_read: bool, authenticated: bool) -> (a: ReadAccess)
    ensures
        a == (if can_read {
            ReadAccess::Allowed
        } else if authenticated {
            ReadAccess::Forbidden
        } else {
            ReadAccess::Unauthorized
        }),
{
    if can_read {
        ReadAccess::Allowed
    } else if authenticated {
        ReadAccess::Forbidden
    } else {
        ReadAccess::Unauthorized
    }
}

/// Whether a user may add or delete attachments of a target: its author may,
/// and so may anyone with write access to the repository.
pub fn may_change_attachments(user_id: i64, author_id: i64, can_write: bool) -> (b: bool)
    ensures
        b == (user_id == author_id || can_write),
{
    user_id == author_id || can_write
}

/// The size of an upload after one more chunk: `None` where it would pass
/// `MAX_ATTACHMENT_SIZE`, or not fit in a `u64`.
pub fn upload_size_after(size: u64, chunk_len: u64) -> (r: Option<u64>)
    ensures
        r == (if size + chunk_len <= MAX_ATTACHMENT_SIZE {
            Some((size + chunk_len) as u64)
        } else {
            None::<u64>
        }),
{
    match size.checked_add(chunk_len) {
        Some(total) => {
            if total <= MAX_ATTACHMENT_SIZE {
                Some(total)
            } else {
                None
            }
        },
        None => None,
    }
}

/// The file name an upload is stored under: the one the query names, else
/// the one the form field carries, else the empty name.
pub fn upload_file_name(query_name: Option<String>, field_file_name: Option<String>) -> (n: String)
    ensures
        n@ == (match query_name {
            Some(q) => q@,
            None => match field_file_name {
                Some(f) => f@,
                None => Seq::<char>::empty(),
            },
        }),
{
    match query_name {
        Some(q) => q,
        None => match field_file_name {
            Some(f) => f,
            None => String::new(),
        },
    }
}

/// The media type an upload is stored with: the form field's, else
/// `application/octet-stream`.
pub fn upload_content_type(field_content_type: Option<String>) -> (t: String)
    ensures
        t@ == (match field_content_type {
            Some(c) => c@,
            None => "application/octet-stream"@,
        }),
{
    match field_content_type {
        Some(c) => c,
        None => String::from_str("application/octet-stream"),
    }
}

/// A file name with each `"` and `\` replaced by `_`.
pub open spec fn spec_safe_attachment_name(name: Seq<char>) -> Seq<char> {
    name.map_values(|c: char| if c == '"' || c == '\\' { '_' } else { c })
}

/// The file name a download is offered under: no quote or backslash can
/// close or escape the quoted header parameter.
pub fn safe_attachment_name(name: &str) -> (s: String)
    ensures
        s@ == spec_safe_attachment_name(name@),
{
    let cs = chars_of(name);
    let mut out: Vec<char> = Vec::new();
    let mut i: usize = 0;
    while i < cs.len()
        invariant
            i <= cs@.len(),
            out@ == spec_safe_attachment_name(cs@.take(i as int)),
        decreases cs@.len() - i,
    {
        let c = cs[i];
        if c == '"' || c == '\\' {
            out.push('_');
        } else {
            out.push(c);
        }
        assert(cs@.take(i + 1) =~= cs@.take(i as int).push(c));
        assert(spec_safe_attachment_name(cs@.take(i + 1)) =~= spec_safe_attachment_name(cs@.take(i as int)).push(
            if c == '"' || c == '\\' { '_' } else { c },
        ));
        i = i + 1;
    }
    assert(cs@.take(cs@.len() as int) =~= cs@);
    string_of(out.as_slice())
}

/// The Content-Disposition of an attachment download:
/// `attachment; filename="<safe name>"`.
pub fn attachment_disposition(name: &str) -> (d: String)
    ensures
        d@ == "attachment; filename=\""@ + spec_safe_attachment_name(name@) + "\""@,
{
    let safe = safe_attachment_name(name);
    let mut v = chars_of("attachment; filename=\"");
    append_chars(&mut v, string_chars(&safe).as_slice());
    v.push('"');
    proof {
        reveal_strlit("\"");
        assert(v@ =~= "attachment; filename=\""@ + safe@ + "\""@);
    }
    string_of(v.as_slice())
}

/// A downloaded file name carries no `"` and no `\`.
pub proof fn lemma_safe_attachment_name_is_quoted_safely(name: Seq<char>)
    ensures
        spec_safe_attachment_name(name).len() == name.len(),
        forall|i: int|
            0 <= i < name.len() ==> #[trigger] spec_safe_attachment_name(name)[i] != '"'
                && spec_safe_attachment_name(name)[i] != '\\',
        forall|i: int|
            0 <= i < name.len() && name[i] != '"' && name[i] != '\\' ==> #[trigger] spec_safe_attachment_name(name)[i]
                == name[i],
{
}

} // verus!

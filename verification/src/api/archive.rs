//! Repository archives: the file name a download asks for, the `git archive`
//! run that produces it, and the headers it is sent with.

use vstd::prelude::*;
use crate::text::{append_chars, chars_of, spec_strip_suffix_chars, string_chars, string_of, strip_suffix_chars, svs};

verus! {

/// What an archive download asks for: the revision, the extension it was
/// named with, the `git archive` format and the media type.
pub struct ArchiveRequest {
    pub sha: String,
    pub ext: String,
    pub format_flag: String,
    pub mime: String,
}

/// The parts of an archive file name `<rev>.<ext>`: `.tar.gz` and `.tgz`
/// (gzip-compressed tar) are checked before `.zip`. Other names are refused.
pub open spec fn spec_archive_request(archive: Seq<char>) -> Option<(Seq<char>, Seq<char>, Seq<char>, Seq<char>)> {
    match spec_strip_suffix_chars(archive, ".tar.gz"@) {
        Some(s) => Some((s, "tar.gz"@, "tar.gz"@, "application/gzip"@)),
        None => match spec_strip_suffix_chars(archive, ".tgz"@) {
            Some(s) => Some((s, "tgz"@, "tar.gz"@, "application/gzip"@)),
            None => match spec_strip_suffix_chars(archive, ".zip"@) {
                Some(s) => Some((s, "zip"@, "zip"@, "application/zip"@)),
                None => None,
            },
        },
    }
}

fn request(sha: Vec<char>, ext: &str, format_flag: &str, mime: &str) -> (r: ArchiveRequest)
    ensures
        r.sha@ == sha@,
        r.ext@ == ext@,
        r.format_flag@ == format_flag@,
        r.mime@ == mime@,
{
    ArchiveRequest {
        sha: string_of(sha.as_slice()),
        ext: String::from_str(ext),
        format_flag: String::from_str(format_flag),
        mime: String::from_str(mime),
    }
}

/// Split an archive file name; `None` for an unsupported format.
pub fn parse_archive_name(archive: &str) -> (r: Option<ArchiveRequest>)
    ensures
        match r {
            Some(q) => spec_archive_request(archive@) == Some((q.sha@, q.ext@, q.format_flag@, q.mime@)),
            None => spec_archive_request(archive@) is None,
        },
{
    let a = chars_of(archive);
    match strip_suffix_chars(a.as_slice(), chars_of(".tar.gz").as_slice()) {
        Some(s) => return Some(request(s, "tar.gz", "tar.gz", "application/gzip")),
        None => {},
    }
    match strip_suffix_chars(a.as_slice(), chars_of(".tgz").as_slice()) {
        Some(s) => return Some(request(s, "tgz", "tar.gz", "application/gzip")),
        None => {},
    }
    match strip_suffix_chars(a.as_slice(), chars_of(".zip").as_slice()) {
        Some(s) => Some(request(s, "zip", "zip", "application/zip")),
        None => None,
    }
}

impl ArchiveRequest {
    /// The arguments of the `git archive` run.
    pub fn git_args(&self) -> (args: Vec<String>)
        ensures
            svs(args@) == seq!["archive"@, "--format="@ + self.format_flag@, self.sha@],
    {
        let mut args: Vec<String> = Vec::new();
        args.push(String::from_str("archive"));
        let mut f = chars_of("--format=");
        append_chars(&mut f, string_chars(&self.format_flag).as_slice());
        args.push(string_of(f.as_slice()));
        args.push(string_of(string_chars(&self.sha).as_slice()));
        assert(svs(args@) =~= seq!["archive"@, "--format="@ + self.format_flag@, self.sha@]);
        args
    }

    /// The Content-Disposition of the download of repository `name`:
    /// `attachment; filename="<name>-<first 7 characters of rev>.<ext>"`.
    pub fn content_disposition(&self, name: &str) -> (d: String)
        ensures
            d@ == "attachment; filename=\""@ + name@ + "-"@ + self.sha@.take(
                if self.sha@.len() < 7 {
                    self.sha@.len() as int
                } else {
                    7
                },
            ) + "."@ + self.ext@ + "\""@,
    {
        let sha = string_chars(&self.sha);
        let n: usize = if sha.len() < 7 {
            sha.len()
        } else {
            7
        };
        let mut d = chars_of("attachment; filename=\"");
        append_chars(&mut d, chars_of(name).as_slice());
        d.push('-');
        let ghost before = d@;
        let mut i: usize = 0;
        while i < n
            invariant
                i <= n <= sha@.len(),
                d@ == before + sha@.take(i as int),
            decreases n - i,
        {
            d.push(sha[i]);
            assert(sha@.take(i + 1) =~= sha@.take(i as int).push(sha@[i as int]));
            i = i + 1;
        }
        d.push('.');
        append_chars(&mut d, string_chars(&self.ext).as_slice());
        d.push('"');
        proof {
            reveal_strlit("-");
            reveal_strlit(".");
            reveal_strlit("\"");
            assert(d@ =~= "attachment; filename=\""@ + name@ + "-"@ + sha@.take(n as int) + "."@ + self.ext@ + "\""@);
        }
        string_of(d.as_slice())
    }
}

/// What a read of a repository by a request comes to.
#[derive(Debug, Clone, Copy, PartialEq, Eq, Structural)]
pub enum ReadAccess {
    /// The read is allowed.
    Allowed,
    /// An anonymous request for a private repository must authenticate.
    Unauthorized,
    /// The read is denied.
    Forbidden,
}

/// Whether a request may read a repository: when the caller can read it, or
/// when an anonymous request carries a CI job token with read access to it;
/// otherwise an anonymous request for a private repository must
/// authenticate, and any other request is denied.
pub fn read_access(can_read: bool, anonymous: bool, ci_token_reads: bool, is_private: bool) -> (a: ReadAccess)
    ensures
        a == (if can_read || (anonymous && ci_token_reads) {
            ReadAccess::Allowed
        } else if is_private && anonymous {
            ReadAccess::Unauthorized
        } else {
            ReadAccess::Forbidden
        }),
{
    if can_read || (anonymous && ci_token_reads) {
        ReadAccess::Allowed
    } else if is_private && anonymous {
        ReadAccess::Unauthorized
    } else {
        ReadAccess::Forbidden
    }
}

} // verus!

//! Repository content: trees, blobs, commit logs and file edits.

use vstd::prelude::*;
use crate::ops::{
    commit_author, commit_message_bytes, commit_tree_id, find_commit, gix_error_text, id_detach, id_hex,
    is_lower_hex, open_repository, rev_parse_single, signature_parts,
};
use crate::ops::find_object;
use crate::refs::{all_references, head_kind, oid_from_hex, reference_platform, HeadKind, RefRecord};
use crate::text::{
    append_chars, chars_eq, chars_of, copy_string, decode_lossy, lines, parse_i64, spec_lines, spec_parse_i64,
    spec_split_whitespace, spec_strip_prefix, spec_trim, split_char, split_whitespace, str_is, string_chars,
    string_of, strip_prefix, svs, trim, utf8_lossy,
};

verus! {

pub struct TreeQuery {
    /// Git ref (branch, tag, commit SHA). Default: HEAD
    pub git_ref: Option<String>,
    /// Sub-path within the tree. Default: root
    pub path: Option<String>,
}

pub struct BlobQuery {
    pub git_ref: Option<String>,
}

pub struct LogQuery {
    pub git_ref: Option<String>,
    pub path: Option<String>,
    pub limit: Option<i64>,
}

/// Request body for creating/updating a file.
pub struct CreateOrUpdateFileRequest {
    /// Branch name (default: repo's default branch)
    pub branch: Option<String>,
    /// File content (UTF-8 string, not base64)
    pub content: String,
    /// Commit message
    pub message: String,
    /// Blob SHA of the file being updated (required for updates, omit for creates)
    pub sha: Option<String>,
}

/// Query parameters for deleting a file.
pub struct DeleteFileQuery {
    /// Branch name (default: repo's default branch)
    pub branch: Option<String>,
    /// Commit message
    pub message: String,
    /// Blob SHA of the file (required to prevent accidental deletes)
    pub sha: String,
}

/// Response for file creation/update/deletion.
pub struct FileOperationResponse {
    pub success: bool,
    pub file_path: String,
    pub commit_sha: String,
    pub message: String,
}

pub struct TreeEntry {
    pub name: String,
    pub path: String,
    pub kind: String, // "tree" | "blob"
    pub size: Option<i64>,
    pub sha: Option<String>,
}

pub struct BlobContent {
    pub path: String,
    pub sha: String,
    pub size: i64,
    pub content: String,
    pub encoding: String, // "utf-8" | "base64"
    pub is_binary: bool,
}

pub struct CommitEntry {
    pub sha: String,
    pub author_name: String,
    pub author_email: String,
    pub author_date: String,
    pub message: String,
    pub gpg_signature: Option<GpgSignature>,
}

/// GPG signature information for a commit.
pub struct GpgSignature {
    pub verified: bool,
    pub signer_key: Option<String>,
    pub signer_name: Option<String>,
    pub signer_email: Option<String>,
    pub status: String,
}

// ── Signatures ───────────────────────────────────────────────────────────

/// The arguments of the `git log` run that reports a commit's signature:
/// status, key, signer name and signer email, one per line.
pub fn signature_log_args(sha: &str) -> (args: Vec<String>)
    ensures
        svs(args@) == seq!["log"@, "--format=%G?%n%GK%n%GN%n%GE"@, "-1"@, sha@],
{
    let mut args: Vec<String> = Vec::new();
    args.push(String::from_str("log"));
    args.push(String::from_str("--format=%G?%n%GK%n%GN%n%GE"));
    args.push(String::from_str("-1"));
    args.push(String::from_str(sha));
    assert(svs(args@) =~= seq!["log"@, "--format=%G?%n%GK%n%GN%n%GE"@, "-1"@, sha@]);
    args
}

/// A signature record with no signer and the given status.
fn unverified(status: &str) -> (g: GpgSignature)
    ensures
        !g.verified,
        g.signer_key is None && g.signer_name is None && g.signer_email is None,
        g.status@ == status@,
{
    GpgSignature {
        verified: false,
        signer_key: None,
        signer_name: None,
        signer_email: None,
        status: String::from_str(status),
    }
}

/// The record of an unsigned commit.
pub fn unsigned_signature() -> (g: GpgSignature)
    ensures
        !g.verified,
        g.signer_key is None && g.signer_name is None && g.signer_email is None,
        g.status@ == "no_signature"@,
{
    unverified("no_signature")
}

/// The record of a signed commit whose check could not run.
pub fn failed_verification() -> (g: GpgSignature)
    ensures
        !g.verified,
        g.signer_key is None && g.signer_name is None && g.signer_email is None,
        g.status@ == "verification_failed"@,
{
    unverified("verification_failed")
}

/// Whether a signature is valid, and its status name, for git's `%G?` code.
pub open spec fn spec_signature_status(code: Seq<char>) -> (bool, Seq<char>) {
    if code == "G"@ {
        (true, "valid"@)
    } else if code == "E"@ {
        (false, "expired"@)
    } else if code == "X"@ || code == "Y"@ {
        (false, "expired_key"@)
    } else if code == "R"@ {
        (false, "revoked_key"@)
    } else if code == "B"@ {
        (false, "bad_signature"@)
    } else if code == "U"@ {
        (false, "untrusted"@)
    } else if code == "N"@ {
        (false, "no_signature"@)
    } else {
        (false, "unknown_"@ + code)
    }
}

/// Line `i` of the report, trimmed, when there is such a line and it is not
/// blank.
pub open spec fn report_field(ls: Seq<Seq<char>>, i: int) -> Option<Seq<char>> {
    if i < ls.len() && spec_trim(ls[i]).len() > 0 {
        Some(spec_trim(ls[i]))
    } else {
        None
    }
}

/// The status code of the report: its first line, trimmed, or `N` when it
/// has no line.
pub open spec fn report_code(ls: Seq<Seq<char>>) -> Seq<char> {
    if ls.len() > 0 {
        spec_trim(ls[0])
    } else {
        "N"@
    }
}

fn field(ls: &Vec<String>, i: usize) -> (r: Option<String>)
    ensures
        match r {
            Some(f) => report_field(svs(ls@), i as int) == Some(f@),
            None => report_field(svs(ls@), i as int) is None,
        },
{
    if i < ls.len() {
        let t = trim(string_chars(&ls[i]).as_slice());
        if t.len() > 0 {
            return Some(string_of(t.as_slice()));
        }
    }
    None
}

/// The signature record of a successful `git log` signature report.
pub fn parse_signature_log(stdout: &str) -> (g: GpgSignature)
    ensures
        ({
            let ls = spec_lines(stdout@);
            let (verified, status) = spec_signature_status(report_code(ls));
            &&& g.verified == verified
            &&& g.status@ == status
            &&& match g.signer_key {
                Some(k) => report_field(ls, 1) == Some(k@),
                None => report_field(ls, 1) is None,
            }
            &&& match g.signer_name {
                Some(n) => report_field(ls, 2) == Some(n@),
                None => report_field(ls, 2) is None,
            }
            &&& match g.signer_email {
                Some(e) => report_field(ls, 3) == Some(e@),
                None => report_field(ls, 3) is None,
            }
        }),
{
    let ls = lines(chars_of(stdout).as_slice());
    let code = if ls.len() > 0 {
        string_of(trim(string_chars(&ls[0]).as_slice()).as_slice())
    } else {
        String::from_str("N")
    };
    let c = code.as_str();
    let (verified, status) = if str_is(c, "G") {
        (true, String::from_str("valid"))
    } else if str_is(c, "E") {
        (false, String::from_str("expired"))
    } else if str_is(c, "X") || str_is(c, "Y") {
        (false, String::from_str("expired_key"))
    } else if str_is(c, "R") {
        (false, String::from_str("revoked_key"))
    } else if str_is(c, "B") {
        (false, String::from_str("bad_signature"))
    } else if str_is(c, "U") {
        (false, String::from_str("untrusted"))
    } else if str_is(c, "N") {
        (false, String::from_str("no_signature"))
    } else {
        let mut v = chars_of("unknown_");
        append_chars(&mut v, string_chars(&code).as_slice());
        (false, string_of(v.as_slice()))
    };
    GpgSignature {
        verified,
        signer_key: field(&ls, 1),
        signer_name: field(&ls, 2),
        signer_email: field(&ls, 3),
        status,
    }
}

// ── Blobs ────────────────────────────────────────────────────────────────

/// The base64 digit of a six-bit value.
pub open spec fn base64_digit(v: int) -> char {
    if v < 26 {
        (65 + v) as char
    } else if v < 52 {
        (97 + v - 26) as char
    } else if v < 62 {
        (48 + v - 52) as char
    } else if v == 62 {
        '+'
    } else {
        '/'
    }
}

/// Standard base64 with `=` padding, three bytes to four digits.
pub open spec fn spec_base64(d: Seq<u8>) -> Seq<char>
    decreases d.len(),
{
    if d.len() == 0 {
        Seq::empty()
    } else if d.len() == 1 {
        seq![base64_digit(d[0] as int / 4), base64_digit((d[0] as int % 4) * 16), '=', '=']
    } else if d.len() == 2 {
        seq![
            base64_digit(d[0] as int / 4),
            base64_digit((d[0] as int % 4) * 16 + d[1] as int / 16),
            base64_digit((d[1] as int % 16) * 4),
            '=',
        ]
    } else {
        seq![
            base64_digit(d[0] as int / 4),
            base64_digit((d[0] as int % 4) * 16 + d[1] as int / 16),
            base64_digit((d[1] as int % 16) * 4 + d[2] as int / 64),
            base64_digit(d[2] as int % 64),
        ] + spec_base64(d.skip(3))
    }
}

fn digit(v: u8) -> (c: char)
    requires
        v < 64,
    ensures
        c == base64_digit(v as int),
{
    if v < 26 {
        (65 + v) as char
    } else if v < 52 {
        (97 + v - 26) as char
    } else if v < 62 {
        (48 + v - 52) as char
    } else if v == 62 {
        '+'
    } else {
        '/'
    }
}

/// Encode bytes in standard base64.
pub fn base64_encode(data: &[u8]) -> (s: String)
    ensures
        s@ == spec_base64(data@),
{
    let mut out: Vec<char> = Vec::new();
    let mut i: usize = 0;
    assert(data@.skip(0) =~= data@);
    assert(Seq::<char>::empty() + spec_base64(data@) =~= spec_base64(data@));
    while i < data.len()
        invariant
            i <= data@.len(),
            spec_base64(data@) == out@ + spec_base64(data@.skip(i as int)),
        decreases data@.len() - i,
    {
        let ghost rest = data@.skip(i as int);
        let ghost before = out@;
        let b0 = data[i];
        assert(rest[0] == b0);
        if data.len() - i == 1 {
            out.push(digit(b0 / 4));
            out.push(digit((b0 % 4) * 16));
            out.push('=');
            out.push('=');
            assert(out@ =~= before + spec_base64(rest));
            assert(data@.skip(i + 1) =~= Seq::<u8>::empty());
            assert(out@ + Seq::<char>::empty() =~= out@);
            i = i + 1;
        } else if data.len() - i == 2 {
            let b1 = data[i + 1];
            assert(rest[1] == b1);
            out.push(digit(b0 / 4));
            out.push(digit((b0 % 4) * 16 + b1 / 16));
            out.push(digit((b1 % 16) * 4));
            out.push('=');
            assert(out@ =~= before + spec_base64(rest));
            assert(data@.skip(i + 2) =~= Seq::<u8>::empty());
            assert(out@ + Seq::<char>::empty() =~= out@);
            i = i + 2;
        } else {
            let b1 = data[i + 1];
            let b2 = data[i + 2];
            assert(rest[1] == b1 && rest[2] == b2);
            out.push(digit(b0 / 4));
            out.push(digit((b0 % 4) * 16 + b1 / 16));
            out.push(digit((b1 % 16) * 4 + b2 / 64));
            out.push(digit(b2 % 64));
            assert(rest.skip(3) =~= data@.skip(i + 3));
            assert(out@ + spec_base64(data@.skip(i + 3)) =~= before + spec_base64(rest));
            i = i + 3;
        }
    }
    string_of(out.as_slice())
}

/// Whether the bytes hold a zero byte.
pub fn contains_zero(data: &[u8]) -> (b: bool)
    ensures
        b == data@.contains(0u8),
{
    let mut i: usize = 0;
    while i < data.len()
        invariant
            i <= data@.len(),
            forall|k: int| 0 <= k < i ==> data@[k] != 0u8,
        decreases data@.len() - i,
    {
        if data[i] == 0 {
            assert(data@[i as int] == 0u8);
            return true;
        }
        i = i + 1;
    }
    false
}

/// What the content of the file at `path`, of id `sha` and data `data`,
/// is answered as: base64 when the data holds a zero byte, else its text.
pub open spec fn blob_content_holds(b: BlobContent, path: Seq<char>, sha: Seq<char>, data: Seq<u8>) -> bool {
    &&& b.path@ == path
    &&& b.sha@ == sha
    &&& b.size == data.len() as i64
    &&& b.is_binary == data.contains(0u8)
    &&& b.is_binary ==> b.content@ == spec_base64(data) && b.encoding@ == "base64"@
    &&& !b.is_binary ==> b.content@ == utf8_lossy(data) && b.encoding@ == "utf-8"@
}

/// The content record of a blob: binary blobs (those holding a zero byte)
/// are sent in base64, others as text decoded leniently.
pub fn blob_content(path: &str, sha: String, data: &[u8]) -> (b: BlobContent)
    ensures
        b.path@ == path@,
        b.sha@ == sha@,
        b.size == data@.len() as i64,
        b.is_binary == data@.contains(0u8),
        b.is_binary ==> b.content@ == spec_base64(data@) && b.encoding@ == "base64"@,
        !b.is_binary ==> b.content@ == utf8_lossy(data@) && b.encoding@ == "utf-8"@,
{
    let is_binary = contains_zero(data);
    let (content, encoding) = if is_binary {
        (base64_encode(data), String::from_str("base64"))
    } else {
        (decode_lossy(data), String::from_str("utf-8"))
    };
    BlobContent {
        path: String::from_str(path),
        sha,
        size: data.len() as i64,
        content,
        encoding,
        is_binary,
    }
}

// ── Trees and logs ───────────────────────────────────────────────────────

/// The path of a tree entry: its name under the listed sub-path, if any.
pub open spec fn spec_entry_path(sub_path: Seq<char>, name: Seq<char>) -> Seq<char> {
    if sub_path.len() == 0 {
        name
    } else {
        sub_path + "/"@ + name
    }
}

/// The path of a tree entry.
pub fn tree_entry_path(sub_path: &str, name: &str) -> (p: String)
    ensures
        p@ == spec_entry_path(sub_path@, name@),
{
    let s = chars_of(sub_path);
    if s.len() == 0 {
        return String::from_str(name);
    }
    let mut v = s;
    v.push('/');
    append_chars(&mut v, chars_of(name).as_slice());
    proof {
        reveal_strlit("/");
        assert(v@ =~= sub_path@ + "/"@ + name@);
    }
    string_of(v.as_slice())
}

/// The kind of a tree entry: `tree` for a sub-tree, `blob` otherwise.
pub fn entry_kind(is_tree: bool) -> (k: String)
    ensures
        k@ == if is_tree {
            "tree"@
        } else {
            "blob"@
        },
{
    if is_tree {
        String::from_str("tree")
    } else {
        String::from_str("blob")
    }
}

/// The subject of a commit message: its first line, or nothing.
pub open spec fn spec_subject(message: Seq<char>) -> Seq<char> {
    if spec_lines(message).len() > 0 {
        spec_lines(message)[0]
    } else {
        Seq::empty()
    }
}

/// The first line of a commit message.
pub fn commit_subject(message: &str) -> (s: String)
    ensures
        s@ == spec_subject(message@),
{
    let ls = lines(chars_of(message).as_slice());
    if ls.len() > 0 {
        assert(svs(ls@)[0] == ls@[0]@);
        string_of(string_chars(&ls[0]).as_slice())
    } else {
        String::new()
    }
}

/// The seconds of a raw signature time (`<seconds> <offset>`): its first
/// field as an integer, or 0 when it has none or it does not parse.
pub open spec fn spec_signature_seconds(time: Seq<char>) -> i64 {
    let fields = spec_split_whitespace(time);
    if fields.len() > 0 {
        match spec_parse_i64(fields[0]) {
            Some(v) => v,
            None => 0,
        }
    } else {
        match spec_parse_i64("0"@) {
            Some(v) => v,
            None => 0,
        }
    }
}

/// Read the seconds of a raw signature time.
pub fn signature_seconds(time: &str) -> (v: i64)
    ensures
        v == spec_signature_seconds(time@),
{
    let fields = split_whitespace(chars_of(time).as_slice());
    if fields.len() > 0 {
        match parse_i64(fields[0].as_slice()) {
            Some(v) => v,
            None => 0,
        }
    } else {
        match parse_i64(chars_of("0").as_slice()) {
            Some(v) => v,
            None => 0,
        }
    }
}

// ── Reading the repository ───────────────────────────────────────────────

#[verifier::external_type_specification]
#[verifier::external_body]
pub struct ExBlob<'r>(gix::Blob<'r>);

/// Calls `Repository::find_commit`: the commit with this id.
#[verifier::external_body]
fn find_commit_by_id<'r>(repo: &'r gix::Repository, id: &gix::ObjectId) -> (r: Result<gix::Commit<'r>, gix::Error>) {
    repo.find_commit(*id)
}

/// Calls `Repository::find_tree`: the tree with this id.
#[verifier::external_body]
fn find_tree<'r>(repo: &'r gix::Repository, id: &gix::ObjectId) -> (r: Result<gix::Tree<'r>, gix::Error>) {
    repo.find_tree(*id)
}

/// Calls `Tree::iter`: each entry as its file name, object id and whether
/// it is a sub-tree, or `None` where it cannot be read.
#[verifier::external_body]
fn tree_entries(tree: &gix::Tree) -> (entries: Vec<Option<(String, gix::ObjectId, bool)>>) {
    tree.iter().map(|entry| entry.ok().map(|e| (e.filename().to_string(), e.oid().to_owned(), e.mode().is_tree()))).collect()
}

/// Calls `Object::try_into_blob`: the object as a blob, or the message of
/// why it is none.
#[verifier::external_body]
fn object_into_blob<'r>(object: gix::Object<'r>) -> (r: Result<gix::Blob<'r>, String>) {
    object.try_into_blob().map_err(|e| e.to_string())
}

/// Copies the `data` of a blob.
#[verifier::external_body]
fn blob_data(blob: &gix::Blob) -> (d: Vec<u8>) {
    blob.data.clone()
}

/// Calls `Commit::decode` and looks the header up among its
/// `extra_headers`: whether the commit carries it.
#[verifier::external_body]
fn has_extra_header(commit: &gix::Commit, name: &str) -> (r: Result<bool, gix::Error>) {
    commit.decode().map(|decoded| decoded.extra_headers().find(name).is_some())
}

/// Calls `Repository::rev_walk` from `tip` (its whole history); each item
/// of the walk is its commit id, or `None` where reading the item failed.
#[verifier::external_body]
fn walk_from(repo: &gix::Repository, tip: &gix::ObjectId) -> (r: Result<Vec<Option<gix::ObjectId>>, gix::Error>) {
    repo.rev_walk([*tip]).all().map(|walk| walk.map(|item| item.ok().map(|info| info.id)).collect())
}

/// The RFC 3339 text chrono writes for a time in whole seconds since the
/// epoch (in UTC), `None` out of chrono's range.
pub uninterp spec fn rfc3339_utc(seconds: i64) -> Option<Seq<char>>;

/// Calls `chrono::DateTime::<Utc>::from_timestamp` (whole seconds) and
/// `to_rfc3339`. The result is named `rfc3339_utc` of the seconds.
#[verifier::external_body]
fn utc_rfc3339(seconds: i64) -> (r: Option<String>)
    ensures
        match r {
            Some(t) => rfc3339_utc(seconds) == Some(t@),
            None => rfc3339_utc(seconds) is None,
        },
{
    chrono::DateTime::<chrono::Utc>::from_timestamp(seconds, 0).map(|time| time.to_rfc3339())
}

/// The author date a commit log shows for a raw signature time: its
/// seconds (see `spec_signature_seconds`) in RFC 3339, empty when out of
/// range.
pub fn author_date(time: &str) -> (d: String)
    ensures
        d@ == match rfc3339_utc(spec_signature_seconds(time@)) {
            Some(t) => t,
            None => Seq::<char>::empty(),
        },
{
    match utc_rfc3339(signature_seconds(time)) {
        Some(d) => d,
        None => String::new(),
    }
}

/// `a` followed by `b`, `c` and so on.
fn join2(a: &str, b: &str) -> (m: String)
    ensures
        m@ == a@ + b@,
{
    let mut v = chars_of(a);
    append_chars(&mut v, chars_of(b).as_slice());
    string_of(v.as_slice())
}

fn join3(a: &str, b: &str, c: &str) -> (m: String)
    ensures
        m@ == a@ + b@ + c@,
{
    let mut v = chars_of(a);
    append_chars(&mut v, chars_of(b).as_slice());
    append_chars(&mut v, chars_of(c).as_slice());
    string_of(v.as_slice())
}

/// The message of a repository that does not open: its path, quoted.
pub open spec fn spec_open_failure(repo_path: Seq<char>) -> Seq<char> {
    "failed to open repository: \""@ + repo_path + "\""@
}

fn open_failure(repo_path: &str) -> (m: String)
    ensures
        m@ == spec_open_failure(repo_path@),
{
    join3("failed to open repository: \"", repo_path, "\"")
}

/// Whether the repository has no commit yet: HEAD names a branch that is
/// not born. A repository whose HEAD cannot be read counts as empty; one
/// that does not open does not.
pub fn is_empty_repo(repo_path: &str) -> (b: bool) {
    let mut seen: Ghost<Option<Option<bool>>> = Ghost(None);
    is_empty_repo_reported(repo_path, &mut seen)
}

/// `is_empty_repo`, with what it read on the side: `None` when the
/// repository did not open, `Some(None)` when HEAD could not be read, else
/// `Some(Some(u))` with `u` whether HEAD names an unborn branch.
pub fn is_empty_repo_reported(repo_path: &str, seen: &mut Ghost<Option<Option<bool>>>) -> (b: bool)
    ensures
        b == (final(seen)@ matches Some(k) && (k is None || k == Some(true))),
{
    *seen = Ghost(None);
    let repo = match open_repository(repo_path) {
        Ok(repo) => repo,
        Err(_) => return false,
    };
    match head_kind(&repo) {
        Ok(HeadKind::Unborn(_)) => {
            *seen = Ghost(Some(Some(true)));
            true
        },
        Ok(_) => {
            *seen = Ghost(Some(Some(false)));
            false
        },
        Err(_) => {
            *seen = Ghost(Some(None));
            true
        },
    }
}

/// The size of a blob's data.
pub fn get_blob_size(repo_path: &str, sha: &str) -> (r: Result<i64, String>)
    ensures
        r is Ok ==> crate::ops::is_hex_id(sha@),
        r matches Err(m) ==> m@ == spec_open_failure(repo_path@) || "invalid SHA: "@.is_prefix_of(m@)
            || "object not found: "@.is_prefix_of(m@) || "not a blob: "@.is_prefix_of(m@),
{
    let mut seen: Ghost<Option<Seq<u8>>> = Ghost(None);
    get_blob_size_reported(repo_path, sha, &mut seen)
}

/// `get_blob_size`, with the data of the blob it read on the side: the size
/// is the length of that data.
pub fn get_blob_size_reported(repo_path: &str, sha: &str, seen: &mut Ghost<Option<Seq<u8>>>) -> (r: Result<i64, String>)
    ensures
        r is Ok ==> crate::ops::is_hex_id(sha@),
        r matches Ok(n) ==> (final(seen)@ matches Some(d) && n == d.len() as i64),
        r matches Err(m) ==> m@ == spec_open_failure(repo_path@) || "invalid SHA: "@.is_prefix_of(m@)
            || "object not found: "@.is_prefix_of(m@) || "not a blob: "@.is_prefix_of(m@),
{
    *seen = Ghost(None);
    let repo = match open_repository(repo_path) {
        Ok(repo) => repo,
        Err(_) => return Err(open_failure(repo_path)),
    };
    let id = match oid_from_hex(sha) {
        Ok(id) => id,
        Err(e) => return Err(join2("invalid SHA: ", e.as_str())),
    };
    let object = match find_object(&repo, &id) {
        Ok(object) => object,
        Err(e) => return Err(join2("object not found: ", gix_error_text(&e).as_str())),
    };
    let size = match object_into_blob(object) {
        Ok(blob) => {
            let data = blob_data(&blob);
            *seen = Ghost(Some(data@));
            Ok(data.len() as i64)
        },
        Err(e) => Err(join2("not a blob: ", e.as_str())),
    };
    size
}

/// The content of the file at `path` in the tree of `git_ref`.
pub fn get_blob_content(repo_path: &str, git_ref: &str, path: &str) -> (r: Result<BlobContent, String>)
    ensures
        r matches Ok(b) ==> b.path@ == path@ && is_lower_hex(b.sha@),
        r matches Err(m) ==> m@ == spec_open_failure(repo_path@)
            || ("path '"@ + path@ + "' not found at ref '"@ + git_ref@ + "': "@).is_prefix_of(m@)
            || "failed to find object: "@.is_prefix_of(m@)
            || ("path '"@ + path@ + "' is not a file: "@).is_prefix_of(m@),
{
    let mut seen: Ghost<Option<(Seq<char>, Seq<u8>)>> = Ghost(None);
    get_blob_content_reported(repo_path, git_ref, path, &mut seen)
}

/// `get_blob_content`, with the id and data of the blob it read on the
/// side: the content is `blob_content` of them.
pub fn get_blob_content_reported(
    repo_path: &str,
    git_ref: &str,
    path: &str,
    seen: &mut Ghost<Option<(Seq<char>, Seq<u8>)>>,
) -> (r: Result<BlobContent, String>)
    ensures
        r matches Ok(b) ==> b.path@ == path@ && is_lower_hex(b.sha@),
        r matches Ok(b) ==> (final(seen)@ matches Some((sha, data)) && blob_content_holds(b, path@, sha, data)),
        r matches Err(m) ==> m@ == spec_open_failure(repo_path@)
            || ("path '"@ + path@ + "' not found at ref '"@ + git_ref@ + "': "@).is_prefix_of(m@)
            || "failed to find object: "@.is_prefix_of(m@)
            || ("path '"@ + path@ + "' is not a file: "@).is_prefix_of(m@),
{
    *seen = Ghost(None);
    let repo = match open_repository(repo_path) {
        Ok(repo) => repo,
        Err(_) => return Err(open_failure(repo_path)),
    };
    let target = join3(git_ref, ":", path);
    let object_id = match rev_parse_single(&repo, target.as_str()) {
        Ok(id) => id,
        Err(e) => {
            let mut v = chars_of("path '");
            append_chars(&mut v, chars_of(path).as_slice());
            append_chars(&mut v, chars_of("' not found at ref '").as_slice());
            append_chars(&mut v, chars_of(git_ref).as_slice());
            append_chars(&mut v, chars_of("': ").as_slice());
            let ghost prefix = v@;
            append_chars(&mut v, string_chars(&gix_error_text(&e)).as_slice());
            assert(prefix.is_prefix_of(v@));
            return Err(string_of(v.as_slice()));
        },
    };
    let sha = id_hex(&object_id);
    let object = match find_object(&repo, &id_detach(&object_id)) {
        Ok(object) => object,
        Err(e) => return Err(join2("failed to find object: ", gix_error_text(&e).as_str())),
    };
    let content = match object_into_blob(object) {
        Ok(blob) => {
            let data = blob_data(&blob);
            *seen = Ghost(Some((sha@, data@)));
            Ok(blob_content(path, sha, data.as_slice()))
        },
        Err(e) => {
            let mut v = chars_of("path '");
            append_chars(&mut v, chars_of(path).as_slice());
            append_chars(&mut v, chars_of("' is not a file: ").as_slice());
            let ghost prefix = v@;
            append_chars(&mut v, string_chars(&e).as_slice());
            assert(prefix.is_prefix_of(v@));
            Err(string_of(v.as_slice()))
        },
    };
    content
}

/// The readable entries of a tree listing, in order.
pub open spec fn spec_tree_items(read: Seq<Option<(Seq<char>, Seq<char>, bool, Option<i64>)>>) -> Seq<(Seq<char>, Seq<char>, bool, Option<i64>)>
    decreases read.len(),
{
    if read.len() == 0 {
        Seq::empty()
    } else {
        match read.last() {
            Some(item) => spec_tree_items(read.drop_last()).push(item),
            None => spec_tree_items(read.drop_last()),
        }
    }
}

/// How one readable entry (name, id, whether a sub-tree, size read) of the
/// tree at `sub_path` is listed: its name, its path under the repository, its
/// kind, its size (none for a sub-tree) and its id.
pub open spec fn tree_entry_fits(e: TreeEntry, sub_path: Seq<char>, item: (Seq<char>, Seq<char>, bool, Option<i64>)) -> bool {
    &&& e.name@ == item.0
    &&& e.path@ == spec_entry_path(sub_path, item.0)
    &&& e.kind@ == (if item.2 { "tree"@ } else { "blob"@ })
    &&& e.size == item.3
    &&& (item.2 ==> item.3 is None)
    &&& e.sha matches Some(h) && h@ == item.1
}

/// The entries of the tree of `git_ref` at `sub_path` (the root when it is
/// empty), each with its path under the repository, its kind, its id, and
/// for a file its size when it can be read.
pub fn list_tree_entries(repo_path: &str, git_ref: &str, sub_path: &str) -> (r: Result<Vec<TreeEntry>, String>)
    ensures
        r matches Ok(entries) ==> forall|i: int|
            0 <= i < entries@.len() ==> (#[trigger] entries@[i]).path@ == spec_entry_path(sub_path@, entries@[i].name@)
                && (entries@[i].kind@ == "tree"@ || entries@[i].kind@ == "blob"@)
                && (entries@[i].kind@ == "tree"@ ==> entries@[i].size is None)
                && (entries@[i].sha matches Some(h) && is_lower_hex(h@)),
{
    let mut seen: Ghost<Option<Seq<Option<(Seq<char>, Seq<char>, bool, Option<i64>)>>>> = Ghost(None);
    list_tree_entries_reported(repo_path, git_ref, sub_path, &mut seen)
}

/// `list_tree_entries`, with what was read of the listed tree on the side:
/// each entry as its name, id, whether it is a sub-tree and the size read
/// for a file, or `None` where it could not be read. There is one result per
/// readable entry, in order (see `tree_entry_fits`).
pub fn list_tree_entries_reported(
    repo_path: &str,
    git_ref: &str,
    sub_path: &str,
    seen: &mut Ghost<Option<Seq<Option<(Seq<char>, Seq<char>, bool, Option<i64>)>>>>,
) -> (r: Result<Vec<TreeEntry>, String>)
    ensures
        r matches Ok(entries) ==> (final(seen)@ matches Some(read) && entries@.len() == spec_tree_items(read).len()
            && forall|j: int| 0 <= j < entries@.len() ==> tree_entry_fits(#[trigger] entries@[j], sub_path@, spec_tree_items(read)[j])),
        r matches Ok(entries) ==> forall|i: int|
            0 <= i < entries@.len() ==> (#[trigger] entries@[i]).path@ == spec_entry_path(sub_path@, entries@[i].name@)
                && (entries@[i].kind@ == "tree"@ || entries@[i].kind@ == "blob"@)
                && (entries@[i].kind@ == "tree"@ ==> entries@[i].size is None)
                && (entries@[i].sha matches Some(h) && is_lower_hex(h@)),
{
    *seen = Ghost(None);
    let repo = match open_repository(repo_path) {
        Ok(repo) => repo,
        Err(_) => return Err(open_failure(repo_path)),
    };
    let commit_id = match rev_parse_single(&repo, git_ref) {
        Ok(id) => id,
        Err(e) => {
            let mut v = chars_of("failed to resolve ref '");
            append_chars(&mut v, chars_of(git_ref).as_slice());
            append_chars(&mut v, chars_of("': ").as_slice());
            append_chars(&mut v, string_chars(&gix_error_text(&e)).as_slice());
            return Err(string_of(v.as_slice()));
        },
    };
    let commit = match find_commit_by_id(&repo, &id_detach(&commit_id)) {
        Ok(commit) => commit,
        Err(e) => return Err(join2("failed to find commit: ", gix_error_text(&e).as_str())),
    };
    let tree_id = match commit_tree_id(&commit) {
        Ok(id) => id_detach(&id),
        Err(e) => return Err(join2("failed to decode commit: ", gix_error_text(&e).as_str())),
    };
    let mut tree = match find_tree(&repo, &tree_id) {
        Ok(tree) => tree,
        Err(e) => return Err(join2("failed to get tree: ", gix_error_text(&e).as_str())),
    };
    let sub = chars_of(sub_path);
    if sub.len() > 0 {
        let components = split_char(sub.as_slice(), '/');
        let mut c: usize = 0;
        while c < components.len()
            decreases components@.len() - c,
        {
            let entries = tree_entries(&tree);
            let mut found: Option<usize> = None;
            let mut k: usize = 0;
            while k < entries.len()
                invariant
                    c < components@.len(),
                    found matches Some(f) ==> f < entries@.len(),
                decreases entries@.len() - k,
            {
                match &entries[k] {
                    Some(entry) => {
                        if chars_eq(string_chars(&entry.0).as_slice(), components[c].as_slice()) {
                            found = Some(k);
                            break;
                        }
                    },
                    None => {},
                }
                k = k + 1;
            }
            let next = match found {
                Some(f) => match &entries[f] {
                    Some(entry) => match find_tree(&repo, &entry.1) {
                        Ok(next) => next,
                        Err(e) => return Err(join2("failed to find sub-tree: ", gix_error_text(&e).as_str())),
                    },
                    None => return Err(join2("path not found: ", sub_path)),
                },
                None => return Err(join2("path not found: ", sub_path)),
            };
            tree = next;
            c = c + 1;
        }
    }
    let listed = tree_entries(&tree);
    let mut out: Vec<TreeEntry> = Vec::new();
    let ghost mut read: Seq<Option<(Seq<char>, Seq<char>, bool, Option<i64>)>> = Seq::empty();
    let mut i: usize = 0;
    while i < listed.len()
        invariant
            out@.len() == spec_tree_items(read).len(),
            forall|j: int| 0 <= j < out@.len() ==> tree_entry_fits(#[trigger] out@[j], sub_path@, spec_tree_items(read)[j]),
            forall|j: int|
                0 <= j < out@.len() ==> (#[trigger] out@[j]).path@ == spec_entry_path(sub_path@, out@[j].name@)
                    && (out@[j].kind@ == "tree"@ || out@[j].kind@ == "blob"@)
                    && (out@[j].kind@ == "tree"@ ==> out@[j].size is None)
                    && (out@[j].sha matches Some(h) && is_lower_hex(h@)),
        decreases listed@.len() - i,
    {
        match &listed[i] {
            Some(entry) => {
                let sha = crate::ops::oid_hex(&entry.1);
                let kind = entry_kind(entry.2);
                let size = if entry.2 {
                    None
                } else {
                    match get_blob_size(repo_path, sha.as_str()) {
                        Ok(n) => Some(n),
                        Err(_) => None,
                    }
                };
                let name = copy_string(&entry.0);
                let path = tree_entry_path(sub_path, name.as_str());
                proof {
                    reveal_strlit("tree");
                    reveal_strlit("blob");
                    assert("tree"@ != "blob"@) by {
                        assert("tree"@[0] != "blob"@[0]);
                    }
                }
                let ghost item = (name@, sha@, entry.2, size);
                let entry = TreeEntry { name, path, kind, size, sha: Some(sha) };
                assert(entry.kind@ == "tree"@ ==> entry.size is None);
                let ghost before = read;
                proof {
                    read = read.push(Some(item));
                    assert(read.drop_last() =~= before);
                    assert(spec_tree_items(read) == spec_tree_items(before).push(item));
                }
                out.push(entry);
                assert forall|j: int| 0 <= j < out@.len() implies tree_entry_fits(#[trigger] out@[j], sub_path@, spec_tree_items(read)[j]) by {
                    if j < out@.len() - 1 {
                        assert(spec_tree_items(read)[j] == spec_tree_items(before)[j]);
                    }
                }
            },
            None => {
                let ghost before = read;
                proof {
                    read = read.push(None);
                    assert(read.drop_last() =~= before);
                }
            },
        }
        i = i + 1;
    }
    *seen = Ghost(Some(read));
    Ok(out)
}

/// What a commit log reads of a commit: its id, the author's name and
/// email (as bytes), the author's raw time, and the message.
pub type CommitRead = (Seq<char>, Seq<u8>, Seq<u8>, Seq<char>, Seq<char>);

/// The present items of a sequence of optional ones, in order.
pub open spec fn spec_somes<A>(s: Seq<Option<A>>) -> Seq<A>
    decreases s.len(),
{
    if s.len() == 0 {
        Seq::empty()
    } else {
        match s.last() {
            Some(a) => spec_somes(s.drop_last()).push(a),
            None => spec_somes(s.drop_last()),
        }
    }
}

/// How a commit that was read is listed in a commit log.
pub open spec fn commit_entry_fits(e: CommitEntry, c: CommitRead) -> bool {
    &&& e.sha@ == c.0
    &&& e.author_name@ == utf8_lossy(c.1)
    &&& e.author_email@ == utf8_lossy(c.2)
    &&& e.author_date@ == match rfc3339_utc(spec_signature_seconds(c.3)) {
        Some(t) => t,
        None => Seq::<char>::empty(),
    }
    &&& e.message@ == spec_subject(c.4)
    &&& e.gpg_signature is None
}

/// The newest `limit` commits reachable from `git_ref`, newest first (the
/// order of the walk): id, author name and email, author time in RFC 3339
/// (empty when out of range), and subject. No commits when the ref does
/// not resolve or the history cannot be walked; commits that cannot be read
/// are passed over.
pub fn get_commit_log(repo_path: &str, git_ref: &str, path: &str, limit: i64) -> (r: Result<Vec<CommitEntry>, String>)
    ensures
        r matches Ok(entries) ==> entries@.len() <= if limit < 0 { 0 } else { limit as int },
        r matches Ok(entries) ==> forall|i: int|
            0 <= i < entries@.len() ==> is_lower_hex((#[trigger] entries@[i]).sha@) && entries@[i].gpg_signature is None,
        r matches Err(m) ==> m@ == spec_open_failure(repo_path@),
{
    let mut seen: Ghost<Option<Option<(nat, Seq<Option<CommitRead>>)>>> = Ghost(None);
    get_commit_log_reported(repo_path, git_ref, path, limit, &mut seen)
}

/// `get_commit_log`, with what was read on the side: `None` when the
/// repository did not open, `Some(None)` when the ref did not resolve or the
/// history could not be walked, else the length of the walk and what was read
/// of each item looked at (`None` where it could not be read). The commits
/// are those read, in walk order (see `commit_entry_fits`); the walk stops
/// early only once `limit` commits are listed. The path does not narrow the
/// history.
pub fn get_commit_log_reported(
    repo_path: &str,
    git_ref: &str,
    path: &str,
    limit: i64,
    seen: &mut Ghost<Option<Option<(nat, Seq<Option<CommitRead>>)>>>,
) -> (r: Result<Vec<CommitEntry>, String>)
    ensures
        match final(seen)@ {
            None => r matches Err(m) && m@ == spec_open_failure(repo_path@),
            Some(None) => r matches Ok(entries) && entries@.len() == 0,
            Some(Some((walk_len, read))) => r matches Ok(entries) && read.len() <= walk_len
                && entries@.len() == spec_somes(read).len()
                && (forall|j: int| 0 <= j < entries@.len() ==> commit_entry_fits(#[trigger] entries@[j], spec_somes(read)[j]))
                && (read.len() < walk_len ==> entries@.len() == if limit < 0 { 0 } else { limit as int }),
        },
        r matches Ok(entries) ==> entries@.len() <= if limit < 0 { 0 } else { limit as int },
        r matches Ok(entries) ==> forall|i: int|
            0 <= i < entries@.len() ==> is_lower_hex((#[trigger] entries@[i]).sha@) && entries@[i].gpg_signature is None,
        r matches Err(m) ==> m@ == spec_open_failure(repo_path@),
{
    *seen = Ghost(None);
    let repo = match open_repository(repo_path) {
        Ok(repo) => repo,
        Err(_) => return Err(open_failure(repo_path)),
    };
    let mut entries: Vec<CommitEntry> = Vec::new();
    *seen = Ghost(Some(None));
    let head = match rev_parse_single(&repo, git_ref) {
        Ok(id) => id_detach(&id),
        Err(_) => return Ok(entries),
    };
    let walked = match walk_from(&repo, &head) {
        Ok(walked) => walked,
        Err(_) => return Ok(entries),
    };
    let mut count: i64 = 0;
    let ghost mut read: Seq<Option<CommitRead>> = Seq::empty();
    let mut i: usize = 0;
    while i < walked.len()
        invariant
            read.len() == i,
            i <= walked@.len(),
            entries@.len() == spec_somes(read).len(),
            forall|j: int| 0 <= j < entries@.len() ==> commit_entry_fits(#[trigger] entries@[j], spec_somes(read)[j]),
            count >= 0,
            entries@.len() == count,
            count <= if limit < 0 { 0 } else { limit as int },
            forall|j: int|
                0 <= j < entries@.len() ==> is_lower_hex((#[trigger] entries@[j]).sha@) && entries@[j].gpg_signature is None,
        ensures
            read.len() == i,
            i <= walked@.len(),
            entries@.len() == spec_somes(read).len(),
            forall|j: int| 0 <= j < entries@.len() ==> commit_entry_fits(#[trigger] entries@[j], spec_somes(read)[j]),
            i < walked@.len() ==> count >= limit,
            entries@.len() == count,
            count <= if limit < 0 { 0 } else { limit as int },
            forall|j: int|
                0 <= j < entries@.len() ==> is_lower_hex((#[trigger] entries@[j]).sha@) && entries@[j].gpg_signature is None,
        decreases walked@.len() - i,
    {
        if count >= limit {
            break;
        }
        match &walked[i] {
            Some(id) => {
                match find_commit(&repo, id) {
                    Ok(Some(commit)) => {
                        let message = match commit_message_bytes(&commit) {
                            Ok(bytes) => decode_lossy(bytes.as_slice()),
                            Err(_) => String::new(),
                        };
                        let (name, email, time) = match commit_author(&commit) {
                            Ok(author) => signature_parts(&author),
                            Err(_) => (Vec::new(), Vec::new(), String::new()),
                        };
                        let author_date = author_date(time.as_str());
                        let sha = crate::ops::oid_hex(id);
                        let ghost item: CommitRead = (sha@, name@, email@, time@, message@);
                        let entry = CommitEntry {
                            sha,
                            author_name: decode_lossy(name.as_slice()),
                            author_email: decode_lossy(email.as_slice()),
                            author_date,
                            message: commit_subject(message.as_str()),
                            gpg_signature: None,
                        };
                        assert(commit_entry_fits(entry, item));
                        let ghost before = read;
                        proof {
                            read = read.push(Some(item));
                            assert(read.drop_last() =~= before);
                            assert(spec_somes(read) == spec_somes(before).push(item));
                        }
                        entries.push(entry);
                        assert forall|j: int| 0 <= j < entries@.len() implies commit_entry_fits(#[trigger] entries@[j], spec_somes(read)[j]) by {
                            if j < entries@.len() - 1 {
                                assert(spec_somes(read)[j] == spec_somes(before)[j]);
                            }
                        }
                        count = count + 1;
                    },
                    _ => {
                        let ghost before = read;
                        proof {
                            read = read.push(None);
                            assert(read.drop_last() =~= before);
                        }
                    },
                }
            },
            None => {
                let ghost before = read;
                proof {
                    read = read.push(None);
                    assert(read.drop_last() =~= before);
                }
            },
        }
        i = i + 1;
    }
    *seen = Ghost(Some(Some((walked@.len(), read))));
    Ok(entries)
}

/// The names under `prefix` of a listing of references, in the listing's
/// order, with the prefix removed.
pub open spec fn spec_names_under(listing: Seq<Option<RefRecord>>, prefix: Seq<char>) -> Seq<Seq<char>>
    decreases listing.len(),
{
    if listing.len() == 0 {
        Seq::empty()
    } else {
        let rest = spec_names_under(listing.drop_last(), prefix);
        match listing.last() {
            Some(r) => match spec_strip_prefix(r.name@, prefix) {
                Some(short) => rest.push(short),
                None => rest,
            },
            None => rest,
        }
    }
}

/// The names under `prefix` of a listing of references.
pub fn names_under(listing: &Vec<Option<RefRecord>>, prefix: &str) -> (names: Vec<String>)
    ensures
        svs(names@) == spec_names_under(listing@, prefix@),
{
    let p = chars_of(prefix);
    let mut names: Vec<String> = Vec::new();
    let mut i: usize = 0;
    while i < listing.len()
        invariant
            i <= listing@.len(),
            p@ == prefix@,
            svs(names@) == spec_names_under(listing@.take(i as int), prefix@),
        decreases listing@.len() - i,
    {
        assert(listing@.take(i + 1).drop_last() =~= listing@.take(i as int));
        match &listing[i] {
            Some(r) => match strip_prefix(string_chars(&r.name).as_slice(), p.as_slice()) {
                Some(short) => {
                    names.push(string_of(short.as_slice()));
                },
                None => {},
            },
            None => {},
        }
        assert(svs(names@) =~= spec_names_under(listing@.take(i + 1), prefix@));
        i = i + 1;
    }
    assert(listing@.take(listing@.len() as int) =~= listing@);
    names
}

/// The short names of the references under `prefix`, with what was read on
/// the side: `None` when the repository did not open, `Some(None)` when it
/// could not be listed, else `Some(Some(l))` with the listing `l`; the names
/// are `spec_names_under` of the listing.
pub fn ref_names_under_reported(repo_path: &str, prefix: &str, seen: &mut Ghost<Option<Option<Seq<Option<RefRecord>>>>>) -> (r: Result<
    Vec<String>,
    String,
>)
    ensures
        match final(seen)@ {
            None => r matches Err(m) && m@ == spec_open_failure(repo_path@),
            Some(None) => r is Err,
            Some(Some(listing)) => r matches Ok(n) && svs(n@) == spec_names_under(listing, prefix@),
        },
{
    *seen = Ghost(None);
    let repo = match open_repository(repo_path) {
        Ok(repo) => repo,
        Err(_) => return Err(open_failure(repo_path)),
    };
    *seen = Ghost(Some(None));
    let platform = match reference_platform(&repo) {
        Ok(platform) => platform,
        Err(e) => return Err(gix_error_text(&e)),
    };
    let names = match all_references(&platform) {
        Ok(listing) => {
            *seen = Ghost(Some(Some(listing@)));
            Ok(names_under(&listing, prefix))
        },
        Err(e) => Err(gix_error_text(&e)),
    };
    names
}

/// The names of the local branches (`refs/heads/<name>`).
pub fn list_branch_names(repo_path: &str) -> (r: Result<Vec<String>, String>)
    ensures
        r matches Ok(n) ==> exists|listing: Seq<Option<RefRecord>>| svs(n@) == spec_names_under(listing, "refs/heads/"@),
{
    let mut seen: Ghost<Option<Option<Seq<Option<RefRecord>>>>> = Ghost(None);
    ref_names_under_reported(repo_path, "refs/heads/", &mut seen)
}

/// The names of the tags (`refs/tags/<name>`).
pub fn list_tag_names(repo_path: &str) -> (r: Result<Vec<String>, String>)
    ensures
        r matches Ok(n) ==> exists|listing: Seq<Option<RefRecord>>| svs(n@) == spec_names_under(listing, "refs/tags/"@),
{
    let mut seen: Ghost<Option<Option<Seq<Option<RefRecord>>>>> = Ghost(None);
    ref_names_under_reported(repo_path, "refs/tags/", &mut seen)
}

/// The id of the tip of a branch.
pub fn get_latest_commit_sha(repo_path: &str, branch: &str) -> (r: Result<String, String>)
    ensures
        r matches Ok(h) ==> is_lower_hex(h@) && h@.len() > 0,
        r matches Err(m) ==> m@ == spec_open_failure(repo_path@)
            || ("failed to resolve branch '"@ + branch@ + "': "@).is_prefix_of(m@),
{
    let repo = match open_repository(repo_path) {
        Ok(repo) => repo,
        Err(_) => return Err(open_failure(repo_path)),
    };
    let reference = join2("refs/heads/", branch);
    let resolved = match rev_parse_single(&repo, reference.as_str()) {
        Ok(id) => Ok(id_hex(&id)),
        Err(e) => {
            let mut v = chars_of("failed to resolve branch '");
            append_chars(&mut v, chars_of(branch).as_slice());
            append_chars(&mut v, chars_of("': ").as_slice());
            let ghost prefix = v@;
            append_chars(&mut v, string_chars(&gix_error_text(&e)).as_slice());
            assert(prefix.is_prefix_of(v@));
            Err(string_of(v.as_slice()))
        },
    };
    resolved
}

/// Whether a commit id given to the signature endpoint is well formed: at
/// least 7 characters, all hexadecimal digits (either case).
pub open spec fn spec_valid_commit_sha(sha: Seq<char>) -> bool {
    sha.len() >= 7 && forall|i: int|
        0 <= i < sha.len() ==> ('0' <= #[trigger] sha[i] <= '9' || 'a' <= sha[i] <= 'f' || 'A' <= sha[i] <= 'F')
}

/// Check the form of a commit id.
pub fn valid_commit_sha(sha: &str) -> (b: bool)
    ensures
        b == spec_valid_commit_sha(sha@),
{
    let cs = chars_of(sha);
    if cs.len() < 7 {
        return false;
    }
    let mut i: usize = 0;
    while i < cs.len()
        invariant
            i <= cs@.len(),
            cs@ == sha@,
            forall|k: int| 0 <= k < i ==> ('0' <= #[trigger] cs@[k] <= '9' || 'a' <= cs@[k] <= 'f' || 'A' <= cs@[k] <= 'F'),
        decreases cs@.len() - i,
    {
        let c = cs[i];
        if !(('0' <= c && c <= '9') || ('a' <= c && c <= 'f') || ('A' <= c && c <= 'F')) {
            return false;
        }
        i = i + 1;
    }
    true
}

/// What a commit's signature header shows before any verification: the
/// commit is unsigned, or signed and to be checked under its full id.
pub enum SignatureProbe {
    Unsigned,
    Signed { full_sha: String },
}

/// Resolve a commit and see whether it carries a `gpgsig` header.
pub fn probe_commit_signature(repo_path: &str, sha: &str) -> (r: Result<SignatureProbe, String>)
    ensures
        r matches Ok(SignatureProbe::Signed { full_sha }) ==> is_lower_hex(full_sha@),
{
    let mut seen: Ghost<Option<(Seq<char>, bool)>> = Ghost(None);
    probe_commit_signature_reported(repo_path, sha, &mut seen)
}

/// `probe_commit_signature`, with what it read on the side: the full id of
/// the commit and whether its header holds `gpgsig`. The probe is `Signed`
/// under that id exactly when it does.
pub fn probe_commit_signature_reported(repo_path: &str, sha: &str, seen: &mut Ghost<Option<(Seq<char>, bool)>>) -> (r: Result<
    SignatureProbe,
    String,
>)
    ensures
        r matches Ok(SignatureProbe::Signed { full_sha }) ==> is_lower_hex(full_sha@),
        r is Ok ==> final(seen)@ is Some,
        r matches Ok(p) ==> match p {
            SignatureProbe::Signed { full_sha } => final(seen)@ == Some((full_sha@, true)),
            SignatureProbe::Unsigned => final(seen)@ matches Some((_, signed)) && !signed,
        },
        r is Err ==> final(seen)@ is None,
{
    *seen = Ghost(None);
    let repo = match open_repository(repo_path) {
        Ok(repo) => repo,
        Err(_) => return Err(open_failure(repo_path)),
    };
    let commit_id = match rev_parse_single(&repo, sha) {
        Ok(id) => id,
        Err(_) => return Err(join3("commit ", sha, " not found")),
    };
    let full_sha = id_hex(&commit_id);
    let commit = match find_commit(&repo, &id_detach(&commit_id)) {
        Ok(Some(commit)) => commit,
        Ok(None) => return Err(String::from_str("not a commit object")),
        Err(e) => return Err(gix_error_text(&e)),
    };
    let probe = match has_extra_header(&commit, "gpgsig") {
        Ok(true) => {
            *seen = Ghost(Some((full_sha@, true)));
            Ok(SignatureProbe::Signed { full_sha })
        },
        Ok(false) => {
            *seen = Ghost(Some((full_sha@, false)));
            Ok(SignatureProbe::Unsigned)
        },
        Err(e) => Err(gix_error_text(&e)),
    };
    probe
}

/// Whether a failed file edit is a conflict: its message reports a SHA
/// mismatch (the file changed since the given blob id); other failures are
/// bad requests.
pub fn file_error_is_conflict(message: &str) -> (b: bool)
    ensures
        b == crate::text::spec_contains_text(message@, "SHA mismatch"@),
{
    crate::text::contains_text(message, "SHA mismatch")
}

/// What a file edit that went through is answered: the file's path, the
/// commit now at the tip of the branch (empty when it cannot be read) and
/// what was done.
pub fn file_operation_response(repo_path: &str, branch: &str, file_path: String, deleted: bool) -> (r: FileOperationResponse)
    ensures
        r.success,
        r.file_path@ == file_path@,
        r.commit_sha@.len() == 0 || is_lower_hex(r.commit_sha@),
        r.message@ == if deleted {
            "File deleted successfully"@
        } else {
            "File created/updated successfully"@
        },
{
    let commit_sha = match get_latest_commit_sha(repo_path, branch) {
        Ok(sha) => sha,
        Err(_) => String::new(),
    };
    let message = if deleted {
        String::from_str("File deleted successfully")
    } else {
        String::from_str("File created/updated successfully")
    };
    FileOperationResponse { success: true, file_path, commit_sha, message }
}

} // verus!

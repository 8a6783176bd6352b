//! CI artifacts: their records, uploads, and the names and paths they are stored under.

use vstd::prelude::*;
use crate::text::{
    chars_of, cvs, spec_split, spec_strip_prefix, spec_trim, spec_trim_char, split_char,
    string_of, strip_prefix, trim, trim_char,
};

verus! {

pub struct ArtifactResponse {
    pub id: i64,
    pub job_id: i64,
    pub name: String,
    pub file_path: String,
    pub size: i64,
    pub created_at: String,
    pub expires_at: Option<String>,
}

pub struct UploadArtifactResponse {
    pub id: i64,
    pub message: String,
}

pub struct UploadArtifactRequest {
    pub name: String,
    pub file_path: String,
    pub size: Option<i64>,
}

/// The value of the first part that, trimmed, starts with `filename=`,
/// without surrounding double quotes.
pub open spec fn first_filename(parts: Seq<Seq<char>>) -> Option<Seq<char>>
    decreases parts.len(),
{
    if parts.len() == 0 {
        None
    } else {
        match spec_strip_prefix(spec_trim(parts[0]), "filename="@) {
            Some(v) => Some(spec_trim_char(v, '"')),
            None => first_filename(parts.drop_first()),
        }
    }
}

/// The file name a Content-Disposition header gives: the value of its first
/// `filename=` parameter, without quotes.
pub fn parse_filename_from_disposition(value: &str) -> (r: Option<String>)
    ensures
        match r {
            Some(f) => first_filename(spec_split(value@, ';')) == Some(f@),
            None => first_filename(spec_split(value@, ';')) is None,
        },
{
    let parts = split_char(chars_of(value).as_slice(), ';');
    let ghost ps = cvs(parts@);
    let prefix = chars_of("filename=");
    let mut i: usize = 0;
    assert(ps.skip(0) =~= ps);
    while i < parts.len()
        invariant
            i <= parts@.len(),
            ps == cvs(parts@),
            ps == spec_split(value@, ';'),
            prefix@ == "filename="@,
            first_filename(ps) == first_filename(ps.skip(i as int)),
        decreases parts@.len() - i,
    {
        assert(ps.skip(i as int)[0] == parts@[i as int]@);
        assert(ps.skip(i as int).drop_first() =~= ps.skip(i + 1));
        let part = trim(parts[i].as_slice());
        match strip_prefix(part.as_slice(), prefix.as_slice()) {
            Some(v) => {
                let name = trim_char(v.as_slice(), '"');
                return Some(string_of(name.as_slice()));
            },
            None => {},
        }
        i = i + 1;
    }
    None
}

/// Whether a character may stay in an artifact name.
pub open spec fn artifact_name_char(c: char) -> bool {
    ('a' <= c <= 'z') || ('A' <= c <= 'Z') || ('0' <= c <= '9') || c == '.' || c == '-' || c == '_'
}

/// The characters of `s` that may stay in an artifact name, in order.
pub open spec fn kept_name_chars(s: Seq<char>) -> Seq<char>
    decreases s.len(),
{
    if s.len() == 0 {
        Seq::empty()
    } else if artifact_name_char(s.last()) {
        kept_name_chars(s.drop_last()).push(s.last())
    } else {
        kept_name_chars(s.drop_last())
    }
}

/// A stored artifact's name: the ASCII letters, digits, `.`, `-` and `_` of
/// the given name, or `artifact.bin` when none is left.
pub open spec fn spec_sanitize_artifact_name(name: Seq<char>) -> Seq<char> {
    if kept_name_chars(name).len() == 0 {
        "artifact.bin"@
    } else {
        kept_name_chars(name)
    }
}

/// Keep only the characters an artifact name may hold.
pub fn sanitize_artifact_name(name: &str) -> (r: String)
    ensures
        r@ == spec_sanitize_artifact_name(name@),
{
    let cs = chars_of(name);
    let mut out: Vec<char> = Vec::new();
    let mut i: usize = 0;
    assert(cs@.take(0) =~= Seq::<char>::empty());
    while i < cs.len()
        invariant
            i <= cs@.len(),
            cs@ == name@,
            out@ == kept_name_chars(cs@.take(i as int)),
        decreases cs@.len() - i,
    {
        let c = cs[i];
        assert(cs@.take(i + 1).drop_last() =~= cs@.take(i as int));
        if ('a' <= c && c <= 'z') || ('A' <= c && c <= 'Z') || ('0' <= c && c <= '9') || c == '.' || c == '-' || c == '_' {
            out.push(c);
        }
        i = i + 1;
    }
    assert(cs@.take(cs@.len() as int) =~= cs@);
    if out.len() == 0 {
        String::from_str("artifact.bin")
    } else {
        string_of(out.as_slice())
    }
}

/// The name of an uploaded artifact: the `X-Artifact-Name` header when it
/// holds more than whitespace (trimmed), else the Content-Disposition file
/// name. Each header is given as its text, when it has a textual value.
pub fn artifact_name_from_headers(artifact_name: Option<&str>, content_disposition: Option<&str>) -> (r: Option<String>)
    ensures
        match artifact_name {
            Some(n) if spec_trim(n@).len() > 0 => r matches Some(v) && v@ == spec_trim(n@),
            _ => match content_disposition {
                Some(d) => match r {
                    Some(f) => first_filename(spec_split(d@, ';')) == Some(f@),
                    None => first_filename(spec_split(d@, ';')) is None,
                },
                None => r is None,
            },
        },
{
    match artifact_name {
        Some(n) => {
            let t = trim(chars_of(n).as_slice());
            if t.len() > 0 {
                return Some(string_of(t.as_slice()));
            }
        },
        None => {},
    }
    match content_disposition {
        Some(d) => parse_filename_from_disposition(d),
        None => None,
    }
}

proof fn lemma_kept_chars_allowed(s: Seq<char>)
    ensures
        forall|i: int| 0 <= i < kept_name_chars(s).len() ==> artifact_name_char(#[trigger] kept_name_chars(s)[i]),
    decreases s.len(),
{
    if s.len() > 0 {
        lemma_kept_chars_allowed(s.drop_last());
        let init = kept_name_chars(s.drop_last());
        if artifact_name_char(s.last()) {
            assert forall|i: int| 0 <= i < init.push(s.last()).len() implies artifact_name_char(
                #[trigger] init.push(s.last())[i],
            ) by {
                if i < init.len() {
                    assert(init.push(s.last())[i] == init[i]);
                }
            }
        }
    }
}

/// A stored artifact's name is never empty and holds only ASCII letters,
/// digits, `.`, `-` and `_`: no path separator can reach the file system.
pub proof fn lemma_sanitized_name_is_safe(name: Seq<char>)
    ensures
        spec_sanitize_artifact_name(name).len() > 0,
        forall|i: int|
            0 <= i < spec_sanitize_artifact_name(name).len() ==> artifact_name_char(
                #[trigger] spec_sanitize_artifact_name(name)[i],
            ),
{
    reveal_strlit("artifact.bin");
    lemma_kept_chars_allowed(name);
}

/// Whether an artifact upload is a JSON description of a file already in
/// the job's storage (its media type starts with `application/json`),
/// rather than the artifact's bytes.
pub fn is_json_upload(content_type: Option<&str>) -> (b: bool)
    ensures
        b == match content_type {
            Some(t) => "application/json"@.is_prefix_of(t@),
            None => "application/json"@.is_prefix_of(Seq::<char>::empty()),
        },
{
    let t = match content_type {
        Some(t) => chars_of(t),
        None => Vec::new(),
    };
    crate::text::starts_with(t.as_slice(), chars_of("application/json").as_slice())
}

/// The name a raw artifact upload is stored under: the one its headers give
/// (`artifact.bin` when none), made safe; an empty body is refused.
pub fn raw_upload_name(body_len: usize, header_name: Option<String>) -> (r: Result<String, String>)
    ensures
        body_len == 0 ==> (r matches Err(m) && m@ == "artifact upload body is empty"@),
        body_len > 0 ==> (r matches Ok(n) && n@ == spec_sanitize_artifact_name(
            match header_name {
                Some(h) => h@,
                None => "artifact.bin"@,
            },
        )),
{
    if body_len == 0 {
        return Err(String::from_str("artifact upload body is empty"));
    }
    let name = match header_name {
        Some(h) => h,
        None => String::from_str("artifact.bin"),
    };
    Ok(sanitize_artifact_name(name.as_str()))
}

} // verus!

//! Pipeline runs.

use vstd::prelude::*;
use crate::ops::{id_hex, is_lower_hex, open_repository, rev_parse_single};
use crate::text::{append_chars, chars_of, spec_strip_prefix, starts_with, str_is, string_of, strip_prefix};

verus! {

pub struct TriggerPipelineRequest {
    pub ref_name: Option<String>,
}

/// The query of a pipeline list; it carries only the listing's paging.
pub struct ListPipelinesQuery {}

/// Whether a pipeline, stage or job status is one that canceling ends:
/// `running`, `pending`, `manual` or `waiting_approval`.
pub open spec fn spec_is_active_status(status: Seq<char>) -> bool {
    status == "running"@ || status == "pending"@ || status == "manual"@ || status == "waiting_approval"@
}

/// Whether a status is one that canceling ends.
pub fn is_active_status(status: &str) -> (b: bool)
    ensures
        b == spec_is_active_status(status@),
{
    str_is(status, "running") || str_is(status, "pending") || str_is(status, "manual") || str_is(
        status,
        "waiting_approval",
    )
}

/// A pipeline can be canceled only while it is active.
pub fn check_cancelable(pipeline_status: &str) -> (r: Result<(), String>)
    ensures
        r is Ok <==> spec_is_active_status(pipeline_status@),
        r matches Err(m) ==> m@ == "pipeline is not active"@,
{
    if is_active_status(pipeline_status) {
        Ok(())
    } else {
        Err(String::from_str("pipeline is not active"))
    }
}

/// The ref a manually triggered pipeline runs on: the one asked for, else
/// `refs/heads/main`.
pub fn trigger_ref_name(requested: Option<String>) -> (r: String)
    ensures
        r@ == (match requested {
            Some(n) => n@,
            None => "refs/heads/main"@,
        }),
{
    match requested {
        Some(n) => n,
        None => String::from_str("refs/heads/main"),
    }
}

/// A manual job can be played only while it, its pipeline and its `when`
/// condition are all `manual`.
pub fn check_manual_playable(pipeline_status: &str, job_status: &str, when_condition: &str) -> (r: Result<(), String>)
    ensures
        r is Ok <==> (pipeline_status@ == "manual"@ && job_status@ == "manual"@ && when_condition@ == "manual"@),
        r matches Err(m) ==> m@ == "job is not awaiting manual action"@,
{
    if str_is(pipeline_status, "manual") && str_is(job_status, "manual") && str_is(when_condition, "manual") {
        Ok(())
    } else {
        Err(String::from_str("job is not awaiting manual action"))
    }
}

/// The revision a pipeline ref is first resolved as: a full ref name
/// (`refs/...`) as given, any other name as the branch of that name.
pub open spec fn spec_primary_rev(ref_name: Seq<char>) -> Seq<char> {
    if "refs/"@.is_prefix_of(ref_name) {
        ref_name
    } else {
        "refs/heads/"@ + ref_name
    }
}

/// The revision tried when the first does not resolve: the name without its
/// `refs/heads/` prefix.
pub open spec fn spec_fallback_rev(ref_name: Seq<char>) -> Seq<char> {
    match spec_strip_prefix(ref_name, "refs/heads/"@) {
        Some(short) => short,
        None => ref_name,
    }
}

/// The two revisions a pipeline ref is resolved as, in the order they are
/// tried.
pub fn ref_candidates(ref_name: &str) -> (c: (String, String))
    ensures
        c.0@ == spec_primary_rev(ref_name@),
        c.1@ == spec_fallback_rev(ref_name@),
{
    let name = chars_of(ref_name);
    let primary = if starts_with(name.as_slice(), chars_of("refs/").as_slice()) {
        String::from_str(ref_name)
    } else {
        let mut v = chars_of("refs/heads/");
        append_chars(&mut v, name.as_slice());
        string_of(v.as_slice())
    };
    let fallback = match strip_prefix(name.as_slice(), chars_of("refs/heads/").as_slice()) {
        Some(short) => string_of(short.as_slice()),
        None => String::from_str(ref_name),
    };
    (primary, fallback)
}

/// The commit id a pipeline ref names in the repository at `repo_path`:
/// the ref resolved as `spec_primary_rev`, else as `spec_fallback_rev`;
/// `None` when the repository does not open or neither resolves.
pub fn resolve_commit_sha(repo_path: &str, ref_name: &str) -> (r: Option<String>)
    ensures
        r matches Some(id) ==> is_lower_hex(id@) && id@.len() > 0,
{
    let repo = match open_repository(repo_path) {
        Ok(repo) => repo,
        Err(_) => return None,
    };
    let (primary, fallback) = ref_candidates(ref_name);
    match rev_parse_single(&repo, primary.as_str()) {
        Ok(id) => Some(id_hex(&id)),
        Err(_) => match rev_parse_single(&repo, fallback.as_str()) {
            Ok(id) => Some(id_hex(&id)),
            Err(_) => None,
        },
    }
}

} // verus!

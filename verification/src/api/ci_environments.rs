//! Deployment environments and the approvals that release protected jobs.

use vstd::prelude::*;
use vstd::utf8::*;
use crate::text::{chars_of, is_control, spec_is_control, spec_trim, str_is, string_chars, trim};

verus! {

#[derive(Debug)]
pub struct EnvironmentRequest {
    pub name: String,
    pub protected: bool,
    pub required_approvals: i32,
    pub allowed_approver_ids: Vec<i64>,
}

#[derive(Debug)]
pub struct ApprovalResponse {
    pub job_id: i64,
    pub approvals: u64,
    pub required_approvals: i32,
    pub released: bool,
}

/// The number of approvals a protected environment needs unless told
/// otherwise.
pub fn default_required_approvals() -> (n: i32)
    ensures
        n == 1,
{
    1
}

/// Whether an environment name is acceptable: 1 to 255 bytes, no control
/// characters.
pub open spec fn spec_valid_name(name: Seq<char>) -> bool {
    &&& name.len() > 0
    &&& encode_utf8(name).len() <= 255
    &&& forall|i: int| 0 <= i < name.len() ==> !spec_is_control(#[trigger] name[i])
}

/// Check an environment name.
pub fn valid_name(name: &str) -> (b: bool)
    ensures
        b == spec_valid_name(name@),
{
    let cs = chars_of(name);
    if cs.len() == 0 || name.as_bytes().len() > 255 {
        return false;
    }
    let mut i: usize = 0;
    while i < cs.len()
        invariant
            i <= cs@.len(),
            cs@ == name@,
            forall|k: int| 0 <= k < i ==> !spec_is_control(#[trigger] cs@[k]),
        decreases cs@.len() - i,
    {
        if is_control(cs[i]) {
            return false;
        }
        i = i + 1;
    }
    true
}

/// Whether the integers are in strictly increasing order.
pub open spec fn ids_increasing(s: Seq<i64>) -> bool {
    forall|i: int, j: int| 0 <= i < j < s.len() ==> #[trigger] s[i] < #[trigger] s[j]
}

/// Insert an integer into a strictly increasing vector, unless it holds it.
fn insert_id(v: &mut Vec<i64>, x: i64)
    requires
        ids_increasing(old(v)@),
    ensures
        ids_increasing(final(v)@),
        final(v)@.to_set() == old(v)@.to_set().insert(x),
{
    let ghost ov = v@;
    let mut pos: usize = 0;
    while pos < v.len() && v[pos] < x
        invariant
            pos <= v@.len(),
            v@ == ov,
            ids_increasing(ov),
            forall|k: int| 0 <= k < pos ==> #[trigger] ov[k] < x,
        decreases v@.len() - pos,
    {
        pos = pos + 1;
    }
    if pos < v.len() && v[pos] == x {
        assert(ov.to_set().insert(x) =~= ov.to_set());
        return;
    }
    v.insert(pos, x);
    let ghost nv = v@;
    assert(nv =~= ov.insert(pos as int, x));
    assert forall|i: int, j: int| 0 <= i < j < nv.len() implies #[trigger] nv[i] < #[trigger] nv[j] by {
        if j == pos as int && i < j {
        } else if i == pos as int && j > i {
            assert(ov[pos as int] > x);
            assert(ov[j - 1] >= ov[pos as int]);
        } else if i < pos && j > pos {
        }
    }
    assert(nv.to_set() =~= ov.to_set().insert(x)) by {
        assert forall|e: i64| nv.to_set().contains(e) implies ov.to_set().insert(x).contains(e) by {
            let k = choose|k: int| 0 <= k < nv.len() && nv[k] == e;
            if k < pos {
                assert(ov[k] == e);
            } else if k > pos {
                assert(ov[k - 1] == e);
            }
        }
        assert forall|e: i64| ov.to_set().insert(x).contains(e) implies nv.to_set().contains(e) by {
            if e == x {
                assert(nv[pos as int] == e);
            } else {
                let k = choose|k: int| 0 <= k < ov.len() && ov[k] == e;
                if k < pos {
                    assert(nv[k] == e);
                } else {
                    assert(nv[k + 1] == e);
                }
            }
        }
    }
}

/// The checks of an environment request that need no database, in order:
/// the trimmed name is valid; 1 to 10 approvals are required; no approver is
/// listed twice; a protected environment with approvers has at least as many
/// as it requires.
pub open spec fn spec_check_environment(
    name: Seq<char>,
    protected: bool,
    required_approvals: i32,
    approvers: Seq<i64>,
) -> Result<(), Seq<char>> {
    if !spec_valid_name(spec_trim(name)) {
        Err("environment name must contain 1-255 printable characters"@)
    } else if !(1 <= required_approvals <= 10) {
        Err("required_approvals must be between 1 and 10"@)
    } else if !approvers.no_duplicates() {
        Err("allowed_approver_ids must not contain duplicates"@)
    } else if protected && approvers.len() > 0 && required_approvals > approvers.len() {
        Err("required approvals exceed the approver list"@)
    } else {
        Ok(())
    }
}

/// Check an environment request; on success, the approvers whose accounts
/// must exist, in increasing order.
pub fn check_environment_request(body: &EnvironmentRequest) -> (r: Result<Vec<i64>, String>)
    ensures
        match (r, spec_check_environment(body.name@, body.protected, body.required_approvals, body.allowed_approver_ids@)) {
            (Ok(ids), Ok(())) => ids_increasing(ids@) && ids@.to_set() == body.allowed_approver_ids@.to_set(),
            (Err(m), Err(e)) => m@ == e,
            _ => false,
        },
{
    let trimmed = trim(string_chars(&body.name).as_slice());
    let t = crate::text::string_of(trimmed.as_slice());
    if !valid_name(t.as_str()) {
        return Err(String::from_str("environment name must contain 1-255 printable characters"));
    }
    if !(1 <= body.required_approvals && body.required_approvals <= 10) {
        return Err(String::from_str("required_approvals must be between 1 and 10"));
    }
    let ids = &body.allowed_approver_ids;
    let mut unique: Vec<i64> = Vec::new();
    let mut i: usize = 0;
    assert(unique@.to_set() =~= ids@.take(0).to_set());
    while i < ids.len()
        invariant
            i <= ids@.len(),
            ids_increasing(unique@),
            unique@.to_set() == ids@.take(i as int).to_set(),
            unique@.len() <= i,
            (unique@.len() == i) <==> ids@.take(i as int).no_duplicates(),
        decreases ids@.len() - i,
    {
        let ghost before = unique@;
        let ghost seen = ids@.take(i as int);
        let x = ids[i];
        assert(ids@.take(i + 1) =~= seen.push(x));
        insert_id(&mut unique, x);
        proof {
            seen.lemma_push_to_set_commute(x);
            assert(before.to_set().len() == before.len()) by {
                before.unique_seq_to_set();
            }
            assert(unique@.no_duplicates()) by {
                assert forall|a: int, b: int| 0 <= a < b < unique@.len() implies unique@[a] != unique@[b] by {
                    assert(unique@[a] < unique@[b]);
                }
            }
            unique@.unique_seq_to_set();
            before.unique_seq_to_set();
            if seen.to_set().contains(x) {
                assert(unique@.to_set() =~= before.to_set());
                assert(!seen.push(x).no_duplicates()) by {
                    let k = choose|k: int| 0 <= k < seen.len() && seen[k] == x;
                    assert(seen.push(x)[k] == seen.push(x)[seen.len() as int]);
                }
            } else {
                assert(before.to_set().insert(x).len() == before.to_set().len() + 1);
                if seen.no_duplicates() {
                    assert(seen.push(x).no_duplicates());
                } else {
                    assert(!seen.push(x).no_duplicates()) by {
                        let (a, b) = choose|a: int, b: int| 0 <= a < seen.len() && 0 <= b < seen.len() && a != b && seen[a] == seen[b];
                        assert(seen.push(x)[a] == seen.push(x)[b]);
                    }
                }
            }
        }
        i = i + 1;
    }
    assert(ids@.take(ids@.len() as int) =~= ids@);
    if unique.len() != ids.len() {
        return Err(String::from_str("allowed_approver_ids must not contain duplicates"));
    }
    if body.protected && unique.len() > 0 && body.required_approvals as usize > unique.len() {
        return Err(String::from_str("required approvals exceed the approver list"));
    }
    Ok(unique)
}

// ── Approvals ────────────────────────────────────────────────────────────

/// What `serde_json` makes of a JSON text as a list of integers: `None` when
/// the text is not such a list.
pub uninterp spec fn json_i64_list(text: Seq<char>) -> Option<Seq<i64>>;

/// Calls `serde_json::from_str::<Vec<i64>>`. Its result is named
/// `json_i64_list` of the text; which texts parse is serde_json's grammar,
/// which is not restated here.
#[verifier::external_body]
fn parse_i64_list(text: &str) -> (r: Option<Vec<i64>>)
    ensures
        match r {
            Some(v) => json_i64_list(text@) == Some(v@),
            None => json_i64_list(text@) is None,
        },
{
    serde_json::from_str::<Vec<i64>>(text).ok()
}

/// The approvers an environment stores as a JSON list: none when nothing is
/// stored or the text is not a list of integers.
pub fn allowed_approvers(stored: Option<&str>) -> (ids: Vec<i64>)
    ensures
        ids@ == match stored {
            Some(t) => match json_i64_list(t@) {
                Some(v) => v,
                None => Seq::empty(),
            },
            None => Seq::empty(),
        },
{
    match stored {
        Some(t) => match parse_i64_list(t) {
            Some(v) => v,
            None => Vec::new(),
        },
        None => Vec::new(),
    }
}

/// A job may be approved only while it and its pipeline await approval, and
/// only when it deploys to an environment; the result is that environment.
pub fn approval_gate(job_status: &str, pipeline_status: &str, environment_id: Option<i64>) -> (r: Result<i64, String>)
    ensures
        match r {
            Ok(id) => job_status@ == "waiting_approval"@ && pipeline_status@ == "waiting_approval"@
                && environment_id == Some(id),
            Err(m) => if job_status@ != "waiting_approval"@ || pipeline_status@ != "waiting_approval"@ {
                m@ == "job is not awaiting environment approval"@
            } else {
                environment_id is None && m@ == "job has no protected environment"@
            },
        },
{
    if !str_is(job_status, "waiting_approval") || !str_is(pipeline_status, "waiting_approval") {
        return Err(String::from_str("job is not awaiting environment approval"));
    }
    match environment_id {
        Some(id) => Ok(id),
        None => Err(String::from_str("job has no protected environment")),
    }
}

/// Whether the actor may approve: repository admins and the listed
/// approvers may.
pub fn may_approve(is_admin: bool, allowed: &[i64], actor_id: i64) -> (b: bool)
    ensures
        b == (is_admin || allowed@.contains(actor_id)),
{
    if is_admin {
        return true;
    }
    let mut i: usize = 0;
    while i < allowed.len()
        invariant
            i <= allowed@.len(),
            forall|k: int| 0 <= k < i ==> allowed@[k] != actor_id,
        decreases allowed@.len() - i,
    {
        if allowed[i] == actor_id {
            assert(allowed@[i as int] == actor_id);
            return true;
        }
        i = i + 1;
    }
    false
}

/// Whether the approvals recorded so far release the job: at least as many
/// as the environment requires (read as an unsigned count).
pub fn approvals_release(approvals: u64, required_approvals: i32) -> (b: bool)
    ensures
        b == (approvals >= required_approvals as u64),
{
    approvals >= required_approvals as u64
}

} // verus!

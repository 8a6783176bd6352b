//! CI secrets and the names they may have.

use vstd::prelude::*;
use vstd::utf8::*;
use crate::text::{chars_of, str_is};

verus! {

#[derive(Debug)]
pub struct PutSecretRequest {
    pub value: String,
}

/// Names the CI runner sets itself, which no secret may take.
pub open spec fn reserved_secret_names() -> Seq<Seq<char>> {
    seq![
        "CI"@,
        "IRONFORGE"@,
        "CI_PIPELINE_ID"@,
        "CI_COMMIT_SHA"@,
        "CI_SHA"@,
        "CI_REF"@,
        "CI_EVENT"@,
        "CI_JOB_TOKEN"@,
        "CI_OIDC_TOKEN_URL"@,
        "HOME"@,
        "PATH"@,
    ]
}

/// Whether a character may follow the first in a secret name.
pub open spec fn secret_name_char(c: char) -> bool {
    c == '_' || ('A' <= c <= 'Z') || ('0' <= c <= '9')
}

/// Whether a secret name is acceptable: an upper-case letter or `_`, then
/// upper-case letters, digits and `_`, at most 100 bytes, and not reserved.
pub open spec fn spec_valid_secret_name(name: Seq<char>) -> bool {
    &&& name.len() > 0
    &&& (name[0] == '_' || ('A' <= name[0] <= 'Z'))
    &&& forall|i: int| 1 <= i < name.len() ==> secret_name_char(#[trigger] name[i])
    &&& encode_utf8(name).len() <= 100
    &&& !reserved_secret_names().contains(name)
}

/// Check a secret name.
pub fn valid_secret_name(name: &str) -> (b: bool)
    ensures
        b == spec_valid_secret_name(name@),
{
    let cs = chars_of(name);
    if cs.len() == 0 {
        return false;
    }
    let first = cs[0];
    if !(first == '_' || ('A' <= first && first <= 'Z')) {
        return false;
    }
    let mut i: usize = 1;
    while i < cs.len()
        invariant
            1 <= i <= cs@.len(),
            cs@ == name@,
            forall|k: int| 1 <= k < i ==> secret_name_char(#[trigger] cs@[k]),
        decreases cs@.len() - i,
    {
        let c = cs[i];
        if !(c == '_' || ('A' <= c && c <= 'Z') || ('0' <= c && c <= '9')) {
            return false;
        }
        i = i + 1;
    }
    if name.as_bytes().len() > 100 {
        return false;
    }
    let reserved = [
        "CI",
        "IRONFORGE",
        "CI_PIPELINE_ID",
        "CI_COMMIT_SHA",
        "CI_SHA",
        "CI_REF",
        "CI_EVENT",
        "CI_JOB_TOKEN",
        "CI_OIDC_TOKEN_URL",
        "HOME",
        "PATH",
    ];
    let ghost rv = reserved_secret_names();
    proof {
        assert(reserved@.map_values(|r: &str| r@) =~= rv);
    }
    let mut j: usize = 0;
    while j < 11
        invariant
            j <= 11,
            reserved@.map_values(|r: &str| r@) == rv,
            rv == reserved_secret_names(),
            rv.len() == 11,
            forall|k: int| 0 <= k < j ==> rv[k] != name@,
            cs@ == name@,
            name@.len() > 0,
            name@[0] == '_' || ('A' <= name@[0] <= 'Z'),
            forall|k: int| 1 <= k < name@.len() ==> secret_name_char(#[trigger] name@[k]),
            encode_utf8(name@).len() <= 100,
        decreases 11 - j,
    {
        assert(rv[j as int] == reserved@[j as int]@);
        if str_is(name, reserved[j]) {
            assert(rv[j as int] == name@);
            assert(rv.contains(name@));
            return false;
        }
        j = j + 1;
    }
    true
}

} // verus!

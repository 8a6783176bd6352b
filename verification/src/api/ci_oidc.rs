//! OpenID Connect tokens for CI jobs.

use vstd::prelude::*;
use vstd::utf8::*;
use crate::text::{
    append_chars, chars_of, is_whitespace, spec_is_whitespace, spec_strip_prefix,
    spec_trim_end_char, string_chars, string_of, strip_prefix, trim_end_char,
};

verus! {

pub struct TokenQuery {
    pub audience: String,
}

pub struct DiscoveryResponse {
    pub issuer: String,
    pub jwks_uri: String,
    pub token_endpoint: String,
    pub response_types_supported: [&'static str; 1],
    pub subject_types_supported: [&'static str; 1],
    pub id_token_signing_alg_values_supported: [&'static str; 1],
    pub scopes_supported: [&'static str; 1],
}

pub struct TokenResponse {
    pub value: String,
    pub expires_at: i64,
}

/// Whether a token audience is acceptable: 1 to 255 bytes, no whitespace.
pub open spec fn spec_valid_audience(value: Seq<char>) -> bool {
    &&& value.len() > 0
    &&& encode_utf8(value).len() <= 255
    &&& forall|i: int| 0 <= i < value.len() ==> !spec_is_whitespace(#[trigger] value[i])
}

/// Check a token audience.
pub fn valid_audience(value: &str) -> (b: bool)
    ensures
        b == spec_valid_audience(value@),
{
    let cs = chars_of(value);
    if cs.len() == 0 || value.as_bytes().len() > 255 {
        return false;
    }
    let mut i: usize = 0;
    while i < cs.len()
        invariant
            i <= cs@.len(),
            cs@ == value@,
            forall|k: int| 0 <= k < i ==> !spec_is_whitespace(#[trigger] cs@[k]),
        decreases cs@.len() - i,
    {
        if is_whitespace(cs[i]) {
            return false;
        }
        i = i + 1;
    }
    true
}

/// The bearer token of an Authorization header's text: what follows
/// `Bearer `.
pub fn bearer(authorization: Option<&str>) -> (r: Option<String>)
    ensures
        match authorization {
            Some(a) => match r {
                Some(t) => spec_strip_prefix(a@, "Bearer "@) == Some(t@),
                None => spec_strip_prefix(a@, "Bearer "@) is None,
            },
            None => r is None,
        },
{
    match authorization {
        Some(a) => match strip_prefix(chars_of(a).as_slice(), chars_of("Bearer ").as_slice()) {
            Some(t) => Some(string_of(t.as_slice())),
            None => None,
        },
        None => None,
    }
}

/// The issuer of the CI tokens: the configured external URL without
/// trailing slashes, else the Host the request was sent to, under
/// `/api/v1/ci/oidc`. Without either, the request is refused.
pub open spec fn spec_issuer(external_url: Option<Seq<char>>, host: Option<Seq<char>>) -> Result<Seq<char>, Seq<char>> {
    match external_url {
        Some(u) => Ok(spec_trim_end_char(u, '/') + "/api/v1/ci/oidc"@),
        None => match host {
            Some(h) => Ok("http://"@ + h + "/api/v1/ci/oidc"@),
            None => Err("Host header is required when external_url is not configured"@),
        },
    }
}

/// Determine the issuer from the configured external URL and the Host
/// header's text.
pub fn issuer(external_url: Option<&str>, host: Option<&str>) -> (r: Result<String, String>)
    ensures
        match (r, spec_issuer(
            match external_url {
                Some(u) => Some(u@),
                None => None,
            },
            match host {
                Some(h) => Some(h@),
                None => None,
            },
        )) {
            (Ok(a), Ok(b)) => a@ == b,
            (Err(a), Err(b)) => a@ == b,
            _ => false,
        },
{
    match external_url {
        Some(u) => {
            let mut v = trim_end_char(chars_of(u).as_slice(), '/');
            append_chars(&mut v, chars_of("/api/v1/ci/oidc").as_slice());
            Ok(string_of(v.as_slice()))
        },
        None => match host {
            Some(h) => {
                let mut v = chars_of("http://");
                append_chars(&mut v, chars_of(h).as_slice());
                append_chars(&mut v, chars_of("/api/v1/ci/oidc").as_slice());
                Ok(string_of(v.as_slice()))
            },
            None => Err(String::from_str("Host header is required when external_url is not configured")),
        },
    }
}

/// The OpenID discovery document of an issuer.
pub fn discovery_document(issuer: String) -> (d: DiscoveryResponse)
    ensures
        d.issuer@ == issuer@,
        d.jwks_uri@ == issuer@ + "/jwks"@,
        d.token_endpoint@ == issuer@ + "/token"@,
        d.response_types_supported[0]@ == "id_token"@,
        d.subject_types_supported[0]@ == "public"@,
        d.id_token_signing_alg_values_supported[0]@ == "EdDSA"@,
        d.scopes_supported[0]@ == "openid"@,
{
    let mut jwks = string_chars(&issuer);
    append_chars(&mut jwks, chars_of("/jwks").as_slice());
    let mut token = string_chars(&issuer);
    append_chars(&mut token, chars_of("/token").as_slice());
    DiscoveryResponse {
        issuer,
        jwks_uri: string_of(jwks.as_slice()),
        token_endpoint: string_of(token.as_slice()),
        response_types_supported: ["id_token"],
        subject_types_supported: ["public"],
        id_token_signing_alg_values_supported: ["EdDSA"],
        scopes_supported: ["openid"],
    }
}

} // verus!

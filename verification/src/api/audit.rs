//! Audit log and login attempt listings.

use vstd::prelude::*;
use crate::text::{chars_of, cvs, spec_split, spec_trim, split_char, string_chars, string_of, trim};

verus! {

#[derive(Debug)]
pub struct AuditLogQuery {
    pub page: Option<u64>,
    /// Page size (also accepted as `page_size`).
    pub per_page: Option<u64>,
    pub user_id: Option<i64>,
    pub action: Option<String>,
    pub resource_type: Option<String>,
    pub start_time: Option<String>, // ISO 8601
    pub end_time: Option<String>,   // ISO 8601
}

#[derive(Debug)]
pub struct AuditLogEntry {
    pub id: i64,
    pub user_id: Option<i64>,
    pub username: Option<String>,
    pub action: String,
    pub resource_type: Option<String>,
    pub resource_id: Option<i64>,
    pub resource_name: Option<String>,
    pub ip_address: Option<String>,
    pub details: Option<String>,
    pub created_at: String,
}

#[derive(Debug)]
pub struct AuditLogResponse {
    pub total: u64,
    pub page: u64,
    pub per_page: u64,
    pub logs: Vec<AuditLogEntry>,
}

#[derive(Debug)]
pub struct LoginAttemptQuery {
    pub page: Option<u64>,
    pub per_page: Option<u64>,
    pub username: Option<String>,
    pub auth_provider: Option<String>,
    pub success: Option<bool>,
    pub start_time: Option<String>,
    pub end_time: Option<String>,
}

#[derive(Debug)]
pub struct LoginAttemptEntry {
    pub id: i64,
    pub user_id: Option<i64>,
    pub username: String,
    pub auth_provider: String,
    pub ip_address: Option<String>,
    pub user_agent: Option<String>,
    pub success: bool,
    pub failure_reason: Option<String>,
    pub created_at: String,
}

#[derive(Debug)]
pub struct LoginAttemptResponse {
    pub total: u64,
    pub page: u64,
    pub per_page: u64,
    pub attempts: Vec<LoginAttemptEntry>,
}

/// The page of a listing (1-based, at least 1; 1 by default) and its size
/// (1 to 100; 20 by default).
pub fn page_window(page: Option<u64>, per_page: Option<u64>) -> (r: (u64, u64))
    ensures
        r.0 == match page {
            Some(p) => if p < 1 {
                1
            } else {
                p
            },
            None => 1,
        },
        r.1 == match per_page {
            Some(n) => if n < 1 {
                1
            } else if n > 100 {
                100
            } else {
                n
            },
            None => 20,
        },
{
    let p = match page {
        Some(p) => if p < 1 {
            1
        } else {
            p
        },
        None => 1,
    };
    let n = match per_page {
        Some(n) => if n < 1 {
            1
        } else if n > 100 {
            100
        } else {
            n
        },
        None => 20,
    };
    (p, n)
}

/// A text filter, trimmed, when it holds more than whitespace.
pub open spec fn spec_filter_text(value: Option<Seq<char>>) -> Option<Seq<char>> {
    match value {
        Some(v) => if spec_trim(v).len() > 0 {
            Some(spec_trim(v))
        } else {
            None
        },
        None => None,
    }
}

/// Whether an optional string holds the optional text.
pub open spec fn same_text(a: Option<String>, b: Option<Seq<char>>) -> bool {
    match (a, b) {
        (Some(x), Some(y)) => x@ == y,
        (None, None) => true,
        _ => false,
    }
}

fn filter_text(value: &Option<String>) -> (r: Option<String>)
    ensures
        match r {
            Some(t) => spec_filter_text(match value {
                Some(v) => Some(v@),
                None => None,
            }) == Some(t@),
            None => spec_filter_text(match value {
                Some(v) => Some(v@),
                None => None,
            }) is None,
        },
{
    match value {
        Some(v) => {
            let t = trim(string_chars(v).as_slice());
            if t.len() > 0 {
                Some(string_of(t.as_slice()))
            } else {
                None
            }
        },
        None => None,
    }
}

/// The username and provider filters of a login-attempt listing, trimmed
/// and left out when blank; a username over 255 characters or a provider
/// over 20 is refused.
pub fn login_attempt_filters(q: &LoginAttemptQuery) -> (r: Result<(Option<String>, Option<String>), String>)
    ensures
        ({
            let user = spec_filter_text(match q.username {
                Some(v) => Some(v@),
                None => None,
            });
            let provider = spec_filter_text(match q.auth_provider {
                Some(v) => Some(v@),
                None => None,
            });
            if user matches Some(u) && u.len() > 255 {
                r matches Err(m) && m@ == "username filter must not exceed 255 characters"@
            } else if provider matches Some(p) && p.len() > 20 {
                r matches Err(m) && m@ == "auth_provider filter must not exceed 20 characters"@
            } else {
                r matches Ok((u, p)) && same_text(u, user) && same_text(p, provider)
            }
        }),
{
    let user = filter_text(&q.username);
    let provider = filter_text(&q.auth_provider);
    match &user {
        Some(u) => {
            if string_chars(u).len() > 255 {
                return Err(String::from_str("username filter must not exceed 255 characters"));
            }
        },
        None => {},
    }
    match &provider {
        Some(p) => {
            if string_chars(p).len() > 20 {
                return Err(String::from_str("auth_provider filter must not exceed 20 characters"));
            }
        },
        None => {},
    }
    Ok((user, provider))
}

/// A listing's time window is refused when it starts after it ends; each
/// bound is given as seconds and nanoseconds since the epoch.
pub fn check_time_window(start: Option<(i64, u32)>, end: Option<(i64, u32)>) -> (r: Result<(), String>)
    ensures
        match (start, end) {
            (Some(s), Some(e)) if s.0 > e.0 || (s.0 == e.0 && s.1 > e.1) => r matches Err(m)
                && m@ == "start_time must be earlier than or equal to end_time"@,
            _ => r is Ok,
        },
{
    match (start, end) {
        (Some(s), Some(e)) => {
            if s.0 > e.0 || (s.0 == e.0 && s.1 > e.1) {
                return Err(String::from_str("start_time must be earlier than or equal to end_time"));
            }
            Ok(())
        },
        _ => Ok(()),
    }
}

/// The first address of an `X-Forwarded-For` header, trimmed.
pub fn first_forwarded_for(value: &str) -> (r: String)
    ensures
        r@ == spec_trim(spec_split(value@, ',')[0]),
{
    let parts = split_char(chars_of(value).as_slice(), ',');
    proof {
        crate::text::lemma_split_len(value@, ',');
        assert(cvs(parts@)[0] == parts@[0]@);
    }
    string_of(trim(parts[0].as_slice()).as_slice())
}

/// The client metadata of a login: the forwarded address when it is an IP
/// address, else the `X-Real-IP` one when it is; the user agent cut to 512
/// characters. Each address is given as the address it parsed to, if any.
pub fn login_metadata(forwarded_ip: Option<String>, real_ip: Option<String>, user_agent: Option<&str>) -> (r: (
    Option<String>,
    Option<String>,
))
    ensures
        r.0 == match forwarded_ip {
            Some(a) => Some(a),
            None => real_ip,
        },
        match user_agent {
            Some(ua) => r.1 matches Some(t) && t@ == ua@.take(
                if ua@.len() < 512 {
                    ua@.len() as int
                } else {
                    512
                },
            ),
            None => r.1 is None,
        },
{
    let ip = match forwarded_ip {
        Some(a) => Some(a),
        None => real_ip,
    };
    let ua = match user_agent {
        Some(u) => {
            let cs = chars_of(u);
            let n: usize = if cs.len() < 512 {
                cs.len()
            } else {
                512
            };
            let t = crate::text::sub_chars(cs.as_slice(), 0, n);
            assert(t@ =~= u@.take(n as int));
            Some(string_of(t.as_slice()))
        },
        None => None,
    };
    (ip, ua)
}

/// The instant an ISO 8601 (RFC 3339) text names, as seconds and
/// nanoseconds since the epoch, as chrono parses a `DateTime<Utc>`; `None`
/// when it names none.
pub uninterp spec fn utc_instant(text: Seq<char>) -> Option<(i64, u32)>;

/// Calls `str::parse::<chrono::DateTime<Utc>>`, and reads the parsed time's
/// seconds and nanoseconds since the epoch. The result is named
/// `utc_instant` of the text.
#[verifier::external_body]
fn parse_utc(text: &str) -> (r: Option<(i64, u32)>)
    ensures
        r == utc_instant(text@),
{
    text.parse::<chrono::DateTime<chrono::Utc>>().ok().map(|t| (t.timestamp(), t.timestamp_subsec_nanos()))
}

/// The bound of a time window a text gives, if any.
fn parse_bound(text: &Option<String>) -> (r: Option<Option<(i64, u32)>>)
    ensures
        r == match text {
            Some(t) => Some(utc_instant(t@)),
            None => None::<Option<(i64, u32)>>,
        },
{
    match text {
        Some(t) => Some(parse_utc(t.as_str())),
        None => None,
    }
}

/// The time window of an audit-log listing: each bound that parses, the
/// others ignored.
pub fn audit_log_window(start_time: &Option<String>, end_time: &Option<String>) -> (r: (Option<(i64, u32)>, Option<(i64, u32)>))
    ensures
        r.0 == match start_time {
            Some(t) => utc_instant(t@),
            None => None,
        },
        r.1 == match end_time {
            Some(t) => utc_instant(t@),
            None => None,
        },
{
    let start = match parse_bound(start_time) {
        Some(b) => b,
        None => None,
    };
    let end = match parse_bound(end_time) {
        Some(b) => b,
        None => None,
    };
    (start, end)
}

/// A time window: its bounds, each as seconds and nanoseconds.
pub type Window = (Option<(i64, u32)>, Option<(i64, u32)>);

/// The time window of a login-attempt listing from its bounds as parsed
/// (`None` for a bound not given, `Some(None)` for one that does not
/// parse): a bound that does not parse is refused, the start first; then a
/// window that starts after it ends.
pub open spec fn spec_login_window(start: Option<Option<(i64, u32)>>, end: Option<Option<(i64, u32)>>) -> Result<Window, Seq<char>> {
    if start == Some(None::<(i64, u32)>) {
        Err("start_time must be ISO 8601"@)
    } else if end == Some(None::<(i64, u32)>) {
        Err("end_time must be ISO 8601"@)
    } else {
        let s = match start {
            Some(b) => b,
            None => None,
        };
        let e = match end {
            Some(b) => b,
            None => None,
        };
        match (s, e) {
            (Some(a), Some(b)) => if a.0 > b.0 || (a.0 == b.0 && a.1 > b.1) {
                Err("start_time must be earlier than or equal to end_time"@)
            } else {
                Ok((s, e))
            },
            _ => Ok((s, e)),
        }
    }
}

/// The view of a window or its refusal.
pub open spec fn window_view(r: Result<Window, String>) -> Result<Window, Seq<char>> {
    match r {
        Ok(w) => Ok(w),
        Err(m) => Err(m@),
    }
}

/// The time window of a login-attempt listing from its bounds as parsed.
pub fn login_attempt_window_of(start: Option<Option<(i64, u32)>>, end: Option<Option<(i64, u32)>>) -> (r: Result<Window, String>)
    ensures
        window_view(r) == spec_login_window(start, end),
{
    let s = match start {
        Some(Some(b)) => Some(b),
        Some(None) => return Err(String::from_str("start_time must be ISO 8601")),
        None => None,
    };
    let e = match end {
        Some(Some(b)) => Some(b),
        Some(None) => return Err(String::from_str("end_time must be ISO 8601")),
        None => None,
    };
    match check_time_window(s, e) {
        Ok(()) => Ok((s, e)),
        Err(m) => Err(m),
    }
}

/// The time window of a login-attempt listing from its query texts.
pub fn login_attempt_window(start_time: &Option<String>, end_time: &Option<String>) -> (r: Result<Window, String>)
    ensures
        window_view(r) == spec_login_window(
            match start_time {
                Some(t) => Some(utc_instant(t@)),
                None => None,
            },
            match end_time {
                Some(t) => Some(utc_instant(t@)),
                None => None,
            },
        ),
{
    login_attempt_window_of(parse_bound(start_time), parse_bound(end_time))
}

} // verus!

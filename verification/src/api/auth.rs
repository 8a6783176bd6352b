//! The authenticated caller, and the session token carried in request headers.

use vstd::prelude::*;
use crate::text::{
    append_chars, chars_of, cvs, lemma_split_concat, lemma_split_pieces_without_sep,
    lemma_split_without_sep, lemma_trim_leading_space, lemma_trim_of_trimmed, lemma_trim_shape,
    spec_is_whitespace, spec_split, spec_strip_prefix, spec_trim, split_char, starts_with,
    string_of, strip_prefix, trim,
};

verus! {

/// H-3: Unified auth extractor — handlers include this in their signature
/// to get compile-time authentication guarantees.
///
/// Extracts user_id from the HttpOnly auth cookie or `Authorization: Bearer <jwt>` header.
/// Returns 401 if the token is missing, invalid, or not a user token.
#[derive(Debug, Clone, Copy)]
pub struct AuthUser(pub i64);

/// The name of the cookie that holds the session token.
pub const AUTH_COOKIE_NAME: &'static str = "ironforge_token";

/// The first non-empty session token among the cookies (`name=value`
/// parts, trimmed).
pub open spec fn first_session_token(parts: Seq<Seq<char>>) -> Option<Seq<char>>
    decreases parts.len(),
{
    if parts.len() == 0 {
        None
    } else {
        match spec_strip_prefix(spec_trim(parts[0]), "ironforge_token="@) {
            Some(t) => if t.len() > 0 {
                Some(t)
            } else {
                first_session_token(parts.drop_first())
            },
            None => first_session_token(parts.drop_first()),
        }
    }
}

/// The session token of a Cookie header's text, if it carries a non-empty
/// one.
pub fn extract_token_from_cookie(cookie: Option<&str>) -> (r: Option<String>)
    ensures
        match cookie {
            Some(c) => match r {
                Some(t) => first_session_token(spec_split(c@, ';')) == Some(t@),
                None => first_session_token(spec_split(c@, ';')) is None,
            },
            None => r is None,
        },
{
    let c = match cookie {
        Some(c) => c,
        None => return None,
    };
    let parts = split_char(chars_of(c).as_slice(), ';');
    let ghost ps = cvs(parts@);
    let prefix = chars_of("ironforge_token=");
    let mut i: usize = 0;
    assert(ps.skip(0) =~= ps);
    while i < parts.len()
        invariant
            i <= parts@.len(),
            ps == cvs(parts@),
            ps == spec_split(c@, ';'),
            cookie == Some(c),
            prefix@ == "ironforge_token="@,
            first_session_token(ps) == first_session_token(ps.skip(i as int)),
        decreases parts@.len() - i,
    {
        assert(ps.skip(i as int)[0] == parts@[i as int]@);
        assert(ps.skip(i as int).drop_first() =~= ps.skip(i + 1));
        let part = trim(parts[i].as_slice());
        match strip_prefix(part.as_slice(), prefix.as_slice()) {
            Some(t) => {
                if t.len() > 0 {
                    return Some(string_of(t.as_slice()));
                }
            },
            None => {},
        }
        i = i + 1;
    }
    None
}

/// What to do with a request's Cookie header to drop the session cookie.
pub enum CookieEdit {
    /// There is no Cookie header.
    Keep,
    /// No other cookie is left: remove the header.
    Remove,
    /// Replace the header with the remaining cookies.
    Replace(String),
}

/// The trimmed cookies that are not the session cookie, in order.
pub open spec fn other_cookies(parts: Seq<Seq<char>>) -> Seq<Seq<char>>
    decreases parts.len(),
{
    if parts.len() == 0 {
        Seq::empty()
    } else {
        let init = other_cookies(parts.drop_last());
        let p = spec_trim(parts.last());
        if "ironforge_token="@.is_prefix_of(p) {
            init
        } else {
            init.push(p)
        }
    }
}

/// The cookies joined with `; `.
pub open spec fn join_cookies(cs: Seq<Seq<char>>) -> Seq<char>
    decreases cs.len(),
{
    if cs.len() == 0 {
        Seq::empty()
    } else if cs.len() == 1 {
        cs[0]
    } else {
        join_cookies(cs.drop_last()) + "; "@ + cs.last()
    }
}

/// How to drop the session cookie from a Cookie header's text, keeping the
/// other cookies.
pub fn strip_auth_cookie(cookie: Option<&str>) -> (e: CookieEdit)
    ensures
        match cookie {
            None => e is Keep,
            Some(c) => {
                let rest = other_cookies(spec_split(c@, ';'));
                if rest.len() == 0 {
                    e is Remove
                } else {
                    e matches CookieEdit::Replace(h) && h@ == join_cookies(rest)
                }
            },
        },
{
    let c = match cookie {
        Some(c) => c,
        None => return CookieEdit::Keep,
    };
    let parts = split_char(chars_of(c).as_slice(), ';');
    let ghost ps = cvs(parts@);
    let prefix = chars_of("ironforge_token=");
    let mut joined: Vec<char> = Vec::new();
    let mut count: usize = 0;
    let mut i: usize = 0;
    assert(ps.take(0) =~= Seq::<Seq<char>>::empty());
    while i < parts.len()
        invariant
            i <= parts@.len(),
            ps == cvs(parts@),
            prefix@ == "ironforge_token="@,
            count == other_cookies(ps.take(i as int)).len(),
            joined@ == join_cookies(other_cookies(ps.take(i as int))),
            count <= i,
        decreases parts@.len() - i,
    {
        assert(ps.take(i + 1).drop_last() =~= ps.take(i as int));
        assert(ps.take(i + 1).last() == parts@[i as int]@);
        let part = trim(parts[i].as_slice());
        let ghost init = other_cookies(ps.take(i as int));
        if !starts_with(part.as_slice(), prefix.as_slice()) {
            proof {
                let next = init.push(part@);
                assert(next.drop_last() =~= init);
                assert(next.last() == part@);
                assert(other_cookies(ps.take(i + 1)) == next);
                if init.len() == 0 {
                    assert(join_cookies(next) == part@);
                }
            }
            if count > 0 {
                append_chars(&mut joined, chars_of("; ").as_slice());
            }
            append_chars(&mut joined, part.as_slice());
            count = count + 1;
        }
        i = i + 1;
    }
    assert(ps.take(ps.len() as int) =~= ps);
    if count == 0 {
        CookieEdit::Remove
    } else {
        CookieEdit::Replace(string_of(joined.as_slice()))
    }
}

/// The pieces that splitting joined cookies at `;` gives: the first cookie,
/// then each later one after a space.
pub open spec fn spaced_cookies(cs: Seq<Seq<char>>) -> Seq<Seq<char>>
    decreases cs.len(),
{
    if cs.len() <= 1 {
        cs
    } else {
        spaced_cookies(cs.drop_last()).push(seq![' '] + cs.last())
    }
}

proof fn lemma_spaced_cookies(cs: Seq<Seq<char>>)
    ensures
        spaced_cookies(cs).len() == cs.len(),
        forall|i: int|
            0 <= i < cs.len() ==> #[trigger] spaced_cookies(cs)[i] == if i == 0 {
                cs[0]
            } else {
                seq![' '] + cs[i]
            },
    decreases cs.len(),
{
    if cs.len() > 1 {
        lemma_spaced_cookies(cs.drop_last());
        assert forall|i: int| 0 <= i < cs.len() implies #[trigger] spaced_cookies(cs)[i] == if i == 0 {
            cs[0]
        } else {
            seq![' '] + cs[i]
        } by {
            if i < cs.len() - 1 {
                assert(spaced_cookies(cs)[i] == spaced_cookies(cs.drop_last())[i]);
                assert(cs.drop_last()[i] == cs[i]);
            }
        }
    }
}

proof fn lemma_split_joined(cs: Seq<Seq<char>>)
    requires
        cs.len() >= 1,
        forall|k: int| 0 <= k < cs.len() ==> !(#[trigger] cs[k]).contains(';'),
    ensures
        spec_split(join_cookies(cs), ';') == spaced_cookies(cs),
    decreases cs.len(),
{
    reveal_strlit("; ");
    if cs.len() == 1 {
        lemma_split_without_sep(cs[0], ';');
        assert(seq![cs[0]] =~= cs);
    } else {
        let init = cs.drop_last();
        assert forall|k: int| 0 <= k < init.len() implies !(#[trigger] init[k]).contains(';') by {
            assert(init[k] == cs[k]);
        }
        lemma_split_joined(init);
        let tail = seq![' '] + cs.last();
        assert("; "@ =~= seq![';', ' ']);
        assert(join_cookies(cs) =~= join_cookies(init) + seq![';'] + tail);
        lemma_split_concat(join_cookies(init), tail, ';');
        assert(!tail.contains(';')) by {
            assert(!cs[cs.len() - 1].contains(';'));
            if tail.contains(';') {
                let k = choose|k: int| 0 <= k < tail.len() && tail[k] == ';';
                if k > 0 {
                    assert(cs.last()[k - 1] == ';');
                }
            }
        }
        lemma_split_without_sep(tail, ';');
        assert(spaced_cookies(init).push(tail) =~= spaced_cookies(init) + seq![tail]);
    }
}

/// Each remaining cookie is a trimmed piece of the header that is no
/// session cookie.
proof fn lemma_other_cookies(parts: Seq<Seq<char>>)
    ensures
        forall|i: int|
            0 <= i < other_cookies(parts).len() ==> exists|k: int|
                0 <= k < parts.len() && #[trigger] other_cookies(parts)[i] == spec_trim(parts[k]),
        forall|i: int|
            0 <= i < other_cookies(parts).len() ==> !"ironforge_token="@.is_prefix_of(#[trigger] other_cookies(parts)[i]),
    decreases parts.len(),
{
    if parts.len() > 0 {
        let init = parts.drop_last();
        lemma_other_cookies(init);
        let oc = other_cookies(init);
        assert forall|i: int| 0 <= i < other_cookies(parts).len() implies exists|k: int|
            0 <= k < parts.len() && #[trigger] other_cookies(parts)[i] == spec_trim(parts[k]) by {
            if i < oc.len() {
                assert(other_cookies(parts)[i] == oc[i]);
                let k = choose|k: int| 0 <= k < init.len() && oc[i] == spec_trim(init[k]);
                assert(init[k] == parts[k]);
            } else {
                assert(other_cookies(parts)[i] == spec_trim(parts[parts.len() - 1]));
            }
        }
        assert forall|i: int| 0 <= i < other_cookies(parts).len() implies !"ironforge_token="@.is_prefix_of(
            #[trigger] other_cookies(parts)[i],
        ) by {
            if i < oc.len() {
                assert(other_cookies(parts)[i] == oc[i]);
            }
        }
    }
}

proof fn lemma_no_session_token(ts: Seq<Seq<char>>)
    requires
        forall|k: int| 0 <= k < ts.len() ==> !"ironforge_token="@.is_prefix_of(spec_trim(#[trigger] ts[k])),
    ensures
        first_session_token(ts) is None,
    decreases ts.len(),
{
    if ts.len() > 0 {
        assert forall|k: int| 0 <= k < ts.drop_first().len() implies !"ironforge_token="@.is_prefix_of(
            spec_trim(#[trigger] ts.drop_first()[k]),
        ) by {
            assert(ts.drop_first()[k] == ts[k + 1]);
        }
        lemma_no_session_token(ts.drop_first());
    }
}

/// Once the session cookie is stripped, the Cookie header that is left
/// carries no session token.
pub proof fn lemma_stripped_cookie_has_no_token(c: Seq<char>)
    ensures
        other_cookies(spec_split(c, ';')).len() > 0 ==> first_session_token(
            spec_split(join_cookies(other_cookies(spec_split(c, ';'))), ';'),
        ) is None,
{
    let parts = spec_split(c, ';');
    let cs = other_cookies(parts);
    if cs.len() > 0 {
        lemma_split_pieces_without_sep(c, ';');
        lemma_other_cookies(parts);
        assert forall|i: int| 0 <= i < cs.len() implies !(#[trigger] cs[i]).contains(';') && (cs[i].len() == 0 || (
        !spec_is_whitespace(cs[i][0]) && !spec_is_whitespace(cs[i].last()))) by {
            let k = choose|k: int| 0 <= k < parts.len() && cs[i] == spec_trim(parts[k]);
            lemma_trim_shape(parts[k]);
            assert(!parts[k].contains(';'));
        }
        lemma_split_joined(cs);
        lemma_spaced_cookies(cs);
        let ts = spaced_cookies(cs);
        assert forall|k: int| 0 <= k < ts.len() implies !"ironforge_token="@.is_prefix_of(spec_trim(#[trigger] ts[k])) by {
            lemma_trim_of_trimmed(cs[k]);
            if k > 0 {
                lemma_trim_leading_space(cs[k]);
            }
            assert(spec_trim(ts[k]) == cs[k]);
        }
        lemma_no_session_token(ts);
    }
}

} // verus!

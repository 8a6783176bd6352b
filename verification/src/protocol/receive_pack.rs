//! Decisions of the receive-pack service (`git push`): the ref
//! advertisement, the parsing of update commands, the rejection and
//! signed-commit policies, and the report-status response.

use vstd::prelude::*;
use vstd::utf8::*;
use crate::pkt_line::{
    MAX_PKT_LINE_LEN, PktLine, PktLineError, PktView, encode_all, flush_bytes,
    lemma_decode_until_flush_encode_all, spec_decode_until_flush, spec_encode_all,
    spec_text_payload, view_wf,
};
use crate::sideband::{data_frames, data_lines, flatten_bytes, lemma_data_frames_reassemble, spec_data_frames};
use crate::text::{
    append_chars, bytes_eq, chars_of, contains_char, copy_string, decode_lossy, spec_split,
    spec_split_whitespace, spec_trim, spec_trim_end_char, split_char, split_whitespace,
    starts_with, string_chars, string_is, string_of, svs, trim, trim_end_char, utf8_bytes,
    utf8_lossy,
};

verus! {

// ── Ref patterns ─────────────────────────────────────────────────────────

/// Whether the bytes `v` match the glob pattern `p`, in which `*` matches any
/// sequence of bytes and every other byte matches itself.
pub open spec fn glob_match(p: Seq<u8>, v: Seq<u8>) -> bool
    decreases p.len() + v.len(),
{
    if p.len() == 0 {
        v.len() == 0
    } else if p.last() == 42u8 {
        glob_match(p.drop_last(), v) || (v.len() > 0 && glob_match(p, v.drop_last()))
    } else {
        v.len() > 0 && p.last() == v.last() && glob_match(p.drop_last(), v.drop_last())
    }
}

/// A pattern that is a literal prefix followed by `*` matches exactly the
/// values that start with the prefix.
pub proof fn lemma_glob_prefix(p: Seq<u8>, v: Seq<u8>)
    requires
        !p.contains(42u8),
    ensures
        glob_match(p.push(42u8), v) == p.is_prefix_of(v),
    decreases v.len(),
{
    let q = p.push(42u8);
    assert(q.last() == 42u8);
    assert(q.drop_last() =~= p);
    lemma_glob_literal(p, v);
    if v.len() > 0 {
        lemma_glob_prefix(p, v.drop_last());
        if p.is_prefix_of(v.drop_last()) {
            assert(v.drop_last().subrange(0, p.len() as int) =~= v.subrange(0, p.len() as int));
        }
        if p.is_prefix_of(v) && v != p {
            assert(p.len() < v.len()) by {
                if p.len() == v.len() {
                    assert(v =~= v.subrange(0, p.len() as int));
                }
            }
            assert(v.drop_last().subrange(0, p.len() as int) =~= v.subrange(0, p.len() as int));
        }
        if v == p {
            assert(p.is_prefix_of(v)) by {
                assert(v.subrange(0, p.len() as int) =~= p);
            }
        }
    } else {
        if p.is_prefix_of(v) {
            assert(p.len() == 0);
            assert(v =~= p);
        }
        if v == p {
            assert(p.len() == 0);
        }
    }
}

/// A pattern without `*` matches exactly itself.
pub proof fn lemma_glob_literal(p: Seq<u8>, v: Seq<u8>)
    requires
        !p.contains(42u8),
    ensures
        glob_match(p, v) == (v == p),
    decreases p.len() + v.len(),
{
    if p.len() == 0 {
        if v.len() == 0 {
            assert(v =~= p);
        }
    } else {
        assert(p.last() == p[p.len() - 1]);
        assert(!p.drop_last().contains(42u8)) by {
            if p.drop_last().contains(42u8) {
                let k = choose|k: int| 0 <= k < p.drop_last().len() && p.drop_last()[k] == 42u8;
                assert(p[k] == 42u8);
            }
        }
        if v.len() > 0 {
            lemma_glob_literal(p.drop_last(), v.drop_last());
            if v.drop_last() == p.drop_last() && v.last() == p.last() {
                assert(v =~= p.drop_last().push(p.last()));
                assert(p =~= p.drop_last().push(p.last()));
            }
            if v == p {
                assert(v.drop_last() =~= p.drop_last());
            }
        }
    }
}

/// Whether a byte sequence contains `b`.
fn contains_byte(s: &[u8], b: u8) -> (r: bool)
    ensures
        r == s@.contains(b),
{
    let mut i: usize = 0;
    while i < s.len()
        invariant
            i <= s@.len(),
            forall|k: int| 0 <= k < i ==> s@[k] != b,
        decreases s@.len() - i,
    {
        if s[i] == b {
            assert(s@[i as int] == b);
            return true;
        }
        i = i + 1;
    }
    false
}

proof fn lemma_glob_step(p: Seq<u8>, v: Seq<u8>, i: int, j: int)
    requires
        1 <= i <= p.len(),
        0 <= j <= v.len(),
    ensures
        glob_match(p.take(i), v.take(j)) == if p[i - 1] == 42u8 {
            glob_match(p.take(i - 1), v.take(j)) || (j > 0 && glob_match(p.take(i), v.take(j - 1)))
        } else {
            j > 0 && p[i - 1] == v[j - 1] && glob_match(p.take(i - 1), v.take(j - 1))
        },
{
    assert(p.take(i).drop_last() =~= p.take(i - 1));
    assert(p.take(i).last() == p[i - 1]);
    if j > 0 {
        assert(v.take(j).drop_last() =~= v.take(j - 1));
        assert(v.take(j).last() == v[j - 1]);
    }
}

/// Dynamic-programming evaluation of `glob_match`, one pattern row at a time.
fn glob_table(pat: &[u8], value: &[u8]) -> (r: bool)
    ensures
        r == glob_match(pat@, value@),
{
    let vlen = value.len();
    let mut prev: Vec<bool> = Vec::new();
    prev.push(true);
    let mut j: usize = 0;
    while j < vlen
        invariant
            j <= vlen,
            vlen == value@.len(),
            prev@.len() == j + 1,
            forall|k: int| 0 <= k <= j ==> #[trigger] prev@[k] == glob_match(pat@.take(0), value@.take(k)),
        decreases vlen - j,
    {
        prev.push(false);
        proof {
            assert(pat@.take(0).len() == 0);
        }
        j = j + 1;
    }
    let mut i: usize = 0;
    while i < pat.len()
        invariant
            i <= pat@.len(),
            vlen == value@.len(),
            prev@.len() == vlen + 1,
            forall|k: int| 0 <= k <= vlen ==> #[trigger] prev@[k] == glob_match(pat@.take(i as int), value@.take(k)),
        decreases pat@.len() - i,
    {
        let star = pat[i] == 42u8;
        let mut cur: Vec<bool> = Vec::new();
        proof {
            lemma_glob_step(pat@, value@, i + 1, 0);
        }
        if star {
            cur.push(prev[0]);
        } else {
            cur.push(false);
        }
        let mut j: usize = 0;
        while j < vlen
            invariant
                i < pat@.len(),
                j <= vlen,
                vlen == value@.len(),
                prev@.len() == vlen + 1,
                star == (pat@[i as int] == 42u8),
                forall|k: int| 0 <= k <= vlen ==> #[trigger] prev@[k] == glob_match(pat@.take(i as int), value@.take(k)),
                cur@.len() == j + 1,
                forall|k: int| 0 <= k <= j ==> #[trigger] cur@[k] == glob_match(pat@.take(i + 1), value@.take(k)),
            decreases vlen - j,
        {
            proof {
                lemma_glob_step(pat@, value@, i + 1, j + 1);
            }
            let x = if star {
                prev[j + 1] || cur[j]
            } else {
                prev[j] && pat[i] == value[j]
            };
            cur.push(x);
            j = j + 1;
        }
        prev = cur;
        i = i + 1;
    }
    assert(pat@.take(pat@.len() as int) =~= pat@);
    assert(value@.take(vlen as int) =~= value@);
    prev[vlen]
}

/// Match a full ref against a rejection pattern. `*` matches any sequence;
/// patterns without wildcards match exactly themselves.
pub fn ref_matches_rejection_pattern(refname: &str, pattern: &str) -> (r: bool)
    ensures
        r == glob_match(encode_utf8(pattern@), encode_utf8(refname@)),
{
    let value = refname.as_bytes();
    let pat = pattern.as_bytes();
    if !contains_byte(pat, 42u8) {
        proof {
            lemma_glob_literal(pat@, value@);
        }
        return bytes_eq(value, pat);
    }
    glob_table(pat, value)
}

// ── Ref updates ──────────────────────────────────────────────────────────

/// Result of processing a push for a single ref update.
#[derive(Clone, Debug)]
pub struct RefUpdate {
    pub old_sha: String,
    pub new_sha: String,
    pub refname: String,
    pub status: String,
    pub message: String,
}

/// The abstract value of a ref update.
pub struct RefUpdateView {
    pub old_sha: Seq<char>,
    pub new_sha: Seq<char>,
    pub refname: Seq<char>,
    pub status: Seq<char>,
    pub message: Seq<char>,
}

impl View for RefUpdate {
    type V = RefUpdateView;

    open spec fn view(&self) -> RefUpdateView {
        RefUpdateView {
            old_sha: self.old_sha@,
            new_sha: self.new_sha@,
            refname: self.refname@,
            status: self.status@,
            message: self.message@,
        }
    }
}

/// A copy of a ref update.
pub fn copy_update(u: &RefUpdate) -> (r: RefUpdate)
    ensures
        r@ == u@,
{
    RefUpdate {
        old_sha: copy_string(&u.old_sha),
        new_sha: copy_string(&u.new_sha),
        refname: copy_string(&u.refname),
        status: copy_string(&u.status),
        message: copy_string(&u.message),
    }
}

/// The views of a sequence of ref updates.
pub open spec fn updates_view(us: Seq<RefUpdate>) -> Seq<RefUpdateView> {
    us.map_values(|u: RefUpdate| u@)
}

/// The all-zero object name prefix that marks a deletion or a missing ref.
pub open spec fn null_sha_prefix() -> Seq<char> {
    "0000000"@
}

/// The update command carried by one data line of a push request, if any:
/// `old_sha new_sha refname`, with capabilities after a NUL on the first line.
/// A command whose new object name is null is refused as a deletion.
pub open spec fn spec_update_command(payload: Seq<u8>) -> Option<RefUpdateView> {
    let line = spec_trim_end_char(utf8_lossy(payload), '\n');
    let clean = if line.contains('\0') {
        spec_split(line, '\0')[0]
    } else {
        line
    };
    let parts = spec_split_whitespace(clean);
    if line.len() == 0 || parts.len() < 3 {
        None
    } else if null_sha_prefix().is_prefix_of(parts[1]) {
        Some(
            RefUpdateView {
                old_sha: parts[0],
                new_sha: parts[1],
                refname: parts[2],
                status: "error"@,
                message: "deletion not supported"@,
            },
        )
    } else {
        Some(
            RefUpdateView {
                old_sha: parts[0],
                new_sha: parts[1],
                refname: parts[2],
                status: "ok"@,
                message: Seq::empty(),
            },
        )
    }
}

/// Parse one data line of a push request into an update command.
pub fn parse_update_command(payload: &[u8]) -> (r: Option<RefUpdate>)
    ensures
        r matches Some(u) ==> spec_update_command(payload@) == Some(u@),
        r is None ==> spec_update_command(payload@) is None,
{
    let text = decode_lossy(payload);
    let chars = string_chars(&text);
    let line = trim_end_char(chars.as_slice(), '\n');
    if line.len() == 0 {
        return None;
    }
    let clean = if contains_char(line.as_slice(), '\0') {
        let pieces = split_char(line.as_slice(), '\0');
        proof {
            assert(pieces@.len() >= 1) by {
                crate::text::lemma_split_len(line@, '\0');
            }
        }
        let first = pieces[0].clone();
        assert(first@ == spec_split(line@, '\0')[0]);
        first
    } else {
        line
    };
    let parts = split_whitespace(clean.as_slice());
    if parts.len() < 3 {
        return None;
    }
    let old_sha = string_of(parts[0].as_slice());
    let new_sha = string_of(parts[1].as_slice());
    let refname = string_of(parts[2].as_slice());
    let null = chars_of("0000000");
    if starts_with(parts[1].as_slice(), null.as_slice()) {
        Some(
            RefUpdate {
                old_sha,
                new_sha,
                refname,
                status: String::from_str("error"),
                message: String::from_str("deletion not supported"),
            },
        )
    } else {
        Some(RefUpdate { old_sha, new_sha, refname, status: String::from_str("ok"), message: String::new() })
    }
}

/// The update commands of a push request: the commands of its data lines up to
/// the first flush; delimiter and response-end packets are skipped.
pub open spec fn spec_update_commands(ps: Seq<PktView>) -> Seq<RefUpdateView>
    decreases ps.len(),
{
    if ps.len() == 0 {
        Seq::empty()
    } else {
        match ps[0] {
            PktView::Flush => Seq::empty(),
            PktView::Data(d) => match spec_update_command(d) {
                Some(u) => seq![u] + spec_update_commands(ps.drop_first()),
                None => spec_update_commands(ps.drop_first()),
            },
            _ => spec_update_commands(ps.drop_first()),
        }
    }
}

/// The update command a pkt-line carries, if any: a data line that parses
/// as one.
pub open spec fn command_of_line() -> spec_fn(PktView) -> Option<RefUpdateView> {
    |p: PktView| match p {
        PktView::Data(d) => spec_update_command(d),
        _ => None,
    }
}

/// `filter_map` over a sequence with one more item in front.
proof fn lemma_filter_map_prepend<A, B>(x: A, s: Seq<A>, f: spec_fn(A) -> Option<B>)
    ensures
        (seq![x] + s).filter_map(f) == match f(x) {
            Some(b) => seq![b] + s.filter_map(f),
            None => s.filter_map(f),
        },
    decreases s.len(),
{
    let t = seq![x] + s;
    if s.len() == 0 {
        assert(t =~= seq![x]);
        assert(t.drop_last() =~= Seq::<A>::empty());
        assert(t.last() == x);
        assert(s.filter_map(f) =~= Seq::<B>::empty());
        assert(t.drop_last().filter_map(f) =~= Seq::<B>::empty());
        match f(x) {
            Some(b) => {
                assert(t.filter_map(f) == t.drop_last().filter_map(f) + seq![b]);
                assert(Seq::<B>::empty() + seq![b] =~= seq![b] + Seq::<B>::empty());
            },
            None => {
                assert(t.filter_map(f) == t.drop_last().filter_map(f));
            },
        }
    } else {
        lemma_filter_map_prepend(x, s.drop_last(), f);
        assert(t.drop_last() =~= seq![x] + s.drop_last());
        assert(t.last() == s.last());
        match f(x) {
            Some(b) => match f(s.last()) {
                Some(c) => assert(seq![b] + s.drop_last().filter_map(f) + seq![c] =~= seq![b] + (s.drop_last().filter_map(
                    f,
                ) + seq![c])),
                None => {},
            },
            None => {},
        }
    }
}

/// A push's update commands are exactly the commands of its data lines
/// before the first flush (`n` is where that flush stands, or the end),
/// one per line that parses as a command, in order; nothing after the flush
/// counts.
pub proof fn lemma_update_commands_before_flush(ps: Seq<PktView>, n: int)
    requires
        0 <= n <= ps.len(),
        forall|i: int| 0 <= i < n ==> !(#[trigger] ps[i] is Flush),
        n < ps.len() ==> ps[n] is Flush,
    ensures
        spec_update_commands(ps) == ps.take(n).filter_map(command_of_line()),
    decreases ps.len(),
{
    if ps.len() == 0 {
        assert(ps.take(n) =~= Seq::<PktView>::empty());
    } else if ps[0] is Flush {
        assert(n == 0);
        assert(ps.take(n) =~= Seq::<PktView>::empty());
    } else {
        assert(n > 0);
        let rest = ps.drop_first();
        assert forall|i: int| 0 <= i < n - 1 implies !(#[trigger] rest[i] is Flush) by {
            assert(rest[i] == ps[i + 1]);
        }
        if n - 1 < rest.len() {
            assert(rest[n - 1] == ps[n]);
        }
        lemma_update_commands_before_flush(rest, n - 1);
        assert(ps.take(n) =~= seq![ps[0]] + rest.take(n - 1));
        lemma_filter_map_prepend(ps[0], rest.take(n - 1), command_of_line());
    }
}

/// Collect the update commands of a push request.
pub fn collect_update_commands(ps: &[PktLine]) -> (us: Vec<RefUpdate>)
    ensures
        updates_view(us@) == spec_update_commands(ps@.map_values(|p: PktLine| p@)),
{
    let ghost views = ps@.map_values(|p: PktLine| p@);
    let mut us: Vec<RefUpdate> = Vec::new();
    let mut i: usize = 0;
    proof {
        assert(views.skip(0) =~= views);
        assert(updates_view(us@) + spec_update_commands(views) =~= spec_update_commands(views));
    }
    while i < ps.len()
        invariant
            i <= ps@.len(),
            views == ps@.map_values(|p: PktLine| p@),
            spec_update_commands(views) == updates_view(us@) + spec_update_commands(views.skip(i as int)),
        decreases ps@.len() - i,
    {
        let ghost t = views.skip(i as int);
        proof {
            assert(t[0] == ps@[i as int]@);
            assert(t.drop_first() =~= views.skip(i + 1));
        }
        match &ps[i] {
            PktLine::Flush => {
                assert(updates_view(us@) + Seq::<RefUpdateView>::empty() =~= updates_view(us@));
                return us;
            },
            PktLine::Data(d) => {
                match parse_update_command(d.as_slice()) {
                    Some(u) => {
                        let ghost before = updates_view(us@);
                        let ghost uv = u@;
                        us.push(u);
                        assert(updates_view(us@) =~= before.push(uv));
                        assert(before + (seq![uv] + spec_update_commands(views.skip(i + 1)))
                            =~= before.push(uv) + spec_update_commands(views.skip(i + 1)));
                    },
                    None => {},
                }
            },
            _ => {},
        }
        i = i + 1;
    }
    proof {
        assert(views.skip(i as int) =~= Seq::<PktView>::empty());
        assert(updates_view(us@) + Seq::<RefUpdateView>::empty() =~= updates_view(us@));
    }
    us
}

/// Whether a status is `ok`.
pub open spec fn is_ok_status(status: Seq<char>) -> bool {
    status == "ok"@
}

/// The message of the first rejection rule whose pattern matches `refname`.
pub open spec fn spec_first_rejection(refname: Seq<char>, rules: Seq<(Seq<char>, Seq<char>)>) -> Option<Seq<char>>
    decreases rules.len(),
{
    if rules.len() == 0 {
        None
    } else if glob_match(encode_utf8(rules[0].0), encode_utf8(refname)) {
        Some(rules[0].1)
    } else {
        spec_first_rejection(refname, rules.drop_first())
    }
}

/// The views of rejection rules `(pattern, message)`.
pub open spec fn rules_view(rules: Seq<(String, String)>) -> Seq<(Seq<char>, Seq<char>)> {
    rules.map_values(|r: (String, String)| (r.0@, r.1@))
}

/// An accepted update whose ref matches a rejection rule is refused with that
/// rule's message; other updates are unchanged.
pub open spec fn spec_apply_rejection(u: RefUpdateView, rules: Seq<(Seq<char>, Seq<char>)>) -> RefUpdateView {
    if is_ok_status(u.status) {
        match spec_first_rejection(u.refname, rules) {
            Some(msg) => RefUpdateView { status: "error"@, message: msg, ..u },
            None => u,
        }
    } else {
        u
    }
}

fn first_rejection(refname: &String, rules: &[(String, String)]) -> (r: Option<String>)
    ensures
        r matches Some(m) ==> spec_first_rejection(refname@, rules_view(rules@)) == Some(m@),
        r is None ==> spec_first_rejection(refname@, rules_view(rules@)) is None,
{
    let ghost rv = rules_view(rules@);
    let mut i: usize = 0;
    proof {
        assert(rv.skip(0) =~= rv);
    }
    while i < rules.len()
        invariant
            i <= rules@.len(),
            rv == rules_view(rules@),
            spec_first_rejection(refname@, rv) == spec_first_rejection(refname@, rv.skip(i as int)),
        decreases rules@.len() - i,
    {
        proof {
            let t = rv.skip(i as int);
            assert(t[0] == (rules@[i as int].0@, rules@[i as int].1@));
            assert(t.drop_first() =~= rv.skip(i + 1));
        }
        if ref_matches_rejection_pattern(refname.as_str(), rules[i].0.as_str()) {
            return Some(copy_string(&rules[i].1));
        }
        i = i + 1;
    }
    None
}

/// Apply the rejection rules `(pattern, message)` to the accepted updates.
pub fn apply_rejections(updates: &mut Vec<RefUpdate>, rules: &[(String, String)])
    ensures
        final(updates)@.len() == old(updates)@.len(),
        forall|k: int|
            0 <= k < old(updates)@.len() ==> (#[trigger] final(updates)@[k])@ == spec_apply_rejection(
                old(updates)@[k]@,
                rules_view(rules@),
            ),
{
    let mut out: Vec<RefUpdate> = Vec::new();
    let mut i: usize = 0;
    while i < updates.len()
        invariant
            i <= updates@.len(),
            updates@ == old(updates)@,
            out@.len() == i,
            forall|k: int|
                0 <= k < i ==> (#[trigger] out@[k])@ == spec_apply_rejection(
                    old(updates)@[k]@,
                    rules_view(rules@),
                ),
        decreases updates@.len() - i,
    {
        let u = &updates[i];
        let next = if string_is(&u.status, "ok") {
            match first_rejection(&u.refname, rules) {
                Some(msg) => RefUpdate {
                    old_sha: copy_string(&u.old_sha),
                    new_sha: copy_string(&u.new_sha),
                    refname: copy_string(&u.refname),
                    status: String::from_str("error"),
                    message: msg,
                },
                None => copy_update(u),
            }
        } else {
            copy_update(u)
        };
        out.push(next);
        i = i + 1;
    }
    *updates = out;
}

/// Whether an update is still accepted.
pub fn is_accepted(update: &RefUpdate) -> (r: bool)
    ensures
        r == is_ok_status(update.status@),
{
    string_is(&update.status, "ok")
}

/// Whether some update is still accepted.
pub fn has_accepted_update(updates: &[RefUpdate]) -> (r: bool)
    ensures
        r == exists|k: int| 0 <= k < updates@.len() && is_ok_status((#[trigger] updates@[k]).status@),
{
    let mut i: usize = 0;
    while i < updates.len()
        invariant
            i <= updates@.len(),
            forall|k: int| 0 <= k < i ==> !is_ok_status((#[trigger] updates@[k]).status@),
        decreases updates@.len() - i,
    {
        if string_is(&updates[i].status, "ok") {
            assert(is_ok_status(updates@[i as int].status@));
            return true;
        }
        i = i + 1;
    }
    false
}

// ── Ref advertisement ────────────────────────────────────────────────────

/// Capabilities that receive-pack advertises.
pub open spec fn receive_caps() -> Seq<char> {
    "report-status report-status-v2 side-band-64k agent=ironforge/0.1"@
}

/// The views of `(sha, refname)` pairs.
pub open spec fn pairs_view(refs: Seq<(String, String)>) -> Seq<(Seq<char>, Seq<char>)> {
    refs.map_values(|r: (String, String)| (r.0@, r.1@))
}

/// The text of one advertised ref: `sha refname`, followed on the first line by
/// a NUL and the capabilities.
pub open spec fn ad_line(sha: Seq<char>, refname: Seq<char>, caps: Option<Seq<char>>) -> Seq<char> {
    match caps {
        Some(c) => sha + " "@ + refname + "\0"@ + c,
        None => sha + " "@ + refname,
    }
}

/// The UTF-8 encoding of two texts one after the other is their encodings
/// one after the other.
proof fn lemma_encode_utf8_append(a: Seq<char>, b: Seq<char>)
    ensures
        encode_utf8(a + b) == encode_utf8(a) + encode_utf8(b),
    decreases a.len(),
{
    if a.len() == 0 {
        assert(a + b =~= b);
        assert(encode_utf8(a) =~= Seq::<u8>::empty());
        assert(Seq::<u8>::empty() + encode_utf8(b) =~= encode_utf8(b));
    } else {
        lemma_encode_utf8_append(a.drop_first(), b);
        assert((a + b)[0] == a[0]);
        assert((a + b).drop_first() =~= a.drop_first() + b);
        assert(encode_scalar(a[0] as u32) + (encode_utf8(a.drop_first()) + encode_utf8(b)) =~= encode_scalar(
            a[0] as u32,
        ) + encode_utf8(a.drop_first()) + encode_utf8(b));
    }
}

/// The receive-pack ref advertisement: one data line per ref, the
/// capabilities on the first.
pub open spec fn spec_receive_advertisement(refs: Seq<(Seq<char>, Seq<char>)>) -> Seq<PktView> {
    Seq::new(
        refs.len(),
        |i: int|
            PktView::Data(
                encode_utf8(
                    ad_line(
                        refs[i].0,
                        refs[i].1,
                        if i == 0 {
                            Some(receive_caps())
                        } else {
                            None
                        },
                    ),
                ),
            ),
    )
}

/// The characters of an advertised ref line.
pub fn ad_line_chars(sha: &String, refname: &String, caps: Option<&str>) -> (v: Vec<char>)
    ensures
        v@ == ad_line(
            sha@,
            refname@,
            match caps {
                Some(c) => Some(c@),
                None => None,
            },
        ),
{
    let mut v = string_chars(sha);
    append_chars(&mut v, chars_of(" ").as_slice());
    append_chars(&mut v, string_chars(refname).as_slice());
    match caps {
        Some(c) => {
            append_chars(&mut v, chars_of("\0").as_slice());
            append_chars(&mut v, chars_of(c).as_slice());
        },
        None => {},
    }
    v
}

/// Each line of the receive-pack advertisement names one ref of the list,
/// in order: the ref's object id, a space, then the ref's name; the first
/// line goes on with a NUL and the capabilities, the others end there.
pub proof fn lemma_advertisement_lines_name_id_then_ref(refs: Seq<(Seq<char>, Seq<char>)>)
    ensures
        spec_receive_advertisement(refs).len() == refs.len(),
        forall|k: int|
            0 <= k < refs.len() ==> (#[trigger] spec_receive_advertisement(refs)[k] matches PktView::Data(d)
                && encode_utf8(refs[k].0 + " "@ + refs[k].1).is_prefix_of(d)
                && (k > 0 ==> d == encode_utf8(refs[k].0 + " "@ + refs[k].1))),
{
    assert forall|k: int| 0 <= k < refs.len() implies (#[trigger] spec_receive_advertisement(refs)[k] matches PktView::Data(d)
        && encode_utf8(refs[k].0 + " "@ + refs[k].1).is_prefix_of(d)
        && (k > 0 ==> d == encode_utf8(refs[k].0 + " "@ + refs[k].1))) by {
        let x = refs[k].0 + " "@ + refs[k].1;
        if k == 0 {
            let tail = "\0"@ + receive_caps();
            assert(x + "\0"@ + receive_caps() =~= x + tail);
            lemma_encode_utf8_append(x, tail);
        }
    }
}

/// Build the ref advertisement pkt-lines of receive-pack.
pub fn build_ref_advertisement(ref_list: &[(String, String)]) -> (lines: Vec<PktLine>)
    ensures
        lines@.map_values(|p: PktLine| p@) == spec_receive_advertisement(pairs_view(ref_list@)),
{
    let mut lines: Vec<PktLine> = Vec::new();
    let mut i: usize = 0;
    while i < ref_list.len()
        invariant
            i <= ref_list@.len(),
            lines@.len() == i,
            forall|k: int|
                0 <= k < i ==> (#[trigger] lines@[k])@ == spec_receive_advertisement(
                    pairs_view(ref_list@),
                )[k],
        decreases ref_list@.len() - i,
    {
        let caps: Option<&str> = if i == 0 {
            Some("report-status report-status-v2 side-band-64k agent=ironforge/0.1")
        } else {
            None
        };
        let chars = ad_line_chars(&ref_list[i].0, &ref_list[i].1, caps);
        lines.push(PktLine::from_chars(chars.as_slice()));
        i = i + 1;
    }
    assert(lines@.map_values(|p: PktLine| p@) =~= spec_receive_advertisement(pairs_view(ref_list@)));
    lines
}

/// The name of the placeholder ref advertised by an empty repository.
pub open spec fn empty_repo_ref() -> Seq<char> {
    "capabilities^{}"@
}

/// The null object name.
pub open spec fn null_sha() -> Seq<char> {
    "0000000000000000000000000000000000000000"@
}

/// The refs that receive-pack advertises, given the refs of the repository
/// and its resolved `HEAD`: `HEAD` is added when no entry is named so, and an
/// empty list becomes the placeholder of an empty repository.
pub open spec fn spec_complete_ref_list(
    refs: Seq<(Seq<char>, Seq<char>)>,
    head: Option<Seq<char>>,
) -> Seq<(Seq<char>, Seq<char>)> {
    let with_head = match head {
        Some(h) => if (exists|k: int| 0 <= k < refs.len() && (#[trigger] refs[k]).1 == "HEAD"@) {
            refs
        } else {
            refs.push((h, "HEAD"@))
        },
        None => refs,
    };
    if with_head.len() == 0 {
        seq![(null_sha(), empty_repo_ref())]
    } else {
        with_head
    }
}

/// Complete the ref list of a repository for advertisement.
pub fn complete_ref_list(refs: Vec<(String, String)>, head: Option<String>) -> (r: Vec<(String, String)>)
    ensures
        pairs_view(r@) == spec_complete_ref_list(
            pairs_view(refs@),
            match head {
                Some(h) => Some(h@),
                None => None,
            },
        ),
{
    let mut refs = refs;
    let ghost rv = pairs_view(refs@);
    match head {
        Some(h) => {
            let mut found = false;
            let mut i: usize = 0;
            while i < refs.len()
                invariant
                    i <= refs@.len(),
                    rv == pairs_view(refs@),
                    found == exists|k: int| 0 <= k < i && (#[trigger] rv[k]).1 == "HEAD"@,
                decreases refs@.len() - i,
            {
                if string_is(&refs[i].1, "HEAD") {
                    found = true;
                }
                proof {
                    assert(rv[i as int].1 == refs@[i as int].1@);
                }
                i = i + 1;
            }
            if !found {
                let ghost before = pairs_view(refs@);
                refs.push((h, String::from_str("HEAD")));
                assert(pairs_view(refs@) =~= before.push((h@, "HEAD"@)));
            }
        },
        None => {},
    }
    if refs.len() == 0 {
        let mut out: Vec<(String, String)> = Vec::new();
        out.push(
            (
                String::from_str("0000000000000000000000000000000000000000"),
                String::from_str("capabilities^{}"),
            ),
        );
        assert(pairs_view(out@) =~= seq![(null_sha(), empty_repo_ref())]);
        return out;
    }
    refs
}

// ── Signed-commit policy ─────────────────────────────────────────────────

/// Whether some pattern matches the ref.
pub open spec fn any_pattern_matches(refname: Seq<char>, patterns: Seq<Seq<char>>) -> bool {
    exists|k: int| 0 <= k < patterns.len() && glob_match(encode_utf8(#[trigger] patterns[k]), encode_utf8(refname))
}

/// Whether an update must carry signed commits: it is accepted and its ref
/// matches one of the patterns.
pub fn requires_signed_commits(update: &RefUpdate, patterns: &[String]) -> (r: bool)
    ensures
        r == (is_ok_status(update.status@) && any_pattern_matches(update.refname@, svs(patterns@))),
{
    if !string_is(&update.status, "ok") {
        return false;
    }
    let mut i: usize = 0;
    while i < patterns.len()
        invariant
            i <= patterns@.len(),
            is_ok_status(update.status@),
            forall|k: int|
                0 <= k < i ==> !glob_match(encode_utf8(#[trigger] svs(patterns@)[k]), encode_utf8(update.refname@)),
        decreases patterns@.len() - i,
    {
        let m = ref_matches_rejection_pattern(update.refname.as_str(), patterns[i].as_str());
        assert(m == glob_match(encode_utf8(patterns@[i as int]@), encode_utf8(update.refname@)));
        if m {
            assert(svs(patterns@)[i as int] == patterns@[i as int]@);
            assert(glob_match(encode_utf8(svs(patterns@)[i as int]), encode_utf8(update.refname@)));
            return true;
        }
        i = i + 1;
    }
    false
}

/// The arguments of the `git rev-list` run that lists the new commits of an
/// update: the new object, excluding the old one unless it is null.
pub open spec fn spec_signature_rev_list_args(u: RefUpdateView) -> Seq<Seq<char>> {
    if null_sha_prefix().is_prefix_of(u.old_sha) {
        seq!["rev-list"@, u.new_sha]
    } else {
        seq!["rev-list"@, u.new_sha, "^"@ + u.old_sha]
    }
}

/// Arguments of the `git rev-list` run for signature verification.
pub fn signature_rev_list_args(update: &RefUpdate) -> (args: Vec<String>)
    ensures
        svs(args@) == spec_signature_rev_list_args(update@),
{
    let mut args: Vec<String> = Vec::new();
    args.push(String::from_str("rev-list"));
    args.push(copy_string(&update.new_sha));
    let null = chars_of("0000000");
    let old = string_chars(&update.old_sha);
    if !starts_with(old.as_slice(), null.as_slice()) {
        let mut excl = chars_of("^");
        append_chars(&mut excl, old.as_slice());
        args.push(string_of(excl.as_slice()));
    }
    assert(svs(args@) =~= spec_signature_rev_list_args(update@));
    args
}

/// What checking the signatures of an update's new commits found.
pub enum SignatureCheck {
    /// The git gateway could not be set up; carries its error.
    GatewayUnavailable { error: String },
    /// `git rev-list` exited with failure; carries its standard error.
    RevListFailed { stderr: String },
    /// `git rev-list` could not be run; carries the error.
    RevListError { error: String },
    /// This commit has no cryptographically valid signature.
    Unsigned { sha: String },
    /// Every new commit is validly signed.
    AllSigned,
}

/// What the signature walk over a push's new commits does next.
pub enum SignatureWalk {
    /// Run `git verify-commit` on this commit.
    Verify { sha: String },
    /// The walk is over, with this outcome.
    Finished(SignatureCheck),
}

/// One step of the signature walk over `commits`, of which the first `next`
/// have been verified, the last of them with the verdict `last_verified`
/// (not read when `next` is 0): a failed verdict finishes the walk with that
/// commit unsigned; else the next commit is verified; after the last one,
/// every commit is signed.
pub fn signature_step(commits: &Vec<String>, next: usize, last_verified: bool) -> (w: SignatureWalk)
    requires
        next <= commits@.len(),
    ensures
        next > 0 && !last_verified ==> (w matches SignatureWalk::Finished(SignatureCheck::Unsigned { sha })
            && sha@ == commits@[next - 1]@),
        (next == 0 || last_verified) && next < commits@.len() ==> (w matches SignatureWalk::Verify { sha }
            && sha@ == commits@[next as int]@),
        (next == 0 || last_verified) && next == commits@.len() ==> w matches SignatureWalk::Finished(
            SignatureCheck::AllSigned,
        ),
{
    if next > 0 && !last_verified {
        SignatureWalk::Finished(SignatureCheck::Unsigned { sha: copy_string(&commits[next - 1]) })
    } else if next < commits.len() {
        SignatureWalk::Verify { sha: copy_string(&commits[next]) }
    } else {
        SignatureWalk::Finished(SignatureCheck::AllSigned)
    }
}

/// The update after a signature check: refused with a message naming the
/// problem, or unchanged when every commit is signed.
pub open spec fn spec_apply_signature_check(u: RefUpdateView, check: SignatureCheck) -> RefUpdateView {
    match check {
        SignatureCheck::GatewayUnavailable { error } => RefUpdateView {
            status: "error"@,
            message: "unable to verify required commit signatures: "@ + error@,
            ..u
        },
        SignatureCheck::RevListFailed { stderr } => RefUpdateView {
            status: "error"@,
            message: "failed to enumerate commits for signature verification: "@ + spec_trim(stderr@),
            ..u
        },
        SignatureCheck::RevListError { error } => RefUpdateView {
            status: "error"@,
            message: "failed to enumerate commits for signature verification: "@ + error@,
            ..u
        },
        SignatureCheck::Unsigned { sha } => RefUpdateView {
            status: "error"@,
            message: "commit "@ + sha@ + " does not have a cryptographically valid signature"@,
            ..u
        },
        SignatureCheck::AllSigned => u,
    }
}

fn refused(u: &RefUpdate, message: Vec<char>) -> (r: RefUpdate)
    ensures
        r@ == (RefUpdateView { status: "error"@, message: message@, ..u@ }),
{
    RefUpdate {
        old_sha: copy_string(&u.old_sha),
        new_sha: copy_string(&u.new_sha),
        refname: copy_string(&u.refname),
        status: String::from_str("error"),
        message: string_of(message.as_slice()),
    }
}

/// Record the outcome of a signature check on an update.
pub fn apply_signature_check(update: &RefUpdate, check: &SignatureCheck) -> (r: RefUpdate)
    ensures
        r@ == spec_apply_signature_check(update@, *check),
{
    match check {
        SignatureCheck::GatewayUnavailable { error } => {
            let mut m = chars_of("unable to verify required commit signatures: ");
            append_chars(&mut m, string_chars(error).as_slice());
            refused(update, m)
        },
        SignatureCheck::RevListFailed { stderr } => {
            let mut m = chars_of("failed to enumerate commits for signature verification: ");
            append_chars(&mut m, trim(string_chars(stderr).as_slice()).as_slice());
            refused(update, m)
        },
        SignatureCheck::RevListError { error } => {
            let mut m = chars_of("failed to enumerate commits for signature verification: ");
            append_chars(&mut m, string_chars(error).as_slice());
            refused(update, m)
        },
        SignatureCheck::Unsigned { sha } => {
            let mut m = chars_of("commit ");
            append_chars(&mut m, string_chars(sha).as_slice());
            append_chars(&mut m, chars_of(" does not have a cryptographically valid signature").as_slice());
            refused(update, m)
        },
        SignatureCheck::AllSigned => copy_update(update),
    }
}

/// Which of the updates need their new commits checked for signatures.
pub fn signature_checks_needed(updates: &Vec<RefUpdate>, patterns: &[String]) -> (needed: Vec<bool>)
    ensures
        needed@.len() == updates@.len(),
        forall|k: int|
            0 <= k < updates@.len() ==> needed@[k] == (is_ok_status(updates@[k].status@) && any_pattern_matches(
                updates@[k].refname@,
                svs(patterns@),
            )),
{
    let mut needed: Vec<bool> = Vec::new();
    let mut i: usize = 0;
    while i < updates.len()
        invariant
            i <= updates@.len(),
            needed@.len() == i,
            forall|k: int|
                0 <= k < i ==> needed@[k] == (is_ok_status(updates@[k].status@) && any_pattern_matches(
                    updates@[k].refname@,
                    svs(patterns@),
                )),
        decreases updates@.len() - i,
    {
        needed.push(requires_signed_commits(&updates[i], patterns));
        i = i + 1;
    }
    needed
}

/// The signed-commit policy over a push: each update to a ref under one of
/// the patterns, still accepted, takes the outcome of its signature check
/// (`checks` holds one per update, in order; the others are not read); every
/// other update stays as it is.
pub fn enforce_signed_commits(updates: &Vec<RefUpdate>, patterns: &[String], checks: &Vec<SignatureCheck>) -> (r: Vec<
    RefUpdate,
>)
    requires
        checks@.len() == updates@.len(),
    ensures
        r@.len() == updates@.len(),
        forall|k: int|
            0 <= k < updates@.len() ==> (#[trigger] r@[k])@ == if is_ok_status(updates@[k].status@)
                && any_pattern_matches(updates@[k].refname@, svs(patterns@)) {
                spec_apply_signature_check(updates@[k]@, checks@[k])
            } else {
                updates@[k]@
            },
{
    let mut r: Vec<RefUpdate> = Vec::new();
    let mut i: usize = 0;
    while i < updates.len()
        invariant
            i <= updates@.len(),
            checks@.len() == updates@.len(),
            r@.len() == i,
            forall|k: int|
                0 <= k < i ==> (#[trigger] r@[k])@ == if is_ok_status(updates@[k].status@) && any_pattern_matches(
                    updates@[k].refname@,
                    svs(patterns@),
                ) {
                    spec_apply_signature_check(updates@[k]@, checks@[k])
                } else {
                    updates@[k]@
                },
        decreases updates@.len() - i,
    {
        let u = if requires_signed_commits(&updates[i], patterns) {
            apply_signature_check(&updates[i], &checks[i])
        } else {
            copy_update(&updates[i])
        };
        r.push(u);
        i = i + 1;
    }
    r
}

/// The signed-commit policy over a whole push (what `enforce_signed_commits`
/// gives): no update changes its ids or ref; an update that is refused
/// already or whose ref no pattern matches stays as it is; one that must be
/// signed stays accepted only if its check found every commit signed, and is
/// otherwise refused; with no patterns the push is left as it is.
pub proof fn lemma_signed_commit_policy(
    updates: Seq<RefUpdateView>,
    patterns: Seq<Seq<char>>,
    checks: Seq<SignatureCheck>,
    result: Seq<RefUpdateView>,
)
    requires
        checks.len() == updates.len(),
        result.len() == updates.len(),
        forall|k: int|
            0 <= k < updates.len() ==> #[trigger] result[k] == if is_ok_status(updates[k].status)
                && any_pattern_matches(updates[k].refname, patterns) {
                spec_apply_signature_check(updates[k], checks[k])
            } else {
                updates[k]
            },
    ensures
        forall|k: int|
            0 <= k < updates.len() ==> (#[trigger] result[k]).old_sha == updates[k].old_sha && result[k].new_sha
                == updates[k].new_sha && result[k].refname == updates[k].refname,
        forall|k: int|
            0 <= k < updates.len() && !(is_ok_status(updates[k].status) && any_pattern_matches(
                updates[k].refname,
                patterns,
            )) ==> #[trigger] result[k] == updates[k],
        forall|k: int|
            0 <= k < updates.len() && is_ok_status(updates[k].status) && any_pattern_matches(updates[k].refname, patterns)
                ==> (is_ok_status((#[trigger] result[k]).status) <==> checks[k] is AllSigned),
        patterns.len() == 0 ==> result == updates,
{
    reveal_strlit("ok");
    reveal_strlit("error");
    assert("error"@ != "ok"@) by {
        assert("error"@[0] != "ok"@[0]);
    }
    assert forall|k: int| 0 <= k < updates.len() implies (#[trigger] result[k]).old_sha == updates[k].old_sha
        && result[k].new_sha == updates[k].new_sha && result[k].refname == updates[k].refname by {
        if is_ok_status(updates[k].status) && any_pattern_matches(updates[k].refname, patterns) {
            match checks[k] {
                SignatureCheck::AllSigned => {},
                _ => {},
            }
        }
    }
    assert forall|k: int|
        0 <= k < updates.len() && is_ok_status(updates[k].status) && any_pattern_matches(updates[k].refname, patterns)
            implies (is_ok_status((#[trigger] result[k]).status) <==> checks[k] is AllSigned) by {
        match checks[k] {
            SignatureCheck::AllSigned => {},
            _ => {},
        }
    }
    if patterns.len() == 0 {
        assert forall|k: int| 0 <= k < updates.len() implies #[trigger] result[k] == updates[k] by {
            assert(!any_pattern_matches(updates[k].refname, patterns));
        }
        assert(result =~= updates);
    }
}

// ── Ref writes and the report ────────────────────────────────────────────

/// The update after its ref was written: an accepted update reports `ok`, a
/// failed write refuses it with the error.
pub open spec fn spec_apply_ref_write(u: RefUpdateView, outcome: Result<(), Seq<char>>) -> RefUpdateView {
    match outcome {
        Ok(()) => RefUpdateView { message: "ok"@, ..u },
        Err(e) => RefUpdateView { status: "error"@, message: e, ..u },
    }
}

/// Record the outcome of writing an update's ref.
pub fn apply_ref_write(update: &RefUpdate, outcome: Result<(), String>) -> (r: RefUpdate)
    ensures
        r@ == spec_apply_ref_write(
            update@,
            match outcome {
                Ok(()) => Ok(()),
                Err(e) => Err(e@),
            },
        ),
{
    match outcome {
        Ok(()) => RefUpdate {
            old_sha: copy_string(&update.old_sha),
            new_sha: copy_string(&update.new_sha),
            refname: copy_string(&update.refname),
            status: copy_string(&update.status),
            message: String::from_str("ok"),
        },
        Err(e) => RefUpdate {
            old_sha: copy_string(&update.old_sha),
            new_sha: copy_string(&update.new_sha),
            refname: copy_string(&update.refname),
            status: String::from_str("error"),
            message: e,
        },
    }
}

/// The text of an update's report line: `ok <ref>` or `ng <ref> <message>`.
pub open spec fn report_line(u: RefUpdateView) -> Seq<char> {
    if is_ok_status(u.status) {
        "ok "@ + u.refname
    } else {
        "ng "@ + u.refname + " "@ + u.message
    }
}

/// The report-status lines: `unpack ok`, then one line per update.
pub open spec fn spec_report_lines(us: Seq<RefUpdateView>) -> Seq<PktView> {
    seq![PktView::Data(spec_text_payload("unpack ok"@))] + us.map_values(
        |u: RefUpdateView| PktView::Data(spec_text_payload(report_line(u))),
    )
}

/// Build the report-status pkt-lines.
pub fn report_status_lines(results: &[RefUpdate]) -> (lines: Vec<PktLine>)
    ensures
        lines@.map_values(|p: PktLine| p@) == spec_report_lines(updates_view(results@)),
{
    let mut lines: Vec<PktLine> = Vec::new();
    lines.push(PktLine::text("unpack ok"));
    let mut i: usize = 0;
    while i < results.len()
        invariant
            i <= results@.len(),
            lines@.len() == i + 1,
            forall|k: int|
                0 <= k <= i ==> (#[trigger] lines@[k])@ == spec_report_lines(updates_view(results@))[k],
        decreases results@.len() - i,
    {
        let u = &results[i];
        let mut line: Vec<char>;
        if string_is(&u.status, "ok") {
            line = chars_of("ok ");
            append_chars(&mut line, string_chars(&u.refname).as_slice());
        } else {
            line = chars_of("ng ");
            append_chars(&mut line, string_chars(&u.refname).as_slice());
            append_chars(&mut line, chars_of(" ").as_slice());
            append_chars(&mut line, string_chars(&u.message).as_slice());
        }
        lines.push(PktLine::text_chars(line.as_slice()));
        i = i + 1;
    }
    assert(lines@.map_values(|p: PktLine| p@) =~= spec_report_lines(updates_view(results@)));
    lines
}

/// The report-status response: the report lines and a flush, written as one
/// band-1 sideband stream, followed by the sideband flush.
pub open spec fn spec_report_response(us: Seq<RefUpdateView>) -> Seq<PktView> {
    data_lines(spec_data_frames(spec_encode_all(spec_report_lines(us)) + flush_bytes())) + seq![
        PktView::Flush,
    ]
}

/// Whether every report line fits in a pkt-line.
pub open spec fn report_fits(us: Seq<RefUpdateView>) -> bool {
    forall|k: int|
        0 <= k < spec_report_lines(us).len() ==> match #[trigger] spec_report_lines(us)[k] {
            PktView::Data(d) => d.len() <= MAX_PKT_LINE_LEN,
            _ => true,
        }
}

/// Build the report-status response of a push. Fails when a report line does
/// not fit in a pkt-line.
pub fn report_status_response(results: &[RefUpdate]) -> (r: Result<Vec<PktLine>, PktLineError>)
    ensures
        report_fits(updates_view(results@)) ==> (r matches Ok(frames) && frames@.map_values(
            |p: PktLine| p@,
        ) == spec_report_response(updates_view(results@))),
        r is Err ==> !report_fits(updates_view(results@)),
{
    let lines = report_status_lines(results);
    let ghost lv = lines@.map_values(|p: PktLine| p@);
    assert(forall|k: int| 0 <= k < lines@.len() ==> #[trigger] lines@[k]@ == lv[k]);
    let mut bytes = match encode_all(lines.as_slice()) {
        Ok(b) => b,
        Err(e) => {
            proof {
                let k = choose|k: int| 0 <= k < lines@.len() && !(#[trigger] lines@[k].wf());
                assert(lv[k] == spec_report_lines(updates_view(results@))[k]);
            }
            return Err(e);
        },
    };
    proof {
        assert forall|k: int| 0 <= k < spec_report_lines(updates_view(results@)).len() implies match #[trigger] spec_report_lines(updates_view(results@))[k] {
            PktView::Data(d) => d.len() <= MAX_PKT_LINE_LEN,
            _ => true,
        } by {
            assert(lines@[k].wf());
            assert(lv[k] == spec_report_lines(updates_view(results@))[k]);
        }
    }
    let flush: [u8; 4] = [48u8, 48u8, 48u8, 48u8];
    crate::text::append_bytes(&mut bytes, flush.as_slice());
    assert(flush@ =~= flush_bytes());
    let mut frames = data_frames(bytes.as_slice());
    let ghost fv = frames@.map_values(|p: PktLine| p@);
    frames.push(PktLine::Flush);
    assert(frames@.map_values(|p: PktLine| p@) =~= fv.push(PktView::Flush));
    Ok(frames)
}

/// A client that joins the band-1 payloads of a report-status response and
/// reads pkt-lines up to the flush gets back exactly the report lines.
pub proof fn lemma_report_status_roundtrip(us: Seq<RefUpdateView>)
    requires
        report_fits(us),
    ensures
        spec_decode_until_flush(
            flatten_bytes(
                spec_data_frames(spec_encode_all(spec_report_lines(us)) + flush_bytes()).map_values(
                    |f: Seq<u8>| f.drop_first(),
                ),
            ),
        ) == Ok::<(Seq<PktView>, int), PktLineError>(
            (spec_report_lines(us), spec_encode_all(spec_report_lines(us)).len() + 4int),
        ),
{
    let lines = spec_report_lines(us);
    let stream = spec_encode_all(lines) + flush_bytes();
    lemma_data_frames_reassemble(stream);
    assert forall|i: int| 0 <= i < lines.len() implies view_wf(#[trigger] lines[i]) && lines[i] != PktView::Flush by {
        if i == 0 {
            assert(lines[0] == PktView::Data(spec_text_payload("unpack ok"@)));
        } else {
            assert(lines[i] == PktView::Data(spec_text_payload(report_line(us[i - 1]))));
        }
        assert(match lines[i] {
            PktView::Data(d) => d.len() <= MAX_PKT_LINE_LEN,
            _ => true,
        });
    }
    lemma_decode_until_flush_encode_all(lines, Seq::empty());
    assert(stream + Seq::<u8>::empty() =~= stream);
}

/// What a failed ref write is reported as.
pub open spec fn ref_write_error(m: Seq<char>, refname: Seq<char>) -> bool {
    ||| m == "failed to open repository"@
    ||| "invalid SHA: "@.is_prefix_of(m)
    ||| ("failed to update ref "@ + refname + ": "@).is_prefix_of(m)
}

/// Point `refname` at `new_sha`, whatever it pointed at before (as
/// `git update-ref` does), with the reflog message
/// `update via receive-pack`.
pub fn update_ref(repo_path: &str, refname: &str, new_sha: &str) -> (r: Result<(), String>)
    ensures
        r is Ok ==> crate::ops::is_hex_id(new_sha@),
        r matches Err(m) ==> ref_write_error(m@, refname@),
{
    let repo = match crate::ops::open_repository(repo_path) {
        Ok(repo) => repo,
        Err(_) => return Err(String::from_str("failed to open repository")),
    };
    let id = match crate::refs::oid_from_hex(new_sha) {
        Ok(id) => id,
        Err(detail) => {
            let mut m = chars_of("invalid SHA: ");
            append_chars(&mut m, string_chars(&detail).as_slice());
            return Err(string_of(m.as_slice()));
        },
    };
    let written = match crate::ops::set_reference(&repo, refname, &id, crate::ops::RefExpectation::Any, "update via receive-pack") {
        Ok(()) => Ok(()),
        Err(e) => {
            let mut m = chars_of("failed to update ref ");
            append_chars(&mut m, chars_of(refname).as_slice());
            append_chars(&mut m, chars_of(": ").as_slice());
            let ghost prefix = m@;
            append_chars(&mut m, string_chars(&crate::ops::gix_error_text(&e)).as_slice());
            assert(prefix.is_prefix_of(m@));
            Err(string_of(m.as_slice()))
        },
    };
    written
}

/// Write the refs of the accepted updates, in order, and record each
/// outcome; refused updates stay as they are.
pub fn write_ref_updates(repo_path: &str, updates: &Vec<RefUpdate>) -> (r: Vec<RefUpdate>)
    ensures
        r@.len() == updates@.len(),
        forall|k: int|
            0 <= k < updates@.len() ==> if is_ok_status((#[trigger] updates@[k]).status@) {
                r@[k]@ == spec_apply_ref_write(updates@[k]@, Ok(()))
                    || exists|m: Seq<char>| ref_write_error(m, updates@[k].refname@)
                        && r@[k]@ == spec_apply_ref_write(updates@[k]@, Err(m))
            } else {
                r@[k]@ == updates@[k]@
            },
{
    let mut out: Vec<RefUpdate> = Vec::new();
    let mut i: usize = 0;
    while i < updates.len()
        invariant
            i <= updates@.len(),
            out@.len() == i,
            forall|k: int|
                0 <= k < i ==> if is_ok_status((#[trigger] updates@[k]).status@) {
                    out@[k]@ == spec_apply_ref_write(updates@[k]@, Ok(()))
                        || exists|m: Seq<char>| ref_write_error(m, updates@[k].refname@)
                            && out@[k]@ == spec_apply_ref_write(updates@[k]@, Err(m))
                } else {
                    out@[k]@ == updates@[k]@
                },
        decreases updates@.len() - i,
    {
        let u = &updates[i];
        if is_accepted(u) {
            let outcome = update_ref(repo_path, u.refname.as_str(), u.new_sha.as_str());
            out.push(apply_ref_write(u, outcome));
        } else {
            out.push(copy_update(u));
        }
        i = i + 1;
    }
    out
}

/// The commits whose signatures an update needs checked: those a
/// successful `git rev-list` run printed, one per line; a failed run is the
/// check's outcome, with its standard error.
pub fn rev_list_commits(output: &crate::cli_gateway::GitOutput) -> (r: Result<Vec<String>, SignatureCheck>)
    ensures
        output.exit_code == Some(0i32) ==> (r matches Ok(v) && svs(v@) == crate::text::spec_lines(utf8_lossy(output.stdout@))),
        output.exit_code != Some(0i32) ==> (r matches Err(SignatureCheck::RevListFailed { stderr }) && stderr@ == utf8_lossy(output.stderr@)),
{
    if output.success() {
        let text = output.stdout_str();
        Ok(crate::text::lines(string_chars(&text).as_slice()))
    } else {
        Err(SignatureCheck::RevListFailed { stderr: output.stderr_str() })
    }
}

} // verus!

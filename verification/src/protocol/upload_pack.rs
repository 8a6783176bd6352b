//! Decisions of the upload-pack service (`git fetch` / `git clone`): the ref
//! advertisement, the want/have negotiation and the framing of the packfile.

use vstd::prelude::*;
use vstd::utf8::*;
use crate::pkt_line::{PktLine, PktView};
use crate::protocol::receive_pack::pairs_view;
use crate::sideband::{data_frames, data_lines, progress_frame, spec_data_frames, BAND_PROGRESS};
use crate::text::{
    append_chars, bytes_eq, chars_of, cvs, decode_lossy, spec_split, spec_trim, spec_trim_end_char,
    string_chars, string_is, string_of, sub_bytes, svs, trim, trim_end_char, utf8_bytes,
    utf8_lossy,
};

verus! {

/// Capabilities that upload-pack advertises.
pub open spec fn upload_caps() -> Seq<char> {
    "side-band-64k ofs-delta agent=ironforge/0.1"@
}

/// The refs to advertise: `HEAD` first when it resolves, then every ref.
pub open spec fn spec_advertised_refs(
    refs: Seq<(Seq<char>, Seq<char>)>,
    head: Option<Seq<char>>,
) -> Seq<(Seq<char>, Seq<char>)> {
    match head {
        Some(h) => seq![(h, "HEAD"@)] + refs,
        None => refs,
    }
}

/// Build the list of refs to advertise.
pub fn build_ref_advertisement_vec(refs: Vec<(String, String)>, head_sha: Option<String>) -> (r: Vec<(String, String)>)
    ensures
        pairs_view(r@) == spec_advertised_refs(
            pairs_view(refs@),
            match head_sha {
                Some(h) => Some(h@),
                None => None,
            },
        ),
{
    let mut ref_list: Vec<(String, String)> = Vec::new();
    let ghost hv = match &head_sha {
        Some(h) => Some(h@),
        None => None::<Seq<char>>,
    };
    match head_sha {
        Some(sha) => {
            ref_list.push((sha, String::from_str("HEAD")));
        },
        None => {},
    }
    let ghost base = pairs_view(ref_list@);
    let mut i: usize = 0;
    while i < refs.len()
        invariant
            i <= refs@.len(),
            pairs_view(ref_list@) == base + pairs_view(refs@).take(i as int),
        decreases refs@.len() - i,
    {
        let (sha, name) = (string_of(string_chars(&refs[i].0).as_slice()), string_of(
            string_chars(&refs[i].1).as_slice(),
        ));
        let ghost before = pairs_view(ref_list@);
        ref_list.push((sha, name));
        assert(pairs_view(ref_list@) =~= before.push((refs@[i as int].0@, refs@[i as int].1@)));
        assert(pairs_view(refs@).take(i + 1) =~= pairs_view(refs@).take(i as int).push(
            (refs@[i as int].0@, refs@[i as int].1@),
        ));
        i = i + 1;
    }
    proof {
        assert(pairs_view(refs@).take(refs@.len() as int) =~= pairs_view(refs@));
        match hv {
            Some(h) => {
                assert(base =~= seq![(h, "HEAD"@)]);
            },
            None => {
                assert(base =~= Seq::<(Seq<char>, Seq<char>)>::empty());
                assert(base + pairs_view(refs@) =~= pairs_view(refs@));
            },
        }
    }
    ref_list
}

/// The upload-pack ref advertisement. The first line carries the
/// capabilities; a repository without refs advertises a null placeholder
/// line `0…0 capabilities^<service>` instead.
pub open spec fn spec_upload_advertisement(refs: Seq<(Seq<char>, Seq<char>)>, service: Seq<char>) -> Seq<PktView> {
    if refs.len() == 0 {
        seq![
            PktView::Data(
                encode_utf8(
                    "0000000000000000000000000000000000000000 capabilities^"@ + service + "\0"@
                        + upload_caps(),
                ),
            ),
        ]
    } else {
        Seq::new(
            refs.len(),
            |i: int|
                PktView::Data(
                    encode_utf8(
                        if i == 0 {
                            refs[0].0 + " "@ + refs[0].1 + "\0"@ + upload_caps()
                        } else {
                            refs[i].0 + " "@ + refs[i].1
                        },
                    ),
                ),
        )
    }
}

/// Build the ref advertisement pkt-lines of upload-pack.
pub fn build_ref_advertisement(ref_list: &[(String, String)], service: &str) -> (lines: Vec<PktLine>)
    ensures
        lines@.map_values(|p: PktLine| p@) == spec_upload_advertisement(pairs_view(ref_list@), service@),
{
    let mut lines: Vec<PktLine> = Vec::new();
    if ref_list.len() == 0 {
        let mut v = chars_of("0000000000000000000000000000000000000000 capabilities^");
        append_chars(&mut v, chars_of(service).as_slice());
        append_chars(&mut v, chars_of("\0").as_slice());
        append_chars(&mut v, chars_of("side-band-64k ofs-delta agent=ironforge/0.1").as_slice());
        lines.push(PktLine::from_chars(v.as_slice()));
        assert(lines@.map_values(|p: PktLine| p@) =~= spec_upload_advertisement(pairs_view(ref_list@), service@));
        return lines;
    }
    let mut i: usize = 0;
    while i < ref_list.len()
        invariant
            0 < ref_list@.len(),
            i <= ref_list@.len(),
            lines@.len() == i,
            forall|k: int|
                0 <= k < i ==> (#[trigger] lines@[k])@ == spec_upload_advertisement(
                    pairs_view(ref_list@),
                    service@,
                )[k],
        decreases ref_list@.len() - i,
    {
        let mut v = string_chars(&ref_list[i].0);
        append_chars(&mut v, chars_of(" ").as_slice());
        append_chars(&mut v, string_chars(&ref_list[i].1).as_slice());
        if i == 0 {
            append_chars(&mut v, chars_of("\0").as_slice());
            append_chars(&mut v, chars_of("side-band-64k ofs-delta agent=ironforge/0.1").as_slice());
        }
        lines.push(PktLine::from_chars(v.as_slice()));
        i = i + 1;
    }
    assert(lines@.map_values(|p: PktLine| p@) =~= spec_upload_advertisement(pairs_view(ref_list@), service@));
    lines
}

// ── Negotiation ──────────────────────────────────────────────────────────

/// What the client asked for so far during negotiation.
pub struct Negotiation {
    pub wants: Vec<String>,
    pub haves: Vec<String>,
    pub capabilities: Vec<String>,
}

/// The abstract value of a negotiation state.
pub struct NegotiationView {
    pub wants: Seq<Seq<char>>,
    pub haves: Seq<Seq<char>>,
    pub capabilities: Seq<Seq<char>>,
}

impl View for Negotiation {
    type V = NegotiationView;

    open spec fn view(&self) -> NegotiationView {
        NegotiationView { wants: svs(self.wants@), haves: svs(self.haves@), capabilities: svs(self.capabilities@) }
    }
}

/// Whether negotiation goes on after a line.
#[derive(Debug, Clone, Copy, PartialEq, Eq)]
pub enum NegotiationStep {
    Continue,
    Done,
}

/// The bytes of `want `.
pub open spec fn want_prefix() -> Seq<u8> {
    seq![119u8, 97u8, 110u8, 116u8, 32u8]
}

/// The bytes of `have `.
pub open spec fn have_prefix() -> Seq<u8> {
    seq![104u8, 97u8, 118u8, 101u8, 32u8]
}

/// The bytes of `done`.
pub open spec fn done_line() -> Seq<u8> {
    seq![100u8, 111u8, 110u8, 101u8]
}

fn want_bytes() -> (r: [u8; 5])
    ensures
        r@ == want_prefix(),
{
    let r: [u8; 5] = [119u8, 97u8, 110u8, 116u8, 32u8];
    assert(r@ =~= want_prefix());
    r
}

fn have_bytes() -> (r: [u8; 5])
    ensures
        r@ == have_prefix(),
{
    let r: [u8; 5] = [104u8, 97u8, 118u8, 101u8, 32u8];
    assert(r@ =~= have_prefix());
    r
}

fn done_bytes() -> (r: [u8; 4])
    ensures
        r@ == done_line(),
{
    let r: [u8; 4] = [100u8, 111u8, 110u8, 101u8];
    assert(r@ =~= done_line());
    r
}

/// Index of the first NUL byte of `b`, if any.
pub open spec fn first_nul(b: Seq<u8>) -> Option<int> {
    if exists|k: int| 0 <= k < b.len() && b[k] == 0u8 {
        Some(choose|k: int| 0 <= k < b.len() && b[k] == 0u8 && forall|j: int| 0 <= j < k ==> b[j] != 0u8)
    } else {
        None
    }
}

/// The pieces of a capability list, separated by spaces or NULs, without
/// empty pieces.
pub open spec fn spec_cap_tokens(s: Seq<char>) -> Seq<Seq<char>>
    decreases s.len(),
{
    if s.len() == 0 {
        Seq::empty()
    } else {
        let init = spec_cap_tokens(s.drop_last());
        let c = s.last();
        if c == ' ' || c == '\0' {
            init
        } else if s.len() == 1 || s[s.len() - 2] == ' ' || s[s.len() - 2] == '\0' {
            init.push(seq![c])
        } else {
            init.update(init.len() - 1, init.last().push(c))
        }
    }
}

/// A want/have line split into its command part and its capability part
/// (bytes after a NUL, or after `want <40 bytes> ` when there is no NUL).
pub open spec fn spec_split_command(b: Seq<u8>) -> (Seq<u8>, Option<Seq<u8>>) {
    match first_nul(b) {
        Some(k) => {
            let caps = b.skip(k + 1);
            (b.take(k), if caps.len() == 0 { None } else { Some(caps) })
        },
        None => if want_prefix().is_prefix_of(b) && b.len() > 45 && b[45] == 32u8 {
            let caps = b.skip(46);
            (b.take(46), if caps.len() == 0 { None } else { Some(caps) })
        } else {
            (b, None)
        },
    }
}

/// The effect of one want/have line on the negotiation, over the UTF-8 bytes
/// `b` of the line (trailing newlines removed): the capabilities it declares
/// (they replace earlier ones), and whether it is a want, a have, `done`, or
/// something else.
pub enum LineEffect {
    Want(Seq<char>),
    Have(Seq<char>),
    Done,
    Other,
}

pub open spec fn spec_line_effect(b: Seq<u8>) -> (Option<Seq<Seq<char>>>, LineEffect) {
    let (cmd, caps) = spec_split_command(b);
    let new_caps = match caps {
        Some(c) => Some(spec_cap_tokens(utf8_lossy(c))),
        None => None,
    };
    let effect = if want_prefix().is_prefix_of(cmd) {
        LineEffect::Want(spec_trim(utf8_lossy(cmd.skip(5))))
    } else if have_prefix().is_prefix_of(cmd) {
        LineEffect::Have(spec_trim(utf8_lossy(cmd.skip(5))))
    } else if cmd == done_line() {
        LineEffect::Done
    } else {
        LineEffect::Other
    };
    (new_caps, effect)
}

/// The line of a data packet as negotiation reads it: the lossy text without
/// trailing newlines, as UTF-8 bytes.
pub open spec fn negotiation_line(payload: Seq<u8>) -> Seq<u8> {
    encode_utf8(spec_trim_end_char(utf8_lossy(payload), '\n'))
}

/// The negotiation state after one packet, and whether negotiation goes on:
/// a flush or a `done` line ends it, delimiter and response-end packets and
/// empty lines are ignored.
pub open spec fn spec_negotiation_step(s: NegotiationView, p: PktView) -> (NegotiationView, NegotiationStep) {
    match p {
        PktView::Flush => (s, NegotiationStep::Done),
        PktView::Data(d) => {
            let b = negotiation_line(d);
            if b.len() == 0 {
                (s, NegotiationStep::Continue)
            } else {
                let (caps, effect) = spec_line_effect(b);
                let s1 = match caps {
                    Some(c) => NegotiationView { capabilities: c, ..s },
                    None => s,
                };
                match effect {
                    LineEffect::Want(w) => (NegotiationView { wants: s1.wants.push(w), ..s1 }, NegotiationStep::Continue),
                    LineEffect::Have(h) => (NegotiationView { haves: s1.haves.push(h), ..s1 }, NegotiationStep::Continue),
                    LineEffect::Done => (s1, NegotiationStep::Done),
                    LineEffect::Other => (s1, NegotiationStep::Continue),
                }
            }
        },
        _ => (s, NegotiationStep::Continue),
    }
}

/// Split capability text on spaces and NULs.
fn cap_tokens(s: &[char]) -> (v: Vec<String>)
    ensures
        svs(v@) == spec_cap_tokens(s@),
{
    let mut pieces: Vec<Vec<char>> = Vec::new();
    let mut i: usize = 0;
    proof {
        assert(s@.take(0) =~= Seq::<char>::empty());
    }
    while i < s.len()
        invariant
            i <= s@.len(),
            cvs(pieces@) == spec_cap_tokens(s@.take(i as int)),
            i > 0 && !(s@[i - 1] == ' ' || s@[i - 1] == '\0') ==> pieces@.len() >= 1,
        decreases s@.len() - i,
    {
        let c = s[i];
        let ghost before = cvs(pieces@);
        proof {
            let t = s@.take(i + 1);
            assert(t.drop_last() =~= s@.take(i as int));
            assert(t.last() == c);
            if i > 0 {
                assert(t[t.len() - 2] == s@[i - 1]);
            }
        }
        if c == ' ' || c == '\0' {
        } else if i == 0 || s[i - 1] == ' ' || s[i - 1] == '\0' {
            let mut w: Vec<char> = Vec::new();
            w.push(c);
            pieces.push(w);
            assert(cvs(pieces@) =~= before.push(seq![c]));
        } else {
            let last = pieces.len() - 1;
            let mut w = pieces.remove(last);
            w.push(c);
            pieces.push(w);
            assert(cvs(pieces@) =~= before.update(before.len() - 1, before.last().push(c)));
        }
        i = i + 1;
    }
    assert(s@.take(s@.len() as int) =~= s@);
    crate::text::strings_of(&pieces)
}

/// Index of the first NUL byte of `b`, if any.
fn find_nul(b: &[u8]) -> (r: Option<usize>)
    ensures
        r matches Some(k) ==> first_nul(b@) == Some(k as int),
        r matches Some(k) ==> k < b@.len(),
        r is None ==> first_nul(b@) is None,
{
    let mut i: usize = 0;
    while i < b.len()
        invariant
            i <= b@.len(),
            forall|j: int| 0 <= j < i ==> b@[j] != 0u8,
        decreases b@.len() - i,
    {
        if b[i] == 0u8 {
            proof {
                let k = choose|k: int| 0 <= k < b@.len() && b@[k] == 0u8 && forall|j: int| 0 <= j < k ==> b@[j] != 0u8;
                if k < i {
                } else if k > i {
                    assert(b@[i as int] != 0u8);
                }
            }
            return Some(i);
        }
        i = i + 1;
    }
    None
}

/// Whether `p` is a prefix of the bytes `b`.
fn bytes_start_with(b: &[u8], p: &[u8]) -> (r: bool)
    ensures
        r == p@.is_prefix_of(b@),
{
    if p.len() > b.len() {
        return false;
    }
    let head = sub_bytes(b, 0, p.len());
    let r = bytes_eq(head.as_slice(), p);
    assert(head@ =~= b@.subrange(0, p@.len() as int));
    r
}

/// The text of a byte range, decoded leniently, as characters.
fn lossy_chars(b: &[u8]) -> (v: Vec<char>)
    ensures
        v@ == utf8_lossy(b@),
{
    let s = decode_lossy(b);
    string_chars(&s)
}

/// The view of an optional byte vector.
pub open spec fn opt_bytes_view(o: Option<Vec<u8>>) -> Option<Seq<u8>> {
    match o {
        Some(v) => Some(v@),
        None => None,
    }
}

/// Split a want/have line into its command and capability parts.
fn split_command(b: &Vec<u8>) -> (r: (Vec<u8>, Option<Vec<u8>>))
    ensures
        (r.0@, opt_bytes_view(r.1)) == spec_split_command(b@),
{
    let ghost sb = b@;
    let n = b.len();
    match find_nul(b.as_slice()) {
        Some(k) => {
            let c = sub_bytes(b.as_slice(), k + 1, n);
            assert(c@ =~= sb.skip(k + 1));
            let h = sub_bytes(b.as_slice(), 0, k);
            assert(h@ =~= sb.take(k as int));
            (h, if c.len() == 0 { None } else { Some(c) })
        },
        None => {
            if bytes_start_with(b.as_slice(), want_bytes().as_slice()) && b.len() > 45 && b[45] == 32u8 {
                let c = sub_bytes(b.as_slice(), 46, b.len());
                assert(c@ =~= sb.skip(46));
                let h = sub_bytes(b.as_slice(), 0, 46);
                assert(h@ =~= sb.take(46));
                (h, if c.len() == 0 { None } else { Some(c) })
            } else {
                (sub_bytes(b.as_slice(), 0, b.len()), None)
            }
        },
    }
}

/// What a want/have line asks for.
enum LineKind {
    Want(String),
    Have(String),
    Done,
    Other,
}

spec fn kind_view(k: LineKind) -> LineEffect {
    match k {
        LineKind::Want(s) => LineEffect::Want(s@),
        LineKind::Have(s) => LineEffect::Have(s@),
        LineKind::Done => LineEffect::Done,
        LineKind::Other => LineEffect::Other,
    }
}

/// The view of optional capability tokens.
pub open spec fn opt_tokens_view(o: Option<Vec<String>>) -> Option<Seq<Seq<char>>> {
    match o {
        Some(v) => Some(svs(v@)),
        None => None,
    }
}

/// The sha after a `want ` or `have ` command prefix.
fn command_argument(cmd: &Vec<u8>) -> (s: String)
    requires
        cmd@.len() >= 5,
    ensures
        s@ == spec_trim(utf8_lossy(cmd@.skip(5))),
{
    let rest = sub_bytes(cmd.as_slice(), 5, cmd.len());
    assert(rest@ =~= cmd@.skip(5));
    let sha = trim(lossy_chars(rest.as_slice()).as_slice());
    string_of(sha.as_slice())
}

/// Interpret one want/have line.
fn line_effect(b: &Vec<u8>) -> (r: (Option<Vec<String>>, LineKind))
    ensures
        (opt_tokens_view(r.0), kind_view(r.1)) == spec_line_effect(b@),
{
    let (cmd, caps) = split_command(b);
    let new_caps = match caps {
        Some(c) => {
            let text = lossy_chars(c.as_slice());
            Some(cap_tokens(text.as_slice()))
        },
        None => None,
    };
    let kind = if bytes_start_with(cmd.as_slice(), want_bytes().as_slice()) {
        LineKind::Want(command_argument(&cmd))
    } else if bytes_start_with(cmd.as_slice(), have_bytes().as_slice()) {
        LineKind::Have(command_argument(&cmd))
    } else if bytes_eq(cmd.as_slice(), done_bytes().as_slice()) {
        LineKind::Done
    } else {
        LineKind::Other
    };
    (new_caps, kind)
}

/// Apply one negotiation packet to the state.
pub fn negotiation_step(state: &mut Negotiation, pkt: &PktLine) -> (step: NegotiationStep)
    ensures
        (final(state)@, step) == spec_negotiation_step(old(state)@, pkt@),
{
    match pkt {
        PktLine::Flush => NegotiationStep::Done,
        PktLine::Delim => NegotiationStep::Continue,
        PktLine::ResponseEnd => NegotiationStep::Continue,
        PktLine::Data(d) => {
            let text = lossy_chars(d.as_slice());
            let trimmed = trim_end_char(text.as_slice(), '\n');
            let b = utf8_bytes(trimmed.as_slice());
            if b.len() == 0 {
                return NegotiationStep::Continue;
            }
            let (caps, kind) = line_effect(&b);
            match caps {
                Some(c) => {
                    state.capabilities = c;
                },
                None => {},
            }
            match kind {
                LineKind::Want(sha) => {
                    let ghost before = svs(state.wants@);
                    let ghost v = sha@;
                    state.wants.push(sha);
                    assert(svs(state.wants@) =~= before.push(v));
                    NegotiationStep::Continue
                },
                LineKind::Have(sha) => {
                    let ghost before = svs(state.haves@);
                    let ghost v = sha@;
                    state.haves.push(sha);
                    assert(svs(state.haves@) =~= before.push(v));
                    NegotiationStep::Continue
                },
                LineKind::Done => NegotiationStep::Done,
                LineKind::Other => NegotiationStep::Continue,
            }
        },
    }
}

/// Whether the client asked for sideband output.
pub open spec fn spec_use_sideband(caps: Seq<Seq<char>>) -> bool {
    caps.contains("side-band-64k"@) || caps.contains("side-band"@)
}

/// Whether the client asked for sideband output.
pub fn use_sideband(capabilities: &[String]) -> (r: bool)
    ensures
        r == spec_use_sideband(svs(capabilities@)),
{
    let mut i: usize = 0;
    while i < capabilities.len()
        invariant
            i <= capabilities@.len(),
            forall|k: int| 0 <= k < i ==> svs(capabilities@)[k] != "side-band-64k"@ && svs(capabilities@)[k] != "side-band"@,
        decreases capabilities@.len() - i,
    {
        if string_is(&capabilities[i], "side-band-64k") || string_is(&capabilities[i], "side-band") {
            assert(svs(capabilities@)[i as int] == capabilities@[i as int]@);
            return true;
        }
        i = i + 1;
    }
    proof {
        if svs(capabilities@).contains("side-band-64k"@) {
            let k = choose|k: int| 0 <= k < svs(capabilities@).len() && svs(capabilities@)[k] == "side-band-64k"@;
        }
    }
    false
}

/// A client that lists `side-band-64k` or `side-band` among its
/// capabilities gets sideband output, and only such a client does; the other
/// capabilities, and their order, do not matter.
pub proof fn lemma_sideband_exactly_when_asked(caps: Seq<Seq<char>>, extra: Seq<char>)
    ensures
        caps.contains("side-band-64k"@) ==> spec_use_sideband(caps),
        caps.contains("side-band"@) ==> spec_use_sideband(caps),
        !caps.contains("side-band-64k"@) && !caps.contains("side-band"@) ==> !spec_use_sideband(caps),
        extra != "side-band-64k"@ && extra != "side-band"@ ==> spec_use_sideband(caps.push(extra))
            == spec_use_sideband(caps),
        spec_use_sideband(seq![extra] + caps) == spec_use_sideband(caps.push(extra)),
{
    let pushed = caps.push(extra);
    let front = seq![extra] + caps;
    assert(pushed[caps.len() as int] == extra);
    assert(front[0] == extra);
    assert forall|c: Seq<char>| caps.contains(c) implies pushed.contains(c) && front.contains(c) by {
        let k = choose|k: int| 0 <= k < caps.len() && caps[k] == c;
        assert(pushed[k] == c);
        assert(front[k + 1] == c);
    }
    assert forall|c: Seq<char>| pushed.contains(c) implies c == extra || caps.contains(c) by {
        let k = choose|k: int| 0 <= k < pushed.len() && pushed[k] == c;
        if k < caps.len() {
            assert(caps[k] == c);
        }
    }
    assert forall|c: Seq<char>| front.contains(c) implies c == extra || caps.contains(c) by {
        let k = choose|k: int| 0 <= k < front.len() && front[k] == c;
        if k > 0 {
            assert(caps[k - 1] == c);
        }
    }
    assert(pushed.contains(extra));
    assert(front.contains(extra));
}

/// The sideband frames that carry a packfile to the client: the data on
/// band 1, a `Done.` progress message on band 2, and the sideband flush.
pub open spec fn spec_packfile_frames(pack: Seq<u8>) -> Seq<PktView> {
    data_lines(spec_data_frames(pack)) + seq![
        PktView::Data(seq![BAND_PROGRESS] + encode_utf8("Done.\n"@)),
        PktView::Flush,
    ]
}

/// Frame a packfile for a sideband-capable client.
pub fn packfile_frames(pack: &[u8]) -> (frames: Vec<PktLine>)
    ensures
        frames@.map_values(|p: PktLine| p@) == spec_packfile_frames(pack@),
{
    let mut frames = data_frames(pack);
    let ghost fv = frames@.map_values(|p: PktLine| p@);
    let done = progress_frame("Done.\n");
    let ghost dv = done@;
    frames.push(done);
    frames.push(PktLine::Flush);
    assert(frames@.map_values(|p: PktLine| p@) =~= fv + seq![dv, PktView::Flush]);
    frames
}

} // verus!

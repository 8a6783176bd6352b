//! Decisions of Git protocol v2: the capability advertisement, the parsing of
//! command requests, the validation of fetch features, the negotiation
//! response and the shallow boundaries of depth-limited fetches.

use vstd::prelude::*;
use vstd::utf8::*;
use crate::pkt_line::{PktLine, PktView, spec_text_payload};
use crate::protocol::v2::shallow::{shallow_info, spec_shallow_info, ShallowUpdate};
use crate::text::{
    append_chars, chars_eq, chars_of, cvs, decode_lossy, is_control, is_whitespace, parse_i64,
    parse_u32, spec_is_control, spec_is_whitespace, spec_parse_i64, spec_parse_u32,
    spec_strip_prefix, spec_trim_end_char, string_chars, string_of, strip_prefix, svs,
    trim_end_char, utf8_lossy,
};

pub mod caps;
pub mod sideband_channel;
pub mod shallow;

verus! {

/// The protocol version this module speaks.
pub const PROTOCOL_VERSION: &'static str = "2";

/// Capabilities that are implemented end to end and advertised.
pub const ADVERTISED_CAPABILITIES: [&'static str; 5] = [
    "agent=ironforge/0.1",
    caps::LS_REFS,
    caps::FETCH_SHALLOW,
    "object-format=sha1",
    caps::SERVER_OPTION,
];

/// The advertised capabilities.
pub open spec fn advertised_capabilities() -> Seq<Seq<char>> {
    seq![
        "agent=ironforge/0.1"@,
        "ls-refs"@,
        "fetch=shallow filter"@,
        "object-format=sha1"@,
        "server-option"@,
    ]
}

/// The capability advertisement: `version 2`, one line per capability, and
/// a flush.
pub open spec fn spec_capability_advertisement() -> Seq<PktView> {
    seq![PktView::Data(spec_text_payload("version 2"@))] + advertised_capabilities().map_values(
        |c: Seq<char>| PktView::Data(spec_text_payload(c)),
    ) + seq![PktView::Flush]
}

/// Build the capability advertisement.
pub fn capability_advertisement() -> (lines: Vec<PktLine>)
    ensures
        lines@.map_values(|p: PktLine| p@) == spec_capability_advertisement(),
{
    let mut lines: Vec<PktLine> = Vec::new();
    lines.push(PktLine::text("version 2"));
    lines.push(PktLine::text("agent=ironforge/0.1"));
    lines.push(PktLine::text("ls-refs"));
    lines.push(PktLine::text("fetch=shallow filter"));
    lines.push(PktLine::text("object-format=sha1"));
    lines.push(PktLine::text("server-option"));
    lines.push(PktLine::Flush);
    assert(lines@.map_values(|p: PktLine| p@) =~= spec_capability_advertisement());
    lines
}

// ── Command requests ─────────────────────────────────────────────────────

/// The shallow/deepen part of a fetch request.
#[derive(Debug)]
pub struct ShallowRequest {
    pub shallows: Vec<String>,
    pub deepen: Option<u32>,
    pub deepen_relative: bool,
    pub deepen_since: Option<i64>,
    pub deepen_not: Vec<String>,
}

/// The abstract value of a shallow request.
pub struct ShallowView {
    pub shallows: Seq<Seq<char>>,
    pub deepen: Option<u32>,
    pub deepen_relative: bool,
    pub deepen_since: Option<i64>,
    pub deepen_not: Seq<Seq<char>>,
}

impl View for ShallowRequest {
    type V = ShallowView;

    open spec fn view(&self) -> ShallowView {
        ShallowView {
            shallows: svs(self.shallows@),
            deepen: self.deepen,
            deepen_relative: self.deepen_relative,
            deepen_since: self.deepen_since,
            deepen_not: svs(self.deepen_not@),
        }
    }
}

impl Default for ShallowRequest {
    fn default() -> (r: Self)
        ensures
            r@ == (ShallowView {
                shallows: Seq::empty(),
                deepen: None,
                deepen_relative: false,
                deepen_since: None,
                deepen_not: Seq::empty(),
            }),
    {
        let r = ShallowRequest {
            shallows: Vec::new(),
            deepen: None,
            deepen_relative: false,
            deepen_since: None,
            deepen_not: Vec::new(),
        };
        assert(svs(r.shallows@) =~= Seq::<Seq<char>>::empty());
        assert(svs(r.deepen_not@) =~= Seq::<Seq<char>>::empty());
        r
    }
}

/// Command request types of protocol v2.
#[derive(Debug)]
pub enum CommandRequest {
    LsRefs {
        ref_patterns: Vec<String>,
        peel: bool,
        symrefs: bool,
        unborn: bool,
        server_options: Vec<String>,
    },
    Fetch {
        wants: Vec<String>,
        haves: Vec<String>,
        shallow: ShallowRequest,
        filter: Option<String>,
        done: bool,
        client_caps: Vec<String>,
    },
    ObjectInfo { oid: String, server_options: Vec<String> },
    /// Empty flush packet: end of commands.
    Flush,
    /// Unknown command type.
    Unknown(String),
}

/// The abstract value of a command request.
pub enum CommandView {
    LsRefs {
        ref_patterns: Seq<Seq<char>>,
        peel: bool,
        symrefs: bool,
        unborn: bool,
        server_options: Seq<Seq<char>>,
    },
    Fetch {
        wants: Seq<Seq<char>>,
        haves: Seq<Seq<char>>,
        shallow: ShallowView,
        filter: Option<Seq<char>>,
        done: bool,
        client_caps: Seq<Seq<char>>,
    },
    ObjectInfo { oid: Seq<char>, server_options: Seq<Seq<char>> },
    Flush,
    Unknown(Seq<char>),
}

/// The view of an optional string.
pub open spec fn opt_view(o: Option<String>) -> Option<Seq<char>> {
    match o {
        Some(s) => Some(s@),
        None => None,
    }
}

impl View for CommandRequest {
    type V = CommandView;

    open spec fn view(&self) -> CommandView {
        match self {
            CommandRequest::LsRefs { ref_patterns, peel, symrefs, unborn, server_options } => CommandView::LsRefs {
                ref_patterns: svs(ref_patterns@),
                peel: *peel,
                symrefs: *symrefs,
                unborn: *unborn,
                server_options: svs(server_options@),
            },
            CommandRequest::Fetch { wants, haves, shallow, filter, done, client_caps } => CommandView::Fetch {
                wants: svs(wants@),
                haves: svs(haves@),
                shallow: shallow@,
                filter: opt_view(*filter),
                done: *done,
                client_caps: svs(client_caps@),
            },
            CommandRequest::ObjectInfo { oid, server_options } => CommandView::ObjectInfo {
                oid: oid@,
                server_options: svs(server_options@),
            },
            CommandRequest::Flush => CommandView::Flush,
            CommandRequest::Unknown(c) => CommandView::Unknown(c@),
        }
    }
}

/// Why a protocol v2 request was refused.
#[derive(Debug, Clone, Copy, PartialEq, Eq)]
pub enum V2Error {
    /// A `deepen` argument is not a number.
    InvalidDeepen,
    /// A `deepen-since` argument is not a timestamp.
    InvalidDeepenSince,
    /// The partial-clone filter specification is malformed.
    InvalidFilter,
    /// `deepen 0` was requested.
    ZeroDepth,
    /// `deepen-relative` without `deepen`.
    RelativeWithoutDepth,
    /// `deepen` together with `deepen-since` or `deepen-not`.
    ConflictingDeepen,
    /// `deepen-relative` without any shallow boundary.
    RelativeWithoutShallow,
    /// Shallow boundaries were asked for without a starting commit.
    NoStartingCommit,
}

/// The message of a refusal.
pub open spec fn spec_v2_message(e: V2Error) -> Seq<char> {
    match e {
        V2Error::InvalidDeepen => "invalid Protocol V2 deepen value"@,
        V2Error::InvalidDeepenSince => "invalid Protocol V2 deepen-since value"@,
        V2Error::InvalidFilter => "invalid Protocol V2 partial-clone filter specification"@,
        V2Error::ZeroDepth => "Protocol V2 deepen depth must be greater than zero"@,
        V2Error::RelativeWithoutDepth => "Protocol V2 deepen-relative requires deepen"@,
        V2Error::ConflictingDeepen => "Protocol V2 deepen cannot be combined with deepen-since or deepen-not"@,
        V2Error::RelativeWithoutShallow => "Protocol V2 deepen-relative requires at least one shallow boundary"@,
        V2Error::NoStartingCommit => "cannot compute shallow boundaries without a starting commit"@,
    }
}

impl V2Error {
    /// The message of the refusal.
    pub fn describe(&self) -> (m: String)
        ensures
            m@ == spec_v2_message(*self),
    {
        match self {
            V2Error::InvalidDeepen => String::from_str("invalid Protocol V2 deepen value"),
            V2Error::InvalidDeepenSince => String::from_str("invalid Protocol V2 deepen-since value"),
            V2Error::InvalidFilter => String::from_str("invalid Protocol V2 partial-clone filter specification"),
            V2Error::ZeroDepth => String::from_str("Protocol V2 deepen depth must be greater than zero"),
            V2Error::RelativeWithoutDepth => String::from_str("Protocol V2 deepen-relative requires deepen"),
            V2Error::ConflictingDeepen => String::from_str(
                "Protocol V2 deepen cannot be combined with deepen-since or deepen-not",
            ),
            V2Error::RelativeWithoutShallow => String::from_str(
                "Protocol V2 deepen-relative requires at least one shallow boundary",
            ),
            V2Error::NoStartingCommit => String::from_str(
                "cannot compute shallow boundaries without a starting commit",
            ),
        }
    }
}

/// The lines of a command request read so far.
pub struct CommandScan {
    pub command: Option<String>,
    pub capabilities: Vec<String>,
    pub args: Vec<String>,
    pub found_delimiter: bool,
}

/// The abstract value of a command scan.
pub struct CommandScanView {
    pub command: Option<Seq<char>>,
    pub capabilities: Seq<Seq<char>>,
    pub args: Seq<Seq<char>>,
    pub found_delimiter: bool,
}

impl View for CommandScan {
    type V = CommandScanView;

    open spec fn view(&self) -> CommandScanView {
        CommandScanView {
            command: opt_view(self.command),
            capabilities: svs(self.capabilities@),
            args: svs(self.args@),
            found_delimiter: self.found_delimiter,
        }
    }
}

/// Whether reading a command request goes on after a packet.
#[derive(Debug, Clone, Copy, PartialEq, Eq)]
pub enum ScanStep {
    /// Read the next packet.
    Continue,
    /// The request is complete; parse it.
    Complete,
    /// The client ended the command stream.
    EndOfCommands,
}

/// The text of a request line: its payload decoded leniently, without
/// trailing newlines.
pub open spec fn request_line(payload: Seq<u8>) -> Seq<char> {
    spec_trim_end_char(utf8_lossy(payload), '\n')
}

/// The effect of one packet on a command request being read: a flush after
/// the delimiter completes it, a flush before it or a response-end ends the
/// command stream; before the delimiter, `command=` lines name the command
/// and other nonempty lines are capabilities; after it, every line is an
/// argument.
pub open spec fn spec_scan_step(s: CommandScanView, p: PktView) -> (CommandScanView, ScanStep) {
    match p {
        PktView::Flush => if s.found_delimiter {
            (s, ScanStep::Complete)
        } else {
            (s, ScanStep::EndOfCommands)
        },
        PktView::Delim => (CommandScanView { found_delimiter: true, ..s }, ScanStep::Continue),
        PktView::ResponseEnd => (s, ScanStep::EndOfCommands),
        PktView::Data(d) => {
            let line = request_line(d);
            if !s.found_delimiter {
                match spec_strip_prefix(line, "command="@) {
                    Some(cmd) => (CommandScanView { command: Some(cmd), ..s }, ScanStep::Continue),
                    None => if line.len() > 0 {
                        (
                            CommandScanView { capabilities: s.capabilities.push(line), ..s },
                            ScanStep::Continue,
                        )
                    } else {
                        (s, ScanStep::Continue)
                    },
                }
            } else {
                (CommandScanView { args: s.args.push(line), ..s }, ScanStep::Continue)
            }
        },
    }
}

impl CommandScan {
    /// An empty scan.
    pub fn new() -> (r: Self)
        ensures
            r@ == (CommandScanView {
                command: None,
                capabilities: Seq::empty(),
                args: Seq::empty(),
                found_delimiter: false,
            }),
    {
        let r = CommandScan { command: None, capabilities: Vec::new(), args: Vec::new(), found_delimiter: false };
        assert(svs(r.capabilities@) =~= Seq::<Seq<char>>::empty());
        assert(svs(r.args@) =~= Seq::<Seq<char>>::empty());
        r
    }

    /// Take one packet of a command request into account.
    pub fn step(&mut self, pkt: &PktLine) -> (step: ScanStep)
        ensures
            (final(self)@, step) == spec_scan_step(old(self)@, pkt@),
    {
        match pkt {
            PktLine::Flush => if self.found_delimiter {
                ScanStep::Complete
            } else {
                ScanStep::EndOfCommands
            },
            PktLine::Delim => {
                self.found_delimiter = true;
                ScanStep::Continue
            },
            PktLine::ResponseEnd => ScanStep::EndOfCommands,
            PktLine::Data(d) => {
                let text = decode_lossy(d.as_slice());
                let line = trim_end_char(string_chars(&text).as_slice(), '\n');
                if !self.found_delimiter {
                    match strip_prefix(line.as_slice(), chars_of("command=").as_slice()) {
                        Some(cmd) => {
                            self.command = Some(string_of(cmd.as_slice()));
                        },
                        None => {
                            if line.len() > 0 {
                                let ghost before = svs(self.capabilities@);
                                self.capabilities.push(string_of(line.as_slice()));
                                assert(svs(self.capabilities@) =~= before.push(line@));
                            }
                        },
                    }
                } else {
                    let ghost before = svs(self.args@);
                    self.args.push(string_of(line.as_slice()));
                    assert(svs(self.args@) =~= before.push(line@));
                }
                ScanStep::Continue
            },
        }
    }
}

// ── Parsing a complete request ───────────────────────────────────────────

/// The arguments of an `ls-refs` command read so far.
pub struct LsRefsArgs {
    pub ref_patterns: Seq<Seq<char>>,
    pub peel: bool,
    pub symrefs: bool,
    pub unborn: bool,
    pub server_options: Seq<Seq<char>>,
}

/// The effect of one `ls-refs` argument.
pub open spec fn ls_refs_arg(acc: LsRefsArgs, a: Seq<char>) -> LsRefsArgs {
    match spec_strip_prefix(a, "ref-prefix "@) {
        Some(p) => LsRefsArgs { ref_patterns: acc.ref_patterns.push(p), ..acc },
        None => if a == "peel"@ {
            LsRefsArgs { peel: true, ..acc }
        } else if a == "symrefs"@ {
            LsRefsArgs { symrefs: true, ..acc }
        } else if a == "unborn"@ {
            LsRefsArgs { unborn: true, ..acc }
        } else {
            match spec_strip_prefix(a, "server-option="@) {
                Some(o) => LsRefsArgs { server_options: acc.server_options.push(o), ..acc },
                None => acc,
            }
        },
    }
}

/// The `ls-refs` arguments, read in order.
pub open spec fn ls_refs_args(args: Seq<Seq<char>>) -> LsRefsArgs
    decreases args.len(),
{
    if args.len() == 0 {
        LsRefsArgs {
            ref_patterns: Seq::empty(),
            peel: false,
            symrefs: false,
            unborn: false,
            server_options: Seq::empty(),
        }
    } else {
        ls_refs_arg(ls_refs_args(args.drop_last()), args.last())
    }
}

/// The arguments of a `fetch` command read so far.
pub struct FetchArgs {
    pub wants: Seq<Seq<char>>,
    pub haves: Seq<Seq<char>>,
    pub shallow: ShallowView,
    pub filter: Option<Seq<char>>,
    pub done: bool,
}

/// The effect of one `fetch` argument; a malformed number refuses the
/// request.
pub open spec fn fetch_arg(acc: FetchArgs, a: Seq<char>) -> Result<FetchArgs, V2Error> {
    if let Some(w) = spec_strip_prefix(a, "want "@) {
        Ok(FetchArgs { wants: acc.wants.push(w), ..acc })
    } else if let Some(h) = spec_strip_prefix(a, "have "@) {
        Ok(FetchArgs { haves: acc.haves.push(h), ..acc })
    } else if let Some(sh) = spec_strip_prefix(a, "shallow "@) {
        Ok(FetchArgs { shallow: ShallowView { shallows: acc.shallow.shallows.push(sh), ..acc.shallow }, ..acc })
    } else if let Some(d) = spec_strip_prefix(a, "deepen "@) {
        match spec_parse_u32(d) {
            Some(n) => Ok(FetchArgs { shallow: ShallowView { deepen: Some(n), ..acc.shallow }, ..acc }),
            None => Err(V2Error::InvalidDeepen),
        }
    } else if a == "deepen-relative"@ {
        Ok(FetchArgs { shallow: ShallowView { deepen_relative: true, ..acc.shallow }, ..acc })
    } else if let Some(t) = spec_strip_prefix(a, "deepen-since "@) {
        match spec_parse_i64(t) {
            Some(n) => Ok(FetchArgs { shallow: ShallowView { deepen_since: Some(n), ..acc.shallow }, ..acc }),
            None => Err(V2Error::InvalidDeepenSince),
        }
    } else if let Some(r) = spec_strip_prefix(a, "deepen-not "@) {
        Ok(FetchArgs { shallow: ShallowView { deepen_not: acc.shallow.deepen_not.push(r), ..acc.shallow }, ..acc })
    } else if let Some(f) = spec_strip_prefix(a, "filter "@) {
        Ok(FetchArgs { filter: Some(f), ..acc })
    } else if a == "done"@ {
        Ok(FetchArgs { done: true, ..acc })
    } else {
        Ok(acc)
    }
}

/// The `fetch` arguments, read in order up to the first malformed one.
pub open spec fn fetch_args(args: Seq<Seq<char>>) -> Result<FetchArgs, V2Error>
    decreases args.len(),
{
    if args.len() == 0 {
        Ok(
            FetchArgs {
                wants: Seq::empty(),
                haves: Seq::empty(),
                shallow: ShallowView {
                    shallows: Seq::empty(),
                    deepen: None,
                    deepen_relative: false,
                    deepen_since: None,
                    deepen_not: Seq::empty(),
                },
                filter: None,
                done: false,
            },
        )
    } else {
        match fetch_args(args.drop_last()) {
            Err(e) => Err(e),
            Ok(acc) => fetch_arg(acc, args.last()),
        }
    }
}

/// The object an argument asks for under a prefix (`want ` or `have `):
/// what follows the prefix, when the argument starts with it.
pub open spec fn arg_under(prefix: Seq<char>) -> spec_fn(Seq<char>) -> Option<Seq<char>> {
    |a: Seq<char>| if prefix.is_prefix_of(a) { Some(a.skip(prefix.len() as int)) } else { None }
}

/// The wants of a well-formed `fetch` request are the objects of its
/// `want ` arguments, every one of them, in order; its haves likewise those
/// of its `have ` arguments. No other argument adds or drops one.
pub proof fn lemma_fetch_wants_and_haves(args: Seq<Seq<char>>)
    ensures
        fetch_args(args) matches Ok(fa) ==> fa.wants == args.filter_map(arg_under("want "@)) && fa.haves
            == args.filter_map(arg_under("have "@)),
    decreases args.len(),
{
    reveal_strlit("want ");
    reveal_strlit("have ");
    if args.len() > 0 {
        lemma_fetch_wants_and_haves(args.drop_last());
        let a = args.last();
        if "want "@.is_prefix_of(a) {
            assert(!"have "@.is_prefix_of(a)) by {
                assert(a[0] == "want "@[0]);
            }
        }
        if fetch_args(args) is Ok {
            let acc = fetch_args(args.drop_last())->Ok_0;
            assert(args.filter_map(arg_under("want "@)) == match arg_under("want "@)(a) {
                Some(x) => args.drop_last().filter_map(arg_under("want "@)) + seq![x],
                None => args.drop_last().filter_map(arg_under("want "@)),
            });
            assert(args.filter_map(arg_under("have "@)) == match arg_under("have "@)(a) {
                Some(x) => args.drop_last().filter_map(arg_under("have "@)) + seq![x],
                None => args.drop_last().filter_map(arg_under("have "@)),
            });
            if "want "@.is_prefix_of(a) {
                assert(acc.wants.push(a.skip(5)) =~= acc.wants + seq![a.skip(5)]);
            } else if "have "@.is_prefix_of(a) {
                assert(acc.haves.push(a.skip(5)) =~= acc.haves + seq![a.skip(5)]);
            }
        }
    }
}

/// The `object-info` arguments, read in order: the last object id and the
/// server options.
pub open spec fn object_info_args(args: Seq<Seq<char>>) -> (Option<Seq<char>>, Seq<Seq<char>>)
    decreases args.len(),
{
    if args.len() == 0 {
        (None, Seq::empty())
    } else {
        let (oid, opts) = object_info_args(args.drop_last());
        let a = args.last();
        match spec_strip_prefix(a, "oid "@) {
            Some(o) => (Some(o), opts),
            None => match spec_strip_prefix(a, "server-option="@) {
                Some(x) => (oid, opts.push(x)),
                None => (oid, opts),
            },
        }
    }
}

/// The request a completed scan stands for: no command means the end of
/// commands; `ls-refs`, `fetch` and `object-info` (with an object id) are
/// understood, anything else is unknown.
pub open spec fn spec_finish_command(s: CommandScanView) -> Result<CommandView, V2Error> {
    match s.command {
        None => Ok(CommandView::Flush),
        Some(cmd) => if cmd == "ls-refs"@ {
            let a = ls_refs_args(s.args);
            Ok(
                CommandView::LsRefs {
                    ref_patterns: a.ref_patterns,
                    peel: a.peel,
                    symrefs: a.symrefs,
                    unborn: a.unborn,
                    server_options: a.server_options,
                },
            )
        } else if cmd == "fetch"@ {
            match fetch_args(s.args) {
                Err(e) => Err(e),
                Ok(a) => Ok(
                    CommandView::Fetch {
                        wants: a.wants,
                        haves: a.haves,
                        shallow: a.shallow,
                        filter: a.filter,
                        done: a.done,
                        client_caps: s.capabilities,
                    },
                ),
            }
        } else if cmd == "object-info"@ {
            let (oid, opts) = object_info_args(s.args);
            match oid {
                Some(o) => Ok(CommandView::ObjectInfo { oid: o, server_options: opts }),
                None => Ok(CommandView::Unknown(cmd)),
            }
        } else {
            Ok(CommandView::Unknown(cmd))
        },
    }
}

/// Push a string made of `cs` onto `v`.
fn push_chars(v: &mut Vec<String>, cs: &Vec<char>)
    ensures
        svs(final(v)@) == svs(old(v)@).push(cs@),
{
    let ghost before = svs(v@);
    v.push(string_of(cs.as_slice()));
    assert(svs(v@) =~= before.push(cs@));
}

fn empty_strings() -> (v: Vec<String>)
    ensures
        svs(v@) == Seq::<Seq<char>>::empty(),
{
    let v: Vec<String> = Vec::new();
    assert(svs(v@) =~= Seq::<Seq<char>>::empty());
    v
}

/// Whether `a` holds exactly the characters of `lit`.
fn arg_is(a: &Vec<char>, lit: &str) -> (r: bool)
    ensures
        r == (a@ == lit@),
{
    chars_eq(a.as_slice(), chars_of(lit).as_slice())
}

/// Parse the arguments of an `ls-refs` command.
fn parse_ls_refs(args: &Vec<String>) -> (r: CommandRequest)
    ensures
        r@ == ({
            let a = ls_refs_args(svs(args@));
            CommandView::LsRefs {
                ref_patterns: a.ref_patterns,
                peel: a.peel,
                symrefs: a.symrefs,
                unborn: a.unborn,
                server_options: a.server_options,
            }
        }),
{
    let ghost av = svs(args@);
    let mut ref_patterns = empty_strings();
    let mut peel = false;
    let mut symrefs = false;
    let mut unborn = false;
    let mut server_options = empty_strings();
    let mut i: usize = 0;
    while i < args.len()
        invariant
            i <= args@.len(),
            av == svs(args@),
            ls_refs_args(av.take(i as int)) == (LsRefsArgs {
                ref_patterns: svs(ref_patterns@),
                peel,
                symrefs,
                unborn,
                server_options: svs(server_options@),
            }),
        decreases args@.len() - i,
    {
        let a = string_chars(&args[i]);
        proof {
            assert(av.take(i + 1).drop_last() =~= av.take(i as int));
            assert(av.take(i + 1).last() == a@);
        }
        match strip_prefix(a.as_slice(), chars_of("ref-prefix ").as_slice()) {
            Some(p) => push_chars(&mut ref_patterns, &p),
            None => {
                if arg_is(&a, "peel") {
                    peel = true;
                } else if arg_is(&a, "symrefs") {
                    symrefs = true;
                } else if arg_is(&a, "unborn") {
                    unborn = true;
                } else {
                    match strip_prefix(a.as_slice(), chars_of("server-option=").as_slice()) {
                        Some(o) => push_chars(&mut server_options, &o),
                        None => {},
                    }
                }
            },
        }
        i = i + 1;
    }
    assert(av.take(args@.len() as int) =~= av);
    CommandRequest::LsRefs { ref_patterns, peel, symrefs, unborn, server_options }
}

/// The fetch arguments gathered so far, in executable form.
struct FetchAcc {
    wants: Vec<String>,
    haves: Vec<String>,
    shallow: ShallowRequest,
    filter: Option<String>,
    done: bool,
}

spec fn fetch_acc_view(a: FetchAcc) -> FetchArgs {
    FetchArgs {
        wants: svs(a.wants@),
        haves: svs(a.haves@),
        shallow: a.shallow@,
        filter: opt_view(a.filter),
        done: a.done,
    }
}

/// Apply one `fetch` argument.
fn fetch_arg_exec(acc: &mut FetchAcc, a: &Vec<char>) -> (r: Result<(), V2Error>)
    ensures
        match fetch_arg(fetch_acc_view(*old(acc)), a@) {
            Ok(next) => r is Ok && fetch_acc_view(*final(acc)) == next,
            Err(e) => r == Err::<(), V2Error>(e),
        },
{
    if let Some(w) = strip_prefix(a.as_slice(), chars_of("want ").as_slice()) {
        push_chars(&mut acc.wants, &w);
    } else if let Some(h) = strip_prefix(a.as_slice(), chars_of("have ").as_slice()) {
        push_chars(&mut acc.haves, &h);
    } else if let Some(sh) = strip_prefix(a.as_slice(), chars_of("shallow ").as_slice()) {
        push_chars(&mut acc.shallow.shallows, &sh);
    } else if let Some(d) = strip_prefix(a.as_slice(), chars_of("deepen ").as_slice()) {
        match parse_u32(d.as_slice()) {
            Some(n) => {
                acc.shallow.deepen = Some(n);
            },
            None => {
                return Err(V2Error::InvalidDeepen);
            },
        }
    } else if arg_is(a, "deepen-relative") {
        acc.shallow.deepen_relative = true;
    } else if let Some(t) = strip_prefix(a.as_slice(), chars_of("deepen-since ").as_slice()) {
        match parse_i64(t.as_slice()) {
            Some(n) => {
                acc.shallow.deepen_since = Some(n);
            },
            None => {
                return Err(V2Error::InvalidDeepenSince);
            },
        }
    } else if let Some(r) = strip_prefix(a.as_slice(), chars_of("deepen-not ").as_slice()) {
        push_chars(&mut acc.shallow.deepen_not, &r);
    } else if let Some(f) = strip_prefix(a.as_slice(), chars_of("filter ").as_slice()) {
        acc.filter = Some(string_of(f.as_slice()));
    } else if arg_is(a, "done") {
        acc.done = true;
    }
    Ok(())
}

/// Parse the arguments of a `fetch` command.
fn parse_fetch(args: &Vec<String>, capabilities: Vec<String>) -> (r: Result<CommandRequest, V2Error>)
    ensures
        match fetch_args(svs(args@)) {
            Err(e) => r == Err::<CommandRequest, V2Error>(e),
            Ok(a) => r matches Ok(req) && req@ == (CommandView::Fetch {
                wants: a.wants,
                haves: a.haves,
                shallow: a.shallow,
                filter: a.filter,
                done: a.done,
                client_caps: svs(capabilities@),
            }),
        },
{
    let ghost av = svs(args@);
    let mut acc = FetchAcc {
        wants: empty_strings(),
        haves: empty_strings(),
        shallow: ShallowRequest::default(),
        filter: None,
        done: false,
    };
    let mut i: usize = 0;
    while i < args.len()
        invariant
            i <= args@.len(),
            av == svs(args@),
            fetch_args(av.take(i as int)) == Ok::<FetchArgs, V2Error>(fetch_acc_view(acc)),
        decreases args@.len() - i,
    {
        let a = string_chars(&args[i]);
        proof {
            assert(av.take(i + 1).drop_last() =~= av.take(i as int));
            assert(av.take(i + 1).last() == a@);
        }
        match fetch_arg_exec(&mut acc, &a) {
            Err(e) => {
                proof {
                    lemma_fetch_args_error_sticks(av, i + 1);
                }
                return Err(e);
            },
            Ok(()) => {},
        }
        i = i + 1;
    }
    assert(av.take(args@.len() as int) =~= av);
    Ok(
        CommandRequest::Fetch {
            wants: acc.wants,
            haves: acc.haves,
            shallow: acc.shallow,
            filter: acc.filter,
            done: acc.done,
            client_caps: capabilities,
        },
    )
}

/// Once an argument is malformed, the request stays refused with that error.
proof fn lemma_fetch_args_error_sticks(args: Seq<Seq<char>>, i: int)
    requires
        0 <= i <= args.len(),
        fetch_args(args.take(i)) is Err,
    ensures
        fetch_args(args) == fetch_args(args.take(i)),
    decreases args.len() - i,
{
    if i < args.len() {
        assert(args.take(i + 1).drop_last() =~= args.take(i));
        lemma_fetch_args_error_sticks(args, i + 1);
    } else {
        assert(args.take(i) =~= args);
    }
}

/// Parse the arguments of an `object-info` command.
fn parse_object_info(cmd: String, args: &Vec<String>) -> (r: CommandRequest)
    ensures
        r@ == ({
            let (oid, opts) = object_info_args(svs(args@));
            match oid {
                Some(o) => CommandView::ObjectInfo { oid: o, server_options: opts },
                None => CommandView::Unknown(cmd@),
            }
        }),
{
    let ghost av = svs(args@);
    let mut oid: Option<Vec<char>> = None;
    let mut server_options = empty_strings();
    let mut i: usize = 0;
    while i < args.len()
        invariant
            i <= args@.len(),
            av == svs(args@),
            object_info_args(av.take(i as int)) == (
                match oid {
                    Some(o) => Some(o@),
                    None => None::<Seq<char>>,
                },
                svs(server_options@),
            ),
        decreases args@.len() - i,
    {
        let a = string_chars(&args[i]);
        proof {
            assert(av.take(i + 1).drop_last() =~= av.take(i as int));
            assert(av.take(i + 1).last() == a@);
        }
        match strip_prefix(a.as_slice(), chars_of("oid ").as_slice()) {
            Some(o) => {
                oid = Some(o);
            },
            None => match strip_prefix(a.as_slice(), chars_of("server-option=").as_slice()) {
                Some(x) => push_chars(&mut server_options, &x),
                None => {},
            },
        }
        i = i + 1;
    }
    assert(av.take(args@.len() as int) =~= av);
    match oid {
        Some(o) => CommandRequest::ObjectInfo { oid: string_of(o.as_slice()), server_options },
        None => CommandRequest::Unknown(cmd),
    }
}

impl CommandScan {
    /// The request that a completed scan stands for.
    pub fn finish(self) -> (r: Result<CommandRequest, V2Error>)
        ensures
            match spec_finish_command(self@) {
                Ok(v) => r matches Ok(req) && req@ == v,
                Err(e) => r == Err::<CommandRequest, V2Error>(e),
            },
    {
        let CommandScan { command, capabilities, args, found_delimiter: _ } = self;
        match command {
            None => Ok(CommandRequest::Flush),
            Some(cmd) => {
                let c = string_chars(&cmd);
                if arg_is(&c, "ls-refs") {
                    Ok(parse_ls_refs(&args))
                } else if arg_is(&c, "fetch") {
                    parse_fetch(&args, capabilities)
                } else if arg_is(&c, "object-info") {
                    Ok(parse_object_info(cmd, &args))
                } else {
                    Ok(CommandRequest::Unknown(cmd))
                }
            },
        }
    }
}

// ── Fetch ────────────────────────────────────────────────────────────────

/// Whether a partial-clone filter specification is malformed: empty, longer
/// than 1024 bytes, or holding whitespace or control characters.
pub open spec fn filter_malformed(f: Seq<char>) -> bool {
    f.len() == 0 || encode_utf8(f).len() > 1024 || exists|k: int|
        0 <= k < f.len() && (spec_is_whitespace(#[trigger] f[k]) || spec_is_control(f[k]))
}

/// The verdict on the shallow and filter features of a fetch request.
pub open spec fn spec_validate_fetch_features(shallow: ShallowView, filter: Option<Seq<char>>) -> Result<(), V2Error> {
    if filter is Some && filter_malformed(filter->0) {
        Err(V2Error::InvalidFilter)
    } else if shallow.deepen == Some(0u32) {
        Err(V2Error::ZeroDepth)
    } else if shallow.deepen_relative && shallow.deepen is None {
        Err(V2Error::RelativeWithoutDepth)
    } else if shallow.deepen is Some && (shallow.deepen_since is Some || shallow.deepen_not.len() > 0) {
        Err(V2Error::ConflictingDeepen)
    } else {
        Ok(())
    }
}

/// Check the shallow and partial-clone features of a fetch request.
pub fn validate_fetch_features(shallow: &ShallowRequest, filter: &Option<String>) -> (r: Result<(), V2Error>)
    ensures
        r == spec_validate_fetch_features(shallow@, opt_view(*filter)),
{
    match filter {
        Some(f) => {
            let cs = string_chars(f);
            let byte_len = f.as_str().as_bytes().len();
            if cs.len() == 0 || byte_len > 1024 {
                return Err(V2Error::InvalidFilter);
            }
            let mut i: usize = 0;
            while i < cs.len()
                invariant
                    i <= cs@.len(),
                    cs@ == f@,
                    opt_view(*filter) == Some(f@),
                    cs@.len() > 0,
                    encode_utf8(f@).len() <= 1024,
                    forall|k: int| 0 <= k < i ==> !(spec_is_whitespace(#[trigger] cs@[k]) || spec_is_control(cs@[k])),
                decreases cs@.len() - i,
            {
                if is_whitespace(cs[i]) || is_control(cs[i]) {
                    assert(spec_is_whitespace(f@[i as int]) || spec_is_control(f@[i as int]));
                    assert(filter_malformed(f@));
                    return Err(V2Error::InvalidFilter);
                }
                i = i + 1;
            }
            assert(!filter_malformed(f@));
        },
        None => {},
    }
    if let Some(d) = shallow.deepen {
        if d == 0 {
            return Err(V2Error::ZeroDepth);
        }
    }
    if shallow.deepen_relative && shallow.deepen.is_none() {
        return Err(V2Error::RelativeWithoutDepth);
    }
    if shallow.deepen.is_some() && (shallow.deepen_since.is_some() || shallow.deepen_not.len() > 0) {
        assert(svs(shallow.deepen_not@).len() == shallow.deepen_not@.len());
        return Err(V2Error::ConflictingDeepen);
    }
    assert(svs(shallow.deepen_not@).len() == shallow.deepen_not@.len());
    Ok(())
}

/// Whether a fetch response needs an acknowledgments section: the client
/// sent haves and has not said `done`.
pub fn needs_acknowledgments(haves: &[String], done: bool) -> (r: bool)
    ensures
        r == (haves@.len() > 0 && !done),
{
    haves.len() > 0 && !done
}

/// What a fetch response holds before its packfile data, and whether the
/// packfile follows: with no wants, an empty `packfile` section and a flush;
/// else, when negotiation is still open (haves sent and not `done`), the
/// acknowledgments of the `known` haves, ending the response at a `NAK`;
/// then the shallow-info section of the update, if any; then the `packfile`
/// header.
pub open spec fn spec_fetch_head(
    wants_empty: bool,
    haves_len: nat,
    done: bool,
    known: Seq<Seq<char>>,
    shallow: Option<Seq<Seq<char>>>,
) -> (Seq<PktView>, bool) {
    let packfile = PktView::Data(spec_text_payload("packfile"@));
    if wants_empty {
        (seq![packfile, PktView::Flush], false)
    } else {
        let acks: (Seq<PktView>, bool) = if haves_len > 0 && !done {
            spec_acknowledgments(known)
        } else {
            (Seq::empty(), true)
        };
        if !acks.1 {
            (acks.0, false)
        } else {
            let shallow_part = match shallow {
                Some(lines) => spec_shallow_info(lines),
                None => Seq::empty(),
            };
            (acks.0 + shallow_part + seq![packfile], true)
        }
    }
}

/// Build what a fetch response holds before its packfile data (see
/// `spec_fetch_head`); `known` are the haves the repository holds, read only
/// when negotiation is open.
pub fn fetch_response_head(
    wants: &[String],
    haves: &[String],
    done: bool,
    known: &Vec<String>,
    update: &Option<ShallowUpdate>,
) -> (r: (Vec<PktLine>, bool))
    ensures
        (r.0@.map_values(|p: PktLine| p@), r.1) == spec_fetch_head(
            wants@.len() == 0,
            haves@.len(),
            done,
            svs(known@),
            match update {
                Some(u) => Some(svs(u.response_lines@)),
                None => None,
            },
        ),
{
    let ghost known_view = svs(known@);
    let ghost shallow_view = match update {
        Some(u) => Some(svs(u.response_lines@)),
        None => None,
    };
    let mut lines: Vec<PktLine> = Vec::new();
    if wants.len() == 0 {
        lines.push(PktLine::text("packfile"));
        lines.push(PktLine::Flush);
        assert(lines@.map_values(|p: PktLine| p@) =~= spec_fetch_head(true, haves@.len(), done, known_view, shallow_view).0);
        return (lines, false);
    }
    if needs_acknowledgments(haves, done) {
        let (acks, ready) = acknowledgments(known.as_slice());
        lines = acks;
        if !ready {
            return (lines, false);
        }
    }
    let ghost before = lines@.map_values(|p: PktLine| p@);
    let mut shallow_lines: Vec<PktLine> = match update {
        Some(u) => shallow_info(u),
        None => Vec::new(),
    };
    let ghost shallow_part = shallow_lines@.map_values(|p: PktLine| p@);
    lines.append(&mut shallow_lines);
    assert(lines@.map_values(|p: PktLine| p@) =~= before + shallow_part);
    let ghost mid = lines@.map_values(|p: PktLine| p@);
    lines.push(PktLine::text("packfile"));
    assert(lines@.map_values(|p: PktLine| p@) =~= mid.push(PktView::Data(spec_text_payload("packfile"@))));
    (lines, true)
}

/// The acknowledgments section: an `ACK` per common object, then `ready`
/// and a delimiter when there is one (a packfile section follows), or `NAK`
/// and a flush when there is none (the response ends).
pub open spec fn spec_acknowledgments(acked: Seq<Seq<char>>) -> (Seq<PktView>, bool) {
    let acks = acked.map_values(|h: Seq<char>| PktView::Data(spec_text_payload("ACK "@ + h)));
    let head = seq![PktView::Data(spec_text_payload("acknowledgments"@))] + acks;
    if acked.len() > 0 {
        (head + seq![PktView::Data(spec_text_payload("ready"@)), PktView::Delim], true)
    } else {
        (head + seq![PktView::Data(spec_text_payload("NAK"@)), PktView::Flush], false)
    }
}

/// Build the acknowledgments section; the flag tells whether a packfile
/// section follows in the same response.
pub fn acknowledgments(acked_oids: &[String]) -> (r: (Vec<PktLine>, bool))
    ensures
        (r.0@.map_values(|p: PktLine| p@), r.1) == spec_acknowledgments(svs(acked_oids@)),
{
    let ghost acked = svs(acked_oids@);
    let ghost acks = acked.map_values(|h: Seq<char>| PktView::Data(spec_text_payload("ACK "@ + h)));
    let ghost head = seq![PktView::Data(spec_text_payload("acknowledgments"@))];
    let mut lines: Vec<PktLine> = Vec::new();
    lines.push(PktLine::text("acknowledgments"));
    let mut i: usize = 0;
    assert(lines@.map_values(|p: PktLine| p@) =~= head + acks.take(0));
    while i < acked_oids.len()
        invariant
            i <= acked_oids@.len(),
            acked == svs(acked_oids@),
            acks == acked.map_values(|h: Seq<char>| PktView::Data(spec_text_payload("ACK "@ + h))),
            lines@.map_values(|p: PktLine| p@) == head + acks.take(i as int),
        decreases acked_oids@.len() - i,
    {
        let mut line = chars_of("ACK ");
        append_chars(&mut line, string_chars(&acked_oids[i]).as_slice());
        let pkt = PktLine::text_chars(line.as_slice());
        let ghost before = lines@.map_values(|p: PktLine| p@);
        let ghost pv = pkt@;
        lines.push(pkt);
        assert(lines@.map_values(|p: PktLine| p@) =~= before.push(pv));
        assert(acks.take(i + 1) =~= acks.take(i as int).push(acks[i as int]));
        i = i + 1;
    }
    assert(acks.take(acked_oids@.len() as int) =~= acks);
    let ready = acked_oids.len() > 0;
    let ghost before = lines@.map_values(|p: PktLine| p@);
    if ready {
        lines.push(PktLine::text("ready"));
        lines.push(PktLine::Delim);
    } else {
        lines.push(PktLine::text("NAK"));
        lines.push(PktLine::Flush);
    }
    assert(lines@.map_values(|p: PktLine| p@) =~= spec_acknowledgments(acked).0);
    (lines, ready)
}

// ── ls-refs ──────────────────────────────────────────────────────────────

/// A ref as `ls-refs` lists it.
pub struct LsRefEntry {
    pub sha: String,
    pub refname: String,
    /// Target of a symbolic ref, when the client asked for symrefs.
    pub symref_target: Option<String>,
}

/// Whether a ref is listed under the requested prefixes (all refs when none
/// are requested).
pub open spec fn listed(refname: Seq<char>, prefixes: Seq<Seq<char>>) -> bool {
    prefixes.len() == 0 || exists|k: int| 0 <= k < prefixes.len() && (#[trigger] prefixes[k]).is_prefix_of(refname)
}

/// Whether a ref is listed under the requested prefixes.
pub fn is_listed(refname: &String, prefixes: &[String]) -> (r: bool)
    ensures
        r == listed(refname@, svs(prefixes@)),
{
    if prefixes.len() == 0 {
        return true;
    }
    let name = string_chars(refname);
    let mut i: usize = 0;
    while i < prefixes.len()
        invariant
            i <= prefixes@.len(),
            name@ == refname@,
            forall|k: int| 0 <= k < i ==> !(#[trigger] svs(prefixes@)[k]).is_prefix_of(refname@),
        decreases prefixes@.len() - i,
    {
        let p = string_chars(&prefixes[i]);
        if crate::text::starts_with(name.as_slice(), p.as_slice()) {
            assert(svs(prefixes@)[i as int] == p@);
            return true;
        }
        i = i + 1;
    }
    false
}

/// Whether `ls-refs` asks for the peeled object of a ref: the client asked
/// for peeling and the ref is a tag.
pub fn wants_peel(peel: bool, refname: &String) -> (r: bool)
    ensures
        r == (peel && "refs/tags/"@.is_prefix_of(refname@)),
{
    peel && crate::text::starts_with(string_chars(refname).as_slice(), chars_of("refs/tags/").as_slice())
}

/// The `ls-refs` line of a ref: `sha refname`, with ` symref-target:<t>`
/// when symrefs were asked for and the ref has a target, and ` peeled:<p>`
/// when a peeled object differing from the ref's own was found.
pub open spec fn spec_ls_ref_line(
    sha: Seq<char>,
    refname: Seq<char>,
    symref_target: Option<Seq<char>>,
    symrefs: bool,
    peeled: Option<Seq<char>>,
) -> Seq<char> {
    let base = sha + " "@ + refname;
    let with_target = if symrefs && symref_target is Some {
        base + " symref-target:"@ + symref_target->0
    } else {
        base
    };
    if peeled is Some && peeled->0 != sha {
        with_target + " peeled:"@ + peeled->0
    } else {
        with_target
    }
}

/// Build the `ls-refs` line of a ref.
pub fn ls_ref_line(entry: &LsRefEntry, symrefs: bool, peeled: &Option<String>) -> (line: PktLine)
    ensures
        line@ == PktView::Data(
            spec_text_payload(
                spec_ls_ref_line(entry.sha@, entry.refname@, opt_view(entry.symref_target), symrefs, opt_view(*peeled)),
            ),
        ),
{
    let sha = string_chars(&entry.sha);
    let mut v = string_chars(&entry.sha);
    append_chars(&mut v, chars_of(" ").as_slice());
    append_chars(&mut v, string_chars(&entry.refname).as_slice());
    if symrefs {
        match &entry.symref_target {
            Some(t) => {
                append_chars(&mut v, chars_of(" symref-target:").as_slice());
                append_chars(&mut v, string_chars(t).as_slice());
            },
            None => {},
        }
    }
    match peeled {
        Some(p) => {
            let pc = string_chars(p);
            if !chars_eq(pc.as_slice(), sha.as_slice()) {
                append_chars(&mut v, chars_of(" peeled:").as_slice());
                append_chars(&mut v, pc.as_slice());
            }
        },
        None => {},
    }
    PktLine::text_chars(v.as_slice())
}

/// The `unborn HEAD` line, sent when the client asked for unborn refs and
/// `HEAD` points to a branch that does not exist yet.
pub fn unborn_line(unborn: bool, head_resolves: bool, head_target: &Option<String>) -> (r: Option<String>)
    ensures
        r matches Some(l) ==> unborn && !head_resolves && head_target is Some && l@ == "unborn HEAD symref-target:"@
            + head_target->0@,
        r is None ==> !(unborn && !head_resolves && head_target is Some),
{
    if head_resolves || !unborn {
        return None;
    }
    match head_target {
        Some(t) => {
            let mut v = chars_of("unborn HEAD symref-target:");
            append_chars(&mut v, string_chars(t).as_slice());
            Some(string_of(v.as_slice()))
        },
        None => None,
    }
}

// ── object-info ──────────────────────────────────────────────────────────

/// The `object-info` response: `size`, `<oid> <size>`, flush.
pub fn object_info_response(oid: &String, size: u64) -> (lines: Vec<PktLine>)
    ensures
        lines@.map_values(|p: PktLine| p@) == seq![
            PktView::Data(spec_text_payload("size"@)),
            PktView::Data(spec_text_payload(oid@ + " "@ + crate::text::spec_decimal(size as nat))),
            PktView::Flush,
        ],
{
    let mut lines: Vec<PktLine> = Vec::new();
    lines.push(PktLine::text("size"));
    let mut v = string_chars(oid);
    append_chars(&mut v, chars_of(" ").as_slice());
    append_chars(&mut v, crate::text::decimal_chars(size).as_slice());
    lines.push(PktLine::text_chars(v.as_slice()));
    lines.push(PktLine::Flush);
    assert(lines@.map_values(|p: PktLine| p@) =~= seq![
        PktView::Data(spec_text_payload("size"@)),
        PktView::Data(spec_text_payload(oid@ + " "@ + crate::text::spec_decimal(size as nat))),
        PktView::Flush,
    ]);
    lines
}

} // verus!

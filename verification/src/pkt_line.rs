//! Git pkt-line framing.
//!
//! A pkt-line is four lowercase hexadecimal digits giving the length of the
//! whole line (header included), followed by the payload. The lengths 0, 1
//! and 2 are the special flush, delimiter and response-end packets.

use vstd::prelude::*;
use vstd::std_specs::cmp::PartialEqSpecImpl;
use vstd::utf8::*;
use vstd::string::*;
use crate::text::{
    append_bytes, append_chars, bytes_eq, chars_of, decimal_chars, decode_strict, spec_decimal,
    spec_trim_end, string_chars, string_of, sub_bytes, trim_end, utf8_bytes,
};

verus! {

/// Maximum payload size per pkt-line (65516 bytes, per git protocol).
pub const MAX_PKT_LINE_LEN: usize = 65516;

/// A pkt-line: data, flush, or the special packets of protocol v2.
#[derive(Debug, Clone)]
pub enum PktLine {
    Data(Vec<u8>),
    Flush,
    /// Delimiter packet (`0001`): separates sections in protocol v2.
    Delim,
    /// Response-end packet (`0002`): ends a response on stateless connections.
    ResponseEnd,
}

/// The abstract value of a pkt-line.
pub enum PktView {
    Data(Seq<u8>),
    Flush,
    Delim,
    ResponseEnd,
}

impl View for PktLine {
    type V = PktView;

    open spec fn view(&self) -> PktView {
        match self {
            PktLine::Data(d) => PktView::Data(d@),
            PktLine::Flush => PktView::Flush,
            PktLine::Delim => PktView::Delim,
            PktLine::ResponseEnd => PktView::ResponseEnd,
        }
    }
}

impl PartialEq for PktLine {
    fn eq(&self, other: &Self) -> (r: bool) {
        match (self, other) {
            (PktLine::Data(a), PktLine::Data(b)) => bytes_eq(a.as_slice(), b.as_slice()),
            (PktLine::Flush, PktLine::Flush) => true,
            (PktLine::Delim, PktLine::Delim) => true,
            (PktLine::ResponseEnd, PktLine::ResponseEnd) => true,
            _ => false,
        }
    }
}

impl PartialEqSpecImpl for PktLine {
    open spec fn obeys_eq_spec() -> bool {
        true
    }

    open spec fn eq_spec(&self, other: &Self) -> bool {
        self@ == other@
    }
}

/// Why a pkt-line could not be written or read.
#[derive(Debug, Clone)]
pub enum PktLineError {
    /// The payload exceeds `MAX_PKT_LINE_LEN`.
    TooLarge { len: usize },
    /// The four header bytes are not a hexadecimal length.
    InvalidHeader { header: [u8; 4] },
    /// The header announces a length below 4 that is no special packet.
    InvalidLength { len: usize },
    /// The input ends before the announced payload.
    Truncated { expected: usize, available: usize },
    /// A text line is not well-formed UTF-8.
    InvalidUtf8,
}

/// The payload of a text line: the UTF-8 bytes of `text`, with a trailing
/// newline added unless it already ends in one.
pub open spec fn spec_text_payload(text: Seq<char>) -> Seq<u8> {
    let b = encode_utf8(text);
    if b.len() > 0 && b.last() == 10u8 {
        b
    } else {
        b.push(10u8)
    }
}

impl PktLine {
    /// Create a data pkt-line from bytes.
    pub fn data(data: &[u8]) -> (p: Self)
        ensures
            p@ == PktView::Data(data@),
    {
        PktLine::Data(vstd::slice::slice_to_vec(data))
    }

    /// Create a text pkt-line from a string, with a trailing newline.
    pub fn text(text: &str) -> (p: Self)
        ensures
            p@ == PktView::Data(spec_text_payload(text@)),
    {
        let mut v = vstd::slice::slice_to_vec(text.as_bytes());
        if v.len() == 0 || v[v.len() - 1] != 10u8 {
            v.push(10u8);
        }
        PktLine::Data(v)
    }

    /// Create a text pkt-line from characters, with a trailing newline.
    pub fn text_chars(text: &[char]) -> (p: Self)
        ensures
            p@ == PktView::Data(spec_text_payload(text@)),
    {
        let s = string_of(text);
        PktLine::text(s.as_str())
    }

    /// A data pkt-line holding the UTF-8 encoding of `text`, as is.
    pub fn from_chars(text: &[char]) -> (p: Self)
        ensures
            p@ == PktView::Data(encode_utf8(text@)),
    {
        PktLine::Data(utf8_bytes(text))
    }

    /// Whether the pkt-line can be written: a data payload is at most
    /// `MAX_PKT_LINE_LEN` bytes.
    pub open spec fn wf(&self) -> bool {
        match self@ {
            PktView::Data(d) => d.len() <= MAX_PKT_LINE_LEN,
            _ => true,
        }
    }
}

/// Lowercase hexadecimal digit of `v < 16`.
pub open spec fn hex_digit(v: nat) -> u8 {
    if v < 10 {
        (48 + v) as u8
    } else {
        (87 + v) as u8
    }
}

/// `format!("{:04x}", n)` for `n < 65536`.
pub open spec fn hex4(n: nat) -> Seq<u8> {
    seq![
        hex_digit((n / 4096) % 16),
        hex_digit((n / 256) % 16),
        hex_digit((n / 16) % 16),
        hex_digit(n % 16),
    ]
}

/// The wire form of a pkt-line.
pub open spec fn spec_encode(p: PktView) -> Seq<u8> {
    match p {
        PktView::Data(d) => hex4(d.len() + 4) + d,
        PktView::Flush => seq![48u8, 48u8, 48u8, 48u8],
        PktView::Delim => seq![48u8, 48u8, 48u8, 49u8],
        PktView::ResponseEnd => seq![48u8, 48u8, 48u8, 50u8],
    }
}

/// The wire form of a sequence of pkt-lines.
pub open spec fn spec_encode_all(ps: Seq<PktView>) -> Seq<u8>
    decreases ps.len(),
{
    if ps.len() == 0 {
        Seq::empty()
    } else {
        spec_encode(ps[0]) + spec_encode_all(ps.drop_first())
    }
}

/// Value of a hexadecimal digit (either case), as `u32::from_str_radix` reads it.
pub open spec fn hex_value(b: u8) -> Option<nat> {
    if 48 <= b <= 57 {
        Some((b - 48) as nat)
    } else if 97 <= b <= 102 {
        Some((b - 87) as nat)
    } else if 65 <= b <= 70 {
        Some((b - 55) as nat)
    } else {
        None
    }
}

/// What `u32::from_str_radix(_, 16)` makes of a four-byte header: four hex
/// digits, or a `+` sign followed by three.
pub open spec fn parse_hex4(h: Seq<u8>) -> Option<nat> {
    if h.len() != 4 {
        None
    } else if hex_value(h[0]) is Some && hex_value(h[1]) is Some && hex_value(h[2]) is Some
        && hex_value(h[3]) is Some {
        Some(
            hex_value(h[0])->0 * 4096 + hex_value(h[1])->0 * 256 + hex_value(h[2])->0 * 16
                + hex_value(h[3])->0,
        )
    } else if h[0] == 43u8 && hex_value(h[1]) is Some && hex_value(h[2]) is Some && hex_value(
        h[3],
    ) is Some {
        Some(hex_value(h[1])->0 * 256 + hex_value(h[2])->0 * 16 + hex_value(h[3])->0)
    } else {
        None
    }
}

/// What a pkt-line header announces.
#[derive(Debug, Clone, Copy, PartialEq, Eq)]
pub enum PktHeader {
    Flush,
    Delim,
    ResponseEnd,
    /// A data line with a payload of this many bytes.
    Data(usize),
}

/// The meaning of a four-byte header.
pub open spec fn spec_header(h: [u8; 4]) -> Result<PktHeader, PktLineError> {
    match parse_hex4(h@) {
        None => Err(PktLineError::InvalidHeader { header: h }),
        Some(n) => if n == 0 {
            Ok(PktHeader::Flush)
        } else if n == 1 {
            Ok(PktHeader::Delim)
        } else if n == 2 {
            Ok(PktHeader::ResponseEnd)
        } else if n < 4 {
            Err(PktLineError::InvalidLength { len: n as usize })
        } else {
            Ok(PktHeader::Data((n - 4) as usize))
        },
    }
}

/// What reading one pkt-line from the start of `buf` yields: the line and the
/// number of bytes it took. Input that ends inside the header is read as a
/// flush, as a closed connection is.
#[verifier::opaque]
pub open spec fn spec_decode(buf: Seq<u8>) -> Result<(PktView, int), PktLineError> {
    if buf.len() < 4 {
        Ok((PktView::Flush, buf.len() as int))
    } else {
        match spec_header([buf[0], buf[1], buf[2], buf[3]]) {
            Err(e) => Err(e),
            Ok(PktHeader::Flush) => Ok((PktView::Flush, 4)),
            Ok(PktHeader::Delim) => Ok((PktView::Delim, 4)),
            Ok(PktHeader::ResponseEnd) => Ok((PktView::ResponseEnd, 4)),
            Ok(PktHeader::Data(n)) => if buf.len() < 4 + n {
                Err(PktLineError::Truncated { expected: n, available: (buf.len() - 4) as usize })
            } else {
                Ok((PktView::Data(buf.subrange(4, 4 + n)), 4 + n))
            },
        }
    }
}

fn hex_value_exec(b: u8) -> (r: Option<u32>)
    ensures
        r matches Some(v) ==> hex_value(b) == Some(v as nat),
        r is None ==> hex_value(b) is None,
        r matches Some(v) ==> v < 16,
{
    if 48 <= b && b <= 57 {
        Some((b - 48) as u32)
    } else if 97 <= b && b <= 102 {
        Some((b - 87) as u32)
    } else if 65 <= b && b <= 70 {
        Some((b - 55) as u32)
    } else {
        None
    }
}

/// Interpret the four header bytes of a pkt-line.
pub fn parse_header(h: [u8; 4]) -> (r: Result<PktHeader, PktLineError>)
    ensures
        r == spec_header(h),
{
    let d0 = hex_value_exec(h[0]);
    let d1 = hex_value_exec(h[1]);
    let d2 = hex_value_exec(h[2]);
    let d3 = hex_value_exec(h[3]);
    let n: u32;
    if d0.is_some() && d1.is_some() && d2.is_some() && d3.is_some() {
        n = d0.unwrap() * 4096 + d1.unwrap() * 256 + d2.unwrap() * 16 + d3.unwrap();
    } else if h[0] == 43u8 && d1.is_some() && d2.is_some() && d3.is_some() {
        n = d1.unwrap() * 256 + d2.unwrap() * 16 + d3.unwrap();
    } else {
        assert(parse_hex4(h@) is None);
        return Err(PktLineError::InvalidHeader { header: h });
    }
    assert(parse_hex4(h@) == Some(n as nat));
    if n == 0 {
        Ok(PktHeader::Flush)
    } else if n == 1 {
        Ok(PktHeader::Delim)
    } else if n == 2 {
        Ok(PktHeader::ResponseEnd)
    } else if n < 4 {
        Err(PktLineError::InvalidLength { len: n as usize })
    } else {
        Ok(PktHeader::Data((n - 4) as usize))
    }
}

fn hex_digit_exec(v: usize) -> (b: u8)
    requires
        v < 16,
    ensures
        b == hex_digit(v as nat),
{
    if v < 10 {
        (48 + v) as u8
    } else {
        (87 + v) as u8
    }
}

/// Read one pkt-line from the start of `buf`; returns the line and the number
/// of bytes it took.
pub fn decode(buf: &[u8]) -> (r: Result<(PktLine, usize), PktLineError>)
    ensures
        r matches Ok((p, n)) ==> spec_decode(buf@) == Ok::<(PktView, int), PktLineError>((p@, n as int)),
        r matches Err(e) ==> spec_decode(buf@) == Err::<(PktView, int), PktLineError>(e),
{
    reveal(spec_decode);
    if buf.len() < 4 {
        return Ok((PktLine::Flush, buf.len()));
    }
    let h: [u8; 4] = [buf[0], buf[1], buf[2], buf[3]];
    match parse_header(h) {
        Err(e) => Err(e),
        Ok(PktHeader::Flush) => Ok((PktLine::Flush, 4)),
        Ok(PktHeader::Delim) => Ok((PktLine::Delim, 4)),
        Ok(PktHeader::ResponseEnd) => Ok((PktLine::ResponseEnd, 4)),
        Ok(PktHeader::Data(n)) => {
            if buf.len() - 4 < n {
                Err(PktLineError::Truncated { expected: n, available: buf.len() - 4 })
            } else {
                let payload = sub_bytes(buf, 4, 4 + n);
                Ok((PktLine::Data(payload), 4 + n))
            }
        },
    }
}

impl PktLine {
    /// The bytes that put this pkt-line on the wire.
    pub fn encode(&self) -> (r: Result<Vec<u8>, PktLineError>)
        ensures
            self.wf() ==> (r matches Ok(b) && b@ == spec_encode(self@)),
            !self.wf() ==> (r matches Err(PktLineError::TooLarge { len }) && len == match self@ {
                PktView::Data(d) => d.len(),
                _ => 0,
            }),
    {
        match self {
            PktLine::Data(data) => {
                if data.len() > MAX_PKT_LINE_LEN {
                    return Err(PktLineError::TooLarge { len: data.len() });
                }
                let len = data.len() + 4;
                let mut out: Vec<u8> = Vec::new();
                out.push(hex_digit_exec((len / 4096) % 16));
                out.push(hex_digit_exec((len / 256) % 16));
                out.push(hex_digit_exec((len / 16) % 16));
                out.push(hex_digit_exec(len % 16));
                let ghost head = out@;
                assert(head =~= hex4(len as nat));
                append_bytes(&mut out, data.as_slice());
                Ok(out)
            },
            PktLine::Flush => {
                let v: Vec<u8> = vec![48u8, 48u8, 48u8, 48u8];
                assert(v@ =~= spec_encode(self@));
                Ok(v)
            },
            PktLine::Delim => {
                let v: Vec<u8> = vec![48u8, 48u8, 48u8, 49u8];
                assert(v@ =~= spec_encode(self@));
                Ok(v)
            },
            PktLine::ResponseEnd => {
                let v: Vec<u8> = vec![48u8, 48u8, 48u8, 50u8];
                assert(v@ =~= spec_encode(self@));
                Ok(v)
            },
        }
    }
}

/// Whether a pkt-line value can be written.
pub open spec fn view_wf(p: PktView) -> bool {
    match p {
        PktView::Data(d) => d.len() <= MAX_PKT_LINE_LEN,
        _ => true,
    }
}

proof fn lemma_hex_digit_value(v: nat)
    requires
        v < 16,
    ensures
        hex_value(hex_digit(v)) == Some(v),
{
}

proof fn lemma_parse_hex4(n: nat)
    requires
        n < 65536,
    ensures
        parse_hex4(hex4(n)) == Some(n),
{
    let a = (n / 4096) % 16;
    let b = (n / 256) % 16;
    let c = (n / 16) % 16;
    let d = n % 16;
    lemma_hex_digit_value(a);
    lemma_hex_digit_value(b);
    lemma_hex_digit_value(c);
    lemma_hex_digit_value(d);
    let m = n as u32;
    assert(m < 65536 ==> (m / 4096) % 16 * 4096 + (m / 256) % 16 * 256 + (m / 16) % 16 * 16 + m
        % 16 == m) by (bit_vector);
}

/// Reading back what a pkt-line writes gives that pkt-line and consumes
/// exactly its bytes, whatever follows it on the wire.
pub proof fn lemma_decode_encode(p: PktView, rest: Seq<u8>)
    requires
        view_wf(p),
    ensures
        spec_decode(spec_encode(p) + rest) == Ok::<(PktView, int), PktLineError>(
            (p, spec_encode(p).len() as int),
        ),
{
    reveal(spec_decode);
    let buf = spec_encode(p) + rest;
    let h: [u8; 4] = [buf[0], buf[1], buf[2], buf[3]];
    assert(h@ =~= buf.take(4));
    match p {
        PktView::Data(d) => {
            let n = d.len() + 4;
            lemma_parse_hex4(n);
            assert(buf.take(4) =~= hex4(n));
            assert(buf.subrange(4, n as int) =~= d);
        },
        _ => {
            assert(buf.take(4) =~= spec_encode(p));
        },
    }
}

/// What reading pkt-lines up to the next flush yields: the lines before it
/// and the number of bytes taken, flush included.
pub open spec fn spec_decode_until_flush(buf: Seq<u8>) -> Result<(Seq<PktView>, int), PktLineError>
    decreases buf.len(),
{
    match spec_decode(buf) {
        Err(e) => Err(e),
        Ok((PktView::Flush, n)) => Ok((Seq::empty(), n)),
        Ok((p, n)) => if 4 <= n <= buf.len() {
            match spec_decode_until_flush(buf.skip(n)) {
                Err(e) => Err(e),
                Ok((ps, m)) => Ok((seq![p] + ps, n + m)),
            }
        } else {
            Err(PktLineError::InvalidLength { len: 0 })
        },
    }
}

proof fn lemma_decode_consumes(buf: Seq<u8>)
    ensures
        spec_decode(buf) matches Ok((p, n)) ==> 0 <= n <= buf.len() && (p != PktView::Flush ==> 4
            <= n),
{
    reveal(spec_decode);
}

/// Read pkt-lines up to the next flush; returns the lines before it and the
/// number of bytes taken, flush included.
pub fn decode_until_flush(buf: &[u8]) -> (r: Result<(Vec<PktLine>, usize), PktLineError>)
    ensures
        r matches Ok((ps, n)) ==> spec_decode_until_flush(buf@) == Ok::<(Seq<PktView>, int), PktLineError>(
            (ps@.map_values(|p: PktLine| p@), n as int),
        ),
        r matches Err(e) ==> spec_decode_until_flush(buf@) == Err::<(Seq<PktView>, int), PktLineError>(e),
{
    let mut lines: Vec<PktLine> = Vec::new();
    let mut pos: usize = 0;
    proof {
        assert(buf@.skip(0) =~= buf@);
        match spec_decode_until_flush(buf@) {
            Err(e) => {},
            Ok((ps, m)) => {
                assert(lines@.map_values(|p: PktLine| p@) + ps =~= ps);
            },
        }
    }
    loop
        invariant
            pos <= buf@.len(),
            spec_decode_until_flush(buf@) == match spec_decode_until_flush(buf@.skip(pos as int)) {
                Err(e) => Err(e),
                Ok((ps, m)) => Ok::<(Seq<PktView>, int), PktLineError>(
                    (lines@.map_values(|p: PktLine| p@) + ps, pos + m),
                ),
            },
        decreases buf@.len() - pos,
    {
        let rest = vstd::slice::slice_subrange(buf, pos, buf.len());
        assert(rest@ =~= buf@.skip(pos as int));
        proof {
            lemma_decode_consumes(rest@);
        }
        match decode(rest) {
            Err(e) => {
                return Err(e);
            },
            Ok((PktLine::Flush, n)) => {
                assert(lines@.map_values(|p: PktLine| p@) + Seq::<PktView>::empty() =~= lines@.map_values(
                    |p: PktLine| p@,
                ));
                return Ok((lines, pos + n));
            },
            Ok((p, n)) => {
                assert(p@ != PktView::Flush);
                let ghost old_lines = lines@.map_values(|q: PktLine| q@);
                let ghost pv = p@;
                proof {
                    assert(rest@.skip(n as int) =~= buf@.skip(pos + n));
                }
                lines.push(p);
                assert(lines@.map_values(|q: PktLine| q@) =~= old_lines.push(pv));
                proof {
                    match spec_decode_until_flush(buf@.skip(pos + n)) {
                        Err(e) => {},
                        Ok((ps, m)) => {
                            assert(old_lines + (seq![pv] + ps) =~= old_lines.push(pv) + ps);
                        },
                    }
                }
                pos = pos + n;
            },
        }
    }
}

impl PktLine {
    /// The text of a line, as reading a text line gives it: `None` at a flush
    /// or response-end, the empty string at a delimiter, and the decoded
    /// payload of a data line.
    pub fn text_line(&self) -> (r: Result<Option<String>, PktLineError>)
        ensures
            match self@ {
                PktView::Flush | PktView::ResponseEnd => r matches Ok(None),
                PktView::Delim => r matches Ok(Some(s)) && s@ == Seq::<char>::empty(),
                PktView::Data(d) => if valid_utf8(d) {
                    r matches Ok(Some(s)) && s@ == decode_utf8(d)
                } else {
                    r matches Err(PktLineError::InvalidUtf8)
                },
            },
    {
        match self {
            PktLine::Flush => Ok(None),
            PktLine::ResponseEnd => Ok(None),
            PktLine::Delim => Ok(Some(String::new())),
            PktLine::Data(d) => match decode_strict(d.clone()) {
                Some(s) => Ok(Some(s)),
                None => Err(PktLineError::InvalidUtf8),
            },
        }
    }

    /// A short human-readable description: `Flush`, `Delim`, `ResponseEnd`,
    /// `Data(<text>)` for UTF-8 payloads (trailing whitespace removed), and
    /// `Data(<n> bytes)` otherwise.
    pub fn describe(&self) -> (s: String)
        ensures
            s@ == spec_describe(self@),
    {
        match self {
            PktLine::Flush => String::from_str("Flush"),
            PktLine::Delim => String::from_str("Delim"),
            PktLine::ResponseEnd => String::from_str("ResponseEnd"),
            PktLine::Data(d) => {
                let mut out = chars_of("Data(");
                match decode_strict(d.clone()) {
                    Some(text) => {
                        let t = trim_end(string_chars(&text).as_slice());
                        append_chars(&mut out, t.as_slice());
                        append_chars(&mut out, chars_of(")").as_slice());
                    },
                    None => {
                        let digits = decimal_chars(d.len() as u64);
                        append_chars(&mut out, digits.as_slice());
                        append_chars(&mut out, chars_of(" bytes)").as_slice());
                    },
                }
                string_of(out.as_slice())
            },
        }
    }
}

/// The description of a pkt-line.
pub open spec fn spec_describe(p: PktView) -> Seq<char> {
    match p {
        PktView::Flush => "Flush"@,
        PktView::Delim => "Delim"@,
        PktView::ResponseEnd => "ResponseEnd"@,
        PktView::Data(d) => if valid_utf8(d) {
            "Data("@ + spec_trim_end(decode_utf8(d)) + ")"@
        } else {
            "Data("@ + spec_decimal(d.len()) + " bytes)"@
        },
    }
}

/// The flush packet.
pub open spec fn flush_bytes() -> Seq<u8> {
    spec_encode(PktView::Flush)
}

/// Reading up to the next flush from a stream of written pkt-lines (none of
/// them a flush) followed by a flush gives back exactly those lines and
/// consumes exactly their bytes and the flush, whatever follows.
proof fn lemma_until_flush_step(buf: Seq<u8>, p: PktView, n: int)
    requires
        spec_decode(buf) == Ok::<(PktView, int), PktLineError>((p, n)),
        p != PktView::Flush,
        4 <= n <= buf.len(),
    ensures
        spec_decode_until_flush(buf) == match spec_decode_until_flush(buf.skip(n)) {
            Err(e) => Err(e),
            Ok((ps, m)) => Ok::<(Seq<PktView>, int), PktLineError>((seq![p] + ps, n + m)),
        },
{
}

proof fn lemma_encode_len(p: PktView)
    ensures
        spec_encode(p).len() >= 4,
{
}

/// Reading up to the next flush from a stream of written pkt-lines (none of
/// them a flush) followed by a flush gives back exactly those lines and
/// consumes exactly their bytes and the flush, whatever follows.
pub proof fn lemma_decode_until_flush_encode_all(ps: Seq<PktView>, rest: Seq<u8>)
    requires
        forall|i: int| 0 <= i < ps.len() ==> view_wf(#[trigger] ps[i]) && ps[i] != PktView::Flush,
    ensures
        spec_decode_until_flush(spec_encode_all(ps) + flush_bytes() + rest) == Ok::<(Seq<PktView>, int), PktLineError>(
            (ps, spec_encode_all(ps).len() + 4int),
        ),
    decreases ps.len(),
{
    let buf = spec_encode_all(ps) + flush_bytes() + rest;
    if ps.len() == 0 {
        assert(buf =~= flush_bytes() + rest);
        lemma_decode_encode(PktView::Flush, rest);
        assert(ps =~= Seq::<PktView>::empty());
    } else {
        let p = ps[0];
        let tail = ps.drop_first();
        let after = spec_encode_all(tail) + flush_bytes() + rest;
        assert(buf =~= spec_encode(p) + after);
        lemma_decode_encode(p, after);
        lemma_encode_len(p);
        let n = spec_encode(p).len() as int;
        assert(buf.skip(n) =~= after);
        assert forall|i: int| 0 <= i < tail.len() implies view_wf(#[trigger] tail[i]) && tail[i]
            != PktView::Flush by {
            assert(tail[i] == ps[i + 1]);
        }
        lemma_decode_until_flush_encode_all(tail, rest);
        lemma_until_flush_step(buf, p, n);
        assert(seq![p] + tail =~= ps);
    }
}

/// The bytes that put a sequence of pkt-lines on the wire.
pub fn encode_all(ps: &[PktLine]) -> (r: Result<Vec<u8>, PktLineError>)
    ensures
        (forall|i: int| 0 <= i < ps@.len() ==> #[trigger] ps@[i].wf()) ==> (r matches Ok(b)
            && b@ == spec_encode_all(ps@.map_values(|p: PktLine| p@))),
        r is Err ==> exists|i: int| 0 <= i < ps@.len() && !(#[trigger] ps@[i].wf()),
        r is Ok ==> forall|i: int| 0 <= i < ps@.len() ==> #[trigger] ps@[i].wf(),
{
    let mut out: Vec<u8> = Vec::new();
    let mut i: usize = 0;
    proof {
        let views = ps@.map_values(|p: PktLine| p@);
        assert(views.skip(0) =~= views);
        assert(out@ + spec_encode_all(views) =~= spec_encode_all(views));
    }
    while i < ps.len()
        invariant
            i <= ps@.len(),
            forall|k: int| 0 <= k < i ==> #[trigger] ps@[k].wf(),
            spec_encode_all(ps@.map_values(|p: PktLine| p@)) == out@ + spec_encode_all(
                ps@.map_values(|p: PktLine| p@).skip(i as int),
            ),
        decreases ps@.len() - i,
    {
        let ghost views = ps@.map_values(|p: PktLine| p@);
        match ps[i].encode() {
            Err(e) => {
                return Err(e);
            },
            Ok(b) => {
                proof {
                    let t = views.skip(i as int);
                    assert(t.drop_first() =~= views.skip(i + 1));
                    assert(t[0] == ps@[i as int]@);
                }
                let ghost old_out = out@;
                append_bytes(&mut out, b.as_slice());
                assert(old_out + (b@ + spec_encode_all(views.skip(i + 1))) =~= out@ + spec_encode_all(views.skip(i + 1)));
                i = i + 1;
            },
        }
    }
    proof {
        let views = ps@.map_values(|p: PktLine| p@);
        assert(views.skip(ps@.len() as int) =~= Seq::<PktView>::empty());
        assert(out@ + Seq::<u8>::empty() =~= out@);
    }
    Ok(out)
}

} // verus!

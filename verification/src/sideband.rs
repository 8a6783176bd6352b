//! Git sideband-64k multiplexing.
//!
//! Each data pkt-line of a sideband stream starts with one band byte:
//! band 1 carries packfile data, band 2 progress messages and band 3 fatal
//! error messages.

use vstd::prelude::*;
use crate::pkt_line::{hex4, spec_encode, spec_encode_all, MAX_PKT_LINE_LEN, PktLine, PktView};
use crate::text::append_bytes;
use vstd::utf8::encode_utf8;

verus! {

/// Maximum sideband data size per pkt-line: the pkt-line limit less the band
/// byte.
pub const SIDEBAND_MAX: usize = 65515;

/// Band of packfile data.
pub const BAND_DATA: u8 = 1;

/// Band of progress messages.
pub const BAND_PROGRESS: u8 = 2;

/// Band of fatal error messages.
pub const BAND_ERROR: u8 = 3;

/// The payloads of the band-1 frames that carry `data`: consecutive chunks
/// of at most `SIDEBAND_MAX` bytes, each behind the band byte.
pub open spec fn spec_data_frames(data: Seq<u8>) -> Seq<Seq<u8>>
    decreases data.len(),
{
    if data.len() == 0 {
        Seq::empty()
    } else if data.len() <= SIDEBAND_MAX {
        seq![seq![BAND_DATA] + data]
    } else {
        seq![seq![BAND_DATA] + data.take(SIDEBAND_MAX as int)] + spec_data_frames(
            data.skip(SIDEBAND_MAX as int),
        )
    }
}

/// The data pkt-lines with the given payloads.
pub open spec fn data_lines(payloads: Seq<Seq<u8>>) -> Seq<PktView> {
    payloads.map_values(|d: Seq<u8>| PktView::Data(d))
}

/// The frames that carry `data` on band 1 (what `write_sideband_data` writes
/// before flushing the writer).
pub fn data_frames(data: &[u8]) -> (frames: Vec<PktLine>)
    ensures
        frames@.map_values(|p: PktLine| p@) == data_lines(spec_data_frames(data@)),
{
    let mut frames: Vec<PktLine> = Vec::new();
    let mut pos: usize = 0;
    proof {
        assert(data@.skip(0) =~= data@);
        assert(frames@.map_values(|p: PktLine| p@) + data_lines(spec_data_frames(data@))
            =~= data_lines(spec_data_frames(data@)));
    }
    while pos < data.len()
        invariant
            pos <= data@.len(),
            data_lines(spec_data_frames(data@)) == frames@.map_values(|p: PktLine| p@)
                + data_lines(spec_data_frames(data@.skip(pos as int))),
        decreases data@.len() - pos,
    {
        let rest_len = data.len() - pos;
        let take = if rest_len < SIDEBAND_MAX {
            rest_len
        } else {
            SIDEBAND_MAX
        };
        let mut payload: Vec<u8> = Vec::new();
        payload.push(BAND_DATA);
        let chunk = vstd::slice::slice_subrange(data, pos, pos + take);
        append_bytes(&mut payload, chunk);
        let ghost rest = data@.skip(pos as int);
        let ghost before = frames@.map_values(|p: PktLine| p@);
        proof {
            assert(chunk@ =~= rest.take(take as int));
            assert(rest.skip(take as int) =~= data@.skip(pos + take));
            if rest.len() <= SIDEBAND_MAX {
                assert(rest.take(take as int) =~= rest);
                assert(data@.skip(pos + take) =~= Seq::<u8>::empty());
            }
        }
        frames.push(PktLine::Data(payload));
        proof {
            let head = seq![BAND_DATA] + rest.take(take as int);
            assert(frames@.map_values(|p: PktLine| p@) =~= before.push(PktView::Data(head)));
            assert(data_lines(spec_data_frames(rest)) =~= seq![PktView::Data(head)] + data_lines(
                spec_data_frames(data@.skip(pos + take)),
            ));
            assert(before + data_lines(spec_data_frames(rest)) =~= before.push(PktView::Data(head))
                + data_lines(spec_data_frames(data@.skip(pos + take))));
        }
        pos = pos + take;
    }
    proof {
        assert(data@.skip(pos as int) =~= Seq::<u8>::empty());
        assert(frames@.map_values(|p: PktLine| p@) + data_lines(Seq::<Seq<u8>>::empty())
            =~= frames@.map_values(|p: PktLine| p@));
    }
    frames
}

/// The frame that carries `message` on a band.
pub fn message_frame(band: u8, message: &str) -> (frame: PktLine)
    ensures
        frame@ == PktView::Data(seq![band] + encode_utf8(message@)),
{
    let mut payload: Vec<u8> = Vec::new();
    payload.push(band);
    append_bytes(&mut payload, message.as_bytes());
    PktLine::Data(payload)
}

/// The band-2 frame of a progress message.
pub fn progress_frame(message: &str) -> (frame: PktLine)
    ensures
        frame@ == PktView::Data(seq![BAND_PROGRESS] + encode_utf8(message@)),
{
    message_frame(BAND_PROGRESS, message)
}

/// The band-3 frame of a fatal error message.
pub fn error_frame(message: &str) -> (frame: PktLine)
    ensures
        frame@ == PktView::Data(seq![BAND_ERROR] + encode_utf8(message@)),
{
    message_frame(BAND_ERROR, message)
}

/// The concatenation of a sequence of byte sequences.
pub open spec fn flatten_bytes(s: Seq<Seq<u8>>) -> Seq<u8>
    decreases s.len(),
{
    if s.len() == 0 {
        Seq::empty()
    } else {
        s[0] + flatten_bytes(s.drop_first())
    }
}

/// The frames of `data` are well-formed band-1 pkt-lines that never exceed
/// the pkt-line limit, and with their band bytes removed they concatenate to
/// exactly `data`.
pub proof fn lemma_data_frames_reassemble(data: Seq<u8>)
    ensures
        forall|i: int|
            0 <= i < spec_data_frames(data).len() ==> {
                let f = #[trigger] spec_data_frames(data)[i];
                &&& 2 <= f.len() <= MAX_PKT_LINE_LEN
                &&& f[0] == BAND_DATA
            },
        flatten_bytes(spec_data_frames(data).map_values(|f: Seq<u8>| f.drop_first())) == data,
    decreases data.len(),
{
    let frames = spec_data_frames(data);
    if data.len() == 0 {
        assert(frames.map_values(|f: Seq<u8>| f.drop_first()) =~= Seq::<Seq<u8>>::empty());
    } else if data.len() <= SIDEBAND_MAX {
        let f = seq![BAND_DATA] + data;
        assert(f.drop_first() =~= data);
        let m = frames.map_values(|f: Seq<u8>| f.drop_first());
        assert(m.drop_first() =~= Seq::<Seq<u8>>::empty());
        assert(flatten_bytes(m.drop_first()) == Seq::<u8>::empty());
        assert(m[0] == data);
        assert(data + Seq::<u8>::empty() =~= data);
    } else {
        let rest = data.skip(SIDEBAND_MAX as int);
        lemma_data_frames_reassemble(rest);
        let f = seq![BAND_DATA] + data.take(SIDEBAND_MAX as int);
        assert(f.drop_first() =~= data.take(SIDEBAND_MAX as int));
        let m = frames.map_values(|f: Seq<u8>| f.drop_first());
        assert(m.drop_first() =~= spec_data_frames(rest).map_values(|f: Seq<u8>| f.drop_first()));
        assert(m[0] == data.take(SIDEBAND_MAX as int));
        assert(flatten_bytes(m) == m[0] + flatten_bytes(m.drop_first()));
        assert(data.take(SIDEBAND_MAX as int) + rest =~= data);
        assert forall|i: int| 0 <= i < frames.len() implies {
            let g = #[trigger] frames[i];
            &&& 2 <= g.len() <= MAX_PKT_LINE_LEN
            &&& g[0] == BAND_DATA
        } by {
            if i > 0 {
                assert(frames[i] == spec_data_frames(rest)[i - 1]);
            }
        }
    }
}

/// The bytes that carry `data` on band 1: each consecutive chunk of at most
/// `SIDEBAND_MAX` bytes as a pkt-line whose length (the chunk's, plus the
/// four length digits and the band byte) is written in four hexadecimal
/// digits, then the band byte, then the chunk; nothing for empty data.
pub open spec fn spec_sideband_bytes(data: Seq<u8>) -> Seq<u8>
    decreases data.len(),
{
    if data.len() == 0 {
        Seq::empty()
    } else {
        let n: int = if data.len() < SIDEBAND_MAX { data.len() as int } else { SIDEBAND_MAX as int };
        hex4((n + 5) as nat) + seq![BAND_DATA] + data.take(n) + spec_sideband_bytes(data.skip(n))
    }
}

/// The band-1 frames of `data`, encoded one after the other, are the chunked
/// bytes of `spec_sideband_bytes`.
pub proof fn lemma_sideband_bytes(data: Seq<u8>)
    ensures
        spec_encode_all(data_lines(spec_data_frames(data))) == spec_sideband_bytes(data),
    decreases data.len(),
{
    let frames = spec_data_frames(data);
    let dl = data_lines(frames);
    if data.len() == 0 {
        assert(dl =~= Seq::<PktView>::empty());
    } else {
        let n: int = if data.len() < SIDEBAND_MAX { data.len() as int } else { SIDEBAND_MAX as int };
        let rest = data.skip(n);
        let f = seq![BAND_DATA] + data.take(n);
        if data.len() <= SIDEBAND_MAX {
            assert(data.take(n) =~= data);
            assert(rest =~= Seq::<u8>::empty());
            assert(frames =~= seq![f]);
        } else {
            assert(frames =~= seq![f] + spec_data_frames(rest));
        }
        lemma_sideband_bytes(rest);
        assert(dl[0] == PktView::Data(f));
        assert(dl.drop_first() =~= data_lines(spec_data_frames(rest)));
        assert(spec_encode_all(dl) == spec_encode(dl[0]) + spec_encode_all(dl.drop_first()));
        assert(f.len() + 4 == n + 5);
        assert(spec_encode(dl[0]) =~= hex4((n + 5) as nat) + seq![BAND_DATA] + data.take(n));
        assert(spec_encode_all(dl) =~= hex4((n + 5) as nat) + seq![BAND_DATA] + data.take(n) + spec_sideband_bytes(rest));
    }
}

} // verus!

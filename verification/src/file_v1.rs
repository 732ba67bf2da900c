//! The first version of the recording format.
//!
//! A version-1 recording starts with `STOLAS`, the version (two bytes, 1) and
//! the header: its length (four bytes) and the header itself, JSON text.
//! Frames follow back to back, each encoded as [`frame_bytes`] gives it, with
//! no chunk framing. A frame that the data cuts short ends the recording.
//! All integers are big-endian.
use vstd::prelude::*;
use vstd::slice::slice_to_vec;

use crate::codec::{
    be_u16, be_u32, lemma_u16_roundtrip, lemma_u32_roundtrip, read_be_u16, read_be_u32, u16_from_be,
    u32_from_be,
};
use crate::file::{signature, PreambleModel, ReadError};
use crate::frame::{decode_frame, frame_bytes, lemma_frame_roundtrip, Frame, FrameModel};

verus! {

/// The version of this format.
pub const VERSION_1: u16 = 1;

/// Reading the preamble of a version-1 recording. The eight bytes of
/// signature and version are read as one piece, so data shorter than that is
/// truncated whatever it holds.
pub open spec fn v1_preamble_model(s: Seq<u8>) -> PreambleModel {
    if s.len() < 8 {
        PreambleModel::Truncated
    } else if s.subrange(0, 6) != signature() {
        PreambleModel::BadSignature
    } else if u16_from_be(s.subrange(6, 8)) != VERSION_1 {
        PreambleModel::BadVersion(u16_from_be(s.subrange(6, 8)))
    } else if s.len() < 12 {
        PreambleModel::Truncated
    } else {
        let size = u32_from_be(s.subrange(8, 12)) as int;
        if s.len() < 12 + size {
            PreambleModel::Truncated
        } else {
            PreambleModel::Header(s.subrange(12, 12 + size), 12 + size)
        }
    }
}

/// `i` moved on by `k`, where there is one.
pub open spec fn shift_index(i: Option<nat>, k: nat) -> Option<nat> {
    match i {
        Some(j) => Some(j + k),
        None => None,
    }
}

/// The frames of a version-1 recording body `s`, read while they have
/// `window_size` bins, and where reading stopped: `None` where the data ran
/// out (a frame cut short ends it), `Some(k)` where frame `k` has another
/// number of bins.
pub open spec fn v1_frames_model(s: Seq<u8>, window_size: nat) -> (Seq<FrameModel>, Option<nat>)
    decreases s.len(),
{
    match decode_frame(s) {
        None => (seq![], None),
        Some((f, len)) => if f.bins.len() != window_size {
            (seq![], Some(0))
        } else {
            let rest = v1_frames_model(s.skip(len), window_size);
            (seq![f] + rest.0, shift_index(rest.1, 1))
        },
    }
}

/// The encodings of `frames`, one after the other.
pub open spec fn frames_bytes(frames: Seq<FrameModel>) -> Seq<u8>
    decreases frames.len(),
{
    if frames.len() == 0 {
        seq![]
    } else {
        frame_bytes(frames[0]) + frames_bytes(frames.drop_first())
    }
}

/// A frame with `window_size` bins at the front of a body is read, and
/// reading goes on after it; an empty body holds no frames and ends
/// reading.
pub proof fn lemma_v1_frame_then_rest(f: FrameModel, rest: Seq<u8>, window_size: nat)
    requires
        f.bins.len() == window_size,
        window_size <= u32::MAX,
    ensures
        v1_frames_model(frame_bytes(f) + rest, window_size) == (
            seq![f] + v1_frames_model(rest, window_size).0,
            shift_index(v1_frames_model(rest, window_size).1, 1),
        ),
        v1_frames_model(Seq::<u8>::empty(), window_size) == (Seq::<FrameModel>::empty(), None::<nat>),
{
    lemma_frame_roundtrip(f, rest);
    let s = frame_bytes(f) + rest;
    assert(s.skip(frame_bytes(f).len() as int) =~= rest);
}

/// A body that is exactly the encodings of frames with `window_size` bins
/// reads back as all of those frames, in order, and reading ends at the end
/// of the data.
pub proof fn lemma_v1_frames_read_back(frames: Seq<FrameModel>, window_size: nat)
    requires
        window_size <= u32::MAX,
        forall|i: int| 0 <= i < frames.len() ==> #[trigger] frames[i].bins.len() == window_size,
    ensures
        v1_frames_model(frames_bytes(frames), window_size) == (frames, None::<nat>),
    decreases frames.len(),
{
    if frames.len() == 0 {
        lemma_v1_frame_then_rest(
            FrameModel { serial: 0, timestamp: 0, bins: Seq::new(window_size, |i: int| 0u32) },
            seq![],
            window_size,
        );
        assert(frames_bytes(frames) =~= Seq::<u8>::empty());
        assert(frames =~= Seq::<FrameModel>::empty());
    } else {
        let tail = frames.drop_first();
        assert forall|i: int| 0 <= i < tail.len() implies #[trigger] tail[i].bins.len()
            == window_size by {
            assert(tail[i] == frames[i + 1]);
        }
        lemma_v1_frames_read_back(tail, window_size);
        assert(frames[0].bins.len() == window_size);
        lemma_v1_frame_then_rest(frames[0], frames_bytes(tail), window_size);
        assert(seq![frames[0]] + tail =~= frames);
    }
}

/// A version-1 recording opens: after `STOLAS`, the version 1 and the
/// header's length, the header is read back and the frames start right
/// after it, whatever follows.
pub proof fn lemma_v1_preamble_roundtrip(header: Seq<u8>, rest: Seq<u8>)
    requires
        header.len() <= u32::MAX,
    ensures
        v1_preamble_model(
            seq![0x53u8, 0x54u8, 0x4fu8, 0x4cu8, 0x41u8, 0x53u8, 0x00u8, 0x01u8] + be_u32(
                header.len() as u32,
            ) + header + rest,
        ) == PreambleModel::Header(header, 12 + header.len() as int),
{
    let s = seq![0x53u8, 0x54u8, 0x4fu8, 0x4cu8, 0x41u8, 0x53u8, 0x00u8, 0x01u8] + be_u32(
        header.len() as u32,
    ) + header + rest;
    lemma_u16_roundtrip(1);
    lemma_u32_roundtrip(header.len() as u32);
    assert(s.subrange(0, 6) =~= signature());
    let one: u16 = 1;
    assert((one >> 8u16) as u8 == 0u8 && one as u8 == 1u8) by (bit_vector)
        requires
            one == 1,
    ;
    assert(s.subrange(6, 8) =~= be_u16(1));
    assert(s.subrange(8, 12) =~= be_u32(header.len() as u32));
    assert(s.subrange(12, 12 + header.len() as int) =~= header);
}

/// A recording of another format version is refused with that version.
pub proof fn lemma_v1_other_version_refused(version: u16, rest: Seq<u8>)
    requires
        version != 1,
    ensures
        v1_preamble_model(
            seq![0x53u8, 0x54u8, 0x4fu8, 0x4cu8, 0x41u8, 0x53u8] + be_u16(version) + rest,
        ) == PreambleModel::BadVersion(version),
{
    let s = seq![0x53u8, 0x54u8, 0x4fu8, 0x4cu8, 0x41u8, 0x53u8] + be_u16(version) + rest;
    lemma_u16_roundtrip(version);
    assert(s.subrange(0, 6) =~= signature());
    assert(s.subrange(6, 8) =~= be_u16(version));
}

/// Reads and checks the preamble of a version-1 recording. Returns the
/// header (JSON text) and the offset of the first frame.
pub fn read_v1_preamble(data: &[u8]) -> (r: Result<(Vec<u8>, usize), ReadError>)
    ensures
        match v1_preamble_model(data@) {
            PreambleModel::Truncated => r == Err::<(Vec<u8>, usize), ReadError>(
                ReadError::UnexpectedEof,
            ),
            PreambleModel::BadSignature => r matches Err(ReadError::InvalidSignature { invalid })
                && invalid@ == data@.subrange(0, 6),
            PreambleModel::BadVersion(v) => r == Err::<(Vec<u8>, usize), ReadError>(
                ReadError::UnsupportedVersion { version: v },
            ),
            PreambleModel::Header(h, start) => r matches Ok((header, body_start)) && header@ == h
                && body_start == start,
        },
{
    if data.len() < 8 {
        return Err(ReadError::UnexpectedEof);
    }
    let sig = [data[0], data[1], data[2], data[3], data[4], data[5]];
    assert(sig@ =~= data@.subrange(0, 6));
    if !(sig[0] == 0x53 && sig[1] == 0x54 && sig[2] == 0x4f && sig[3] == 0x4c && sig[4] == 0x41
        && sig[5] == 0x53) {
        assert(sig@ != signature());
        return Err(ReadError::InvalidSignature { invalid: sig });
    }
    assert(data@.subrange(0, 6) =~= signature());
    let version = read_be_u16(data, 6);
    if version != VERSION_1 {
        return Err(ReadError::UnsupportedVersion { version });
    }
    if data.len() < 12 {
        return Err(ReadError::UnexpectedEof);
    }
    let size = read_be_u32(data, 8) as usize;
    if data.len() - 12 < size {
        return Err(ReadError::UnexpectedEof);
    }
    let header = slice_to_vec(&data[12..12 + size]);
    Ok((header, 12 + size))
}

/// Reads the frames of a version-1 recording from `start` on, while they
/// have `window_size` bins. Returns the frames read and, where a frame with
/// another number of bins stopped the reading, its index; `None` where the
/// data ran out.
pub fn read_v1_frames(data: &[u8], start: usize, window_size: usize) -> (r: (
    Vec<Frame>,
    Option<usize>,
))
    requires
        start <= data@.len(),
    ensures
        r.0@.map_values(|f: Frame| f@) == v1_frames_model(
            data@.skip(start as int),
            window_size as nat,
        ).0,
        match r.1 {
            Some(k) => v1_frames_model(data@.skip(start as int), window_size as nat).1 == Some(
                k as nat,
            ),
            None => v1_frames_model(data@.skip(start as int), window_size as nat).1 is None,
        },
{
    let ghost ws = window_size as nat;
    let ghost whole = data@.skip(start as int);
    let mut frames: Vec<Frame> = Vec::new();
    let mut pos: usize = start;
    loop
        invariant
            start <= pos <= data@.len(),
            whole == data@.skip(start as int),
            ws == window_size as nat,
            v1_frames_model(whole, ws).0 == frames@.map_values(|f: Frame| f@) + v1_frames_model(
                data@.skip(pos as int),
                ws,
            ).0,
            v1_frames_model(whole, ws).1 == shift_index(
                v1_frames_model(data@.skip(pos as int), ws).1,
                frames@.len(),
            ),
        decreases data@.len() - pos,
    {
        let ghost s = data@.skip(pos as int);
        let ghost done = frames@.map_values(|f: Frame| f@);
        let rest = &data[pos..data.len()];
        assert(rest@ =~= s);
        match Frame::read(rest) {
            Err(_) => {
                assert(done + Seq::<FrameModel>::empty() =~= done);
                return (frames, None);
            },
            Ok((frame, len)) => {
                if frame.bins.len() != window_size {
                    assert(done + Seq::<FrameModel>::empty() =~= done);
                    let k = frames.len();
                    return (frames, Some(k));
                }
                let ghost f = frame@;
                proof {
                    assert(data@.skip(pos + len) =~= s.skip(len as int));
                }
                frames.push(frame);
                pos = pos + len;
                proof {
                    assert(frames@.map_values(|fr: Frame| fr@) =~= done.push(f));
                    let tail = v1_frames_model(data@.skip(pos as int), ws);
                    assert(v1_frames_model(s, ws).0 =~= seq![f] + tail.0);
                    assert(done + (seq![f] + tail.0) =~= done.push(f) + tail.0);
                }
            },
        }
    }
}

} // verus!

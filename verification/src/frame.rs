//! Spectrum frames and their binary encoding.
//!
//! A frame is encoded as its serial (8 bytes), its timestamp in nanoseconds
//! since the Unix epoch (8 bytes), the number of bins (4 bytes) and then each
//! bin (4 bytes), all big-endian. A bin is the IEEE-754 bit pattern of an
//! `f32` power value; this library carries it as that `u32` bit pattern.
use vstd::prelude::*;

use crate::codec::{
    be_u32, be_u64, lemma_i64_bits_roundtrip, lemma_u32_roundtrip, lemma_u64_roundtrip, push_be_i64,
    push_be_u32, push_be_u64, read_be_i64, read_be_u32, read_be_u64, u32_from_be, u64_from_be,
};
use crate::file::ReadError;

verus! {

/// One averaged spectrum.
#[derive(Clone, Debug)]
pub struct Frame {
    pub serial: u64,
    /// Nanoseconds since the Unix epoch (UTC).
    pub timestamp: i64,
    /// Power per frequency bin, as `f32` bit patterns (linear, arbitrary units).
    pub bins: Vec<u32>,
}

/// The mathematical value of a [`Frame`].
pub ghost struct FrameModel {
    pub serial: u64,
    pub timestamp: i64,
    pub bins: Seq<u32>,
}

impl View for Frame {
    type V = FrameModel;

    open spec fn view(&self) -> FrameModel {
        FrameModel { serial: self.serial, timestamp: self.timestamp, bins: self.bins@ }
    }
}

/// The bins, four big-endian bytes each, in order.
pub open spec fn bins_bytes(bins: Seq<u32>) -> Seq<u8>
    decreases bins.len(),
{
    if bins.len() == 0 {
        seq![]
    } else {
        bins_bytes(bins.drop_last()) + be_u32(bins.last())
    }
}

/// The encoding of a frame.
pub open spec fn frame_bytes(f: FrameModel) -> Seq<u8> {
    be_u64(f.serial) + be_u64(f.timestamp as u64) + be_u32(f.bins.len() as u32) + bins_bytes(f.bins)
}

/// Decoding a frame from the front of `s`: the frame and the number of bytes
/// it took, or `None` where `s` ends before the frame does.
pub open spec fn decode_frame(s: Seq<u8>) -> Option<(FrameModel, int)> {
    if s.len() < 20 {
        None
    } else {
        let n = u32_from_be(s.subrange(16, 20)) as int;
        if s.len() < 20 + 4 * n {
            None
        } else {
            Some(
                (
                    FrameModel {
                        serial: u64_from_be(s.subrange(0, 8)),
                        timestamp: u64_from_be(s.subrange(8, 16)) as i64,
                        bins: Seq::new(
                            n as nat,
                            |i: int| u32_from_be(s.subrange(20 + 4 * i, 24 + 4 * i)),
                        ),
                    },
                    20 + 4 * n,
                ),
            )
        }
    }
}

/// The bin encoding takes four bytes per bin, and bin `i` sits at bytes
/// `4 * i .. 4 * i + 4`.
pub proof fn lemma_bins_bytes(bins: Seq<u32>)
    ensures
        bins_bytes(bins).len() == 4 * bins.len(),
        forall|i: int|
            0 <= i < bins.len() ==> #[trigger] bins_bytes(bins).subrange(4 * i, 4 * i + 4)
                == be_u32(bins[i]),
    decreases bins.len(),
{
    if bins.len() > 0 {
        let init = bins.drop_last();
        lemma_bins_bytes(init);
        let b = bins_bytes(bins);
        assert(b == bins_bytes(init) + be_u32(bins.last()));
        assert forall|i: int| 0 <= i < bins.len() implies #[trigger] b.subrange(4 * i, 4 * i + 4)
            == be_u32(bins[i]) by {
            if i < init.len() {
                assert(b.subrange(4 * i, 4 * i + 4) =~= bins_bytes(init).subrange(4 * i, 4 * i + 4));
                assert(init[i] == bins[i]);
            } else {
                assert(b.subrange(4 * i, 4 * i + 4) =~= be_u32(bins.last()));
            }
        }
    }
}

/// What `Frame::write` writes, `Frame::read` reads back: decoding the
/// encoding of a frame, whatever follows it, gives the frame and the length
/// of its encoding.
pub proof fn lemma_frame_roundtrip(f: FrameModel, rest: Seq<u8>)
    requires
        f.bins.len() <= u32::MAX,
    ensures
        frame_bytes(f).len() == 20 + 4 * f.bins.len(),
        decode_frame(frame_bytes(f) + rest) == Some((f, frame_bytes(f).len() as int)),
{
    let s = frame_bytes(f) + rest;
    let n = f.bins.len();
    lemma_bins_bytes(f.bins);
    lemma_u64_roundtrip(f.serial);
    lemma_u64_roundtrip(f.timestamp as u64);
    lemma_i64_bits_roundtrip(f.timestamp);
    lemma_u32_roundtrip(n as u32);
    assert(s.subrange(0, 8) =~= be_u64(f.serial));
    assert(s.subrange(8, 16) =~= be_u64(f.timestamp as u64));
    assert(s.subrange(16, 20) =~= be_u32(n as u32));
    let bins = Seq::new(n, |i: int| u32_from_be(s.subrange(20 + 4 * i, 24 + 4 * i)));
    assert forall|i: int| 0 <= i < n implies bins[i] == f.bins[i] by {
        assert(s.subrange(20 + 4 * i, 24 + 4 * i) =~= bins_bytes(f.bins).subrange(4 * i, 4 * i + 4));
        lemma_u32_roundtrip(f.bins[i]);
    }
    assert(bins =~= f.bins);
}

impl Frame {
    /// Reads a frame from the front of `buf`. Returns the frame and the number
    /// of bytes it took; fails with `UnexpectedEof` where `buf` ends before
    /// the frame does.
    pub fn read(buf: &[u8]) -> (r: Result<(Frame, usize), ReadError>)
        ensures
            match decode_frame(buf@) {
                None => r == Err::<(Frame, usize), ReadError>(ReadError::UnexpectedEof),
                Some((m, len)) => r matches Ok((f, n)) && f@ == m && n == len,
            },
    {
        if buf.len() < 20 {
            return Err(ReadError::UnexpectedEof);
        }
        let serial = read_be_u64(buf, 0);
        let timestamp = read_be_i64(buf, 8);
        let num_bins = read_be_u32(buf, 16);
        let avail = (buf.len() - 20) / 4;
        assert(avail < num_bins <==> buf@.len() < 20 + 4 * num_bins) by (nonlinear_arith)
            requires
                avail == (buf@.len() - 20) / 4,
                buf@.len() >= 20,
        ;
        if avail < num_bins as usize {
            return Err(ReadError::UnexpectedEof);
        }
        let n = num_bins as usize;
        let ghost s = buf@;
        let mut bins: Vec<u32> = Vec::new();
        let mut i: usize = 0;
        while i < n
            invariant
                s == buf@,
                buf@.len() <= usize::MAX,
                i <= n,
                20 + 4 * n <= buf@.len(),
                bins@.len() == i,
                forall|j: int|
                    0 <= j < i ==> #[trigger] bins@[j] == u32_from_be(
                        s.subrange(20 + 4 * j, 24 + 4 * j),
                    ),
            decreases n - i,
        {
            let b = read_be_u32(buf, 20 + 4 * i);
            bins.push(b);
            i = i + 1;
        }
        let frame = Frame { serial, timestamp, bins };
        proof {
            let m = decode_frame(s).unwrap().0;
            assert(frame@.bins =~= m.bins);
        }
        Ok((frame, 20 + 4 * n))
    }

    /// Appends the encoding of this frame to `out`. The bin count must fit
    /// into 32 bits (beyond that the encoding panics).
    pub fn write(&self, out: &mut Vec<u8>)
        requires
            self.bins@.len() <= u32::MAX,
        ensures
            final(out)@ == old(out)@ + frame_bytes(self@),
    {
        push_be_u64(out, self.serial);
        push_be_i64(out, self.timestamp);
        push_be_u32(out, self.bins.len() as u32);
        let ghost start = out@;
        let mut i: usize = 0;
        while i < self.bins.len()
            invariant
                i <= self.bins@.len(),
                out@ == start + bins_bytes(self.bins@.subrange(0, i as int)),
            decreases self.bins@.len() - i,
        {
            let ghost before = out@;
            push_be_u32(out, self.bins[i]);
            proof {
                let sub = self.bins@.subrange(0, i + 1);
                assert(sub.drop_last() =~= self.bins@.subrange(0, i as int));
            }
            i = i + 1;
        }
        assert(self.bins@.subrange(0, self.bins@.len() as int) =~= self.bins@);
        assert(out@ =~= old(out)@ + frame_bytes(self@));
    }

    /// The number of bytes the bins take (four per bin), which must fit
    /// into 32 bits.
    pub fn byte_length(&self) -> (r: u32)
        requires
            self.bins@.len() * 4 <= u32::MAX,
        ensures
            r == self.bins@.len() * 4,
    {
        (self.bins.len() * 4) as u32
    }
}

} // verus!

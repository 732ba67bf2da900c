//! The recording file format.
//!
//! A recording starts with the signature `STOLAS`, a format version (two
//! bytes) and the header: its length (four bytes) followed by the header
//! itself, JSON text. Chunks follow: a tag byte, a length (four bytes) and a
//! body of that length. All integers are big-endian.
//!
//! The header and the bodies of configuration chunks are JSON text; this
//! module frames and checks those bytes and leaves their decoding to the
//! caller.
use vstd::prelude::*;
use vstd::slice::slice_to_vec;

use crate::codec::{
    be_u16, be_u32, be_u64, lemma_u16_roundtrip, lemma_u32_roundtrip, lemma_u64_roundtrip,
    push_be_u16, push_be_u32, push_be_u64, read_be_u16, read_be_u32, read_be_u64, u16_from_be,
    u32_from_be, u64_from_be,
};
use crate::frame::{decode_frame, frame_bytes, lemma_frame_roundtrip, Frame, FrameModel};

verus! {

/// Ways in which reading a recording fails.
#[derive(Clone, Copy, Debug, PartialEq, Eq)]
pub enum ReadError {
    /// The data ends before the item that was being read does.
    UnexpectedEof,
    /// The file does not start with `STOLAS`; these are its first six bytes.
    InvalidSignature { invalid: [u8; 6] },
    /// The file's format version is not the one this library reads.
    UnsupportedVersion { version: u16 },
}

/// The format version that this library reads and writes.
pub const VERSION: u16 = 2;

/// Tag of a chunk that holds a frame (`F`).
pub const CHUNK_FRAME: u8 = 0x46;

/// Tag of a chunk that holds an antenna configuration as JSON (`C`).
pub const CHUNK_CONFIG: u8 = 0x43;

/// Tag of a chunk that holds the number of frames that were dropped (`D`).
pub const CHUNK_DROPPED: u8 = 0x44;

/// The file signature, `STOLAS`.
pub open spec fn signature() -> Seq<u8> {
    seq![0x53u8, 0x54u8, 0x4fu8, 0x4cu8, 0x41u8, 0x53u8]
}

/// What the front of a file says, as far as this module checks it.
pub ghost enum PreambleModel {
    /// The data ends inside the preamble.
    Truncated,
    /// The first six bytes are not the signature.
    BadSignature,
    /// The version is not [`VERSION`]; this is the version found.
    BadVersion(u16),
    /// The header bytes, and the offset at which the chunks start.
    Header(Seq<u8>, int),
}

/// Reading the preamble of a file.
pub open spec fn preamble_model(s: Seq<u8>) -> PreambleModel {
    if s.len() < 6 {
        PreambleModel::Truncated
    } else if s.subrange(0, 6) != signature() {
        PreambleModel::BadSignature
    } else if s.len() < 8 {
        PreambleModel::Truncated
    } else if u16_from_be(s.subrange(6, 8)) != VERSION {
        PreambleModel::BadVersion(u16_from_be(s.subrange(6, 8)))
    } else if s.len() < 12 {
        PreambleModel::Truncated
    } else {
        let size = u32_from_be(s.subrange(8, 12)) as int;
        if s.len() < 12 + size {
            PreambleModel::Truncated
        } else {
            PreambleModel::Header(s.subrange(12, 12 + size), 12 + size)
        }
    }
}

/// The bytes that start a file whose header is `header`.
pub open spec fn preamble_bytes(header: Seq<u8>) -> Seq<u8> {
    signature() + be_u16(VERSION) + be_u32(header.len() as u32) + header
}

/// The start of a chunk: its tag and the length of its body.
pub open spec fn chunk_header_bytes(tag: u8, length: u32) -> Seq<u8> {
    seq![tag] + be_u32(length)
}

/// A frame chunk as the writer writes it. The length field holds the size of
/// the bins only, four bytes per bin.
pub open spec fn frame_chunk_bytes(f: FrameModel) -> Seq<u8> {
    chunk_header_bytes(CHUNK_FRAME, (4 * f.bins.len()) as u32) + frame_bytes(f)
}

/// A configuration chunk holding `config` (JSON text).
pub open spec fn config_chunk_bytes(config: Seq<u8>) -> Seq<u8> {
    chunk_header_bytes(CHUNK_CONFIG, config.len() as u32) + config
}

/// A chunk recording that `num_dropped` frames were dropped.
pub open spec fn dropped_chunk_bytes(num_dropped: u64) -> Seq<u8> {
    chunk_header_bytes(CHUNK_DROPPED, 8) + be_u64(num_dropped)
}

/// The front of a recording: its version and its header (JSON text).
#[derive(Clone, Debug)]
pub struct Preamble {
    pub version: u16,
    pub header: Vec<u8>,
    /// Offset of the first chunk.
    pub body_start: usize,
}

/// Reads and checks the preamble of a recording: the signature, the version
/// and the header.
pub fn read_preamble(data: &[u8]) -> (r: Result<Preamble, ReadError>)
    ensures
        match preamble_model(data@) {
            PreambleModel::Truncated => r == Err::<Preamble, ReadError>(ReadError::UnexpectedEof),
            PreambleModel::BadSignature => r matches Err(ReadError::InvalidSignature { invalid })
                && invalid@ == data@.subrange(0, 6),
            PreambleModel::BadVersion(v) => r == Err::<Preamble, ReadError>(
                ReadError::UnsupportedVersion { version: v },
            ),
            PreambleModel::Header(h, start) => r matches Ok(p) && p.version == VERSION
                && p.header@ == h && p.body_start == start,
        },
{
    if data.len() < 6 {
        return Err(ReadError::UnexpectedEof);
    }
    let sig = [data[0], data[1], data[2], data[3], data[4], data[5]];
    assert(sig@ =~= data@.subrange(0, 6));
    if !(sig[0] == 0x53 && sig[1] == 0x54 && sig[2] == 0x4f && sig[3] == 0x4c && sig[4] == 0x41
        && sig[5] == 0x53) {
        assert(sig@ != signature());
        return Err(ReadError::InvalidSignature { invalid: sig });
    }
    assert(data@.subrange(0, 6) =~= signature());
    if data.len() < 8 {
        return Err(ReadError::UnexpectedEof);
    }
    let version = read_be_u16(data, 6);
    if version != VERSION {
        return Err(ReadError::UnsupportedVersion { version });
    }
    if data.len() < 12 {
        return Err(ReadError::UnexpectedEof);
    }
    let size = read_be_u32(data, 8) as usize;
    if data.len() - 12 < size {
        return Err(ReadError::UnexpectedEof);
    }
    let header = slice_to_vec(&data[12..12 + size]);
    Ok(Preamble { version, header, body_start: 12 + size })
}

/// A chunk of a recording.
#[derive(Clone, Debug)]
pub enum Chunk {
    /// A frame; `invalid` when its bin count differs from the window size of
    /// the recording.
    Frame { frame: Frame, invalid: bool },
    /// An antenna configuration, as JSON text.
    Config { config: Vec<u8> },
    /// The number of frames that were dropped at this point.
    Dropped { num_dropped: u64 },
    /// A chunk with a tag that this library does not know.
    Unrecognized { tag: u8, length: u32 },
}

/// The mathematical value of a [`Chunk`].
pub ghost enum ChunkModel {
    Frame { frame: FrameModel, invalid: bool },
    Config { config: Seq<u8> },
    Dropped { num_dropped: u64 },
    Unrecognized { tag: u8, length: u32 },
}

impl View for Chunk {
    type V = ChunkModel;

    open spec fn view(&self) -> ChunkModel {
        match self {
            Chunk::Frame { frame, invalid } => ChunkModel::Frame { frame: frame@, invalid: *invalid },
            Chunk::Config { config } => ChunkModel::Config { config: config@ },
            Chunk::Dropped { num_dropped } => ChunkModel::Dropped { num_dropped: *num_dropped },
            Chunk::Unrecognized { tag, length } => ChunkModel::Unrecognized {
                tag: *tag,
                length: *length,
            },
        }
    }
}

/// The mathematical value of the outcome of reading a chunk.
pub open spec fn chunk_result_view(r: Result<Option<Chunk>, ReadError>) -> Result<
    Option<ChunkModel>,
    ReadError,
> {
    match r {
        Ok(Some(c)) => Ok(Some(c@)),
        Ok(None) => Ok(None),
        Err(e) => Err(e),
    }
}

/// Number of bytes of the body of the chunk at the front of `s` that are
/// present: the length field, cut short where the data ends.
pub open spec fn chunk_body_len(s: Seq<u8>) -> int {
    let length = u32_from_be(s.subrange(1, 5)) as int;
    if length < s.len() - 5 {
        length
    } else {
        s.len() - 5
    }
}

/// Number of bytes of the chunk at the front of `s` that are present: its
/// tag, length and body, or all of `s` where it ends inside the length.
pub open spec fn chunk_extent(s: Seq<u8>) -> int {
    if s.len() < 5 {
        s.len() as int
    } else {
        5 + chunk_body_len(s)
    }
}

/// Reading one chunk from the front of `s`, in a recording whose frames have
/// `window_size` bins: the outcome, and the number of bytes that the reader
/// moves past. Reading a chunk, whether it succeeds or fails, consumes what
/// is present of it (its [`chunk_extent`]); at the end of the data nothing
/// is consumed.
#[verifier::opaque]
pub open spec fn read_chunk_model(s: Seq<u8>, window_size: nat) -> (
    Result<Option<ChunkModel>, ReadError>,
    int,
) {
    if s.len() == 0 {
        (Ok(None), 0)
    } else if s.len() < 5 {
        (Err(ReadError::UnexpectedEof), s.len() as int)
    } else {
        let tag = s[0];
        let length = u32_from_be(s.subrange(1, 5));
        let end = 5 + chunk_body_len(s);
        let body = s.subrange(5, end);
        if tag == CHUNK_FRAME {
            match decode_frame(body) {
                None => (Err(ReadError::UnexpectedEof), end),
                Some((f, _)) => (
                    Ok(Some(ChunkModel::Frame { frame: f, invalid: f.bins.len() != window_size })),
                    end,
                ),
            }
        } else if tag == CHUNK_CONFIG {
            (Ok(Some(ChunkModel::Config { config: body })), end)
        } else if tag == CHUNK_DROPPED {
            if body.len() < 8 {
                (Err(ReadError::UnexpectedEof), end)
            } else {
                (Ok(Some(ChunkModel::Dropped { num_dropped: u64_from_be(body.subrange(0, 8)) })), end)
            }
        } else {
            (Ok(Some(ChunkModel::Unrecognized { tag, length })), end)
        }
    }
}

/// Reading a chunk consumes what is present of it: at least its tag and
/// length where it is read, something where it fails, and nothing at the
/// end of the data.
pub proof fn lemma_read_chunk_progress(s: Seq<u8>, window_size: nat)
    ensures
        read_chunk_model(s, window_size).1 == (if s.len() == 0 {
            0
        } else {
            chunk_extent(s)
        }),
        read_chunk_model(s, window_size).0 matches Ok(Some(_)) ==> 5 <= read_chunk_model(
            s,
            window_size,
        ).1 <= s.len(),
        read_chunk_model(s, window_size).0 matches Err(_) ==> 0 < read_chunk_model(
            s,
            window_size,
        ).1 <= s.len(),
        read_chunk_model(s, window_size).0 matches Ok(None) ==> read_chunk_model(
            s,
            window_size,
        ).1 == 0,
{
    reveal(read_chunk_model);
}

/// Reading frames from the front of `s`, skipping chunks that are not frames
/// and frames that are invalid: the outcome, and what remains of `s` after it.
#[verifier::opaque]
pub open spec fn next_frame_model(s: Seq<u8>, window_size: nat) -> (
    Result<Option<FrameModel>, ReadError>,
    Seq<u8>,
)
    decreases s.len(),
{
    let (res, used) = read_chunk_model(s, window_size);
    match res {
        Err(e) => (Err(e), s.skip(used)),
        Ok(None) => (Ok(None), s),
        Ok(Some(ChunkModel::Frame { frame, invalid: false })) => (Ok(Some(frame)), s.skip(used)),
        Ok(Some(_)) => if 0 < used <= s.len() {
            next_frame_model(s.skip(used), window_size)
        } else {
            (Ok(None), s)
        },
    }
}

/// A frame that was read moves the reader forward.
pub proof fn lemma_next_frame_progress(s: Seq<u8>, window_size: nat)
    ensures
        next_frame_model(s, window_size).1.len() <= s.len(),
        next_frame_model(s, window_size).0 matches Ok(Some(_)) ==> next_frame_model(
            s,
            window_size,
        ).1.len() < s.len(),
    decreases s.len(),
{
    reveal(next_frame_model);
    lemma_read_chunk_progress(s, window_size);
    let (res, used) = read_chunk_model(s, window_size);
    match res {
        Ok(Some(ChunkModel::Frame { frame, invalid: false })) => {},
        Ok(Some(_)) => {
            lemma_next_frame_progress(s.skip(used), window_size);
        },
        _ => {},
    }
}

/// All frames from the front of `s` on, as `read_frame` yields them until it
/// reports the end or an error; and how that ended.
pub open spec fn all_frames_model(s: Seq<u8>, window_size: nat) -> (
    Seq<FrameModel>,
    Result<(), ReadError>,
)
    decreases s.len(),
{
    let (res, rest) = next_frame_model(s, window_size);
    match res {
        Err(e) => (seq![], Err(e)),
        Ok(None) => (seq![], Ok(())),
        Ok(Some(f)) => if rest.len() < s.len() {
            let (more, end) = all_frames_model(rest, window_size);
            (seq![f] + more, end)
        } else {
            (seq![f], Ok(()))
        },
    }
}

/// What [`FileReader::read_frame_or_config`] stops at.
#[derive(Clone, Debug)]
pub enum FrameOrConfig {
    /// A valid frame.
    Frame(Frame),
    /// The body of a configuration chunk, JSON text.
    Config(Vec<u8>),
}

/// The mathematical value of a [`FrameOrConfig`].
pub ghost enum FrameOrConfigModel {
    Frame(FrameModel),
    Config(Seq<u8>),
}

impl View for FrameOrConfig {
    type V = FrameOrConfigModel;

    open spec fn view(&self) -> FrameOrConfigModel {
        match self {
            FrameOrConfig::Frame(f) => FrameOrConfigModel::Frame(f@),
            FrameOrConfig::Config(c) => FrameOrConfigModel::Config(c@),
        }
    }
}

/// Reading chunks from the front of `s` up to the next valid frame or
/// configuration chunk, skipping all others: the outcome, and what remains
/// of `s` after it.
#[verifier::opaque]
pub open spec fn next_frame_or_config_model(s: Seq<u8>, window_size: nat) -> (
    Result<Option<FrameOrConfigModel>, ReadError>,
    Seq<u8>,
)
    decreases s.len(),
{
    let (res, used) = read_chunk_model(s, window_size);
    match res {
        Err(e) => (Err(e), s.skip(used)),
        Ok(None) => (Ok(None), s),
        Ok(Some(ChunkModel::Frame { frame, invalid: false })) => (
            Ok(Some(FrameOrConfigModel::Frame(frame))),
            s.skip(used),
        ),
        Ok(Some(ChunkModel::Config { config })) => (
            Ok(Some(FrameOrConfigModel::Config(config))),
            s.skip(used),
        ),
        Ok(Some(_)) => if 0 < used <= s.len() {
            next_frame_or_config_model(s.skip(used), window_size)
        } else {
            (Ok(None), s)
        },
    }
}

/// The mathematical value of a [`FileReader`].
pub ghost struct FileReaderModel {
    /// The data that has not been read yet.
    pub remaining: Seq<u8>,
    pub version: u16,
    /// The header, JSON text.
    pub header: Seq<u8>,
    /// Number of bins that a valid frame has.
    pub window_size: nat,
}

/// Reads the chunks of a recording that is held in memory.
pub struct FileReader {
    data: Vec<u8>,
    pos: usize,
    version: u16,
    header: Vec<u8>,
    window_size: usize,
}

impl View for FileReader {
    type V = FileReaderModel;

    closed spec fn view(&self) -> FileReaderModel {
        FileReaderModel {
            remaining: self.data@.subrange(self.pos as int, self.data@.len() as int),
            version: self.version,
            header: self.header@,
            window_size: self.window_size as nat,
        }
    }
}

impl FileReader {
    #[verifier::type_invariant]
    closed spec fn inv(self) -> bool {
        self.pos <= self.data@.len()
    }

    /// Opens the recording held in `data`: checks its preamble and positions
    /// the reader at the first chunk. `window_size` is the window size that
    /// the header's processing configuration gives (see [`read_preamble`]);
    /// frames with another number of bins are marked invalid.
    pub fn open(data: Vec<u8>, window_size: usize) -> (r: Result<FileReader, ReadError>)
        ensures
            match preamble_model(data@) {
                PreambleModel::Truncated => r matches Err(ReadError::UnexpectedEof),
                PreambleModel::BadSignature => r matches Err(
                    ReadError::InvalidSignature { invalid },
                ) && invalid@ == data@.subrange(0, 6),
                PreambleModel::BadVersion(v) => r matches Err(ReadError::UnsupportedVersion { version })
                    && version == v,
                PreambleModel::Header(h, start) => r matches Ok(reader) && reader@
                    == (FileReaderModel {
                    remaining: data@.subrange(start, data@.len() as int),
                    version: VERSION,
                    header: h,
                    window_size: window_size as nat,
                }),
            },
    {
        match read_preamble(data.as_slice()) {
            Ok(p) => Ok(
                FileReader {
                    data,
                    pos: p.body_start,
                    version: p.version,
                    header: p.header,
                    window_size,
                },
            ),
            Err(e) => Err(e),
        }
    }

    /// The format version of the recording.
    pub fn version(&self) -> (r: u16)
        ensures
            r == self@.version,
    {
        self.version
    }

    /// The header of the recording, JSON text.
    pub fn header(&self) -> (r: &[u8])
        ensures
            r@ == self@.header,
    {
        self.header.as_slice()
    }

    /// Reads the next chunk. Returns `None` at the end of the data. A chunk
    /// body that the data cuts short is read as far as it goes. Whether it
    /// succeeds or fails, the reader moves past what is present of the chunk.
    pub fn read_chunk(&mut self) -> (r: Result<Option<Chunk>, ReadError>)
        ensures
            chunk_result_view(r) == read_chunk_model(old(self)@.remaining, old(self)@.window_size).0,
            final(self)@ == (FileReaderModel {
                remaining: old(self)@.remaining.skip(
                    read_chunk_model(old(self)@.remaining, old(self)@.window_size).1,
                ),
                ..old(self)@
            }),
    {
        proof {
            use_type_invariant(&*self);
            reveal(read_chunk_model);
        }
        let ghost s = self@.remaining;
        let len = self.data.len();
        let pos = self.pos;
        if pos == len {
            assert(s.skip(0) =~= s);
            return Ok(None);
        }
        if len - pos < 5 {
            self.pos = len;
            assert(self@.remaining =~= s.skip(s.len() as int));
            return Err(ReadError::UnexpectedEof);
        }
        let tag = self.data[pos];
        let length = read_be_u32(self.data.as_slice(), pos + 1);
        assert(self.data@.subrange(pos + 1, pos + 5) =~= s.subrange(1, 5));
        let avail = len - pos - 5;
        let body_len: usize = if (length as usize) < avail {
            length as usize
        } else {
            avail
        };
        let start = pos + 5;
        let end = start + body_len;
        let body = &self.data.as_slice()[start..end];
        assert(body@ =~= s.subrange(5, 5 + chunk_body_len(s)));
        let chunk = if tag == CHUNK_FRAME {
            match Frame::read(body) {
                Ok((frame, _)) => {
                    let invalid = frame.bins.len() != self.window_size;
                    Chunk::Frame { frame, invalid }
                },
                Err(e) => {
                    self.pos = end;
                    assert(self@.remaining =~= s.skip(5 + chunk_body_len(s)));
                    return Err(e);
                },
            }
        } else if tag == CHUNK_CONFIG {
            Chunk::Config { config: slice_to_vec(body) }
        } else if tag == CHUNK_DROPPED {
            if body_len < 8 {
                self.pos = end;
                assert(self@.remaining =~= s.skip(5 + chunk_body_len(s)));
                return Err(ReadError::UnexpectedEof);
            }
            let num_dropped = read_be_u64(body, 0);
            Chunk::Dropped { num_dropped }
        } else {
            Chunk::Unrecognized { tag, length }
        };
        self.pos = end;
        assert(self@.remaining =~= s.skip(5 + chunk_body_len(s)));
        Ok(Some(chunk))
    }

    /// Reads chunks until it finds a valid frame, skipping every other chunk.
    /// Returns `None` at the end of the data.
    pub fn read_frame(&mut self) -> (r: Result<Option<Frame>, ReadError>)
        ensures
            match next_frame_model(old(self)@.remaining, old(self)@.window_size).0 {
                Ok(Some(m)) => r matches Ok(Some(f)) && f@ == m,
                Ok(None) => r matches Ok(None),
                Err(e) => r == Err::<Option<Frame>, ReadError>(e),
            },
            final(self)@ == (FileReaderModel {
                remaining: next_frame_model(old(self)@.remaining, old(self)@.window_size).1,
                ..old(self)@
            }),
    {
        let ghost ws = self@.window_size;
        let ghost target = next_frame_model(self@.remaining, ws);
        loop
            invariant
                ws == old(self)@.window_size,
                target == next_frame_model(old(self)@.remaining, old(self)@.window_size),
                self@.window_size == ws,
                self@.version == old(self)@.version,
                self@.header == old(self)@.header,
                next_frame_model(self@.remaining, ws) == target,
            decreases self@.remaining.len(),
        {
            let ghost before = self@.remaining;
            proof {
                reveal(next_frame_model);
                lemma_read_chunk_progress(before, ws);
            }
            let res = self.read_chunk();
            match res {
                Err(e) => {
                    return Err(e);
                },
                Ok(None) => {
                    assert(self@.remaining =~= before);
                    return Ok(None);
                },
                Ok(Some(Chunk::Frame { frame, invalid: false })) => {
                    return Ok(Some(frame));
                },
                Ok(Some(_)) => {},
            }
        }
    }

    /// Reads chunks until it finds a valid frame or a configuration chunk,
    /// skipping every other chunk, so that the caller can check each
    /// configuration on the way. Returns `None` at the end of the data.
    pub fn read_frame_or_config(&mut self) -> (r: Result<Option<FrameOrConfig>, ReadError>)
        ensures
            match next_frame_or_config_model(old(self)@.remaining, old(self)@.window_size).0 {
                Ok(Some(m)) => r matches Ok(Some(x)) && x@ == m,
                Ok(None) => r matches Ok(None),
                Err(e) => r == Err::<Option<FrameOrConfig>, ReadError>(e),
            },
            final(self)@ == (FileReaderModel {
                remaining: next_frame_or_config_model(old(self)@.remaining, old(self)@.window_size).1,
                ..old(self)@
            }),
    {
        let ghost ws = self@.window_size;
        let ghost target = next_frame_or_config_model(self@.remaining, ws);
        loop
            invariant
                ws == old(self)@.window_size,
                target == next_frame_or_config_model(old(self)@.remaining, old(self)@.window_size),
                self@.window_size == ws,
                self@.version == old(self)@.version,
                self@.header == old(self)@.header,
                next_frame_or_config_model(self@.remaining, ws) == target,
            decreases self@.remaining.len(),
        {
            let ghost before = self@.remaining;
            proof {
                reveal(next_frame_or_config_model);
                lemma_read_chunk_progress(before, ws);
            }
            let res = self.read_chunk();
            match res {
                Err(e) => {
                    return Err(e);
                },
                Ok(None) => {
                    assert(self@.remaining =~= before);
                    return Ok(None);
                },
                Ok(Some(Chunk::Frame { frame, invalid: false })) => {
                    return Ok(Some(FrameOrConfig::Frame(frame)));
                },
                Ok(Some(Chunk::Config { config })) => {
                    return Ok(Some(FrameOrConfig::Config(config)));
                },
                Ok(Some(_)) => {},
            }
        }
    }
}

/// Reads every frame that `read_frame` yields, in order, until the end of
/// the data or the first error. Returns the frames read and how reading
/// ended.
pub fn read_file(reader: &mut FileReader) -> (r: (Vec<Frame>, Result<(), ReadError>))
    ensures
        r.0@.len() == all_frames_model(old(reader)@.remaining, old(reader)@.window_size).0.len(),
        forall|i: int|
            0 <= i < r.0@.len() ==> #[trigger] r.0@[i]@ == all_frames_model(
                old(reader)@.remaining,
                old(reader)@.window_size,
            ).0[i],
        r.1 == all_frames_model(old(reader)@.remaining, old(reader)@.window_size).1,
{
    let ghost ws = reader@.window_size;
    let ghost start = reader@.remaining;
    let mut frames: Vec<Frame> = Vec::new();
    loop
        invariant
            ws == old(reader)@.window_size,
            start == old(reader)@.remaining,
            reader@.window_size == ws,
            all_frames_model(start, ws).0 =~= frames@.map_values(|f: Frame| f@) + all_frames_model(
                reader@.remaining,
                ws,
            ).0,
            all_frames_model(start, ws).1 == all_frames_model(reader@.remaining, ws).1,
        decreases reader@.remaining.len(),
    {
        let ghost before = reader@.remaining;
        let ghost done = frames@.map_values(|f: Frame| f@);
        proof {
            lemma_next_frame_progress(before, ws);
        }
        match reader.read_frame() {
            Ok(Some(frame)) => {
                let ghost f = frame@;
                frames.push(frame);
                proof {
                    let rest = reader@.remaining;
                    assert(all_frames_model(before, ws).0 =~= seq![f] + all_frames_model(rest, ws).0);
                    assert(frames@.map_values(|fr: Frame| fr@) =~= done.push(f));
                }
            },
            Ok(None) => {
                proof {
                    assert(all_frames_model(before, ws).0 =~= Seq::<FrameModel>::empty());
                    assert(all_frames_model(start, ws).0 =~= done);
                }
                return (frames, Ok(()));
            },
            Err(e) => {
                proof {
                    assert(all_frames_model(before, ws).0 =~= Seq::<FrameModel>::empty());
                    assert(all_frames_model(start, ws).0 =~= done);
                }
                return (frames, Err(e));
            },
        }
    }
}

/// Builds a recording: the preamble first, then chunks. The bytes are
/// collected in memory until the caller takes them to store them.
#[derive(Debug)]
pub struct FileWriter {
    pending: Vec<u8>,
}

impl View for FileWriter {
    type V = Seq<u8>;

    /// The bytes written and not yet taken.
    closed spec fn view(&self) -> Seq<u8> {
        self.pending@
    }
}

impl FileWriter {
    /// Starts a recording with the given header (JSON text). The header's
    /// length must fit into 32 bits.
    pub fn new(header: &[u8]) -> (w: FileWriter)
        requires
            header@.len() <= u32::MAX,
        ensures
            w@ == preamble_bytes(header@),
    {
        let mut pending: Vec<u8> = Vec::new();
        pending.push(0x53);
        pending.push(0x54);
        pending.push(0x4f);
        pending.push(0x4c);
        pending.push(0x41);
        pending.push(0x53);
        push_be_u16(&mut pending, VERSION);
        push_be_u32(&mut pending, header.len() as u32);
        let ghost before = pending@;
        pending.extend_from_slice(header);
        assert(pending@ =~= preamble_bytes(header@));
        FileWriter { pending }
    }

    fn write_chunk_header(&mut self, tag: u8, length: u32)
        ensures
            final(self)@ == old(self)@ + chunk_header_bytes(tag, length),
    {
        self.pending.push(tag);
        push_be_u32(&mut self.pending, length);
        assert(self@ =~= old(self)@ + chunk_header_bytes(tag, length));
    }

    /// Appends a frame chunk. The length field holds the size of the bins
    /// (see [`frame_chunk_bytes`]), which must fit into 32 bits.
    pub fn write_frame(&mut self, frame: &Frame)
        requires
            frame.bins@.len() * 4 <= u32::MAX,
        ensures
            final(self)@ == old(self)@ + frame_chunk_bytes(frame@),
    {
        let length = frame.byte_length();
        self.write_chunk_header(CHUNK_FRAME, length);
        frame.write(&mut self.pending);
        assert(self@ =~= old(self)@ + frame_chunk_bytes(frame@));
    }

    /// Appends a configuration chunk holding `config` (JSON text), whose
    /// length must fit into 32 bits.
    pub fn write_config(&mut self, config: &[u8])
        requires
            config@.len() <= u32::MAX,
        ensures
            final(self)@ == old(self)@ + config_chunk_bytes(config@),
    {
        self.write_chunk_header(CHUNK_CONFIG, config.len() as u32);
        self.pending.extend_from_slice(config);
        assert(self@ =~= old(self)@ + config_chunk_bytes(config@));
    }

    /// Appends a chunk recording that `num_dropped` frames were dropped.
    pub fn write_dropped(&mut self, num_dropped: u64)
        ensures
            final(self)@ == old(self)@ + dropped_chunk_bytes(num_dropped),
    {
        self.write_chunk_header(CHUNK_DROPPED, 8);
        push_be_u64(&mut self.pending, num_dropped);
        assert(self@ =~= old(self)@ + dropped_chunk_bytes(num_dropped));
    }

    /// Hands out the bytes written so far; the writer keeps none of them.
    pub fn take_bytes(&mut self) -> (r: Vec<u8>)
        ensures
            r@ == old(self)@,
            final(self)@ == Seq::<u8>::empty(),
    {
        let mut out: Vec<u8> = Vec::new();
        std::mem::swap(&mut out, &mut self.pending);
        out
    }
}

/// A recording written by [`FileWriter`] opens: reading the preamble of a
/// header's encoding, whatever follows it, gives the header back and the
/// offset just past it.
pub proof fn lemma_preamble_roundtrip(header: Seq<u8>, rest: Seq<u8>)
    requires
        header.len() <= u32::MAX,
    ensures
        preamble_model(preamble_bytes(header) + rest) == PreambleModel::Header(
            header,
            12 + header.len() as int,
        ),
{
    let s = preamble_bytes(header) + rest;
    lemma_u16_roundtrip(VERSION);
    lemma_u32_roundtrip(header.len() as u32);
    assert(s.subrange(0, 6) =~= signature());
    assert(s.subrange(6, 8) =~= be_u16(VERSION));
    assert(s.subrange(8, 12) =~= be_u32(header.len() as u32));
    assert(s.subrange(12, 12 + header.len() as int) =~= header);
}

/// A chunk of a tag that this library does not know is reported with its tag
/// and length, and skipped whole.
pub proof fn lemma_unrecognized_chunk_skipped(
    tag: u8,
    body: Seq<u8>,
    rest: Seq<u8>,
    window_size: nat,
)
    requires
        body.len() <= u32::MAX,
        tag != CHUNK_FRAME,
        tag != CHUNK_CONFIG,
        tag != CHUNK_DROPPED,
    ensures
        read_chunk_model(chunk_header_bytes(tag, body.len() as u32) + body + rest, window_size)
            == (Ok::<Option<ChunkModel>, ReadError>(
            Some(ChunkModel::Unrecognized { tag, length: body.len() as u32 }),
        ), 5 + body.len() as int),
{
    reveal(read_chunk_model);
    let s = chunk_header_bytes(tag, body.len() as u32) + body + rest;
    lemma_u32_roundtrip(body.len() as u32);
    assert(s.subrange(1, 5) =~= be_u32(body.len() as u32));
}

/// What `write_config` writes, `read_chunk` reads back, whatever follows.
pub proof fn lemma_config_chunk_roundtrip(config: Seq<u8>, rest: Seq<u8>, window_size: nat)
    requires
        config.len() <= u32::MAX,
    ensures
        read_chunk_model(config_chunk_bytes(config) + rest, window_size) == (Ok::<
            Option<ChunkModel>,
            ReadError,
        >(Some(ChunkModel::Config { config })), 5 + config.len() as int),
{
    reveal(read_chunk_model);
    let s = config_chunk_bytes(config) + rest;
    lemma_u32_roundtrip(config.len() as u32);
    assert(s.subrange(1, 5) =~= be_u32(config.len() as u32));
    assert(s.subrange(5, 5 + config.len() as int) =~= config);
}

/// What `write_dropped` writes, `read_chunk` reads back, whatever follows.
pub proof fn lemma_dropped_chunk_roundtrip(num_dropped: u64, rest: Seq<u8>, window_size: nat)
    ensures
        read_chunk_model(dropped_chunk_bytes(num_dropped) + rest, window_size) == (Ok::<
            Option<ChunkModel>,
            ReadError,
        >(Some(ChunkModel::Dropped { num_dropped })), 13int),
{
    reveal(read_chunk_model);
    let s = dropped_chunk_bytes(num_dropped) + rest;
    lemma_u32_roundtrip(8);
    lemma_u64_roundtrip(num_dropped);
    assert(s.subrange(1, 5) =~= be_u32(8));
    assert(s.subrange(5, 13).subrange(0, 8) =~= be_u64(num_dropped));
}

/// A frame chunk as `write_frame` writes it does not read back: its length
/// field counts the bins only, so the body that `read_chunk` hands to the
/// frame decoder stops short of the frame, and reading fails with
/// `UnexpectedEof`, whatever follows.
pub proof fn lemma_frame_chunk_body_too_short(f: FrameModel, rest: Seq<u8>, window_size: nat)
    requires
        4 * f.bins.len() <= u32::MAX,
    ensures
        read_chunk_model(frame_chunk_bytes(f) + rest, window_size).0 == Err::<
            Option<ChunkModel>,
            ReadError,
        >(ReadError::UnexpectedEof),
{
    reveal(read_chunk_model);
    let s = frame_chunk_bytes(f) + rest;
    let n = f.bins.len();
    lemma_u32_roundtrip((4 * n) as u32);
    lemma_frame_roundtrip(f, rest);
    assert(s.subrange(1, 5) =~= be_u32((4 * n) as u32));
    let body = s.subrange(5, 5 + 4 * n as int);
    if body.len() >= 20 {
        let fb = frame_bytes(f);
        assert(body.subrange(16, 20) =~= fb.subrange(16, 20));
        assert(fb.subrange(16, 20) =~= be_u32(n as u32));
    }
}

/// A frame chunk whose length field covers the whole encoded frame: its
/// header and the encoding.
pub open spec fn full_frame_chunk_bytes(f: FrameModel) -> Seq<u8> {
    chunk_header_bytes(CHUNK_FRAME, (20 + 4 * f.bins.len()) as u32) + frame_bytes(f)
}

/// A frame chunk whose length field covers the whole encoded frame reads
/// back as that frame, marked invalid exactly when its bin count is not the
/// reader's window size, whatever follows; the reader moves past the whole
/// chunk.
pub proof fn lemma_full_frame_chunk_read(f: FrameModel, rest: Seq<u8>, window_size: nat)
    requires
        20 + 4 * f.bins.len() <= u32::MAX,
    ensures
        full_frame_chunk_bytes(f).len() == 25 + 4 * f.bins.len(),
        read_chunk_model(full_frame_chunk_bytes(f) + rest, window_size) == (Ok::<
            Option<ChunkModel>,
            ReadError,
        >(Some(ChunkModel::Frame { frame: f, invalid: f.bins.len() != window_size })), (25 + 4
            * f.bins.len()) as int),
{
    let n = f.bins.len();
    let len = (20 + 4 * n) as u32;
    let fb = frame_bytes(f);
    let s = full_frame_chunk_bytes(f) + rest;
    lemma_frame_roundtrip(f, Seq::<u8>::empty());
    lemma_u32_roundtrip(len);
    reveal(read_chunk_model);
    assert(s.subrange(1, 5) =~= be_u32(len));
    assert(s.subrange(5, 5 + fb.len() as int) =~= fb + Seq::<u8>::empty());
}

/// `read_frame` returns a frame from a full-length frame chunk where its bin
/// count is the reader's window size, moving past the chunk, and passes over
/// it where it is not.
pub proof fn lemma_full_frame_chunk_reads_back(f: FrameModel, rest: Seq<u8>, window_size: nat)
    requires
        20 + 4 * f.bins.len() <= u32::MAX,
    ensures
        f.bins.len() == window_size ==> next_frame_model(full_frame_chunk_bytes(f) + rest, window_size)
            == (Ok::<Option<FrameModel>, ReadError>(Some(f)), rest),
        f.bins.len() != window_size ==> next_frame_model(full_frame_chunk_bytes(f) + rest, window_size)
            == next_frame_model(rest, window_size),
{
    let s = full_frame_chunk_bytes(f) + rest;
    lemma_full_frame_chunk_read(f, rest, window_size);
    assert(s.skip((25 + 4 * f.bins.len()) as int) =~= rest);
    if f.bins.len() != window_size {
        lemma_next_frame_passes_over(s, window_size);
    } else {
        reveal(next_frame_model);
    }
}

/// Reading frames passes over a chunk that was read and is not a valid
/// frame: it continues just after that chunk.
proof fn lemma_next_frame_passes_over(s: Seq<u8>, window_size: nat)
    requires
        read_chunk_model(s, window_size).0 matches Ok(Some(c)) && !(c matches ChunkModel::Frame {
            invalid: false,
            ..
        }),
    ensures
        next_frame_model(s, window_size) == next_frame_model(
            s.skip(read_chunk_model(s, window_size).1),
            window_size,
        ),
{
    reveal(next_frame_model);
    lemma_read_chunk_progress(s, window_size);
}

/// `read_frame` passes over a dropped-frames chunk: reading frames from such
/// a chunk on gives what reading from the chunk after it gives.
pub proof fn lemma_read_frame_skips_dropped(num_dropped: u64, rest: Seq<u8>, window_size: nat)
    ensures
        next_frame_model(dropped_chunk_bytes(num_dropped) + rest, window_size) == next_frame_model(
            rest,
            window_size,
        ),
{
    let s = dropped_chunk_bytes(num_dropped) + rest;
    lemma_dropped_chunk_roundtrip(num_dropped, rest, window_size);
    lemma_next_frame_passes_over(s, window_size);
    assert(s.skip(13) =~= rest);
}

/// `read_frame` passes over a configuration chunk.
pub proof fn lemma_read_frame_skips_config(config: Seq<u8>, rest: Seq<u8>, window_size: nat)
    requires
        config.len() <= u32::MAX,
    ensures
        next_frame_model(config_chunk_bytes(config) + rest, window_size) == next_frame_model(
            rest,
            window_size,
        ),
{
    let s = config_chunk_bytes(config) + rest;
    lemma_config_chunk_roundtrip(config, rest, window_size);
    lemma_next_frame_passes_over(s, window_size);
    assert(s.skip(5 + config.len() as int) =~= rest);
}

} // verus!

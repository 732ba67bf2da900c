use stolas::file::{
    read_file, read_preamble, Chunk, FileReader, FileWriter, FrameOrConfig, ReadError, CHUNK_CONFIG, CHUNK_DROPPED,
    CHUNK_FRAME, VERSION,
};
use stolas::frame::Frame;

fn frame(serial: u64, timestamp: i64, bins: Vec<u32>) -> Frame {
    Frame { serial, timestamp, bins }
}

fn same_frame(a: &Frame, b: &Frame) -> bool {
    a.serial == b.serial && a.timestamp == b.timestamp && a.bins == b.bins
}

#[test]
fn frame_encoding_is_big_endian() {
    let f = frame(1, 2, vec![0x3f80_0000]);
    let mut out = Vec::new();
    f.write(&mut out);
    assert_eq!(
        out,
        vec![
            0, 0, 0, 0, 0, 0, 0, 1, // serial
            0, 0, 0, 0, 0, 0, 0, 2, // timestamp
            0, 0, 0, 1, // bin count
            0x3f, 0x80, 0, 0, // 1.0f32
        ]
    );
}

#[test]
fn frame_roundtrip_with_trailing_bytes() {
    let f = frame(42, -1_000_000_007, vec![1.5f32.to_bits(), 0, u32::MAX]);
    let mut out = Vec::new();
    f.write(&mut out);
    let len = out.len();
    assert_eq!(len, 20 + 4 * 3);
    out.extend_from_slice(&[9, 9, 9]);
    let (g, used) = Frame::read(&out).unwrap();
    assert!(same_frame(&f, &g));
    assert_eq!(used, len);
    assert_eq!(f32::from_bits(g.bins[0]), 1.5);
}

#[test]
fn frame_read_truncated() {
    let f = frame(7, 8, vec![1, 2]);
    let mut out = Vec::new();
    f.write(&mut out);
    out.pop();
    assert!(matches!(Frame::read(&out), Err(ReadError::UnexpectedEof)));
    assert!(matches!(Frame::read(&out[..19]), Err(ReadError::UnexpectedEof)));
}

#[test]
fn frame_byte_length() {
    assert_eq!(frame(0, 0, vec![0; 512]).byte_length(), 2048);
}

#[test]
fn preamble_roundtrip() {
    let header = br#"{"timestamp":"2026-01-01T00:00:00Z"}"#;
    let mut writer = FileWriter::new(header);
    let mut bytes = writer.take_bytes();
    assert_eq!(&bytes[..6], b"STOLAS");
    assert_eq!(&bytes[6..8], &[0, 2]);
    bytes.extend_from_slice(b"rest");
    let p = read_preamble(&bytes).unwrap();
    assert_eq!(p.version, VERSION);
    assert_eq!(p.header, header.to_vec());
    assert_eq!(p.body_start, 12 + header.len());
}

#[test]
fn preamble_errors() {
    assert!(matches!(read_preamble(b"STOL"), Err(ReadError::UnexpectedEof)));
    match read_preamble(b"STOLAX\x00\x02") {
        Err(ReadError::InvalidSignature { invalid }) => assert_eq!(&invalid, b"STOLAX"),
        other => panic!("unexpected: {other:?}"),
    }
    assert!(matches!(
        read_preamble(b"STOLAS\x00\x01\x00\x00\x00\x00"),
        Err(ReadError::UnsupportedVersion { version: 1 })
    ));
    assert!(matches!(read_preamble(b"STOLAS\x00\x02\x00\x00"), Err(ReadError::UnexpectedEof)));
    assert!(matches!(
        read_preamble(b"STOLAS\x00\x02\x00\x00\x00\x05abc"),
        Err(ReadError::UnexpectedEof)
    ));
}

fn written_file(build: impl FnOnce(&mut FileWriter)) -> Vec<u8> {
    let mut writer = FileWriter::new(b"{}");
    build(&mut writer);
    writer.take_bytes()
}

#[test]
fn dropped_and_config_chunks_read_back() {
    let bytes = written_file(|w| {
        w.write_dropped(17);
        w.write_config(br#"{"window_size":512}"#);
    });
    let mut reader = FileReader::open(bytes, 512).unwrap();
    assert_eq!(reader.version(), 2);
    assert_eq!(reader.header(), b"{}");
    match reader.read_chunk() {
        Ok(Some(Chunk::Dropped { num_dropped })) => assert_eq!(num_dropped, 17),
        other => panic!("unexpected: {other:?}"),
    }
    match reader.read_chunk() {
        Ok(Some(Chunk::Config { config })) => assert_eq!(config, br#"{"window_size":512}"#.to_vec()),
        other => panic!("unexpected: {other:?}"),
    }
    assert!(matches!(reader.read_chunk(), Ok(None)));
    assert!(matches!(reader.read_chunk(), Ok(None)));
}

#[test]
fn written_frame_chunk_does_not_read_back() {
    let bytes = written_file(|w| w.write_frame(&frame(1, 2, vec![3, 4])));
    let mut reader = FileReader::open(bytes, 2).unwrap();
    assert!(matches!(reader.read_chunk(), Err(ReadError::UnexpectedEof)));
    // the reader has moved past the declared 8 body bytes; what follows is
    // the rest of the frame, read as a chunk with tag 0 and length 0
    assert!(matches!(reader.read_chunk(), Ok(Some(Chunk::Unrecognized { tag: 0, length: 0 }))));
}

#[test]
fn failed_chunks_are_consumed() {
    // a dropped-frames chunk whose body is too short for its count fails,
    // and reading goes on after it
    let mut bytes = written_file(|_| {});
    bytes.extend_from_slice(&[CHUNK_DROPPED, 0, 0, 0, 2, 7, 7]);
    bytes.extend_from_slice(&[CHUNK_DROPPED, 0, 0, 0, 8, 0, 0, 0, 0, 0, 0, 0, 5]);
    let mut reader = FileReader::open(bytes, 1).unwrap();
    assert!(matches!(reader.read_chunk(), Err(ReadError::UnexpectedEof)));
    assert!(matches!(reader.read_chunk(), Ok(Some(Chunk::Dropped { num_dropped: 5 }))));
    assert!(matches!(reader.read_chunk(), Ok(None)));

    // a chunk cut short inside its length consumes the rest of the data
    let mut bytes = written_file(|_| {});
    bytes.extend_from_slice(&[CHUNK_CONFIG, 0, 0]);
    let mut reader = FileReader::open(bytes, 1).unwrap();
    assert!(matches!(reader.read_chunk(), Err(ReadError::UnexpectedEof)));
    assert!(matches!(reader.read_chunk(), Ok(None)));
}

fn frame_chunk_with_full_length(f: &Frame) -> Vec<u8> {
    let mut body = Vec::new();
    f.write(&mut body);
    let mut chunk = vec![CHUNK_FRAME];
    chunk.extend_from_slice(&(body.len() as u32).to_be_bytes());
    chunk.extend_from_slice(&body);
    chunk
}

#[test]
fn frames_are_read_and_checked_against_the_window_size() {
    let mut bytes = written_file(|w| w.write_dropped(3));
    bytes.extend(frame_chunk_with_full_length(&frame(1, 10, vec![1, 2])));
    bytes.extend(frame_chunk_with_full_length(&frame(2, 20, vec![1, 2, 3])));
    bytes.extend(frame_chunk_with_full_length(&frame(3, 30, vec![5, 6])));
    let mut reader = FileReader::open(bytes.clone(), 2).unwrap();
    assert!(matches!(reader.read_chunk(), Ok(Some(Chunk::Dropped { num_dropped: 3 }))));
    assert!(matches!(reader.read_chunk(), Ok(Some(Chunk::Frame { invalid: false, .. }))));
    assert!(matches!(reader.read_chunk(), Ok(Some(Chunk::Frame { invalid: true, .. }))));

    let mut reader = FileReader::open(bytes.clone(), 2).unwrap();
    assert_eq!(reader.read_frame().unwrap().unwrap().serial, 1);
    assert_eq!(reader.read_frame().unwrap().unwrap().serial, 3);
    assert!(reader.read_frame().unwrap().is_none());

    let mut reader = FileReader::open(bytes, 2).unwrap();
    let (frames, end) = read_file(&mut reader);
    assert_eq!(frames.iter().map(|f| f.serial).collect::<Vec<_>>(), vec![1, 3]);
    assert!(end.is_ok());
}

#[test]
fn unrecognized_chunks_are_skipped() {
    let mut bytes = written_file(|_| {});
    bytes.extend_from_slice(&[b'X', 0, 0, 0, 3, 1, 2, 3]);
    bytes.extend_from_slice(&[CHUNK_DROPPED, 0, 0, 0, 8, 0, 0, 0, 0, 0, 0, 0, 9]);
    let mut reader = FileReader::open(bytes, 1).unwrap();
    assert!(matches!(
        reader.read_chunk(),
        Ok(Some(Chunk::Unrecognized { tag: b'X', length: 3 }))
    ));
    assert!(matches!(reader.read_chunk(), Ok(Some(Chunk::Dropped { num_dropped: 9 }))));
}

#[test]
fn truncated_chunks() {
    let mut bytes = written_file(|_| {});
    bytes.extend_from_slice(&[CHUNK_CONFIG, 0, 0]);
    let mut reader = FileReader::open(bytes, 1).unwrap();
    assert!(matches!(reader.read_chunk(), Err(ReadError::UnexpectedEof)));

    // a body cut short by the end of the data is read as far as it goes
    let mut bytes = written_file(|_| {});
    bytes.extend_from_slice(&[CHUNK_CONFIG, 0, 0, 0, 10, b'{', b'}']);
    let mut reader = FileReader::open(bytes, 1).unwrap();
    match reader.read_chunk() {
        Ok(Some(Chunk::Config { config })) => assert_eq!(config, b"{}".to_vec()),
        other => panic!("unexpected: {other:?}"),
    }
    assert!(matches!(reader.read_chunk(), Ok(None)));

    let mut bytes = written_file(|_| {});
    bytes.extend_from_slice(&[CHUNK_DROPPED, 0, 0, 0, 8, 1, 2]);
    let mut reader = FileReader::open(bytes, 1).unwrap();
    assert!(matches!(reader.read_chunk(), Err(ReadError::UnexpectedEof)));
}

#[test]
fn read_file_stops_at_errors() {
    let mut bytes = written_file(|_| {});
    bytes.extend(frame_chunk_with_full_length(&frame(1, 10, vec![1])));
    bytes.extend_from_slice(&[CHUNK_DROPPED, 0, 0, 0, 8, 1]);
    let mut reader = FileReader::open(bytes, 1).unwrap();
    let (frames, end) = read_file(&mut reader);
    assert_eq!(frames.len(), 1);
    assert!(matches!(end, Err(ReadError::UnexpectedEof)));
}

#[test]
fn read_frame_or_config_stops_at_configs() {
    let mut bytes = written_file(|w| {
        w.write_dropped(1);
        w.write_config(b"{\"x\":1}");
    });
    bytes.extend(frame_chunk_with_full_length(&frame(1, 10, vec![1])));
    bytes.extend(frame_chunk_with_full_length(&frame(2, 20, vec![1, 2])));
    bytes.extend(frame_chunk_with_full_length(&frame(3, 30, vec![7])));
    let mut reader = FileReader::open(bytes, 1).unwrap();
    match reader.read_frame_or_config() {
        Ok(Some(FrameOrConfig::Config(c))) => assert_eq!(c, b"{\"x\":1}".to_vec()),
        other => panic!("unexpected: {other:?}"),
    }
    match reader.read_frame_or_config() {
        Ok(Some(FrameOrConfig::Frame(f))) => assert_eq!(f.serial, 1),
        other => panic!("unexpected: {other:?}"),
    }
    match reader.read_frame_or_config() {
        Ok(Some(FrameOrConfig::Frame(f))) => assert_eq!(f.serial, 3),
        other => panic!("unexpected: {other:?}"),
    }
    assert!(matches!(reader.read_frame_or_config(), Ok(None)));
}

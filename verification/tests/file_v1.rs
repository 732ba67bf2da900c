use stolas::file::ReadError;
use stolas::file_v1::{read_v1_frames, read_v1_preamble};
use stolas::frame::Frame;

fn v1_file(header: &[u8], frames: &[Frame]) -> Vec<u8> {
    let mut out = b"STOLAS\x00\x01".to_vec();
    out.extend_from_slice(&(header.len() as u32).to_be_bytes());
    out.extend_from_slice(header);
    for f in frames {
        f.write(&mut out);
    }
    out
}

fn frame(serial: u64, bins: Vec<u32>) -> Frame {
    Frame { serial, timestamp: 1_000 + serial as i64, bins }
}

#[test]
fn v1_preamble_gives_header_and_start() {
    let data = v1_file(b"{\"a\":1}", &[]);
    let (header, start) = read_v1_preamble(&data).unwrap();
    assert_eq!(header, b"{\"a\":1}");
    assert_eq!(start, 12 + 7);
}

#[test]
fn v1_preamble_errors() {
    assert_eq!(read_v1_preamble(b"STOLAS\x00"), Err(ReadError::UnexpectedEof));
    assert_eq!(read_v1_preamble(b"XY"), Err(ReadError::UnexpectedEof));
    assert_eq!(
        read_v1_preamble(b"STOLAX\x00\x01\x00\x00\x00\x00"),
        Err(ReadError::InvalidSignature { invalid: *b"STOLAX" })
    );
    assert_eq!(
        read_v1_preamble(b"STOLAS\x00\x02\x00\x00\x00\x00"),
        Err(ReadError::UnsupportedVersion { version: 2 })
    );
    assert_eq!(read_v1_preamble(b"STOLAS\x00\x01\x00\x00"), Err(ReadError::UnexpectedEof));
    assert_eq!(read_v1_preamble(b"STOLAS\x00\x01\x00\x00\x00\x05{}"), Err(ReadError::UnexpectedEof));
}

#[test]
fn v1_frames_until_end_with_partial_trailer() {
    let mut data = v1_file(b"{}", &[frame(0, vec![1, 2]), frame(1, vec![3, 4])]);
    let mut partial = Vec::new();
    frame(2, vec![5, 6]).write(&mut partial);
    data.extend_from_slice(&partial[..partial.len() - 1]);
    let (_, start) = read_v1_preamble(&data).unwrap();
    let (frames, stop) = read_v1_frames(&data, start, 2);
    assert_eq!(stop, None);
    assert_eq!(frames.len(), 2);
    assert_eq!(frames[0].serial, 0);
    assert_eq!(frames[0].bins, vec![1, 2]);
    assert_eq!(frames[1].serial, 1);
    assert_eq!(frames[1].timestamp, 1_001);
    assert_eq!(frames[1].bins, vec![3, 4]);
}

#[test]
fn v1_frames_stop_at_other_window_size() {
    let data = v1_file(b"{}", &[frame(0, vec![1, 2]), frame(1, vec![3]), frame(2, vec![4, 5])]);
    let (_, start) = read_v1_preamble(&data).unwrap();
    let (frames, stop) = read_v1_frames(&data, start, 2);
    assert_eq!(stop, Some(1));
    assert_eq!(frames.len(), 1);
    assert_eq!(frames[0].bins, vec![1, 2]);
}

#[test]
fn v1_frames_empty_body() {
    let data = v1_file(b"{}", &[]);
    let (frames, stop) = read_v1_frames(&data, data.len(), 512);
    assert!(frames.is_empty());
    assert_eq!(stop, None);
}

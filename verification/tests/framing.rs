//! Frames on the control stream.
use spindle::net::framing::{
    read_frame, write_frame, ByteStream, FrameReader, FrameStep, FramingError, MAX_FRAME_LEN,
};

const AT_ONCE: usize = 4096;

fn stream(bytes: Vec<u8>) -> ByteStream {
    ByteStream::new(bytes, AT_ONCE)
}

#[test]
fn round_trips_a_frame() {
    let mut wire = Vec::new();
    write_frame(&mut wire, b"hello, spindle").expect("write");
    let got = read_frame(&mut stream(wire)).expect("read").expect("Some(frame)");
    assert_eq!(got, b"hello, spindle");
}

#[test]
fn round_trips_an_empty_frame() {
    let mut wire = Vec::new();
    write_frame(&mut wire, b"").expect("write");
    let got = read_frame(&mut stream(wire)).expect("read").expect("Some(frame)");
    assert!(got.is_empty());
}

#[test]
fn multiple_frames_in_sequence() {
    let mut wire = Vec::new();
    write_frame(&mut wire, b"one").expect("write 1");
    write_frame(&mut wire, b"two").expect("write 2");
    let mut b = stream(wire);
    assert_eq!(read_frame(&mut b).expect("read 1").expect("Some"), b"one");
    assert_eq!(read_frame(&mut b).expect("read 2").expect("Some"), b"two");
    assert_eq!(read_frame(&mut b).expect("read 3"), None);
}

#[test]
fn split_reads_across_the_length_prefix_and_payload() {
    let mut wire = Vec::new();
    wire.extend_from_slice(&9u32.to_be_bytes());
    wire.extend_from_slice(b"nine-byte");
    let mut reader = ByteStream::new(wire, 1);
    let got = read_frame(&mut reader).expect("read").expect("Some(frame)");
    assert_eq!(got, b"nine-byte");
}

#[test]
fn oversize_length_prefix_is_rejected_without_reading_payload() {
    let too_big = MAX_FRAME_LEN + 1;
    let mut b = stream(too_big.to_be_bytes().to_vec());
    match read_frame(&mut b).expect_err("must reject oversize") {
        FramingError::FrameTooLarge { len } => assert_eq!(len, too_big),
        other => panic!("expected FrameTooLarge, got {other:?}"),
    }
}

#[test]
fn oversize_frame_leaves_its_payload_unread() {
    let mut wire = (MAX_FRAME_LEN + 1).to_be_bytes().to_vec();
    wire.extend_from_slice(&3u32.to_be_bytes());
    wire.extend_from_slice(b"abc");
    let mut b = stream(wire);
    assert!(read_frame(&mut b).is_err());
    assert_eq!(read_frame(&mut b), Ok(Some(b"abc".to_vec())));
}

#[test]
fn clean_eof_between_frames_is_ok_none() {
    let got = read_frame(&mut stream(Vec::new())).expect("clean EOF is not an error");
    assert!(got.is_none());
}

#[test]
fn truncated_mid_length_prefix_is_an_error_not_clean_eof() {
    let err = read_frame(&mut stream(vec![0x00, 0x00]))
        .expect_err("truncation mid-prefix must not be Ok(None)");
    assert!(matches!(err, FramingError::Truncated));
}

#[test]
fn truncated_mid_payload_is_an_error_not_clean_eof() {
    let mut wire = 5u32.to_be_bytes().to_vec();
    wire.extend_from_slice(b"ab");
    let err = read_frame(&mut stream(wire))
        .expect_err("truncation mid-payload must not be Ok(None)");
    assert!(matches!(err, FramingError::Truncated));
}

#[test]
fn write_refuses_a_payload_over_the_cap() {
    let mut wire = vec![7u8];
    let oversized = vec![0u8; MAX_FRAME_LEN as usize + 1];
    let err = write_frame(&mut wire, &oversized)
        .expect_err("must refuse to emit an oversized frame");
    match err {
        FramingError::FrameTooLarge { len } => assert_eq!(len, MAX_FRAME_LEN + 1),
        other => panic!("expected FrameTooLarge, got {other:?}"),
    }
    assert_eq!(wire, vec![7u8]);
}

#[test]
fn the_largest_frame_passes_both_ways() {
    let payload = vec![0x5a; MAX_FRAME_LEN as usize];
    let mut wire = Vec::new();
    write_frame(&mut wire, &payload).expect("write");
    assert_eq!(wire[..4], [0x00, 0x04, 0x00, 0x00]);
    let got = read_frame(&mut ByteStream::new(wire, 1000)).expect("read").expect("frame");
    assert_eq!(got, payload);
}

#[test]
fn a_reader_asks_for_one_byte_between_frames_and_for_the_rest_inside() {
    let mut reader = FrameReader::new();
    assert_eq!(reader.wanted(), 1);
    assert_eq!(reader.advance(&[0]), Ok(FrameStep::More));
    assert_eq!(reader.wanted(), 3);
    assert_eq!(reader.advance(&[0, 0, 2]), Ok(FrameStep::More));
    assert_eq!(reader.wanted(), 2);
    assert_eq!(reader.advance(&[8]), Ok(FrameStep::More));
    assert_eq!(reader.advance(&[9]), Ok(FrameStep::Frame(vec![8, 9])));
    assert_eq!(reader.wanted(), 1);
    assert_eq!(reader.advance(&[]), Ok(FrameStep::Closed));
}

#[test]
fn framing_messages() {
    assert_eq!(
        FramingError::FrameTooLarge { len: 300_000 }.to_string(),
        "frame length 300000 exceeds the 262144-byte cap"
    );
    assert_eq!(
        FramingError::Io("reset".to_string()).to_string(),
        "I/O error on the framed stream: reset"
    );
    assert_eq!(FramingError::Truncated.to_string(), "stream ended in the middle of a frame");
}

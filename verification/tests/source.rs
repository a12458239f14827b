use unicode_player::raster::Raster;
use unicode_player::source::{
    is_remote_locator, record_total_len, FrameFetch, FrameStream, ReadOutcome, Source, SourceKind,
};

/// A minimal well-formed 24-bit BMP of one pixel, given as `(b, g, r)`.
/// Its own header carries the file length at bytes 2 to 5, so the file is
/// itself one framed record.
fn one_pixel_bmp(b: u8, g: u8, r: u8) -> Vec<u8> {
    let mut bytes = Vec::new();
    // file header: "BM", total size 58, reserved, pixel data offset 54
    bytes.extend_from_slice(&[0x42, 0x4d]);
    bytes.extend_from_slice(&58u32.to_le_bytes());
    bytes.extend_from_slice(&[0, 0, 0, 0]);
    bytes.extend_from_slice(&54u32.to_le_bytes());
    // info header: size 40, 1 x 1, one plane, 24 bits, no compression
    bytes.extend_from_slice(&40u32.to_le_bytes());
    bytes.extend_from_slice(&1i32.to_le_bytes());
    bytes.extend_from_slice(&1i32.to_le_bytes());
    bytes.extend_from_slice(&1u16.to_le_bytes());
    bytes.extend_from_slice(&24u16.to_le_bytes());
    bytes.extend_from_slice(&0u32.to_le_bytes());
    bytes.extend_from_slice(&4u32.to_le_bytes());
    bytes.extend_from_slice(&0i32.to_le_bytes());
    bytes.extend_from_slice(&0i32.to_le_bytes());
    bytes.extend_from_slice(&0u32.to_le_bytes());
    bytes.extend_from_slice(&0u32.to_le_bytes());
    // one row: one BGR pixel plus one byte of row padding
    bytes.extend_from_slice(&[b, g, r, 0]);
    assert_eq!(bytes.len(), 58);
    bytes
}

fn chars(s: &str) -> Vec<char> {
    s.chars().collect()
}

#[test]
fn record_length_is_little_endian() {
    let header = vec![0x42u8, 0x4d, 0x3a, 0, 0, 0];
    assert_eq!(record_total_len(&header), 58);
    let header2 = vec![0u8, 0, 0x01, 0x02, 0x03, 0x04];
    assert_eq!(record_total_len(&header2), 0x04030201);
}

#[test]
fn reader_consumes_exactly_one_record() {
    let mut data = one_pixel_bmp(0, 0, 255);
    data.extend_from_slice(&one_pixel_bmp(255, 0, 0));
    let mut stream = FrameStream::new(data.clone());
    match stream.read_record() {
        ReadOutcome::Record(rec) => {
            assert_eq!(rec.len(), 58);
            assert_eq!(rec, data[0..58].to_vec());
        }
        _ => panic!("expected a record"),
    }
    assert_eq!(stream.pos, 58);
    match stream.read_record() {
        ReadOutcome::Record(rec) => {
            assert_eq!(rec, data[58..116].to_vec());
        }
        _ => panic!("expected a second record"),
    }
    assert_eq!(stream.pos, 116);
    assert!(matches!(stream.read_record(), ReadOutcome::Finished));
}

#[test]
fn truncated_header_finishes() {
    let mut stream = FrameStream::new(vec![0x42, 0x4d, 0x3a]);
    assert!(matches!(stream.read_record(), ReadOutcome::Finished));
    assert_eq!(stream.pos, 0);
}

#[test]
fn truncated_payload_finishes() {
    let mut data = one_pixel_bmp(0, 0, 255);
    data.truncate(30);
    let mut stream = FrameStream::new(data);
    assert!(matches!(stream.read_record(), ReadOutcome::Finished));
    assert_eq!(stream.pos, 0);
}

#[test]
fn undersized_length_is_malformed() {
    // A header declaring fewer bytes than the header itself.
    let mut stream = FrameStream::new(vec![0x42, 0x4d, 5, 0, 0, 0, 9, 9, 9]);
    assert!(matches!(stream.read_record(), ReadOutcome::Malformed));
}

#[test]
fn one_record_then_eof_yields_one_frame_then_finished() {
    let data = one_pixel_bmp(0, 0, 255);
    let mut stream = FrameStream::new(data);
    let locator = chars("video.mp4");
    let mut source = Source::new(Some(&locator), 30, false);
    assert_eq!(source.kind, SourceKind::File);
    assert!(source.needs_read());
    let rec = match stream.read_record() {
        ReadOutcome::Record(rec) => rec,
        _ => panic!("expected a record"),
    };
    {
        let frame: &Raster = source.next_frame(FrameFetch::Bytes(rec));
        assert_eq!(frame.width, 1);
        assert_eq!(frame.height, 1);
        assert_eq!(frame.pixels, vec![(255, 0, 0)]);
    }
    assert!(!source.finished);
    // the stream is at its end now
    assert!(matches!(stream.read_record(), ReadOutcome::Finished));
    let frame = source.next_frame(FrameFetch::End);
    assert_eq!(frame.pixels, vec![(255, 0, 0)]);
    assert!(source.finished);
    assert!(!source.needs_read());
}

#[test]
fn blank_source_repeats_placeholder() {
    let mut source = Source::new(None, 30, false);
    assert_eq!(source.kind, SourceKind::Blank);
    assert!(!source.needs_read());
    let first = {
        let f = source.next_frame(FrameFetch::NotNeeded);
        (f.width, f.height, f.pixels.clone())
    };
    let second = {
        let f = source.next_frame(FrameFetch::NotNeeded);
        (f.width, f.height, f.pixels.clone())
    };
    assert_eq!(first, (1, 1, vec![(0, 0, 0)]));
    assert_eq!(first, second);
}

#[test]
fn pause_replays_same_frame() {
    let locator = chars("video.mp4");
    let mut source = Source::new(Some(&locator), 24, false);
    let rec = one_pixel_bmp(0, 255, 0);
    source.next_frame(FrameFetch::Bytes(rec));
    source.toggle_pause();
    assert!(source.paused);
    assert!(!source.needs_read());
    let at_pause = source.last_frame.pixels.clone();
    for _ in 0..5 {
        let f = source.next_frame(FrameFetch::NotNeeded);
        assert_eq!(f.pixels, at_pause);
        assert_eq!(f.pixels, vec![(0, 255, 0)]);
    }
    source.toggle_pause();
    assert!(!source.paused);
    assert!(source.needs_read());
}

#[test]
fn malformed_record_keeps_last_frame() {
    let locator = chars("video.mp4");
    let mut source = Source::new(Some(&locator), 30, false);
    source.next_frame(FrameFetch::Bytes(one_pixel_bmp(0, 0, 255)));
    let garbage = vec![1u8, 2, 3, 4, 5, 6, 7, 8];
    let f = source.next_frame(FrameFetch::Bytes(garbage));
    assert_eq!(f.pixels, vec![(255, 0, 0)]);
    assert!(source.finished);
}

#[test]
fn locator_classification() {
    assert!(is_remote_locator(&chars("https://example.com/v")));
    assert!(is_remote_locator(&chars("http://host/x")));
    assert!(is_remote_locator(&chars("a http b")));
    assert!(!is_remote_locator(&chars("video.mp4")));
    assert!(!is_remote_locator(&chars("htt")));
    assert!(!is_remote_locator(&chars("")));
    let remote = chars("https://example.com/v");
    assert_eq!(Source::new(Some(&remote), 30, false).kind, SourceKind::Remote);
    let local = chars("clip.mkv");
    assert_eq!(Source::new(Some(&local), 30, false).kind, SourceKind::File);
}

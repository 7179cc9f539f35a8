use async_compression::tokio::bufread::GzipEncoder;
use oracles::source::{decode_frames, read_file, source, SourceError, SourceItem};
use tokio::io::AsyncReadExt;

fn gzip(data: &[u8]) -> Vec<u8> {
    let mut encoder = GzipEncoder::new(data);
    let mut out = Vec::new();
    futures::executor::block_on(encoder.read_to_end(&mut out)).expect("gzip");
    out
}

fn framed(frames: &[&[u8]]) -> Vec<u8> {
    let mut out = Vec::new();
    for frame in frames {
        out.extend_from_slice(&(frame.len() as u32).to_be_bytes());
        out.extend_from_slice(frame);
    }
    out
}

fn heartbeat_file(name: &str, count: usize) -> Vec<u8> {
    let payloads: Vec<Vec<u8>> = (0..count)
        .map(|i| format!("{name}:{i}").into_bytes())
        .collect();
    let refs: Vec<&[u8]> = payloads.iter().map(|p| p.as_slice()).collect();
    gzip(&framed(&refs))
}

#[test]
fn test_multi_read() {
    let first = heartbeat_file("cell_heartbeat.1658832527866.gz", 3);
    let second = heartbeat_file("cell_heartbeat.1658834120042.gz", 5);
    let stream = source(&vec![Ok(first.clone()), Ok(second.clone())]);
    let p1_stream = source(&vec![Ok(first)]);
    let p2_stream = source(&vec![Ok(second)]);

    let p1_count = p1_stream.len();
    let p2_count = p2_stream.len();
    let multi_count = stream.len();

    assert_eq!(multi_count, p1_count + p2_count);
    assert_eq!(multi_count, 8);
}

#[test]
fn frames_come_out_in_order() {
    let data = framed(&[b"abc", b"", b"hello"]);
    let items = decode_frames(&data, true);
    assert_eq!(items, vec![Ok(b"abc".to_vec()), Ok(Vec::new()), Ok(b"hello".to_vec())]);
}

#[test]
fn empty_data_has_no_items() {
    assert_eq!(decode_frames(&[], true), Vec::<SourceItem>::new());
}

#[test]
fn oversized_frame_is_refused() {
    let mut data = framed(&[b"ok"]);
    data.extend_from_slice(&[0, 0x80, 0, 1]);
    data.extend_from_slice(&[1, 2, 3]);
    let items = decode_frames(&data, true);
    assert_eq!(items, vec![Ok(b"ok".to_vec()), Err(SourceError::FrameTooLarge)]);
}

#[test]
fn largest_frame_length_is_accepted_when_complete() {
    // 8 MiB exactly is allowed; with too few bytes after it the data is incomplete.
    let data = vec![0, 0x80, 0, 0, 1, 2];
    assert_eq!(decode_frames(&data, true), vec![Err(SourceError::BytesRemaining)]);
}

#[test]
fn truncated_frame_is_an_error() {
    let mut data = framed(&[b"one"]);
    data.extend_from_slice(&[0, 0, 0, 9, 1, 2]);
    assert_eq!(
        decode_frames(&data, true),
        vec![Ok(b"one".to_vec()), Err(SourceError::BytesRemaining)]
    );
    let short_header = vec![0, 0];
    assert_eq!(decode_frames(&short_header, true), vec![Err(SourceError::BytesRemaining)]);
}

#[test]
fn trailing_header_alone_is_dropped() {
    let mut data = framed(&[b"one"]);
    data.extend_from_slice(&[0, 0, 0, 9]);
    assert_eq!(decode_frames(&data, true), vec![Ok(b"one".to_vec())]);
}

#[test]
fn broken_stream_ends_with_decompress_error() {
    let data = framed(&[b"one", b"two"]);
    assert_eq!(
        decode_frames(&data[..data.len() - 1], false),
        vec![Ok(b"one".to_vec()), Err(SourceError::Decompress)]
    );
}

#[test]
fn compressed_file_is_read() {
    let file = gzip(&framed(&[b"alpha", b"beta"]));
    assert_eq!(read_file(&file), vec![Ok(b"alpha".to_vec()), Ok(b"beta".to_vec())]);
}

#[test]
fn damaged_file_ends_with_error() {
    let file = gzip(&framed(&[b"alpha", b"beta"]));
    let truncated = &file[..file.len() - 6];
    let items = read_file(truncated);
    assert_eq!(items.last(), Some(&Err(SourceError::Decompress)));
    assert!(read_file(b"not gzip at all").last() == Some(&Err(SourceError::Decompress)));
}

#[test]
fn unopened_file_yields_its_error_then_next_file() {
    let file = gzip(&framed(&[b"x"]));
    let items = source(&vec![Err("no such file".to_string()), Ok(file)]);
    assert_eq!(
        items,
        vec![Err(SourceError::Open("no such file".to_string())), Ok(b"x".to_vec())]
    );
}

//! Reading report files: each file is gzip-compressed and holds a sequence of
//! length-delimited frames, a 4-byte big-endian length followed by that many
//! bytes. A source over several files yields the items of each file in turn:
//! its frames, and at most one error, after which the file yields nothing more.

use vstd::prelude::*;
use vstd::slice::{slice_subrange, slice_to_vec};
use async_compression::tokio::bufread::GzipDecoder;
use tokio::io::AsyncReadExt;

verus! {

/// Length of the header that precedes each frame.
pub const FRAME_HEADER_LEN: usize = 4;

/// Frames longer than this (8 MiB) are refused.
pub const MAX_FRAME_LEN: u64 = 8388608;

/// Why a file stopped yielding frames.
#[derive(Debug, PartialEq, Eq)]
pub enum SourceError {
    /// The file could not be opened; the message says why.
    Open(String),
    /// The compressed data is damaged or truncated.
    Decompress,
    /// A frame header announces more than `MAX_FRAME_LEN` bytes.
    FrameTooLarge,
    /// The data ends inside a frame.
    BytesRemaining,
}

/// One item of a source: a frame or the error that ends a file.
pub type SourceItem = Result<Vec<u8>, SourceError>;

/// The length that a frame header announces: its 4 bytes read as a big-endian
/// number.
pub open spec fn frame_len(header: Seq<u8>) -> nat {
    header[0] as nat * 16777216 + header[1] as nat * 65536 + header[2] as nat * 256 + header[3] as nat
}

/// How a stream that ends after `buf` ends: quietly when nothing is left, with
/// an error when bytes are left or the stream broke off.
pub open spec fn stream_end(leftover: bool, complete: bool) -> Seq<Result<Seq<u8>, SourceError>> {
    if !complete {
        seq![Err(SourceError::Decompress)]
    } else if leftover {
        seq![Err(SourceError::BytesRemaining)]
    } else {
        Seq::empty()
    }
}

/// The items of decompressed data `buf`. `complete` tells whether the
/// decompression reached the end of the data; when it did not, the frames that
/// lie wholly in `buf` are followed by a decompression error. A header that
/// announces an oversized frame ends the items with an error as soon as it is
/// read. A header with none of its frame's bytes after it at the very end of
/// complete data is dropped silently; any other incomplete frame is an error.
pub open spec fn frame_items(buf: Seq<u8>, complete: bool) -> Seq<Result<Seq<u8>, SourceError>>
    decreases buf.len(),
{
    if buf.len() < FRAME_HEADER_LEN {
        stream_end(buf.len() > 0, complete)
    } else if frame_len(buf) > MAX_FRAME_LEN {
        seq![Err(SourceError::FrameTooLarge)]
    } else if buf.len() < FRAME_HEADER_LEN + frame_len(buf) {
        stream_end(buf.len() > FRAME_HEADER_LEN, complete)
    } else {
        seq![Ok(buf.subrange(FRAME_HEADER_LEN as int, FRAME_HEADER_LEN + frame_len(buf)))]
            + frame_items(buf.skip(FRAME_HEADER_LEN + frame_len(buf)), complete)
    }
}

/// The view of an item, its frame taken as a sequence of bytes.
pub open spec fn item_view(item: SourceItem) -> Result<Seq<u8>, SourceError> {
    match item {
        Ok(frame) => Ok(frame@),
        Err(e) => Err(e),
    }
}

/// The view of a list of items.
pub open spec fn items_view(items: Seq<SourceItem>) -> Seq<Result<Seq<u8>, SourceError>> {
    items.map_values(|item: SourceItem| item_view(item))
}

/// What gzip decompression of `data` gives: the bytes decoded, and whether the
/// decoding reached the end of the compressed data without error (when it did
/// not, the bytes are those decoded before the error).
pub uninterp spec fn gzip_decoded(data: Seq<u8>) -> (Seq<u8>, bool);

/// Decompresses gzip data with `async_compression`'s `GzipDecoder`, reading it
/// to the end with tokio's `read_to_end`. The result is named by
/// `gzip_decoded`: the bytes read (on an error, those read before it, as
/// `read_to_end` documents) and whether the read succeeded.
#[verifier::external_body]
fn gunzip(data: &[u8]) -> (decoded: (Vec<u8>, bool))
    ensures
        (decoded.0@, decoded.1) == gzip_decoded(data@),
{
    let mut decoder = GzipDecoder::new(data);
    let mut out = Vec::new();
    let done = futures::executor::block_on(decoder.read_to_end(&mut out)).is_ok();
    (out, done)
}

proof fn lemma_push_view(items: Seq<SourceItem>, item: SourceItem)
    ensures
        items_view(items.push(item)) == items_view(items).push(item_view(item)),
{
    assert(items_view(items.push(item)) =~= items_view(items).push(item_view(item)));
}

fn end_items(items: &mut Vec<SourceItem>, leftover: bool, complete: bool)
    ensures
        items_view(final(items)@) == items_view(old(items)@) + stream_end(leftover, complete),
{
    proof {
        assert(items_view(old(items)@) + Seq::<Result<Seq<u8>, SourceError>>::empty() =~= items_view(old(items)@));
    }
    if !complete {
        proof { lemma_push_view(items@, Err(SourceError::Decompress)); }
        items.push(Err(SourceError::Decompress));
    } else if leftover {
        proof { lemma_push_view(items@, Err(SourceError::BytesRemaining)); }
        items.push(Err(SourceError::BytesRemaining));
    }
}

/// Splits decompressed data into its items; `complete` tells whether the
/// decompression reached the end of the data.
pub fn decode_frames(data: &[u8], complete: bool) -> (items: Vec<SourceItem>)
    ensures
        items_view(items@) == frame_items(data@, complete),
{
    let mut items: Vec<SourceItem> = Vec::new();
    let len = data.len();
    let mut pos: usize = 0;
    proof {
        assert(data@.skip(0) =~= data@);
        assert(items_view(items@) =~= Seq::<Result<Seq<u8>, SourceError>>::empty());
    }
    loop
        invariant
            len == data@.len(),
            pos <= len,
            items_view(items@) + frame_items(data@.skip(pos as int), complete) == frame_items(data@, complete),
        decreases len - pos,
    {
        let ghost rest = data@.skip(pos as int);
        let ghost before = items_view(items@);
        let remaining = len - pos;
        if remaining < FRAME_HEADER_LEN {
            end_items(&mut items, remaining > 0, complete);
            return items;
        }
        let n: u64 = data[pos] as u64 * 16777216 + data[pos + 1] as u64 * 65536
            + data[pos + 2] as u64 * 256 + data[pos + 3] as u64;
        assert(n == frame_len(rest));
        if n > MAX_FRAME_LEN {
            proof { lemma_push_view(items@, Err(SourceError::FrameTooLarge)); }
            items.push(Err(SourceError::FrameTooLarge));
            return items;
        }
        let n = n as usize;
        if remaining - FRAME_HEADER_LEN < n {
            end_items(&mut items, remaining > FRAME_HEADER_LEN, complete);
            return items;
        }
        let start = pos + FRAME_HEADER_LEN;
        let end = start + n;
        let frame = slice_to_vec(slice_subrange(data, start, end));
        proof {
            assert(frame@ =~= rest.subrange(FRAME_HEADER_LEN as int, FRAME_HEADER_LEN + frame_len(rest)));
            assert(rest.skip(FRAME_HEADER_LEN + frame_len(rest)) =~= data@.skip(end as int));
            lemma_push_view(items@, Ok(frame));
        }
        items.push(Ok(frame));
        pos = end;
    }
}

/// The items of one compressed file.
pub open spec fn file_items(data: Seq<u8>) -> Seq<Result<Seq<u8>, SourceError>> {
    frame_items(gzip_decoded(data).0, gzip_decoded(data).1)
}

/// The items of one file as it was read: its frames, or, when it could not be
/// opened, that error alone.
pub open spec fn opened_file_items(file: Result<Vec<u8>, String>) -> Seq<Result<Seq<u8>, SourceError>> {
    match file {
        Ok(data) => file_items(data@),
        Err(message) => seq![Err(SourceError::Open(message))],
    }
}

/// The items of several files: those of each file in turn.
pub open spec fn source_items(files: Seq<Result<Vec<u8>, String>>) -> Seq<Result<Seq<u8>, SourceError>>
    decreases files.len(),
{
    if files.len() == 0 {
        Seq::empty()
    } else {
        source_items(files.drop_last()) + opened_file_items(files.last())
    }
}

/// Decompresses one file and splits it into its items.
pub fn read_file(data: &[u8]) -> (items: Vec<SourceItem>)
    ensures
        items_view(items@) == file_items(data@),
{
    let (decoded, complete) = gunzip(data);
    decode_frames(&decoded, complete)
}

/// The items of several files, in order: for each file its frames, or the
/// error that kept it from being opened. Each entry of `files` is the content
/// of a file or the reason it could not be opened.
pub fn source(files: &Vec<Result<Vec<u8>, String>>) -> (items: Vec<SourceItem>)
    ensures
        items_view(items@) == source_items(files@),
{
    let mut items: Vec<SourceItem> = Vec::new();
    let mut i: usize = 0;
    proof {
        assert(files@.take(0) =~= Seq::<Result<Vec<u8>, String>>::empty());
        assert(items_view(items@) =~= Seq::<Result<Seq<u8>, SourceError>>::empty());
    }
    while i < files.len()
        invariant
            i <= files@.len(),
            items_view(items@) == source_items(files@.take(i as int)),
        decreases files@.len() - i,
    {
        let mut next: Vec<SourceItem> = match &files[i] {
            Ok(data) => read_file(data),
            Err(message) => {
                let mut one: Vec<SourceItem> = Vec::new();
                let item: SourceItem = Err(SourceError::Open(message.clone()));
                proof { lemma_push_view(one@, item); }
                one.push(item);
                proof { assert(items_view(Seq::<SourceItem>::empty()) =~= Seq::<Result<Seq<u8>, SourceError>>::empty()); }
                one
            },
        };
        let ghost prev = items@;
        let ghost added = next@;
        assert(items_view(added) == opened_file_items(files@[i as int]));
        items.append(&mut next);
        proof {
            assert(items_view(prev + added) =~= items_view(prev) + items_view(added));
            assert(files@.take(i + 1).drop_last() =~= files@.take(i as int));
        }
        i = i + 1;
    }
    proof {
        assert(files@.take(files@.len() as int) =~= files@);
    }
    items
}

/// Reading several files in one source gives the items of each part read on
/// its own, one after the other; in particular the number of items adds up.
pub proof fn lemma_source_concat(first: Seq<Result<Vec<u8>, String>>, second: Seq<Result<Vec<u8>, String>>)
    ensures
        source_items(first + second) == source_items(first) + source_items(second),
        source_items(first + second).len() == source_items(first).len() + source_items(second).len(),
    decreases second.len(),
{
    if second.len() == 0 {
        assert(first + second =~= first);
        assert(source_items(first) + source_items(second) =~= source_items(first));
    } else {
        lemma_source_concat(first, second.drop_last());
        assert((first + second).drop_last() =~= first + second.drop_last());
        assert((first + second).last() == second.last());
        assert(source_items(first + second) =~= source_items(first) + source_items(second));
    }
}

/// The 4-byte big-endian header announcing a frame of `n` bytes.
pub open spec fn frame_header(n: nat) -> Seq<u8> {
    seq![
        (n / 16777216) as u8,
        ((n / 65536) % 256) as u8,
        ((n / 256) % 256) as u8,
        (n % 256) as u8,
    ]
}

/// Frames laid out as the files hold them: each preceded by its header.
pub open spec fn encode_frames(frames: Seq<Seq<u8>>) -> Seq<u8>
    decreases frames.len(),
{
    if frames.len() == 0 {
        Seq::empty()
    } else {
        frame_header(frames[0].len()) + frames[0] + encode_frames(frames.drop_first())
    }
}

proof fn lemma_frame_header(n: nat)
    requires
        n <= MAX_FRAME_LEN,
    ensures
        frame_header(n).len() == FRAME_HEADER_LEN,
        frame_len(frame_header(n)) == n,
{
    let h = frame_header(n);
    let m1 = n / 256;
    let m2 = m1 / 256;
    assert(n == 256 * m1 + n % 256);
    assert(m1 == 256 * m2 + m1 % 256);
    assert(m2 == n / 65536) by {
        vstd::arithmetic::div_mod::lemma_div_denominator(n as int, 256, 256);
    }
    assert(m2 / 256 == n / 16777216) by {
        vstd::arithmetic::div_mod::lemma_div_denominator(m1 as int, 256, 256);
        vstd::arithmetic::div_mod::lemma_div_denominator(n as int, 256, 65536);
    }
    assert(m2 == 256 * (m2 / 256) + m2 % 256);
    assert(m2 < 256 * 256);
    assert(h[0] as nat == m2 / 256);
    assert(h[1] as nat == m2 % 256);
    assert(h[2] as nat == m1 % 256);
    assert(h[3] as nat == n % 256);
}

/// Frames no longer than `MAX_FRAME_LEN`, each preceded by its header, are read
/// back exactly as they were laid out, with no error.
pub proof fn lemma_frames_round_trip(frames: Seq<Seq<u8>>)
    requires
        forall|i: int| 0 <= i < frames.len() ==> (#[trigger] frames[i]).len() <= MAX_FRAME_LEN,
    ensures
        frame_items(encode_frames(frames), true) == frames.map_values(|f: Seq<u8>| Ok::<Seq<u8>, SourceError>(f)),
    decreases frames.len(),
{
    if frames.len() == 0 {
        assert(frames.map_values(|f: Seq<u8>| Ok::<Seq<u8>, SourceError>(f)) =~= Seq::empty());
    } else {
        let f = frames[0];
        let rest = frames.drop_first();
        let buf = encode_frames(frames);
        lemma_frame_header(f.len());
        let h = frame_header(f.len());
        assert(buf =~= h + f + encode_frames(rest));
        assert(buf.subrange(0, 4) =~= h);
        assert(frame_len(buf) == frame_len(h));
        assert(buf.subrange(FRAME_HEADER_LEN as int, FRAME_HEADER_LEN + f.len()) =~= f);
        assert(buf.skip(FRAME_HEADER_LEN + f.len()) =~= encode_frames(rest));
        assert forall|i: int| 0 <= i < rest.len() implies (#[trigger] rest[i]).len() <= MAX_FRAME_LEN by {
            assert(rest[i] == frames[i + 1]);
        }
        lemma_frames_round_trip(rest);
        assert(frames.map_values(|f: Seq<u8>| Ok::<Seq<u8>, SourceError>(f))
            =~= seq![Ok::<Seq<u8>, SourceError>(f)] + rest.map_values(|f: Seq<u8>| Ok::<Seq<u8>, SourceError>(f)));
    }
}

/// Frames laid out with their headers and followed by any bytes are read back
/// first, each whole and in order, before whatever the following bytes give.
pub proof fn lemma_frames_then_rest(frames: Seq<Seq<u8>>, rest: Seq<u8>, complete: bool)
    requires
        forall|i: int| 0 <= i < frames.len() ==> (#[trigger] frames[i]).len() <= MAX_FRAME_LEN,
    ensures
        frame_items(encode_frames(frames) + rest, complete)
            == frames.map_values(|f: Seq<u8>| Ok::<Seq<u8>, SourceError>(f)) + frame_items(rest, complete),
    decreases frames.len(),
{
    if frames.len() == 0 {
        assert(encode_frames(frames) + rest =~= rest);
        assert(frames.map_values(|f: Seq<u8>| Ok::<Seq<u8>, SourceError>(f)) + frame_items(rest, complete)
            =~= frame_items(rest, complete));
    } else {
        let f = frames[0];
        let others = frames.drop_first();
        let buf = encode_frames(frames) + rest;
        lemma_frame_header(f.len());
        let h = frame_header(f.len());
        assert(buf =~= h + f + (encode_frames(others) + rest));
        assert(buf.subrange(0, 4) =~= h);
        assert(frame_len(buf) == frame_len(h));
        assert(buf.subrange(FRAME_HEADER_LEN as int, FRAME_HEADER_LEN + f.len()) =~= f);
        assert(buf.skip(FRAME_HEADER_LEN + f.len()) =~= encode_frames(others) + rest);
        assert forall|i: int| 0 <= i < others.len() implies (#[trigger] others[i]).len() <= MAX_FRAME_LEN by {
            assert(others[i] == frames[i + 1]);
        }
        lemma_frames_then_rest(others, rest, complete);
        assert(frames.map_values(|f: Seq<u8>| Ok::<Seq<u8>, SourceError>(f))
            =~= seq![Ok::<Seq<u8>, SourceError>(f)] + others.map_values(|f: Seq<u8>| Ok::<Seq<u8>, SourceError>(f)));
        assert(frame_items(buf, complete) =~= seq![Ok::<Seq<u8>, SourceError>(f)] + frame_items(encode_frames(others) + rest, complete));
    }
}

/// Data that broke off yields Ok items only, then exactly one error, as its
/// last item: the decompression error, unless a frame announced too much.
pub proof fn lemma_broken_data_ends_with_error(buf: Seq<u8>)
    ensures
        frame_items(buf, false).len() >= 1,
        frame_items(buf, false).last() is Err,
        forall|i: int| 0 <= i < frame_items(buf, false).len() - 1 ==> (#[trigger] frame_items(buf, false)[i]) is Ok,
    decreases buf.len(),
{
    if buf.len() < FRAME_HEADER_LEN || frame_len(buf) > MAX_FRAME_LEN || buf.len() < FRAME_HEADER_LEN + frame_len(buf) {
    } else {
        let n = frame_len(buf);
        let rest = buf.skip(FRAME_HEADER_LEN + n);
        lemma_broken_data_ends_with_error(rest);
        let head = seq![Ok::<Seq<u8>, SourceError>(buf.subrange(FRAME_HEADER_LEN as int, FRAME_HEADER_LEN + n))];
        assert(frame_items(buf, false) == head + frame_items(rest, false));
        assert forall|i: int| 0 <= i < frame_items(buf, false).len() - 1 implies (#[trigger] frame_items(buf, false)[i]) is Ok by {
            if i > 0 {
                assert(frame_items(buf, false)[i] == frame_items(rest, false)[i - 1]);
            }
        }
    }
}

/// Reading a compressed file yields, first, every frame lying wholly in the
/// bytes its decompression gives, each whole and in order, even when the
/// decompression broke off after them; when it broke off, the last item is an
/// error and every item before it a frame.
pub proof fn lemma_file_frames_before_damage(data: Seq<u8>, frames: Seq<Seq<u8>>, rest: Seq<u8>)
    requires
        forall|i: int| 0 <= i < frames.len() ==> (#[trigger] frames[i]).len() <= MAX_FRAME_LEN,
        gzip_decoded(data).0 == encode_frames(frames) + rest,
    ensures
        file_items(data).len() >= frames.len(),
        forall|i: int| 0 <= i < frames.len() ==> #[trigger] file_items(data)[i] == Ok::<Seq<u8>, SourceError>(frames[i]),
        !gzip_decoded(data).1 ==> file_items(data).len() > frames.len() && file_items(data).last() is Err,
{
    let complete = gzip_decoded(data).1;
    lemma_frames_then_rest(frames, rest, complete);
    assert(file_items(data) == frames.map_values(|f: Seq<u8>| Ok::<Seq<u8>, SourceError>(f)) + frame_items(rest, complete));
    if !complete {
        lemma_broken_data_ends_with_error(rest);
    }
}

/// A compressed file whose decompression breaks off yields an error as its
/// last item, and frames before it.
pub proof fn lemma_damaged_file_ends_with_error(data: Seq<u8>)
    requires
        !gzip_decoded(data).1,
    ensures
        file_items(data).len() >= 1,
        file_items(data).last() is Err,
        forall|i: int| 0 <= i < file_items(data).len() - 1 ==> (#[trigger] file_items(data)[i]) is Ok,
{
    lemma_broken_data_ends_with_error(gzip_decoded(data).0);
}

} // verus!

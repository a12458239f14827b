//! The frame source: the length-prefixed record protocol of the decoder's
//! byte stream, and the playback state machine that owns the last frame.

use vstd::prelude::*;

use crate::raster::{blank_frame, Raster};

verus! {

/// The total record length declared by a 6-byte header: the little-endian
/// 32-bit value in bytes 2 to 5 (header included in the count).
pub open spec fn spec_record_len(b: Seq<u8>) -> int {
    b[2] + 0x100 * b[3] + 0x10000 * b[4] + 0x1000000 * b[5]
}

/// Decodes the total record length from a record header.
pub fn record_total_len(header: &Vec<u8>) -> (r: u32)
    requires
        header@.len() >= 6,
    ensures
        r == spec_record_len(header@),
{
    (header[2] as u32) + 0x100 * (header[3] as u32) + 0x10000 * (header[4] as u32) + 0x1000000
        * (header[5] as u32)
}

/// What one attempt to pull a record out of the stream yields.
pub enum ReadOutcome {
    /// One whole record: its full `length` bytes, header included.
    Record(Vec<u8>),
    /// The header declares a length smaller than the header itself.
    Malformed,
    /// The stream ended before a whole record was available.
    Finished,
}

/// A framed byte stream with a read position.
pub struct FrameStream {
    pub data: Vec<u8>,
    pub pos: usize,
}

impl FrameStream {
    pub open spec fn wf(&self) -> bool {
        self.pos <= self.data@.len()
    }

    /// Whether a full 6-byte header is available at the position.
    pub open spec fn header_available(&self) -> bool {
        self.pos + 6 <= self.data@.len()
    }

    /// The total length the header at the position declares.
    pub open spec fn declared_len(&self) -> int {
        spec_record_len(self.data@.subrange(self.pos as int, self.pos + 6))
    }

    /// Whether a whole well-formed record starts at the position.
    pub open spec fn record_available(&self) -> bool {
        &&& self.header_available()
        &&& self.declared_len() >= 6
        &&& self.pos + self.declared_len() <= self.data@.len()
    }

    /// Opens a stream over `data`, positioned at its start.
    pub fn new(data: Vec<u8>) -> (r: FrameStream)
        ensures
            r.wf(),
            r.data@ == data@,
            r.pos == 0,
    {
        FrameStream { data, pos: 0 }
    }

    /// Pulls the next record: an exact-length read of the 6-byte header,
    /// then an exact-length read of the rest of the declared length. A
    /// short read at either stage means the stream is finished and moves
    /// nothing; a successful read consumes exactly the declared length,
    /// leaving the position at the next record boundary.
    pub fn read_record(&mut self) -> (r: ReadOutcome)
        requires
            old(self).wf(),
        ensures
            final(self).wf(),
            final(self).data@ == old(self).data@,
            !old(self).header_available() ==> (r is Finished && final(self).pos == old(self).pos),
            old(self).header_available() && old(self).declared_len() < 6 ==> (r is Malformed
                && final(self).pos == old(self).pos),
            old(self).header_available() && old(self).declared_len() >= 6
                && !old(self).record_available() ==> (r is Finished
                && final(self).pos == old(self).pos),
            old(self).record_available() ==> (r matches ReadOutcome::Record(rec)
                && rec@ == old(self).data@.subrange(
                old(self).pos as int,
                old(self).pos + old(self).declared_len(),
            ) && final(self).pos == old(self).pos + old(self).declared_len()),
    {
        let len = self.data.len();
        if len - self.pos < 6 {
            return ReadOutcome::Finished;
        }
        let mut header: Vec<u8> = Vec::new();
        let mut i: usize = 0;
        while i < 6
            invariant
                i <= 6,
                self == old(self),
                len == self.data@.len(),
                self.pos + 6 <= self.data@.len(),
                header@ == self.data@.subrange(self.pos as int, self.pos + i),
            decreases 6 - i,
        {
            header.push(self.data[self.pos + i]);
            i = i + 1;
            assert(header@ =~= self.data@.subrange(self.pos as int, self.pos + i));
        }
        let total = record_total_len(&header);
        if total < 6 {
            return ReadOutcome::Malformed;
        }
        if (total as usize) > len - self.pos {
            return ReadOutcome::Finished;
        }
        let mut rec: Vec<u8> = Vec::new();
        let mut j: usize = 0;
        while j < total as usize
            invariant
                j <= total,
                self == old(self),
                len == self.data@.len(),
                self.pos + total <= self.data@.len(),
                rec@ == self.data@.subrange(self.pos as int, self.pos + j),
            decreases total - j,
        {
            rec.push(self.data[self.pos + j]);
            j = j + 1;
            assert(rec@ =~= self.data@.subrange(self.pos as int, self.pos + j));
        }
        self.pos = self.pos + total as usize;
        ReadOutcome::Record(rec)
    }
}

/// The name of what image's BMP decoding path returns on given bytes: the
/// result depends on the bytes alone.
pub uninterp spec fn bmp_decoded(bytes: Seq<u8>) -> Option<(u32, u32, Seq<(u8, u8, u8)>)>;

/// Relies on `image::ImageReader::with_format(.., Bmp).decode()` and
/// `DynamicImage::to_rgb8`: decoding is a pure function of the bytes, and a
/// successfully decoded RGB buffer holds exactly `width * height` pixels.
#[verifier::external_body]
fn decode_bmp(bytes: &Vec<u8>) -> (r: Option<Raster>)
    ensures
        r is Some <==> bmp_decoded(bytes@) is Some,
        r matches Some(ras) ==> bmp_decoded(bytes@) == Some(
            (ras.width, ras.height, ras.pixels@),
        ) && ras.pixels@.len() == (ras.width as int) * (ras.height as int),
{
    let cursor = std::io::Cursor::new(bytes.clone());
    match image::ImageReader::with_format(cursor, image::ImageFormat::Bmp).decode() {
        Ok(img) => {
            let rgb = img.to_rgb8();
            let (width, height) = (rgb.width(), rgb.height());
            let pixels = rgb.pixels().map(|p| (p.0[0], p.0[1], p.0[2])).collect();
            Some(Raster { width, height, pixels })
        },
        Err(_) => None,
    }
}

/// Whether a locator names a remote source: it contains "http".
pub open spec fn spec_is_remote(s: Seq<char>) -> bool {
    exists|i: int|
        0 <= i && i + 4 <= s.len() && #[trigger] s.subrange(i, i + 4) == seq!['h', 't', 't', 'p']
}

/// Tests whether the locator contains the remote marker "http".
pub fn is_remote_locator(s: &Vec<char>) -> (r: bool)
    ensures
        r == spec_is_remote(s@),
{
    if s.len() < 4 {
        proof {
            assert(!spec_is_remote(s@));
        }
        return false;
    }
    let mut i: usize = 0;
    while i <= s.len() - 4
        invariant
            s@.len() >= 4,
            i <= s@.len() - 3,
            forall|k: int|
                0 <= k < i ==> #[trigger] s@.subrange(k, k + 4) != seq!['h', 't', 't', 'p'],
        decreases s@.len() - i,
    {
        if s[i] == 'h' && s[i + 1] == 't' && s[i + 2] == 't' && s[i + 3] == 'p' {
            proof {
                assert(s@.subrange(i as int, i + 4) =~= seq!['h', 't', 't', 'p']);
            }
            return true;
        }
        proof {
            assert(s@.subrange(i as int, i + 4) != seq!['h', 't', 't', 'p']) by {
                assert(s@.subrange(i as int, i + 4)[0] == s@[i as int]);
                assert(s@.subrange(i as int, i + 4)[1] == s@[i + 1]);
                assert(s@.subrange(i as int, i + 4)[2] == s@[i + 2]);
                assert(s@.subrange(i as int, i + 4)[3] == s@[i + 3]);
            }
        }
        i = i + 1;
    }
    false
}

/// The shape of the active stream: no stream at all, a local decoder, or a
/// resolver feeding a decoder.
#[derive(Clone, Copy, Debug, PartialEq, Eq, Structural)]
pub enum SourceKind {
    Blank,
    File,
    Remote,
}

/// The kind of source a locator opens.
pub open spec fn spec_locator_kind(locator: Option<Seq<char>>) -> SourceKind {
    match locator {
        Option::None => SourceKind::Blank,
        Option::Some(s) => if spec_is_remote(s) {
            SourceKind::Remote
        } else {
            SourceKind::File
        },
    }
}

/// What the caller hands `next_frame` for this tick: nothing to read (no
/// stream, paused, or already finished), one whole record's bytes, or the
/// end of the stream.
pub enum FrameFetch {
    NotNeeded,
    Bytes(Vec<u8>),
    End,
}

/// The playback state around the decoder stream: whether frames should
/// still be pulled, and the last good frame, replayed whenever no new
/// frame arrives.
pub struct Source {
    pub kind: SourceKind,
    pub paused: bool,
    pub finished: bool,
    pub framerate: u32,
    pub finite: bool,
    pub last_frame: Raster,
}

impl Source {
    pub open spec fn wf(&self) -> bool {
        self.last_frame.wf()
    }

    /// Opens a source: no locator gives the blank placeholder source, a
    /// locator with a remote marker the resolver-fed decoder, any other
    /// locator the local decoder. Playback starts unpaused with the
    /// placeholder frame; `finite` records that the caller decodes as fast
    /// as the stream allows rather than at the real-time pace.
    pub fn new(locator: Option<&Vec<char>>, framerate: u32, finite: bool) -> (r: Source)
        ensures
            r.wf(),
            r.kind == spec_locator_kind(
                match locator {
                    Option::None => Option::None,
                    Option::Some(s) => Option::Some(s@),
                },
            ),
            !r.paused,
            !r.finished,
            r.framerate == framerate,
            r.finite == finite,
            crate::raster::is_blank_frame(&r.last_frame),
    {
        let kind = match locator {
            Option::None => SourceKind::Blank,
            Option::Some(s) => {
                if is_remote_locator(s) {
                    SourceKind::Remote
                } else {
                    SourceKind::File
                }
            },
        };
        Source {
            kind,
            paused: false,
            finished: false,
            framerate,
            finite,
            last_frame: blank_frame(),
        }
    }

    /// Whether the caller should pull bytes from the decoder stream before
    /// the next frame: only a live stream that is neither paused nor
    /// finished is read, so pausing never drains the pipe.
    pub fn needs_read(&self) -> (r: bool)
        ensures
            r == (self.kind != SourceKind::Blank && !self.paused && !self.finished),
    {
        match self.kind {
            SourceKind::Blank => false,
            _ => !self.paused && !self.finished,
        }
    }

    /// Flips the pause flag and changes nothing else.
    pub fn toggle_pause(&mut self)
        ensures
            final(self).paused == !old(self).paused,
            final(self).kind == old(self).kind,
            final(self).finished == old(self).finished,
            final(self).framerate == old(self).framerate,
            final(self).finite == old(self).finite,
            final(self).last_frame.same_image(&old(self).last_frame),
            old(self).wf() ==> final(self).wf(),
    {
        self.paused = !self.paused;
    }

    /// Yields the frame for this tick. When nothing was read (no stream,
    /// paused, or finished) the last frame is replayed unchanged; a record
    /// that decodes to a non-empty raster becomes the new last frame; the
    /// end of the stream, or a record that does not decode, marks the
    /// source finished and keeps the last frame intact.
    pub fn next_frame(&mut self, fetched: FrameFetch) -> (r: &Raster)
        requires
            old(self).wf(),
            old(self).paused || old(self).finished || old(self).kind == SourceKind::Blank
                ==> fetched is NotNeeded,
        ensures
            final(self).wf(),
            r.same_image(&final(self).last_frame),
            final(self).kind == old(self).kind,
            final(self).paused == old(self).paused,
            final(self).framerate == old(self).framerate,
            final(self).finite == old(self).finite,
            fetched is NotNeeded ==> final(self).finished == old(self).finished
                && final(self).last_frame.same_image(&old(self).last_frame),
            fetched is End ==> final(self).finished && final(self).last_frame.same_image(
                &old(self).last_frame,
            ),
            fetched matches FrameFetch::Bytes(b) ==> ({
                if spec_frame_accepted(b@) {
                    let (w, h, px) = bmp_decoded(b@)->Some_0;
                    &&& final(self).finished == old(self).finished
                    &&& final(self).last_frame.width == w
                    &&& final(self).last_frame.height == h
                    &&& final(self).last_frame.pixels@ == px
                } else {
                    final(self).finished && final(self).last_frame.same_image(
                        &old(self).last_frame,
                    )
                }
            }),
    {
        match fetched {
            FrameFetch::NotNeeded => {},
            FrameFetch::End => {
                self.finished = true;
            },
            FrameFetch::Bytes(b) => {
                match decode_bmp(&b) {
                    Some(ras) => {
                        if ras.width >= 1 && ras.height >= 1 {
                            self.last_frame = ras;
                        } else {
                            self.finished = true;
                        }
                    },
                    None => {
                        self.finished = true;
                    },
                }
            },
        }
        &self.last_frame
    }
}

/// Whether decoding these record bytes yields a frame the source accepts:
/// a successful decode with at least one pixel in each dimension.
pub open spec fn spec_frame_accepted(bytes: Seq<u8>) -> bool {
    match bmp_decoded(bytes) {
        Option::None => false,
        Option::Some((w, h, px)) => w >= 1 && h >= 1,
    }
}

} // verus!

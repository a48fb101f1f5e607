//! Low-level pieces of the codec: the in-memory byte stream, the header
//! codec, and the dispatch from a parsed header to a typed sample iterator.

use core::marker::PhantomData;

use vstd::prelude::*;

use crate::lowlevel::reader::{
    dispatch_supported, ReadError, SampleIteratorFormat, WavSampleIterator,
};
use crate::lowlevel::stream::{le16, le32, u16_le_bytes, u32_le_bytes, ByteStream};
use crate::sample::NumIO;
use crate::{desc_fits, desc_header, WavFileDesc};

pub mod reader;
pub mod stream;
pub mod writer;

verus! {

/// The audio format tag of a WAV header: a closed enumeration with an escape
/// case that preserves unrecognised 16-bit codes verbatim.
#[derive(Copy, Clone, Debug, Eq, PartialEq, Hash, Structural)]
pub enum AudioFormat {
    /// Integer PCM, code 1.
    PCMLinear,
    /// IEEE-float PCM, code 3.
    PCMFloat,
    /// Any other registered code, kept as it was read.
    Unknown(u16),
}

impl AudioFormat {
    /// The format a 16-bit code decodes to.
    pub open spec fn from_code(d: u16) -> AudioFormat {
        if d == 1 {
            AudioFormat::PCMLinear
        } else if d == 3 {
            AudioFormat::PCMFloat
        } else {
            AudioFormat::Unknown(d)
        }
    }

    /// The 16-bit code a format serializes to.
    pub open spec fn code(self) -> u16 {
        match self {
            AudioFormat::PCMLinear => 1,
            AudioFormat::PCMFloat => 3,
            AudioFormat::Unknown(x) => x,
        }
    }

    /// Decodes a 16-bit format code: 1 is integer PCM, 3 is float PCM, and
    /// any other code is kept as `Unknown`.
    pub fn from_u16(d: u16) -> (r: Self)
        ensures
            r == Self::from_code(d),
    {
        match d {
            1 => AudioFormat::PCMLinear,
            3 => AudioFormat::PCMFloat,
            x => AudioFormat::Unknown(x),
        }
    }

    /// Appends the two little-endian bytes of the format code to the sink.
    pub fn write(&self, writer: &mut ByteStream)
        requires
            old(writer).wf(),
        ensures
            final(writer).wf(),
            final(writer).pos == old(writer).pos,
            final(writer).bytes@ == old(writer).bytes@ + u16_le_bytes(self.code()),
    {
        let c: u16 = match self {
            AudioFormat::PCMLinear => 1,
            AudioFormat::PCMFloat => 3,
            AudioFormat::Unknown(x) => *x,
        };
        writer.push_u16_le(c);
    }

    /// The format tag a file of element type `T` is labelled with.  The
    /// integer types the dispatch table decodes map to integer PCM;
    /// floating-point data travels as bit patterns, so every other element
    /// type maps to `Unknown(0)`.
    pub(crate) fn from_type<T: NumIO>() -> (r: Self)
        ensures
            r == T::format_spec(),
    {
        T::format()
    }
}

/// The four bytes of the `"RIFF"` tag.
pub open spec fn riff_tag() -> Seq<u8> {
    seq![0x52u8, 0x49u8, 0x46u8, 0x46u8]
}

/// The four bytes of the `"WAVE"` tag.
pub open spec fn wave_tag() -> Seq<u8> {
    seq![0x57u8, 0x41u8, 0x56u8, 0x45u8]
}

/// The four bytes of the `"fmt "` tag.
pub open spec fn fmt_tag() -> Seq<u8> {
    seq![0x66u8, 0x6du8, 0x74u8, 0x20u8]
}

/// The four bytes of the `"data"` tag.
pub open spec fn data_tag() -> Seq<u8> {
    seq![0x64u8, 0x61u8, 0x74u8, 0x61u8]
}

/// The four bytes of `s` starting at `i`.
pub open spec fn tag4(s: Seq<u8>, i: int) -> Seq<u8> {
    s.subrange(i, i + 4)
}

/// The parsed fixed-layout header of a canonical WAV file.
#[derive(Copy, Clone, Debug, Eq, PartialEq, Hash, Structural)]
pub struct WavHeader {
    /// File size in bytes, minus 8 bytes.
    pub file_size: u32,
    /// Audio format.
    pub audio_format: AudioFormat,
    /// Number of channels.
    pub channels: u16,
    /// Sample rate.
    pub sample_rate: u32,
    /// Data throughput for real-time playback (bytes/s).
    pub bytes_per_sec: u32,
    /// Block size in bytes: channels times bytes per sample.
    pub bytes_per_block: u16,
    /// Bit size of the sample type.
    pub bits_per_sample: u16,
    /// Data block size (bytes).
    pub data_size: u32,
}

/// The header that a well-formed 44-byte region starting at `p` decodes to.
pub open spec fn header_fields(s: Seq<u8>, p: int) -> WavHeader {
    WavHeader {
        file_size: le32(s[p + 4], s[p + 5], s[p + 6], s[p + 7]),
        audio_format: AudioFormat::from_code(le16(s[p + 20], s[p + 21])),
        channels: le16(s[p + 22], s[p + 23]),
        sample_rate: le32(s[p + 24], s[p + 25], s[p + 26], s[p + 27]),
        bytes_per_sec: le32(s[p + 28], s[p + 29], s[p + 30], s[p + 31]),
        bytes_per_block: le16(s[p + 32], s[p + 33]),
        bits_per_sample: le16(s[p + 34], s[p + 35]),
        data_size: le32(s[p + 40], s[p + 41], s[p + 42], s[p + 43]),
    }
}

/// Parsing succeeds at `p`: at least 44 bytes remain and the four magic tags
/// stand at their fixed offsets.
pub open spec fn parse_ok(s: Seq<u8>, p: int) -> bool {
    &&& s.len() - p >= 44
    &&& tag4(s, p) == riff_tag()
    &&& tag4(s, p + 8) == wave_tag()
    &&& tag4(s, p + 12) == fmt_tag()
    &&& tag4(s, p + 36) == data_tag()
}

/// The exact error a failed parse at `p` reports: the first field read in
/// the fixed order to run short ends the parse with `UnexpectedEnd`, and the
/// first magic tag to differ ends it with that tag's error, carrying the
/// four bytes observed in its place.
pub open spec fn parse_err_matches(s: Seq<u8>, p: int, e: ReadError) -> bool {
    let n = s.len() - p;
    if n < 4 {
        e == ReadError::UnexpectedEnd
    } else if tag4(s, p) != riff_tag() {
        e matches ReadError::ExpectedRIFF(b) && b@ == tag4(s, p)
    } else if n < 12 {
        e == ReadError::UnexpectedEnd
    } else if tag4(s, p + 8) != wave_tag() {
        e matches ReadError::ExpectedWAVE(b) && b@ == tag4(s, p + 8)
    } else if n < 16 {
        e == ReadError::UnexpectedEnd
    } else if tag4(s, p + 12) != fmt_tag() {
        e matches ReadError::ExpectedFmt(b) && b@ == tag4(s, p + 12)
    } else if n < 40 {
        e == ReadError::UnexpectedEnd
    } else if tag4(s, p + 36) != data_tag() {
        e matches ReadError::ExpectedData(b) && b@ == tag4(s, p + 36)
    } else if n < 44 {
        e == ReadError::UnexpectedEnd
    } else {
        false
    }
}

/// The 40-byte serialization of a header: everything up to and including the
/// `"data"` tag, deliberately without the data size, which the streaming
/// encoder backpatches once it is known.
pub open spec fn header_prefix(h: WavHeader) -> Seq<u8> {
    riff_tag() + u32_le_bytes(h.file_size) + wave_tag() + fmt_tag() + u32_le_bytes(16)
        + u16_le_bytes(h.audio_format.code()) + u16_le_bytes(h.channels) + u32_le_bytes(
        h.sample_rate,
    ) + u32_le_bytes(h.bytes_per_sec) + u16_le_bytes(h.bytes_per_block) + u16_le_bytes(
        h.bits_per_sample,
    ) + data_tag()
}

/// Where each field of the serialized header stands: the 40-byte prefix laid
/// out piece by piece.
pub proof fn lemma_header_prefix_fields(h: WavHeader)
    ensures
        header_prefix(h).len() == 40,
        header_prefix(h).subrange(0, 4) == riff_tag(),
        header_prefix(h).subrange(4, 8) == u32_le_bytes(h.file_size),
        header_prefix(h).subrange(8, 12) == wave_tag(),
        header_prefix(h).subrange(12, 16) == fmt_tag(),
        header_prefix(h).subrange(16, 20) == u32_le_bytes(16),
        header_prefix(h).subrange(20, 22) == u16_le_bytes(h.audio_format.code()),
        header_prefix(h).subrange(22, 24) == u16_le_bytes(h.channels),
        header_prefix(h).subrange(24, 28) == u32_le_bytes(h.sample_rate),
        header_prefix(h).subrange(28, 32) == u32_le_bytes(h.bytes_per_sec),
        header_prefix(h).subrange(32, 34) == u16_le_bytes(h.bytes_per_block),
        header_prefix(h).subrange(34, 36) == u16_le_bytes(h.bits_per_sample),
        header_prefix(h).subrange(36, 40) == data_tag(),
{
    let pre = header_prefix(h);
    assert(pre.subrange(0, 4) =~= riff_tag());
    assert(pre.subrange(4, 8) =~= u32_le_bytes(h.file_size));
    assert(pre.subrange(8, 12) =~= wave_tag());
    assert(pre.subrange(12, 16) =~= fmt_tag());
    assert(pre.subrange(16, 20) =~= u32_le_bytes(16));
    assert(pre.subrange(20, 22) =~= u16_le_bytes(h.audio_format.code()));
    assert(pre.subrange(22, 24) =~= u16_le_bytes(h.channels));
    assert(pre.subrange(24, 28) =~= u32_le_bytes(h.sample_rate));
    assert(pre.subrange(28, 32) =~= u32_le_bytes(h.bytes_per_sec));
    assert(pre.subrange(32, 34) =~= u16_le_bytes(h.bytes_per_block));
    assert(pre.subrange(34, 36) =~= u16_le_bytes(h.bits_per_sample));
    assert(pre.subrange(36, 40) =~= data_tag());
}

/// How a four-byte tag check came out.
enum TagOutcome {
    /// The tag was present; four bytes consumed.
    Matched,
    /// Four other bytes stood in its place; they are carried here.
    Mismatch(Vec<u8>),
    /// Fewer than four bytes remained; the cursor did not move.
    End,
}

/// Consumes four bytes and compares them with the expected tag.
fn check_tag(reader: &mut ByteStream, t0: u8, t1: u8, t2: u8, t3: u8) -> (r: TagOutcome)
    requires
        old(reader).wf(),
    ensures
        final(reader).wf(),
        final(reader).bytes@ == old(reader).bytes@,
        ({
            let s = old(reader).bytes@;
            let p = old(reader).pos as int;
            let expect = seq![t0, t1, t2, t3];
            if s.len() - p < 4 {
                r is End && final(reader).pos == p
            } else if tag4(s, p) == expect {
                r is Matched && final(reader).pos == p + 4
            } else {
                (r matches TagOutcome::Mismatch(b) && b@ == tag4(s, p)) && final(reader).pos == p
                    + 4
            }
        }),
{
    if reader.bytes.len() - reader.pos >= 4 {
        let b0 = reader.bytes[reader.pos];
        let b1 = reader.bytes[reader.pos + 1];
        let b2 = reader.bytes[reader.pos + 2];
        let b3 = reader.bytes[reader.pos + 3];
        reader.pos = reader.pos + 4;
        if b0 == t0 && b1 == t1 && b2 == t2 && b3 == t3 {
            proof {
                assert(tag4(old(reader).bytes@, old(reader).pos as int) =~= seq![t0, t1, t2, t3]);
            }
            TagOutcome::Matched
        } else {
            let observed = vec![b0, b1, b2, b3];
            proof {
                assert(observed@ =~= tag4(old(reader).bytes@, old(reader).pos as int));
                assert(tag4(old(reader).bytes@, old(reader).pos as int) != seq![t0, t1, t2, t3])
                    by {
                    let s = old(reader).bytes@;
                    let p = old(reader).pos as int;
                    if tag4(s, p) == seq![t0, t1, t2, t3] {
                        assert(s[p] == tag4(s, p)[0]);
                        assert(s[p + 1] == tag4(s, p)[1]);
                        assert(s[p + 2] == tag4(s, p)[2]);
                        assert(s[p + 3] == tag4(s, p)[3]);
                    }
                }
            }
            TagOutcome::Mismatch(observed)
        }
    } else {
        TagOutcome::End
    }
}

impl WavHeader {
    /// Parses the fixed 44-byte header at the stream's cursor.
    ///
    /// On success, returns the populated header together with the stream,
    /// positioned at the first data byte.  On failure the error says exactly
    /// what went wrong first: a short read, or one of the four magic tags
    /// out of place, carrying the four bytes observed instead.
    pub fn from_reader(reader: ByteStream) -> (r: Result<(Self, ByteStream), ReadError>)
        requires
            reader.wf(),
        ensures
            ({
                let s = reader.bytes@;
                let p = reader.pos as int;
                &&& (r is Ok <==> parse_ok(s, p))
                &&& (r matches Ok((h, rest)) ==> h == header_fields(s, p) && rest.wf()
                    && rest.bytes@ == s && rest.pos == p + 44)
                &&& (r matches Err(e) ==> parse_err_matches(s, p, e))
            }),
    {
        let mut reader = reader;
        match check_tag(&mut reader, 0x52, 0x49, 0x46, 0x46) {
            TagOutcome::End => {
                return Err(ReadError::UnexpectedEnd);
            },
            TagOutcome::Mismatch(b) => {
                return Err(ReadError::ExpectedRIFF(b));
            },
            TagOutcome::Matched => {},
        }
        let file_size = match reader.read_u32_le() {
            Some(v) => v,
            None => {
                return Err(ReadError::UnexpectedEnd);
            },
        };
        match check_tag(&mut reader, 0x57, 0x41, 0x56, 0x45) {
            TagOutcome::End => {
                return Err(ReadError::UnexpectedEnd);
            },
            TagOutcome::Mismatch(b) => {
                return Err(ReadError::ExpectedWAVE(b));
            },
            TagOutcome::Matched => {},
        }
        match check_tag(&mut reader, 0x66, 0x6d, 0x74, 0x20) {
            TagOutcome::End => {
                return Err(ReadError::UnexpectedEnd);
            },
            TagOutcome::Mismatch(b) => {
                return Err(ReadError::ExpectedFmt(b));
            },
            TagOutcome::Matched => {},
        }
        // The format sub-chunk size; its value is not used.
        let _subchunk_size = match reader.read_u32_le() {
            Some(v) => v,
            None => {
                return Err(ReadError::UnexpectedEnd);
            },
        };
        let format_code = match reader.read_u16_le() {
            Some(v) => v,
            None => {
                return Err(ReadError::UnexpectedEnd);
            },
        };
        let audio_format = AudioFormat::from_u16(format_code);
        let channels = match reader.read_u16_le() {
            Some(v) => v,
            None => {
                return Err(ReadError::UnexpectedEnd);
            },
        };
        let sample_rate = match reader.read_u32_le() {
            Some(v) => v,
            None => {
                return Err(ReadError::UnexpectedEnd);
            },
        };
        let bytes_per_sec = match reader.read_u32_le() {
            Some(v) => v,
            None => {
                return Err(ReadError::UnexpectedEnd);
            },
        };
        let bytes_per_block = match reader.read_u16_le() {
            Some(v) => v,
            None => {
                return Err(ReadError::UnexpectedEnd);
            },
        };
        let bits_per_sample = match reader.read_u16_le() {
            Some(v) => v,
            None => {
                return Err(ReadError::UnexpectedEnd);
            },
        };
        match check_tag(&mut reader, 0x64, 0x61, 0x74, 0x61) {
            TagOutcome::End => {
                return Err(ReadError::UnexpectedEnd);
            },
            TagOutcome::Mismatch(b) => {
                return Err(ReadError::ExpectedData(b));
            },
            TagOutcome::Matched => {},
        }
        let data_size = match reader.read_u32_le() {
            Some(v) => v,
            None => {
                return Err(ReadError::UnexpectedEnd);
            },
        };
        Ok(
            (
                WavHeader {
                    file_size,
                    audio_format,
                    channels,
                    sample_rate,
                    bytes_per_sec,
                    bytes_per_block,
                    bits_per_sample,
                    data_size,
                },
                reader,
            ),
        )
    }

    /// Appends the 40-byte header serialization to the sink: the same nine
    /// fields and tags parsing expects, in the same order, with the fixed
    /// format sub-chunk size 16.  The data size is deliberately not written:
    /// a streaming encoder does not know it yet and patches it in on close.
    pub fn write(&self, writer: &mut ByteStream)
        requires
            old(writer).wf(),
        ensures
            final(writer).wf(),
            final(writer).pos == old(writer).pos,
            final(writer).bytes@ == old(writer).bytes@ + header_prefix(*self),
    {
        writer.push_u8(0x52);
        writer.push_u8(0x49);
        writer.push_u8(0x46);
        writer.push_u8(0x46);
        writer.push_u32_le(self.file_size);
        writer.push_u8(0x57);
        writer.push_u8(0x41);
        writer.push_u8(0x56);
        writer.push_u8(0x45);
        writer.push_u8(0x66);
        writer.push_u8(0x6d);
        writer.push_u8(0x74);
        writer.push_u8(0x20);
        writer.push_u32_le(16);
        self.audio_format.write(writer);
        writer.push_u16_le(self.channels);
        writer.push_u32_le(self.sample_rate);
        writer.push_u32_le(self.bytes_per_sec);
        writer.push_u16_le(self.bytes_per_block);
        writer.push_u16_le(self.bits_per_sample);
        writer.push_u8(0x64);
        writer.push_u8(0x61);
        writer.push_u8(0x74);
        writer.push_u8(0x61);
        proof {
            assert(writer.bytes@ =~= old(writer).bytes@ + header_prefix(*self));
        }
    }
}

/// A parsed header together with the byte stream, positioned at the start of
/// the data region.
#[derive(Clone, Debug)]
pub struct WavFile {
    /// The parsed (or, on the encode side, synthesized) header.
    pub header: WavHeader,
    /// The byte stream; its cursor stands at the first data byte.
    pub data: ByteStream,
}

impl WavFile {
    /// Parses the header and binds the stream, positioned at the first data
    /// byte, to it.  Fails exactly as `WavHeader::from_reader` does.
    pub fn from_reader(reader: ByteStream) -> (r: Result<Self, ReadError>)
        requires
            reader.wf(),
        ensures
            ({
                let s = reader.bytes@;
                let p = reader.pos as int;
                &&& (r is Ok <==> parse_ok(s, p))
                &&& (r matches Ok(f) ==> f.header == header_fields(s, p) && f.data.wf()
                    && f.data.bytes@ == s && f.data.pos == p + 44)
                &&& (r matches Err(e) ==> parse_err_matches(s, p, e))
            }),
    {
        let (header, reader) = match WavHeader::from_reader(reader) {
            Ok(hr) => hr,
            Err(e) => {
                return Err(e);
            },
        };
        Ok(WavFile { header, data: reader })
    }

    /// The number of whole blocks in the data region, as the header declares
    /// it: `data_size` divided by `bytes_per_block`.
    pub fn len(&self) -> (r: usize)
        requires
            self.header.bytes_per_block > 0,
        ensures
            r == self.header.data_size as int / self.header.bytes_per_block as int,
    {
        (self.header.data_size / (self.header.bytes_per_block as u32)) as usize
    }

    /// Selects the decoding path for the header's (bytes-per-sample, format)
    /// pair from the fixed dispatch table:
    ///
    /// * (1, integer PCM): 8-bit unsigned
    /// * (2, integer PCM): 16-bit signed
    /// * (4, integer PCM): 32-bit signed
    /// * (4, float PCM): 32-bit float
    /// * (8, integer PCM): 64-bit signed
    /// * (8, float PCM): 64-bit float
    ///
    /// Any other pair — an unknown format, or an unlisted width — fails; the
    /// dispatcher does not guess.
    pub fn samples(self) -> (r: Result<SampleIteratorFormat, ()>)
        requires
            self.header.channels > 0,
        ensures
            ({
                let w = self.header.bytes_per_block / self.header.channels;
                let f = self.header.audio_format;
                &&& (r is Ok <==> dispatch_supported(w, f))
                &&& (w == 1 && f == AudioFormat::PCMLinear ==> (r matches Ok(
                    SampleIteratorFormat::U8(it),
                ) && it.file == self))
                &&& (w == 2 && f == AudioFormat::PCMLinear ==> (r matches Ok(
                    SampleIteratorFormat::I16(it),
                ) && it.file == self))
                &&& (w == 4 && f == AudioFormat::PCMLinear ==> (r matches Ok(
                    SampleIteratorFormat::I32(it),
                ) && it.file == self))
                &&& (w == 4 && f == AudioFormat::PCMFloat ==> (r matches Ok(
                    SampleIteratorFormat::F32(it),
                ) && it.file == self))
                &&& (w == 8 && f == AudioFormat::PCMLinear ==> (r matches Ok(
                    SampleIteratorFormat::I64(it),
                ) && it.file == self))
                &&& (w == 8 && f == AudioFormat::PCMFloat ==> (r matches Ok(
                    SampleIteratorFormat::F64(it),
                ) && it.file == self))
            }),
    {
        let w = self.header.bytes_per_block / self.header.channels;
        let val = match (w, self.header.audio_format) {
            (1, AudioFormat::PCMLinear) => SampleIteratorFormat::U8(
                WavSampleIterator { file: self, __type: PhantomData },
            ),
            (2, AudioFormat::PCMLinear) => SampleIteratorFormat::I16(
                WavSampleIterator { file: self, __type: PhantomData },
            ),
            (4, AudioFormat::PCMLinear) => SampleIteratorFormat::I32(
                WavSampleIterator { file: self, __type: PhantomData },
            ),
            (4, AudioFormat::PCMFloat) => SampleIteratorFormat::F32(
                WavSampleIterator { file: self, __type: PhantomData },
            ),
            (8, AudioFormat::PCMLinear) => SampleIteratorFormat::I64(
                WavSampleIterator { file: self, __type: PhantomData },
            ),
            (8, AudioFormat::PCMFloat) => SampleIteratorFormat::F64(
                WavSampleIterator { file: self, __type: PhantomData },
            ),
            _ => {
                return Err(());
            },
        };
        Ok(val)
    }

    /// Binds a sink to the provisional header synthesized from `desc`: the
    /// opening state of an encode.  Nothing is written to the sink yet.
    pub fn write<T: NumIO>(desc: WavFileDesc<T>, writer: ByteStream) -> (r: Self)
        requires
            desc_fits::<T>(desc),
        ensures
            r.header == desc_header::<T>(desc),
            r.data == writer,
    {
        WavFile { header: desc.to_header(), data: writer }
    }
}

} // verus!

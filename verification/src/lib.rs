//! A codec for the canonical-PCM WAV container format.
//!
//! The library parses and serializes the fixed 44-byte WAV header, decodes
//! and encodes fixed-width little-endian samples, dispatches a parsed header
//! to a typed sample iterator, and writes WAV files in a streaming fashion
//! with the two size fields backpatched on close.  All of it operates on an
//! in-memory byte stream; callers that work with files or sockets read the
//! bytes in and out themselves.

use core::marker::PhantomData;

use vstd::prelude::*;

use crate::lowlevel::stream::{
    lemma_le16_roundtrip, lemma_le32_roundtrip, u32_le_bytes, ByteStream,
};
use crate::lowlevel::writer::{close_bytes, lemma_backpatch, WavWriter, WriteError};
use crate::lowlevel::{
    header_fields, header_prefix, lemma_header_prefix_fields, parse_ok, riff_tag, tag4, WavFile,
    WavHeader,
};
use crate::sample::{
    decode_seq, encode_seq, lemma_decode_encode_seq, lemma_encode_seq_len, NumIO,
};

pub mod lowlevel;
pub mod sample;

verus! {

/// A type-tagged descriptor used at encode time: what the caller knows about
/// the file to be written before any sample has been.  The element type is a
/// compile-time tag, not a runtime field.
#[derive(Debug, Eq, PartialEq, Hash)]
pub struct WavFileDesc<T> {
    /// Number of channels.
    pub channels: u16,
    /// Sample rate.
    pub sample_rate: u32,
    /// Declared sample count; may be zero when unknown up front.
    pub length: usize,
    /// The compile-time element-type tag.
    pub __phantom: PhantomData<T>,
}

impl<T> WavFileDesc<T> {
    /// A descriptor with the given channel count, sample rate and declared
    /// length.
    pub fn new(channels: u16, sample_rate: u32, length: usize) -> (r: Self)
        ensures
            r.channels == channels,
            r.sample_rate == sample_rate,
            r.length == length,
    {
        WavFileDesc { channels, sample_rate, length, __phantom: PhantomData }
    }

    /// A descriptor whose length is not yet known: declared length zero.
    pub fn empty(channels: u16, sample_rate: u32) -> (r: Self)
        ensures
            r.channels == channels,
            r.sample_rate == sample_rate,
            r.length == 0,
    {
        Self::new(channels, sample_rate, 0)
    }
}

/// The sizes a provisional header derives from a descriptor all fit their
/// header fields.
pub open spec fn desc_fits<T: NumIO>(desc: WavFileDesc<T>) -> bool {
    &&& desc.length * T::width() + 44 <= u32::MAX
    &&& desc.sample_rate * T::width() <= u32::MAX
    &&& desc.channels * T::width() <= u16::MAX
}

/// The provisional header synthesized from a descriptor when an encode
/// opens: sizes computed from the element type's byte width, the format tag
/// from its category, and `data_size` zero until the encode completes.
pub open spec fn desc_header<T: NumIO>(desc: WavFileDesc<T>) -> WavHeader {
    WavHeader {
        file_size: (desc.length * T::width() + 44) as u32,
        audio_format: T::format_spec(),
        channels: desc.channels,
        sample_rate: desc.sample_rate,
        bytes_per_sec: (desc.sample_rate * T::width()) as u32,
        bytes_per_block: (desc.channels * T::width()) as u16,
        bits_per_sample: (8 * T::width()) as u16,
        data_size: 0,
    }
}

impl<T: NumIO> WavFileDesc<T> {
    /// Synthesizes the provisional header an encode opens with.
    pub fn to_header(&self) -> (h: WavHeader)
        requires
            desc_fits::<T>(*self),
        ensures
            h == desc_header::<T>(*self),
    {
        proof {
            T::lemma_width();
        }
        let bytes_per_sample = T::byte_width();
        let bits_per_sample = (8 * bytes_per_sample) as u16;
        let bytes_per_block = (self.channels as usize * bytes_per_sample) as u16;
        WavHeader {
            file_size: (self.length * bytes_per_sample + 44) as u32,
            audio_format: crate::lowlevel::AudioFormat::from_type::<T>(),
            channels: self.channels,
            sample_rate: self.sample_rate,
            bytes_per_sec: self.sample_rate * (bytes_per_sample as u32),
            bytes_per_block,
            bits_per_sample,
            data_size: 0,
        }
    }

    /// The descriptor a parsed header corresponds to once it is bound to
    /// this element type.  Binding a header whose `bits_per_sample` is not
    /// the element type's bit width is a programming-contract violation, not
    /// a recoverable parse error, so it is excluded up front.
    pub fn from_header(h: WavHeader) -> (r: Self)
        requires
            h.bits_per_sample == 8 * T::width(),
            h.bytes_per_block > 0,
        ensures
            r.channels == h.channels,
            r.sample_rate == h.sample_rate,
            r.length == h.data_size as int / h.bytes_per_block as int,
    {
        WavFileDesc {
            channels: h.channels,
            sample_rate: h.sample_rate,
            length: (h.data_size / (h.bytes_per_block as u32)) as usize,
            __phantom: PhantomData,
        }
    }
}

/// The bytes a complete encode of `values` under `desc` leaves in the sink:
/// the provisional header, a zero placeholder for the data size, the encoded
/// samples, and the two size fields backpatched with their true values.
pub open spec fn encoded_file_bytes<T: NumIO>(desc: WavFileDesc<T>, values: Seq<T>) -> Seq<u8> {
    close_bytes(
        header_prefix(desc_header::<T>(desc)) + u32_le_bytes(0) + encode_seq(values),
        (values.len() * T::width()) as u32,
    )
}

/// Round trip: the bytes that encoding any sequence of samples under any
/// descriptor produces parse back successfully, the parsed header carries
/// the descriptor's channel count and sample rate, the element type's bit
/// width and block size, and the true payload size, and the data region
/// decodes to exactly the samples that were written.  For a single-channel
/// file the declared length recovered from the header is the number of
/// samples written.
pub proof fn lemma_round_trip<T: NumIO>(desc: WavFileDesc<T>, values: Seq<T>)
    requires
        desc_fits::<T>(desc),
        values.len() * T::width() + 40 <= u32::MAX,
    ensures
        ({
            let file = encoded_file_bytes::<T>(desc, values);
            let ds = values.len() * T::width();
            let h = header_fields(file, 0);
            &&& parse_ok(file, 0)
            &&& file.len() == 44 + ds
            &&& h.channels == desc.channels
            &&& h.sample_rate == desc.sample_rate
            &&& h.bits_per_sample == 8 * T::width()
            &&& h.bytes_per_block == desc.channels * T::width()
            &&& h.audio_format == T::format_spec()
            &&& h.data_size == ds
            &&& h.file_size == ds + 40
            &&& decode_seq::<T>(file.skip(44)) == values
            &&& (desc.channels == 1 ==> h.data_size as int / h.bytes_per_block as int
                == values.len())
        }),
{
    T::lemma_width();
    T::lemma_format_code();
    lemma_encode_seq_len::<T>(values);
    lemma_decode_encode_seq::<T>(values);
    let hdr = desc_header::<T>(desc);
    lemma_header_prefix_fields(hdr);
    lemma_le16_roundtrip(hdr.audio_format.code());
    lemma_le16_roundtrip(hdr.channels);
    lemma_le16_roundtrip(hdr.bytes_per_block);
    lemma_le16_roundtrip(hdr.bits_per_sample);
    lemma_le32_roundtrip(hdr.sample_rate);
    let pre = header_prefix(hdr);
    let base = pre + u32_le_bytes(0) + encode_seq(values);
    let ds = (values.len() * T::width()) as u32;
    assert(base.len() == 44 + ds);
    lemma_backpatch(base, ds);
    let file = close_bytes(base, ds);
    assert(file == encoded_file_bytes::<T>(desc, values));
    assert forall|i: int| 0 <= i < 40 && !(4 <= i < 8) implies file[i] == pre[i] by {
        assert(file[i] == base[i]);
        assert(base[i] == pre[i]);
    }
    assert(tag4(file, 0) =~= riff_tag());
    assert(tag4(file, 8) =~= pre.subrange(8, 12));
    assert(tag4(file, 12) =~= pre.subrange(12, 16));
    assert(tag4(file, 36) =~= pre.subrange(36, 40));
    assert(parse_ok(file, 0));
    let h = header_fields(file, 0);
    assert(h.channels == hdr.channels) by {
        assert(file[22] == pre[22] && file[23] == pre[23]);
        assert(pre[22] == pre.subrange(22, 24)[0] && pre[23] == pre.subrange(22, 24)[1]);
    }
    assert(h.sample_rate == hdr.sample_rate) by {
        assert(file[24] == pre[24] && file[25] == pre[25] && file[26] == pre[26] && file[27]
            == pre[27]);
        assert(pre[24] == pre.subrange(24, 28)[0] && pre[25] == pre.subrange(24, 28)[1] && pre[26]
            == pre.subrange(24, 28)[2] && pre[27] == pre.subrange(24, 28)[3]);
    }
    assert(h.bits_per_sample == hdr.bits_per_sample) by {
        assert(file[34] == pre[34] && file[35] == pre[35]);
        assert(pre[34] == pre.subrange(34, 36)[0] && pre[35] == pre.subrange(34, 36)[1]);
    }
    assert(h.bytes_per_block == hdr.bytes_per_block) by {
        assert(file[32] == pre[32] && file[33] == pre[33]);
        assert(pre[32] == pre.subrange(32, 34)[0] && pre[33] == pre.subrange(32, 34)[1]);
    }
    assert(h.audio_format == hdr.audio_format) by {
        assert(file[20] == pre[20] && file[21] == pre[21]);
        assert(pre[20] == pre.subrange(20, 22)[0] && pre[21] == pre.subrange(20, 22)[1]);
    }
    assert(file.skip(44) =~= encode_seq(values)) by {
        assert forall|k: int| 0 <= k < file.len() - 44 implies file[44 + k] == encode_seq(
            values,
        )[k] by {
            assert(file[44 + k] == base[44 + k]);
        }
    }
    if desc.channels == 1 {
        assert((values.len() * T::width()) as int / (T::width() as int) == values.len())
            by (nonlinear_arith)
            requires
                T::width() >= 1,
                values.len() >= 0,
        ;
    }
}

/// Encodes a whole file in one call: opens a writer over an empty sink with
/// the provisional header from `desc`, writes every sample in order, closes
/// the writer — backpatching the true sizes — and hands the finished bytes
/// back.  Fails, writing nothing observable, exactly when the payload would
/// grow past what the 32-bit size fields can record.
pub fn encode_to_bytes<T: NumIO>(desc: WavFileDesc<T>, samples: Vec<T>) -> (r: Result<
    Vec<u8>,
    WriteError,
>)
    requires
        desc_fits::<T>(desc),
    ensures
        r is Ok <==> samples@.len() * T::width() + 40 <= u32::MAX,
        (r matches Ok(bytes) ==> bytes@ == encoded_file_bytes::<T>(desc, samples@)),
{
    proof {
        T::lemma_width();
    }
    let sink = ByteStream::new(Vec::new());
    let file = WavFile::write(desc, sink);
    let mut writer: WavWriter<T> = WavWriter::from_file(file);
    match writer.write_iter(samples) {
        Ok(()) => {},
        Err(e) => {
            return Err(e);
        },
    }
    let out = writer.into_inner();
    Ok(out.into_bytes())
}

/// An extension for collections of samples: writing the whole collection
/// through a streaming writer in one call.
pub trait IteratorExt: Sized {
    /// The element type being written.
    type Item: NumIO;

    /// The samples the collection holds, in order.
    spec fn items(self) -> Seq<Self::Item>;

    /// Writes every sample to the writer, in order.  When the whole
    /// collection fits it is written; when it would run past what the size
    /// fields can record, nothing is written and the write fails.
    fn write(self, writer: &mut WavWriter<Self::Item>) -> (r: Result<(), WriteError>)
        requires
            old(writer).wf(),
        ensures
            final(writer).wf(),
            final(writer).file.header == old(writer).file.header,
            if old(writer).data_size + self.items().len() * <Self::Item as NumIO>::width() + 40
                <= u32::MAX {
                &&& r is Ok
                &&& final(writer).file.data.bytes@ == old(writer).file.data.bytes@ + encode_seq(
                    self.items(),
                )
                &&& final(writer).data_size == old(writer).data_size + self.items().len()
                    * <Self::Item as NumIO>::width()
            } else {
                r == Err::<(), WriteError>(WriteError::DataOverflow) && *final(writer) == *old(
                    writer,
                )
            },
    ;
}

impl<T: NumIO> IteratorExt for Vec<T> {
    type Item = T;

    open spec fn items(self) -> Seq<T> {
        self@
    }

    fn write(self, writer: &mut WavWriter<T>) -> (r: Result<(), WriteError>) {
        writer.write_iter(self)
    }
}

} // verus!

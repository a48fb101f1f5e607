//! The decode side: parse errors, the typed lazy sample iterator, and the
//! tagged union of iterators that dispatch selects from.

use core::marker::PhantomData;

use vstd::prelude::*;

use crate::lowlevel::{AudioFormat, WavFile};
use crate::sample::{decode_seq, lemma_decode_seq_len, NumIO};

verus! {

/// Why a parse failed.  The four tag cases carry the four bytes actually
/// observed where the magic tag was expected.
#[derive(Debug, Clone, PartialEq, Eq)]
pub enum ReadError {
    /// The stream does not start with `"RIFF"`.
    ExpectedRIFF(Vec<u8>),
    /// The container format tag is not `"WAVE"`.
    ExpectedWAVE(Vec<u8>),
    /// The format chunk tag is not `"fmt "`.
    ExpectedFmt(Vec<u8>),
    /// The data chunk tag is not `"data"`.
    ExpectedData(Vec<u8>),
    /// The stream ended before the field being read was complete.
    UnexpectedEnd,
}

/// A forward-only, single-pass sequence of samples of one element type,
/// reading from the data region of a parsed file.
///
/// A short read — whether a clean end of the data or a trailing partial
/// element — ends the sequence; the two are deliberately not distinguished.
pub struct WavSampleIterator<T> {
    /// The parsed file; the stream cursor is the read position.
    pub file: WavFile,
    /// The compile-time element-type tag.
    pub __type: PhantomData<T>,
}

impl<T: NumIO> WavSampleIterator<T> {
    /// Decodes the next sample, or ends the sequence when fewer than one
    /// whole element remains.
    pub fn next(&mut self) -> (r: Option<T>)
        requires
            old(self).file.data.wf(),
        ensures
            final(self).file.data.wf(),
            final(self).file.header == old(self).file.header,
            final(self).file.data.bytes@ == old(self).file.data.bytes@,
            if old(self).file.data.remaining() >= T::width() {
                r == Some(
                    T::of_le(
                        old(self).file.data.bytes@.subrange(
                            old(self).file.data.pos as int,
                            old(self).file.data.pos + T::width(),
                        ),
                    ),
                ) && final(self).file.data.pos == old(self).file.data.pos + T::width()
            } else {
                r is None && final(self).file.data.pos == old(self).file.data.pos
            },
    {
        match T::read(&mut self.file.data) {
            Ok(v) => Some(v),
            Err(_) => None,
        }
    }

    /// The declared number of remaining elements, derived from the header
    /// byte counts: `data_size` divided by `bytes_per_block`.
    pub fn len(&self) -> (r: usize)
        requires
            self.file.header.bytes_per_block > 0,
        ensures
            r == self.file.header.data_size as int / self.file.header.bytes_per_block as int,
    {
        self.file.len()
    }

    /// The declared length, as an exact lower and upper bound.
    pub fn size_hint(&self) -> (r: (usize, Option<usize>))
        requires
            self.file.header.bytes_per_block > 0,
        ensures
            r.0 == self.file.header.data_size as int / self.file.header.bytes_per_block as int,
            r.1 == Some(r.0),
    {
        let s = self.file.len();
        (s, Some(s))
    }

    /// Decodes every remaining sample, in order, until fewer than one whole
    /// element remains: the realization of the lazy sequence.
    pub fn collect_remaining(&mut self) -> (r: Vec<T>)
        requires
            old(self).file.data.wf(),
        ensures
            final(self).file.data.wf(),
            final(self).file.header == old(self).file.header,
            final(self).file.data.bytes@ == old(self).file.data.bytes@,
            r@ == decode_seq::<T>(
                old(self).file.data.bytes@.skip(old(self).file.data.pos as int),
            ),
            final(self).file.data.remaining() < T::width(),
    {
        proof {
            T::lemma_width();
        }
        let mut out: Vec<T> = Vec::new();
        loop
            invariant
                self.file.data.wf(),
                self.file.header == old(self).file.header,
                self.file.data.bytes@ == old(self).file.data.bytes@,
                T::width() >= 1,
                decode_seq::<T>(
                    old(self).file.data.bytes@.skip(old(self).file.data.pos as int),
                ) == out@ + decode_seq::<T>(
                    self.file.data.bytes@.skip(self.file.data.pos as int),
                ),
            ensures
                self.file.data.wf(),
                self.file.header == old(self).file.header,
                self.file.data.bytes@ == old(self).file.data.bytes@,
                self.file.data.remaining() < T::width(),
                out@ == decode_seq::<T>(
                    old(self).file.data.bytes@.skip(old(self).file.data.pos as int),
                ),
            decreases self.file.data.remaining(),
        {
            let ghost pre = self.file.data.pos as int;
            let ghost s = self.file.data.bytes@;
            let ghost prev_out = out@;
            match self.next() {
                Some(v) => {
                    out.push(v);
                    proof {
                        let w = T::width() as int;
                        assert(s.skip(pre).len() >= w);
                        assert(s.skip(pre).take(w) =~= s.subrange(pre, pre + w));
                        assert(s.skip(pre).skip(w) =~= s.skip(pre + w));
                        assert(decode_seq::<T>(s.skip(pre)) == seq![
                            T::of_le(s.subrange(pre, pre + w)),
                        ] + decode_seq::<T>(s.skip(pre + w)));
                        assert(out@ =~= prev_out + seq![v]);
                        assert(prev_out + decode_seq::<T>(s.skip(pre)) =~= out@ + decode_seq::<T>(
                            s.skip(pre + w),
                        ));
                    }
                },
                None => {
                    proof {
                        assert(s.skip(pre).len() < T::width());
                        assert(decode_seq::<T>(s.skip(pre)) =~= Seq::<T>::empty());
                        assert(out@ + decode_seq::<T>(s.skip(pre)) =~= out@);
                    }
                    break ;
                },
            }
        }
        out
    }
}

/// Length consistency: when a sample iterator stands at the start of a data
/// region that holds exactly `data_size` bytes and the header's block size
/// equals the element width, the declared remaining count (what `len`
/// returns) equals the number of samples the iterator yields before
/// exhaustion (the length of what `collect_remaining` returns).
pub proof fn lemma_length_consistency<T: NumIO>(it: WavSampleIterator<T>)
    requires
        it.file.data.wf(),
        it.file.header.bytes_per_block == T::width(),
        it.file.data.remaining() == it.file.header.data_size,
    ensures
        it.file.header.data_size as int / it.file.header.bytes_per_block as int == decode_seq::<T>(
            it.file.data.bytes@.skip(it.file.data.pos as int),
        ).len(),
{
    T::lemma_width();
    lemma_decode_seq_len::<T>(it.file.data.bytes@.skip(it.file.data.pos as int));
}

/// Whether a (bytes-per-sample, format) pair selects a decoding path.
pub open spec fn dispatch_supported(w: u16, f: AudioFormat) -> bool {
    ||| w == 1 && f == AudioFormat::PCMLinear
    ||| w == 2 && f == AudioFormat::PCMLinear
    ||| w == 4 && f == AudioFormat::PCMLinear
    ||| w == 4 && f == AudioFormat::PCMFloat
    ||| w == 8 && f == AudioFormat::PCMLinear
    ||| w == 8 && f == AudioFormat::PCMFloat
}

/// The tagged union of typed sample iterators: one case per supported
/// element type, selected by dispatch on the parsed header.
///
/// Floating-point samples are exposed as their raw IEEE 754 bit patterns;
/// callers convert with `f32::from_bits` / `f64::from_bits`.
pub enum SampleIteratorFormat {
    /// 8-bit unsigned integer samples.
    U8(WavSampleIterator<u8>),
    /// 16-bit signed integer samples.
    I16(WavSampleIterator<i16>),
    /// 32-bit signed integer samples.
    I32(WavSampleIterator<i32>),
    /// 64-bit signed integer samples.
    I64(WavSampleIterator<i64>),
    /// 32-bit float samples, as bit patterns.
    F32(WavSampleIterator<u32>),
    /// 64-bit float samples, as bit patterns.
    F64(WavSampleIterator<u64>),
}

} // verus!

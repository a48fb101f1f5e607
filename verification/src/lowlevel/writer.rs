//! The encode side: the streaming writer that emits a provisional header,
//! appends samples, and backpatches the two size fields on close.

use core::marker::PhantomData;

use vstd::prelude::*;

use crate::lowlevel::stream::{le32, lemma_le32_roundtrip, spliced, u32_le_bytes, ByteStream};
use crate::lowlevel::{header_prefix, WavFile};
use crate::sample::{encode_seq, lemma_encode_seq_push, NumIO};

verus! {

/// Why a write failed.
#[derive(Debug, Clone, Copy, PartialEq, Eq, Structural)]
pub enum WriteError {
    /// The payload would grow past what the 32-bit size fields can record.
    DataOverflow,
}

/// A streaming encoder: a sink holding the provisional header, a running
/// payload byte counter, and the element type as a compile-time tag.
///
/// The life of a writer is open (`from_file`, which emits the provisional
/// header), write (`write_sample` / `write_iter`), close (`into_inner`,
/// which backpatches the true sizes and hands the finished bytes back).
pub struct WavWriter<T> {
    /// The synthesized header and the sink the samples go to.
    pub file: WavFile,
    /// Payload bytes written so far.
    pub data_size: u32,
    /// The compile-time element-type tag.
    pub __phantom: PhantomData<T>,
}

/// The bytes a close leaves in the sink: the four bytes at offset 4 now hold
/// `data_size + 40` and the four at offset 40 hold `data_size`; every other
/// byte is untouched.
pub open spec fn close_bytes(s: Seq<u8>, ds: u32) -> Seq<u8> {
    spliced(spliced(s, 4, u32_le_bytes((ds + 40) as u32)), 40, u32_le_bytes(ds))
}

impl<T: NumIO> WavWriter<T> {
    /// Well-formed: the sink holds the 44 header bytes followed by exactly
    /// `data_size` payload bytes, there is still room to add 40 to the
    /// counter for the backpatched file size, and the header is bound to
    /// this element type.
    pub open spec fn wf(self) -> bool {
        &&& self.file.data.wf()
        &&& self.file.data.bytes@.len() == 44 + self.data_size
        &&& self.data_size + 40 <= u32::MAX
        &&& self.file.header.bits_per_sample == 8 * T::width()
    }

    /// Opens an encode: writes the 40-byte provisional header and a zero
    /// placeholder for the data size to the empty sink.  A file whose header
    /// is not bound to this element type, or whose sink already holds bytes,
    /// is a programming-contract violation and is excluded up front.
    pub fn from_file(file: WavFile) -> (r: Self)
        requires
            file.data.wf(),
            file.data.bytes@.len() == 0,
            file.header.bits_per_sample == 8 * T::width(),
        ensures
            r.wf(),
            r.data_size == 0,
            r.file.header == file.header,
            r.file.data.bytes@ == header_prefix(file.header) + u32_le_bytes(0),
    {
        let mut file = file;
        let header = file.header;
        header.write(&mut file.data);
        file.data.push_u32_le(0);
        proof {
            assert(file.data.bytes@ =~= header_prefix(header) + u32_le_bytes(0));
        }
        WavWriter { file, data_size: 0, __phantom: PhantomData }
    }

    /// Appends one encoded sample to the sink and counts its bytes, unless
    /// the counter would run past what the size fields can record, in which
    /// case nothing changes and the write fails.
    pub fn write_sample(&mut self, sample: T) -> (r: Result<(), WriteError>)
        requires
            old(self).wf(),
        ensures
            final(self).wf(),
            final(self).file.header == old(self).file.header,
            if old(self).data_size + T::width() + 40 <= u32::MAX {
                &&& r is Ok
                &&& final(self).file.data.bytes@ == old(self).file.data.bytes@ + sample.to_le()
                &&& final(self).file.data.pos == old(self).file.data.pos
                &&& final(self).data_size == old(self).data_size + T::width()
            } else {
                r == Err::<(), WriteError>(WriteError::DataOverflow) && *final(self) == *old(self)
            },
    {
        proof {
            T::lemma_width();
            sample.lemma_to_le_len();
        }
        let w = T::byte_width();
        if self.data_size as u64 + (w as u64) + 40 <= u32::MAX as u64 {
            sample.write(&mut self.file.data);
            self.data_size = self.data_size + (w as u32);
            Ok(())
        } else {
            Err(WriteError::DataOverflow)
        }
    }

    /// Appends every sample of the sequence, in order.  When the whole
    /// sequence fits it is written; when it would run past what the size
    /// fields can record, nothing is written and the write fails.
    pub fn write_iter(&mut self, samples: Vec<T>) -> (r: Result<(), WriteError>)
        requires
            old(self).wf(),
        ensures
            final(self).wf(),
            final(self).file.header == old(self).file.header,
            if old(self).data_size + samples@.len() * T::width() + 40 <= u32::MAX {
                &&& r is Ok
                &&& final(self).file.data.bytes@ == old(self).file.data.bytes@ + encode_seq(
                    samples@,
                )
                &&& final(self).file.data.pos == old(self).file.data.pos
                &&& final(self).data_size == old(self).data_size + samples@.len() * T::width()
            } else {
                r == Err::<(), WriteError>(WriteError::DataOverflow) && *final(self) == *old(self)
            },
    {
        proof {
            T::lemma_width();
        }
        let w = T::byte_width();
        if samples.len() as u64 > u32::MAX as u64 {
            proof {
                assert(samples@.len() * T::width() >= samples@.len()) by (nonlinear_arith)
                    requires
                        T::width() >= 1,
                        samples@.len() >= 0,
                ;
            }
            return Err(WriteError::DataOverflow);
        }
        proof {
            assert(samples@.len() * T::width() <= 0xffff_ffffu64 * 8) by (nonlinear_arith)
                requires
                    samples@.len() <= 0xffff_ffffu64,
                    T::width() <= 8,
            ;
        }
        let need: u64 = (samples.len() as u64) * (w as u64);
        if (self.data_size as u64) + need + 40 > u32::MAX as u64 {
            return Err(WriteError::DataOverflow);
        }
        let ghost orig = *self;
        let mut i: usize = 0;
        while i < samples.len()
            invariant
                self.wf(),
                1 <= T::width() <= 8,
                w == T::width(),
                i <= samples@.len(),
                orig == *old(self),
                orig.data_size + samples@.len() * T::width() + 40 <= u32::MAX,
                self.file.header == orig.file.header,
                self.file.data.pos == orig.file.data.pos,
                self.data_size == orig.data_size + i * T::width(),
                self.file.data.bytes@ == orig.file.data.bytes@ + encode_seq(
                    samples@.take(i as int),
                ),
            decreases samples@.len() - i,
        {
            proof {
                assert((i + 1) * T::width() <= samples@.len() * T::width()) by (nonlinear_arith)
                    requires
                        0 <= i < samples@.len(),
                        T::width() >= 1,
                ;
            }
            proof {
                assert((i + 1) * T::width() == i * T::width() + T::width()) by (nonlinear_arith);
            }
            let sample = samples[i];
            let _ = self.write_sample(sample);
            proof {
                lemma_encode_seq_push::<T>(samples@, i as int);
                assert(self.file.data.bytes@ =~= orig.file.data.bytes@ + encode_seq(
                    samples@.take(i + 1),
                ));
            }
            i = i + 1;
        }
        proof {
            assert(samples@.take(samples@.len() as int) =~= samples@);
        }
        Ok(())
    }

    /// Closes the encoder: backpatches the file-size field at offset 4 with
    /// `data_size + 40` and the data-size field at offset 40 with
    /// `data_size`, then seeks to the end.
    fn patch_file(&mut self)
        requires
            old(self).wf(),
        ensures
            final(self).wf(),
            final(self).file.header == old(self).file.header,
            final(self).data_size == old(self).data_size,
            final(self).file.data.bytes@ == close_bytes(
                old(self).file.data.bytes@,
                old(self).data_size,
            ),
            final(self).file.data.pos == final(self).file.data.bytes@.len(),
    {
        let file_size = self.data_size + 40;
        self.file.data.overwrite_u32_le(4, file_size);
        self.file.data.overwrite_u32_le(40, self.data_size);
        let n = self.file.data.bytes.len();
        self.file.data.pos = n;
    }

    /// Closes the encoder and hands the sink back, positioned at the end.
    /// The two size fields now hold their true values: `data_size + 40` at
    /// offset 4 and `data_size` at offset 40.
    pub fn into_inner(self) -> (r: ByteStream)
        requires
            self.wf(),
        ensures
            r.wf(),
            r.bytes@ == close_bytes(self.file.data.bytes@, self.data_size),
            r.pos == r.bytes@.len(),
    {
        let mut this = self;
        this.patch_file();
        this.file.data
    }
}

/// Backpatch correctness: closing a writer that has counted `ds` payload
/// bytes in a sink of `44 + ds` bytes leaves the same number of bytes, the
/// four at offset 4 decoding to `ds + 40`, the four at offset 40 decoding to
/// `ds`, and every other byte — the rest of the header and the whole payload
/// — exactly as it was.
pub proof fn lemma_backpatch(s: Seq<u8>, ds: u32)
    requires
        s.len() == 44 + ds,
        ds + 40 <= u32::MAX,
    ensures
        ({
            let out = close_bytes(s, ds);
            &&& out.len() == s.len()
            &&& le32(out[4], out[5], out[6], out[7]) == ds + 40
            &&& le32(out[40], out[41], out[42], out[43]) == ds
            &&& forall|i: int|
                0 <= i < s.len() && !(4 <= i < 8) && !(40 <= i < 44) ==> out[i] == s[i]
        }),
{
    lemma_le32_roundtrip((ds + 40) as u32);
    lemma_le32_roundtrip(ds);
    let inner = spliced(s, 4, u32_le_bytes((ds + 40) as u32));
    let out = close_bytes(s, ds);
    assert(inner.len() == s.len());
    assert(out.len() == s.len());
    assert(out[4] == u32_le_bytes((ds + 40) as u32)[0]);
    assert(out[5] == u32_le_bytes((ds + 40) as u32)[1]);
    assert(out[6] == u32_le_bytes((ds + 40) as u32)[2]);
    assert(out[7] == u32_le_bytes((ds + 40) as u32)[3]);
    assert(out[40] == u32_le_bytes(ds)[0]);
    assert(out[41] == u32_le_bytes(ds)[1]);
    assert(out[42] == u32_le_bytes(ds)[2]);
    assert(out[43] == u32_le_bytes(ds)[3]);
}

} // verus!

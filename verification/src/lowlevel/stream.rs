//! An in-memory byte stream and the little-endian integer codec that every
//! other part of the library builds on.
//!
//! The stream is the byte source for decoding and the byte sink for encoding.
//! Reading consumes bytes at a cursor; writing appends bytes at the end; the
//! backpatch step of the encoder overwrites bytes at a fixed offset.

use vstd::prelude::*;

verus! {

/// The little-endian value of two bytes.
pub open spec fn le16(b0: u8, b1: u8) -> u16 {
    (b0 as u16) | ((b1 as u16) << 8)
}

/// The little-endian value of four bytes.
pub open spec fn le32(b0: u8, b1: u8, b2: u8, b3: u8) -> u32 {
    (b0 as u32) | ((b1 as u32) << 8) | ((b2 as u32) << 16) | ((b3 as u32) << 24)
}

/// The little-endian value of eight bytes.
pub open spec fn le64(b0: u8, b1: u8, b2: u8, b3: u8, b4: u8, b5: u8, b6: u8, b7: u8) -> u64 {
    (b0 as u64) | ((b1 as u64) << 8) | ((b2 as u64) << 16) | ((b3 as u64) << 24)
        | ((b4 as u64) << 32) | ((b5 as u64) << 40) | ((b6 as u64) << 48) | ((b7 as u64) << 56)
}

/// The two little-endian bytes of a 16-bit value.
pub open spec fn u16_le_bytes(v: u16) -> Seq<u8> {
    seq![(v & 0xff) as u8, ((v >> 8) & 0xff) as u8]
}

/// The four little-endian bytes of a 32-bit value.
pub open spec fn u32_le_bytes(v: u32) -> Seq<u8> {
    seq![
        (v & 0xff) as u8,
        ((v >> 8) & 0xff) as u8,
        ((v >> 16) & 0xff) as u8,
        ((v >> 24) & 0xff) as u8,
    ]
}

/// The eight little-endian bytes of a 64-bit value.
pub open spec fn u64_le_bytes(v: u64) -> Seq<u8> {
    seq![
        (v & 0xff) as u8,
        ((v >> 8) & 0xff) as u8,
        ((v >> 16) & 0xff) as u8,
        ((v >> 24) & 0xff) as u8,
        ((v >> 32) & 0xff) as u8,
        ((v >> 40) & 0xff) as u8,
        ((v >> 48) & 0xff) as u8,
        ((v >> 56) & 0xff) as u8,
    ]
}

/// Decoding the two little-endian bytes of a value gives the value back.
pub proof fn lemma_le16_roundtrip(v: u16)
    ensures
        le16(u16_le_bytes(v)[0], u16_le_bytes(v)[1]) == v,
{
    assert(le16((v & 0xff) as u8, ((v >> 8) & 0xff) as u8) == v) by (bit_vector);
}

/// Decoding the four little-endian bytes of a value gives the value back.
pub proof fn lemma_le32_roundtrip(v: u32)
    ensures
        le32(u32_le_bytes(v)[0], u32_le_bytes(v)[1], u32_le_bytes(v)[2], u32_le_bytes(v)[3]) == v,
{
    assert(le32(
        (v & 0xff) as u8,
        ((v >> 8) & 0xff) as u8,
        ((v >> 16) & 0xff) as u8,
        ((v >> 24) & 0xff) as u8,
    ) == v) by (bit_vector);
}

/// Decoding the eight little-endian bytes of a value gives the value back.
pub proof fn lemma_le64_roundtrip(v: u64)
    ensures
        le64(
            u64_le_bytes(v)[0],
            u64_le_bytes(v)[1],
            u64_le_bytes(v)[2],
            u64_le_bytes(v)[3],
            u64_le_bytes(v)[4],
            u64_le_bytes(v)[5],
            u64_le_bytes(v)[6],
            u64_le_bytes(v)[7],
        ) == v,
{
    assert(le64(
        (v & 0xff) as u8,
        ((v >> 8) & 0xff) as u8,
        ((v >> 16) & 0xff) as u8,
        ((v >> 24) & 0xff) as u8,
        ((v >> 32) & 0xff) as u8,
        ((v >> 40) & 0xff) as u8,
        ((v >> 48) & 0xff) as u8,
        ((v >> 56) & 0xff) as u8,
    ) == v) by (bit_vector);
}

/// `s` with the bytes at `i` replaced by `r`; everything else is kept.
pub open spec fn spliced(s: Seq<u8>, i: int, r: Seq<u8>) -> Seq<u8> {
    s.take(i) + r + s.skip(i + r.len())
}

/// An in-memory byte stream: a buffer and a read cursor.
///
/// The same type serves as the byte source of the decoder (reads consume
/// bytes at `pos`) and as the byte sink of the encoder (writes append to
/// `bytes`; the backpatch overwrites bytes in place).
#[derive(Clone, Debug)]
pub struct ByteStream {
    /// The underlying bytes.
    pub bytes: Vec<u8>,
    /// The read cursor: the index of the next byte a read consumes.
    pub pos: usize,
}

impl ByteStream {
    /// Well-formed: the cursor never passes the end of the buffer.
    pub open spec fn wf(&self) -> bool {
        self.pos <= self.bytes@.len()
    }

    /// How many bytes remain to be read.
    pub open spec fn remaining(&self) -> int {
        self.bytes@.len() - self.pos
    }

    /// A stream over the given bytes, positioned at the start.
    pub fn new(bytes: Vec<u8>) -> (s: Self)
        ensures
            s.wf(),
            s.bytes@ == bytes@,
            s.pos == 0,
    {
        ByteStream { bytes, pos: 0 }
    }

    /// Gives up the stream and hands the underlying bytes back.
    pub fn into_bytes(self) -> (r: Vec<u8>)
        ensures
            r@ == self.bytes@,
    {
        self.bytes
    }

    /// Reads one byte, advancing the cursor; `None` once the end is reached.
    pub fn read_u8(&mut self) -> (r: Option<u8>)
        requires
            old(self).wf(),
        ensures
            final(self).wf(),
            final(self).bytes@ == old(self).bytes@,
            if old(self).remaining() >= 1 {
                r == Some(old(self).bytes@[old(self).pos as int]) && final(self).pos == old(self).pos + 1
            } else {
                r is None && final(self).pos == old(self).pos
            },
    {
        if self.bytes.len() - self.pos >= 1 {
            let b = self.bytes[self.pos];
            self.pos = self.pos + 1;
            Some(b)
        } else {
            None
        }
    }

    /// Reads a 16-bit little-endian value; `None` on a short read, with the
    /// cursor left where it was.
    pub fn read_u16_le(&mut self) -> (r: Option<u16>)
        requires
            old(self).wf(),
        ensures
            final(self).wf(),
            final(self).bytes@ == old(self).bytes@,
            if old(self).remaining() >= 2 {
                r == Some(le16(
                    old(self).bytes@[old(self).pos as int],
                    old(self).bytes@[old(self).pos + 1],
                )) && final(self).pos == old(self).pos + 2
            } else {
                r is None && final(self).pos == old(self).pos
            },
    {
        if self.bytes.len() - self.pos >= 2 {
            let b0 = self.bytes[self.pos];
            let b1 = self.bytes[self.pos + 1];
            self.pos = self.pos + 2;
            Some((b0 as u16) | ((b1 as u16) << 8))
        } else {
            None
        }
    }

    /// Reads a 32-bit little-endian value; `None` on a short read, with the
    /// cursor left where it was.
    pub fn read_u32_le(&mut self) -> (r: Option<u32>)
        requires
            old(self).wf(),
        ensures
            final(self).wf(),
            final(self).bytes@ == old(self).bytes@,
            if old(self).remaining() >= 4 {
                r == Some(le32(
                    old(self).bytes@[old(self).pos as int],
                    old(self).bytes@[old(self).pos + 1],
                    old(self).bytes@[old(self).pos + 2],
                    old(self).bytes@[old(self).pos + 3],
                )) && final(self).pos == old(self).pos + 4
            } else {
                r is None && final(self).pos == old(self).pos
            },
    {
        if self.bytes.len() - self.pos >= 4 {
            let b0 = self.bytes[self.pos];
            let b1 = self.bytes[self.pos + 1];
            let b2 = self.bytes[self.pos + 2];
            let b3 = self.bytes[self.pos + 3];
            self.pos = self.pos + 4;
            Some((b0 as u32) | ((b1 as u32) << 8) | ((b2 as u32) << 16) | ((b3 as u32) << 24))
        } else {
            None
        }
    }

    /// Reads a 64-bit little-endian value; `None` on a short read, with the
    /// cursor left where it was.
    pub fn read_u64_le(&mut self) -> (r: Option<u64>)
        requires
            old(self).wf(),
        ensures
            final(self).wf(),
            final(self).bytes@ == old(self).bytes@,
            if old(self).remaining() >= 8 {
                r == Some(le64(
                    old(self).bytes@[old(self).pos as int],
                    old(self).bytes@[old(self).pos + 1],
                    old(self).bytes@[old(self).pos + 2],
                    old(self).bytes@[old(self).pos + 3],
                    old(self).bytes@[old(self).pos + 4],
                    old(self).bytes@[old(self).pos + 5],
                    old(self).bytes@[old(self).pos + 6],
                    old(self).bytes@[old(self).pos + 7],
                )) && final(self).pos == old(self).pos + 8
            } else {
                r is None && final(self).pos == old(self).pos
            },
    {
        if self.bytes.len() - self.pos >= 8 {
            let b0 = self.bytes[self.pos];
            let b1 = self.bytes[self.pos + 1];
            let b2 = self.bytes[self.pos + 2];
            let b3 = self.bytes[self.pos + 3];
            let b4 = self.bytes[self.pos + 4];
            let b5 = self.bytes[self.pos + 5];
            let b6 = self.bytes[self.pos + 6];
            let b7 = self.bytes[self.pos + 7];
            self.pos = self.pos + 8;
            Some(
                (b0 as u64) | ((b1 as u64) << 8) | ((b2 as u64) << 16) | ((b3 as u64) << 24)
                    | ((b4 as u64) << 32) | ((b5 as u64) << 40) | ((b6 as u64) << 48)
                    | ((b7 as u64) << 56),
            )
        } else {
            None
        }
    }

    /// Appends one byte; the cursor does not move.
    pub fn push_u8(&mut self, v: u8)
        requires
            old(self).wf(),
        ensures
            final(self).wf(),
            final(self).pos == old(self).pos,
            final(self).bytes@ == old(self).bytes@ + seq![v],
    {
        self.bytes.push(v);
        proof {
            assert(self.bytes@ =~= old(self).bytes@ + seq![v]);
        }
    }

    /// Appends a 16-bit value as two little-endian bytes.
    pub fn push_u16_le(&mut self, v: u16)
        requires
            old(self).wf(),
        ensures
            final(self).wf(),
            final(self).pos == old(self).pos,
            final(self).bytes@ == old(self).bytes@ + u16_le_bytes(v),
    {
        proof {
            assert(v & 0xff < 256 && (v >> 8) & 0xff < 256) by (bit_vector);
        }
        self.bytes.push((v & 0xff) as u8);
        self.bytes.push(((v >> 8) & 0xff) as u8);
        proof {
            assert(self.bytes@ =~= old(self).bytes@ + u16_le_bytes(v));
        }
    }

    /// Appends a 32-bit value as four little-endian bytes.
    pub fn push_u32_le(&mut self, v: u32)
        requires
            old(self).wf(),
        ensures
            final(self).wf(),
            final(self).pos == old(self).pos,
            final(self).bytes@ == old(self).bytes@ + u32_le_bytes(v),
    {
        proof {
            assert(v & 0xff < 256 && (v >> 8) & 0xff < 256 && (v >> 16) & 0xff < 256 && (v >> 24)
                & 0xff < 256) by (bit_vector);
        }
        self.bytes.push((v & 0xff) as u8);
        self.bytes.push(((v >> 8) & 0xff) as u8);
        self.bytes.push(((v >> 16) & 0xff) as u8);
        self.bytes.push(((v >> 24) & 0xff) as u8);
        proof {
            assert(self.bytes@ =~= old(self).bytes@ + u32_le_bytes(v));
        }
    }

    /// Appends a 64-bit value as eight little-endian bytes.
    pub fn push_u64_le(&mut self, v: u64)
        requires
            old(self).wf(),
        ensures
            final(self).wf(),
            final(self).pos == old(self).pos,
            final(self).bytes@ == old(self).bytes@ + u64_le_bytes(v),
    {
        proof {
            assert(v & 0xff < 256 && (v >> 8) & 0xff < 256 && (v >> 16) & 0xff < 256 && (v >> 24)
                & 0xff < 256 && (v >> 32) & 0xff < 256 && (v >> 40) & 0xff < 256 && (v >> 48)
                & 0xff < 256 && (v >> 56) & 0xff < 256) by (bit_vector);
        }
        self.bytes.push((v & 0xff) as u8);
        self.bytes.push(((v >> 8) & 0xff) as u8);
        self.bytes.push(((v >> 16) & 0xff) as u8);
        self.bytes.push(((v >> 24) & 0xff) as u8);
        self.bytes.push(((v >> 32) & 0xff) as u8);
        self.bytes.push(((v >> 40) & 0xff) as u8);
        self.bytes.push(((v >> 48) & 0xff) as u8);
        self.bytes.push(((v >> 56) & 0xff) as u8);
        proof {
            assert(self.bytes@ =~= old(self).bytes@ + u64_le_bytes(v));
        }
    }

    /// Overwrites the four bytes at offset `at` with a 32-bit little-endian
    /// value, in place; length and cursor do not change.
    pub fn overwrite_u32_le(&mut self, at: usize, v: u32)
        requires
            old(self).wf(),
            at + 4 <= old(self).bytes@.len(),
        ensures
            final(self).wf(),
            final(self).pos == old(self).pos,
            final(self).bytes@.len() == old(self).bytes@.len(),
            final(self).bytes@ == spliced(old(self).bytes@, at as int, u32_le_bytes(v)),
    {
        proof {
            assert(v & 0xff < 256 && (v >> 8) & 0xff < 256 && (v >> 16) & 0xff < 256 && (v >> 24)
                & 0xff < 256) by (bit_vector);
        }
        let n = self.bytes.len();
        assert(at + 4 <= n);
        self.bytes.set(at, (v & 0xff) as u8);
        self.bytes.set(at + 1, ((v >> 8) & 0xff) as u8);
        self.bytes.set(at + 2, ((v >> 16) & 0xff) as u8);
        self.bytes.set(at + 3, ((v >> 24) & 0xff) as u8);
        proof {
            assert(self.bytes@ =~= spliced(old(self).bytes@, at as int, u32_le_bytes(v)));
        }
    }
}

} // verus!

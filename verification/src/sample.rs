//! The per-element-type sample codec: fixed-width little-endian encoding and
//! decoding for each supported numeric element type.
//!
//! Floating-point samples are carried as their IEEE 754 bit patterns (`u32`
//! for 32-bit floats, `u64` for 64-bit floats); every bit pattern is a valid
//! sample, so the byte-level behaviour is the same.

use vstd::prelude::*;

use crate::lowlevel::reader::ReadError;
use crate::lowlevel::stream::{
    le16, le32, le64, lemma_le16_roundtrip, lemma_le32_roundtrip, lemma_le64_roundtrip,
    u16_le_bytes, u32_le_bytes, u64_le_bytes, ByteStream,
};
use crate::lowlevel::AudioFormat;

verus! {

/// Fixed-width little-endian input and output for one numeric element type.
///
/// `width` is the number of bytes of one encoded element, `to_le` its
/// little-endian encoding and `of_le` the value that `width` bytes decode
/// to; the proof obligations tie the three together, so that decoding an
/// encoded value always gives the value back.
pub trait NumIO: Sized + Copy {
    /// Width of one encoded element, in bytes.
    spec fn width() -> nat;

    /// The little-endian encoding of a value.
    spec fn to_le(self) -> Seq<u8>;

    /// The value that `width` little-endian bytes decode to.
    spec fn of_le(s: Seq<u8>) -> Self;

    /// The audio format tag a file of this element type is labelled with:
    /// the types the dispatch table recognises map to integer PCM, all
    /// others to `Unknown(0)`.
    spec fn format_spec() -> AudioFormat;

    /// An element is between one and eight bytes wide.
    proof fn lemma_width()
        ensures
            1 <= Self::width() <= 8,
    ;

    /// The encoding is exactly `width` bytes long.
    proof fn lemma_to_le_len(self)
        ensures
            self.to_le().len() == Self::width(),
    ;

    /// Decoding an encoded value gives the value back.
    proof fn lemma_le_roundtrip(self)
        ensures
            Self::of_le(self.to_le()) == self,
    ;

    /// The format tag survives a serialize/parse round trip.
    proof fn lemma_format_code()
        ensures
            AudioFormat::from_code(Self::format_spec().code()) == Self::format_spec(),
    ;

    /// Width of one encoded element, in bytes.
    fn byte_width() -> (w: usize)
        ensures
            w == Self::width(),
    ;

    /// The audio format tag of this element type.
    fn format() -> (f: AudioFormat)
        ensures
            f == Self::format_spec(),
    ;

    /// Reads one element: exactly `width` little-endian bytes.  On a short
    /// read the cursor does not move and the read fails.
    fn read(reader: &mut ByteStream) -> (r: Result<Self, ReadError>)
        requires
            old(reader).wf(),
        ensures
            final(reader).wf(),
            final(reader).bytes@ == old(reader).bytes@,
            if old(reader).remaining() >= Self::width() {
                r == Ok::<Self, ReadError>(
                    Self::of_le(
                        old(reader).bytes@.subrange(
                            old(reader).pos as int,
                            old(reader).pos + Self::width(),
                        ),
                    ),
                ) && final(reader).pos == old(reader).pos + Self::width()
            } else {
                r == Err::<Self, ReadError>(ReadError::UnexpectedEnd) && final(reader).pos == old(
                    reader,
                ).pos
            },
    ;

    /// Writes one element: exactly `width` little-endian bytes appended to
    /// the sink.
    fn write(&self, writer: &mut ByteStream)
        requires
            old(writer).wf(),
        ensures
            final(writer).wf(),
            final(writer).pos == old(writer).pos,
            final(writer).bytes@ == old(writer).bytes@ + self.to_le(),
    ;
}

impl NumIO for u8 {
    open spec fn width() -> nat {
        1
    }

    open spec fn to_le(self) -> Seq<u8> {
        seq![self]
    }

    open spec fn of_le(s: Seq<u8>) -> Self {
        s[0]
    }

    open spec fn format_spec() -> AudioFormat {
        AudioFormat::PCMLinear
    }

    proof fn lemma_width() {
    }

    proof fn lemma_to_le_len(self) {
    }

    proof fn lemma_le_roundtrip(self) {
    }

    proof fn lemma_format_code() {
    }

    fn byte_width() -> (w: usize) {
        1
    }

    fn format() -> (f: AudioFormat) {
        AudioFormat::PCMLinear
    }

    fn read(reader: &mut ByteStream) -> (r: Result<Self, ReadError>) {
        match reader.read_u8() {
            Some(b) => Ok(b),
            None => Err(ReadError::UnexpectedEnd),
        }
    }

    fn write(&self, writer: &mut ByteStream) {
        writer.push_u8(*self);
    }
}

impl NumIO for i8 {
    open spec fn width() -> nat {
        1
    }

    open spec fn to_le(self) -> Seq<u8> {
        seq![self as u8]
    }

    open spec fn of_le(s: Seq<u8>) -> Self {
        s[0] as i8
    }

    open spec fn format_spec() -> AudioFormat {
        AudioFormat::Unknown(0)
    }

    proof fn lemma_width() {
    }

    proof fn lemma_to_le_len(self) {
    }

    proof fn lemma_le_roundtrip(self) {
        assert((self as u8) as i8 == self) by (bit_vector);
    }

    proof fn lemma_format_code() {
    }

    fn byte_width() -> (w: usize) {
        1
    }

    fn format() -> (f: AudioFormat) {
        AudioFormat::Unknown(0)
    }

    fn read(reader: &mut ByteStream) -> (r: Result<Self, ReadError>) {
        match reader.read_u8() {
            Some(b) => Ok(
                #[verifier::truncate]
                (b as i8),
            ),
            None => Err(ReadError::UnexpectedEnd),
        }
    }

    fn write(&self, writer: &mut ByteStream) {
        writer.push_u8(
            #[verifier::truncate]
            (*self as u8),
        );
    }
}

impl NumIO for u16 {
    open spec fn width() -> nat {
        2
    }

    open spec fn to_le(self) -> Seq<u8> {
        u16_le_bytes(self)
    }

    open spec fn of_le(s: Seq<u8>) -> Self {
        le16(s[0], s[1])
    }

    open spec fn format_spec() -> AudioFormat {
        AudioFormat::Unknown(0)
    }

    proof fn lemma_width() {
    }

    proof fn lemma_to_le_len(self) {
    }

    proof fn lemma_le_roundtrip(self) {
        lemma_le16_roundtrip(self);
    }

    proof fn lemma_format_code() {
    }

    fn byte_width() -> (w: usize) {
        2
    }

    fn format() -> (f: AudioFormat) {
        AudioFormat::Unknown(0)
    }

    fn read(reader: &mut ByteStream) -> (r: Result<Self, ReadError>) {
        match reader.read_u16_le() {
            Some(v) => Ok(v),
            None => Err(ReadError::UnexpectedEnd),
        }
    }

    fn write(&self, writer: &mut ByteStream) {
        writer.push_u16_le(*self);
    }
}

impl NumIO for i16 {
    open spec fn width() -> nat {
        2
    }

    open spec fn to_le(self) -> Seq<u8> {
        u16_le_bytes(self as u16)
    }

    open spec fn of_le(s: Seq<u8>) -> Self {
        le16(s[0], s[1]) as i16
    }

    open spec fn format_spec() -> AudioFormat {
        AudioFormat::PCMLinear
    }

    proof fn lemma_width() {
    }

    proof fn lemma_to_le_len(self) {
    }

    proof fn lemma_le_roundtrip(self) {
        lemma_le16_roundtrip(self as u16);
        assert((self as u16) as i16 == self) by (bit_vector);
    }

    proof fn lemma_format_code() {
    }

    fn byte_width() -> (w: usize) {
        2
    }

    fn format() -> (f: AudioFormat) {
        AudioFormat::PCMLinear
    }

    fn read(reader: &mut ByteStream) -> (r: Result<Self, ReadError>) {
        match reader.read_u16_le() {
            Some(v) => Ok(
                #[verifier::truncate]
                (v as i16),
            ),
            None => Err(ReadError::UnexpectedEnd),
        }
    }

    fn write(&self, writer: &mut ByteStream) {
        writer.push_u16_le(
            #[verifier::truncate]
            (*self as u16),
        );
    }
}

impl NumIO for u32 {
    open spec fn width() -> nat {
        4
    }

    open spec fn to_le(self) -> Seq<u8> {
        u32_le_bytes(self)
    }

    open spec fn of_le(s: Seq<u8>) -> Self {
        le32(s[0], s[1], s[2], s[3])
    }

    open spec fn format_spec() -> AudioFormat {
        AudioFormat::Unknown(0)
    }

    proof fn lemma_width() {
    }

    proof fn lemma_to_le_len(self) {
    }

    proof fn lemma_le_roundtrip(self) {
        lemma_le32_roundtrip(self);
    }

    proof fn lemma_format_code() {
    }

    fn byte_width() -> (w: usize) {
        4
    }

    fn format() -> (f: AudioFormat) {
        AudioFormat::Unknown(0)
    }

    fn read(reader: &mut ByteStream) -> (r: Result<Self, ReadError>) {
        match reader.read_u32_le() {
            Some(v) => Ok(v),
            None => Err(ReadError::UnexpectedEnd),
        }
    }

    fn write(&self, writer: &mut ByteStream) {
        writer.push_u32_le(*self);
    }
}

impl NumIO for i32 {
    open spec fn width() -> nat {
        4
    }

    open spec fn to_le(self) -> Seq<u8> {
        u32_le_bytes(self as u32)
    }

    open spec fn of_le(s: Seq<u8>) -> Self {
        le32(s[0], s[1], s[2], s[3]) as i32
    }

    open spec fn format_spec() -> AudioFormat {
        AudioFormat::PCMLinear
    }

    proof fn lemma_width() {
    }

    proof fn lemma_to_le_len(self) {
    }

    proof fn lemma_le_roundtrip(self) {
        lemma_le32_roundtrip(self as u32);
        assert((self as u32) as i32 == self) by (bit_vector);
    }

    proof fn lemma_format_code() {
    }

    fn byte_width() -> (w: usize) {
        4
    }

    fn format() -> (f: AudioFormat) {
        AudioFormat::PCMLinear
    }

    fn read(reader: &mut ByteStream) -> (r: Result<Self, ReadError>) {
        match reader.read_u32_le() {
            Some(v) => Ok(
                #[verifier::truncate]
                (v as i32),
            ),
            None => Err(ReadError::UnexpectedEnd),
        }
    }

    fn write(&self, writer: &mut ByteStream) {
        writer.push_u32_le(
            #[verifier::truncate]
            (*self as u32),
        );
    }
}

impl NumIO for u64 {
    open spec fn width() -> nat {
        8
    }

    open spec fn to_le(self) -> Seq<u8> {
        u64_le_bytes(self)
    }

    open spec fn of_le(s: Seq<u8>) -> Self {
        le64(s[0], s[1], s[2], s[3], s[4], s[5], s[6], s[7])
    }

    open spec fn format_spec() -> AudioFormat {
        AudioFormat::Unknown(0)
    }

    proof fn lemma_width() {
    }

    proof fn lemma_to_le_len(self) {
    }

    proof fn lemma_le_roundtrip(self) {
        lemma_le64_roundtrip(self);
    }

    proof fn lemma_format_code() {
    }

    fn byte_width() -> (w: usize) {
        8
    }

    fn format() -> (f: AudioFormat) {
        AudioFormat::Unknown(0)
    }

    fn read(reader: &mut ByteStream) -> (r: Result<Self, ReadError>) {
        match reader.read_u64_le() {
            Some(v) => Ok(v),
            None => Err(ReadError::UnexpectedEnd),
        }
    }

    fn write(&self, writer: &mut ByteStream) {
        writer.push_u64_le(*self);
    }
}

impl NumIO for i64 {
    open spec fn width() -> nat {
        8
    }

    open spec fn to_le(self) -> Seq<u8> {
        u64_le_bytes(self as u64)
    }

    open spec fn of_le(s: Seq<u8>) -> Self {
        le64(s[0], s[1], s[2], s[3], s[4], s[5], s[6], s[7]) as i64
    }

    open spec fn format_spec() -> AudioFormat {
        AudioFormat::PCMLinear
    }

    proof fn lemma_width() {
    }

    proof fn lemma_to_le_len(self) {
    }

    proof fn lemma_le_roundtrip(self) {
        lemma_le64_roundtrip(self as u64);
        assert((self as u64) as i64 == self) by (bit_vector);
    }

    proof fn lemma_format_code() {
    }

    fn byte_width() -> (w: usize) {
        8
    }

    fn format() -> (f: AudioFormat) {
        AudioFormat::PCMLinear
    }

    fn read(reader: &mut ByteStream) -> (r: Result<Self, ReadError>) {
        match reader.read_u64_le() {
            Some(v) => Ok(
                #[verifier::truncate]
                (v as i64),
            ),
            None => Err(ReadError::UnexpectedEnd),
        }
    }

    fn write(&self, writer: &mut ByteStream) {
        writer.push_u64_le(
            #[verifier::truncate]
            (*self as u64),
        );
    }
}

/// The little-endian bytes of a whole sequence of elements, in order.
pub open spec fn encode_seq<T: NumIO>(vs: Seq<T>) -> Seq<u8>
    decreases vs.len(),
{
    if vs.len() == 0 {
        Seq::empty()
    } else {
        vs[0].to_le() + encode_seq(vs.skip(1))
    }
}

/// The elements that a byte sequence decodes to, reading `width` bytes at a
/// time until fewer than `width` bytes remain; a trailing partial element is
/// treated as the end of the data.
pub open spec fn decode_seq<T: NumIO>(s: Seq<u8>) -> Seq<T>
    decreases s.len(),
{
    if T::width() < 1 || s.len() < T::width() {
        Seq::empty()
    } else {
        seq![T::of_le(s.take(T::width() as int))] + decode_seq::<T>(s.skip(T::width() as int))
    }
}

/// An encoded sequence is `width` bytes per element.
pub proof fn lemma_encode_seq_len<T: NumIO>(vs: Seq<T>)
    ensures
        encode_seq(vs).len() == vs.len() * T::width(),
    decreases vs.len(),
{
    if vs.len() == 0 {
    } else {
        vs[0].lemma_to_le_len();
        lemma_encode_seq_len::<T>(vs.skip(1));
        assert((vs.len() - 1) * T::width() + T::width() == vs.len() * T::width())
            by (nonlinear_arith);
    }
}

/// Encoding a concatenation is the concatenation of the encodings.
pub proof fn lemma_encode_seq_concat<T: NumIO>(a: Seq<T>, b: Seq<T>)
    ensures
        encode_seq(a + b) == encode_seq(a) + encode_seq(b),
    decreases a.len(),
{
    if a.len() == 0 {
        assert(a + b =~= b);
        assert(encode_seq(a) + encode_seq(b) =~= encode_seq(b));
    } else {
        lemma_encode_seq_concat::<T>(a.skip(1), b);
        assert((a + b).skip(1) =~= a.skip(1) + b);
        assert(encode_seq(a + b) =~= encode_seq(a) + encode_seq(b));
    }
}

/// Extending a sequence by one element appends that element's encoding.
pub proof fn lemma_encode_seq_push<T: NumIO>(vs: Seq<T>, i: int)
    requires
        0 <= i < vs.len(),
    ensures
        encode_seq(vs.take(i + 1)) == encode_seq(vs.take(i)) + vs[i].to_le(),
{
    let one = seq![vs[i]];
    lemma_encode_seq_concat::<T>(vs.take(i), one);
    assert(vs.take(i + 1) =~= vs.take(i) + one);
    assert(one.skip(1).len() == 0);
    assert(encode_seq::<T>(one.skip(1)) =~= Seq::<u8>::empty());
    assert(encode_seq(one) =~= vs[i].to_le());
}

/// Decoding an encoded sequence gives the sequence back.
pub proof fn lemma_decode_encode_seq<T: NumIO>(vs: Seq<T>)
    ensures
        decode_seq::<T>(encode_seq(vs)) == vs,
    decreases vs.len(),
{
    T::lemma_width();
    if vs.len() == 0 {
        assert(decode_seq::<T>(encode_seq(vs)) =~= vs);
    } else {
        let w = T::width() as int;
        let head = vs[0];
        head.lemma_to_le_len();
        head.lemma_le_roundtrip();
        lemma_decode_encode_seq::<T>(vs.skip(1));
        lemma_encode_seq_len::<T>(vs.skip(1));
        let e = encode_seq(vs);
        assert((vs.len() - 1) * T::width() >= 0) by (nonlinear_arith)
            requires
                vs.len() >= 1,
        ;
        assert(e.take(w) =~= head.to_le());
        assert(e.skip(w) =~= encode_seq(vs.skip(1)));
        assert(decode_seq::<T>(e) =~= vs);
    }
}

/// A byte sequence decodes to one element per `width` whole bytes.
pub proof fn lemma_decode_seq_len<T: NumIO>(s: Seq<u8>)
    ensures
        decode_seq::<T>(s).len() == s.len() as int / T::width() as int,
    decreases s.len(),
{
    T::lemma_width();
    let w = T::width() as int;
    if s.len() < T::width() {
        assert(s.len() as int / w == 0) by (nonlinear_arith)
            requires
                0 <= s.len() < w,
        ;
    } else {
        lemma_decode_seq_len::<T>(s.skip(w));
        assert((s.len() - w) as int / w + 1 == s.len() as int / w) by (nonlinear_arith)
            requires
                1 <= w <= s.len(),
        ;
    }
}

} // verus!

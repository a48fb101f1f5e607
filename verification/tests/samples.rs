use wav_codec::lowlevel::reader::ReadError;
use wav_codec::lowlevel::stream::ByteStream;
use wav_codec::sample::NumIO;

#[test]
fn sample_codec_little_endian_bytes() {
    let mut sink = ByteStream::new(Vec::new());
    0xA1u8.write(&mut sink);
    (-2i8).write(&mut sink);
    0x1234u16.write(&mut sink);
    (-2i16).write(&mut sink);
    0x12345678u32.write(&mut sink);
    (-2i32).write(&mut sink);
    0x0123456789ABCDEFu64.write(&mut sink);
    (-2i64).write(&mut sink);
    let bytes = sink.into_bytes();

    assert_eq!(&bytes[0..2], &[0xA1, 0xFE]);
    assert_eq!(&bytes[2..4], &[0x34, 0x12]);
    assert_eq!(&bytes[4..6], &[0xFE, 0xFF]);
    assert_eq!(&bytes[6..10], &[0x78, 0x56, 0x34, 0x12]);
    assert_eq!(&bytes[10..14], &[0xFE, 0xFF, 0xFF, 0xFF]);
    assert_eq!(&bytes[14..22], &[0xEF, 0xCD, 0xAB, 0x89, 0x67, 0x45, 0x23, 0x01]);
    assert_eq!(&bytes[22..30], &[0xFE, 0xFF, 0xFF, 0xFF, 0xFF, 0xFF, 0xFF, 0xFF]);
}

#[test]
fn sample_codec_round_trip_each_type() {
    let mut sink = ByteStream::new(Vec::new());
    0xA1u8.write(&mut sink);
    (-2i8).write(&mut sink);
    0x1234u16.write(&mut sink);
    i16::MIN.write(&mut sink);
    0x12345678u32.write(&mut sink);
    i32::MIN.write(&mut sink);
    u64::MAX.write(&mut sink);
    i64::MIN.write(&mut sink);
    let mut src = ByteStream::new(sink.into_bytes());

    assert_eq!(u8::read(&mut src).unwrap(), 0xA1);
    assert_eq!(i8::read(&mut src).unwrap(), -2);
    assert_eq!(u16::read(&mut src).unwrap(), 0x1234);
    assert_eq!(i16::read(&mut src).unwrap(), i16::MIN);
    assert_eq!(u32::read(&mut src).unwrap(), 0x12345678);
    assert_eq!(i32::read(&mut src).unwrap(), i32::MIN);
    assert_eq!(u64::read(&mut src).unwrap(), u64::MAX);
    assert_eq!(i64::read(&mut src).unwrap(), i64::MIN);
}

#[test]
fn sample_read_fails_on_short_stream() {
    // Three bytes cannot hold a four-byte element; the cursor stays put and
    // a narrower element can still be read.
    let mut src = ByteStream::new(vec![1, 2, 3]);
    assert_eq!(i32::read(&mut src), Err(ReadError::UnexpectedEnd));
    assert_eq!(u16::read(&mut src).unwrap(), 0x0201);
}

#[test]
fn byte_widths_match_element_sizes() {
    assert_eq!(u8::byte_width(), 1);
    assert_eq!(i8::byte_width(), 1);
    assert_eq!(u16::byte_width(), 2);
    assert_eq!(i16::byte_width(), 2);
    assert_eq!(u32::byte_width(), 4);
    assert_eq!(i32::byte_width(), 4);
    assert_eq!(u64::byte_width(), 8);
    assert_eq!(i64::byte_width(), 8);
}

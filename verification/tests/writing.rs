use std::f64::consts::PI;

use wav_codec::lowlevel::reader::SampleIteratorFormat;
use wav_codec::lowlevel::stream::ByteStream;
use wav_codec::lowlevel::writer::WavWriter;
use wav_codec::lowlevel::WavFile;
use wav_codec::sample::NumIO;
use wav_codec::{encode_to_bytes, IteratorExt, WavFileDesc};

fn open_writer<T: NumIO>(desc: WavFileDesc<T>) -> WavWriter<T> {
    let sink = ByteStream::new(Vec::new());
    WavWriter::from_file(WavFile::write(desc, sink))
}

fn u32_field(bytes: &[u8], at: usize) -> u32 {
    u32::from_le_bytes([bytes[at], bytes[at + 1], bytes[at + 2], bytes[at + 3]])
}

#[test]
fn test_write_iterator_ext() {
    let desc = WavFileDesc::<u8>::empty(1, 44100);
    let mut writer = open_writer(desc);
    let samples: Vec<u8> = (0..44100)
        .map(|s| s as f64 / (44100.0 / (440.0 * 2.0 * PI)))
        .map(f64::sin)
        .map(|s| ((s + 1.0) * 127.5) as u8)
        .collect();
    samples.write(&mut writer).unwrap();
    let data = writer.into_inner();
    assert_eq!(data.bytes.len(), 44 + 44100);
}

#[test]
fn backpatch_after_three_samples() {
    let desc = WavFileDesc::<i16>::empty(1, 8000);
    let mut writer = open_writer(desc);
    writer.write_sample(1).unwrap();
    writer.write_sample(-2).unwrap();
    writer.write_sample(3).unwrap();
    let bytes = writer.into_inner().into_bytes();

    // Three samples of width two: the file-size field reads 3*2 + 40 and
    // the data-size field 3*2.
    assert_eq!(bytes.len(), 50);
    assert_eq!(u32_field(&bytes, 4), 46);
    assert_eq!(u32_field(&bytes, 40), 6);
    assert_eq!(&bytes[44..], &[1, 0, 254, 255, 3, 0]);
}

#[test]
fn backpatch_with_no_samples() {
    let desc = WavFileDesc::<u8>::empty(2, 44100);
    let writer = open_writer(desc);
    let bytes = writer.into_inner().into_bytes();
    assert_eq!(bytes.len(), 44);
    assert_eq!(u32_field(&bytes, 4), 40);
    assert_eq!(u32_field(&bytes, 40), 0);
}

#[test]
fn provisional_header_fields() {
    let desc = WavFileDesc::<i16>::new(2, 48000, 100);
    let mut writer = open_writer(desc);
    writer.write_sample(5).unwrap();
    let bytes = writer.into_inner().into_bytes();
    let (header, _) = wav_codec::lowlevel::WavHeader::from_reader(ByteStream::new(bytes))
        .unwrap();
    assert_eq!(header.channels, 2);
    assert_eq!(header.sample_rate, 48000);
    assert_eq!(header.bits_per_sample, 16);
    assert_eq!(header.bytes_per_block, 4);
    assert_eq!(header.bytes_per_sec, 48000 * 2);
    assert_eq!(header.data_size, 2);
    assert_eq!(header.file_size, 42);
}

#[test]
fn round_trip_i16() {
    let samples: Vec<i16> = vec![0, 1, -1, i16::MAX, i16::MIN, 12345, -12345];
    let desc = WavFileDesc::<i16>::new(1, 44100, samples.len());
    let bytes = encode_to_bytes(desc, samples.clone()).unwrap();

    let file = WavFile::from_reader(ByteStream::new(bytes)).unwrap();
    assert_eq!(file.header.channels, 1);
    assert_eq!(file.header.sample_rate, 44100);
    assert_eq!(file.header.bits_per_sample, 16);
    assert_eq!(file.len(), samples.len());
    match file.samples().unwrap() {
        SampleIteratorFormat::I16(mut it) => {
            assert_eq!(it.collect_remaining(), samples);
        }
        _ => panic!("Unexpected iterator format"),
    }
}

#[test]
fn round_trip_u8() {
    let samples: Vec<u8> = vec![0, 255, 128, 1, 254];
    let desc = WavFileDesc::<u8>::new(1, 8000, samples.len());
    let bytes = encode_to_bytes(desc, samples.clone()).unwrap();
    let file = WavFile::from_reader(ByteStream::new(bytes)).unwrap();
    match file.samples().unwrap() {
        SampleIteratorFormat::U8(mut it) => {
            assert_eq!(it.collect_remaining(), samples);
        }
        _ => panic!("Unexpected iterator format"),
    }
}

#[test]
fn round_trip_i32() {
    let samples: Vec<i32> = vec![0, i32::MAX, i32::MIN, 7, -7];
    let desc = WavFileDesc::<i32>::new(1, 96000, samples.len());
    let bytes = encode_to_bytes(desc, samples.clone()).unwrap();
    let file = WavFile::from_reader(ByteStream::new(bytes)).unwrap();
    match file.samples().unwrap() {
        SampleIteratorFormat::I32(mut it) => {
            assert_eq!(it.collect_remaining(), samples);
        }
        _ => panic!("Unexpected iterator format"),
    }
}

#[test]
fn round_trip_i64() {
    let samples: Vec<i64> = vec![0, i64::MAX, i64::MIN, 424242];
    let desc = WavFileDesc::<i64>::new(1, 44100, samples.len());
    let bytes = encode_to_bytes(desc, samples.clone()).unwrap();
    let file = WavFile::from_reader(ByteStream::new(bytes)).unwrap();
    match file.samples().unwrap() {
        SampleIteratorFormat::I64(mut it) => {
            assert_eq!(it.collect_remaining(), samples);
        }
        _ => panic!("Unexpected iterator format"),
    }
}

#[test]
fn round_trip_f32_bit_patterns() {
    // Float samples travel as bit patterns; the bytes are the same.
    let values: Vec<f32> = vec![0.0, 1.0, -1.5, f32::MIN_POSITIVE];
    let samples: Vec<u32> = values.iter().map(|v| v.to_bits()).collect();

    // A float header cannot be synthesized from the bit-pattern element
    // type, so write the payload under a hand-built float header.
    let mut bytes = Vec::new();
    bytes.extend_from_slice(b"RIFF");
    bytes.extend_from_slice(&(36u32 + 16).to_le_bytes());
    bytes.extend_from_slice(b"WAVEfmt ");
    bytes.extend_from_slice(&16u32.to_le_bytes());
    bytes.extend_from_slice(&3u16.to_le_bytes());
    bytes.extend_from_slice(&1u16.to_le_bytes());
    bytes.extend_from_slice(&44100u32.to_le_bytes());
    bytes.extend_from_slice(&(44100u32 * 4).to_le_bytes());
    bytes.extend_from_slice(&4u16.to_le_bytes());
    bytes.extend_from_slice(&32u16.to_le_bytes());
    bytes.extend_from_slice(b"data");
    bytes.extend_from_slice(&16u32.to_le_bytes());
    for v in &values {
        bytes.extend_from_slice(&v.to_le_bytes());
    }

    let file = WavFile::from_reader(ByteStream::new(bytes)).unwrap();
    match file.samples().unwrap() {
        SampleIteratorFormat::F32(mut it) => {
            assert_eq!(it.collect_remaining(), samples);
            let decoded: Vec<f32> = samples.iter().map(|b| f32::from_bits(*b)).collect();
            assert_eq!(decoded, values);
        }
        _ => panic!("Unexpected iterator format"),
    }
}

#[test]
fn sine_second_round_trip() {
    // One second of an 8-bit unsigned sine wave, mono, 44100 Hz: every byte
    // comes back exactly as written, and the file-size field reads
    // 44100 + 40.
    let samples: Vec<u8> = (0..44100)
        .map(|s| s as f64 / (44100.0 / (440.0 * 2.0 * PI)))
        .map(f64::sin)
        .map(|s| ((s + 1.0) * 127.5) as u8)
        .collect();
    let desc = WavFileDesc::<u8>::empty(1, 44100);
    let bytes = encode_to_bytes(desc, samples.clone()).unwrap();

    assert_eq!(u32_field(&bytes, 4), 44100 + 40);
    assert_eq!(u32_field(&bytes, 40), 44100);

    let file = WavFile::from_reader(ByteStream::new(bytes)).unwrap();
    assert_eq!(file.header.data_size, 44100);
    match file.samples().unwrap() {
        SampleIteratorFormat::U8(mut it) => {
            assert_eq!(it.collect_remaining(), samples);
        }
        _ => panic!("Unexpected iterator format"),
    }
}

#[test]
fn descriptor_recovered_from_header() {
    let samples: Vec<i16> = vec![3; 17];
    let desc = WavFileDesc::<i16>::new(1, 32000, samples.len());
    let bytes = encode_to_bytes(desc, samples).unwrap();
    let (header, _) = wav_codec::lowlevel::WavHeader::from_reader(ByteStream::new(bytes))
        .unwrap();
    let recovered = WavFileDesc::<i16>::from_header(header);
    assert_eq!(recovered.channels, 1);
    assert_eq!(recovered.sample_rate, 32000);
    assert_eq!(recovered.length, 17);
}

#[test]
fn untabled_element_type_gets_unknown_format() {
    // u16 is not in the dispatch table, so its files are labelled with the
    // preserved-verbatim Unknown(0) format and cannot be dispatched.
    let samples: Vec<u16> = vec![1, 2, 3];
    let desc = WavFileDesc::<u16>::new(1, 8000, 3);
    let bytes = encode_to_bytes(desc, samples).unwrap();
    let file = WavFile::from_reader(ByteStream::new(bytes)).unwrap();
    assert_eq!(
        file.header.audio_format,
        wav_codec::lowlevel::AudioFormat::Unknown(0)
    );
    assert!(file.samples().is_err());
}

#[test]
fn write_iter_counts_every_sample() {
    let desc = WavFileDesc::<u8>::empty(1, 8000);
    let mut writer = open_writer(desc);
    writer.write_iter(vec![9, 8, 7, 6]).unwrap();
    writer.write_sample(5).unwrap();
    let bytes = writer.into_inner().into_bytes();
    assert_eq!(u32_field(&bytes, 40), 5);
    assert_eq!(&bytes[44..], &[9, 8, 7, 6, 5]);
}

use wav_codec::lowlevel::reader::{ReadError, SampleIteratorFormat};
use wav_codec::lowlevel::stream::ByteStream;
use wav_codec::lowlevel::{AudioFormat, WavFile, WavHeader};

/// A complete canonical WAV file, built field by field.
fn wav_fixture(
    format: u16,
    channels: u16,
    sample_rate: u32,
    bytes_per_block: u16,
    bits_per_sample: u16,
    data: &[u8],
) -> Vec<u8> {
    let mut bytes = Vec::new();
    bytes.extend_from_slice(b"RIFF");
    bytes.extend_from_slice(&((36 + data.len()) as u32).to_le_bytes());
    bytes.extend_from_slice(b"WAVE");
    bytes.extend_from_slice(b"fmt ");
    bytes.extend_from_slice(&16u32.to_le_bytes());
    bytes.extend_from_slice(&format.to_le_bytes());
    bytes.extend_from_slice(&channels.to_le_bytes());
    bytes.extend_from_slice(&sample_rate.to_le_bytes());
    let bytes_per_sec = sample_rate * bytes_per_block as u32;
    bytes.extend_from_slice(&bytes_per_sec.to_le_bytes());
    bytes.extend_from_slice(&bytes_per_block.to_le_bytes());
    bytes.extend_from_slice(&bits_per_sample.to_le_bytes());
    bytes.extend_from_slice(b"data");
    bytes.extend_from_slice(&(data.len() as u32).to_le_bytes());
    bytes.extend_from_slice(data);
    bytes
}

/// The single-sample, mono, 44100 Hz, 16-bit fixture: one `i16` sample of 0.
fn single_sample_u16() -> Vec<u8> {
    wav_fixture(1, 1, 44100, 2, 16, &[0, 0])
}

#[test]
fn test_header_well_formed() {
    let bytes = single_sample_u16();
    let res = WavHeader::from_reader(ByteStream::new(bytes));
    assert!(res.is_ok());

    let (header, _) = res.unwrap();
    assert_eq!(header.audio_format, AudioFormat::PCMLinear);
    assert_eq!(header.channels, 1);
    assert_eq!(header.sample_rate, 44100);
    assert_eq!(header.bits_per_sample, 16);
    assert_eq!(header.bytes_per_block, 2);
}

#[test]
fn test_header_f32() {
    let bytes = wav_fixture(3, 1, 44100, 4, 32, &0.0f32.to_le_bytes());
    let res = WavHeader::from_reader(ByteStream::new(bytes));
    assert!(res.is_ok());
}

#[test]
fn test_iterator() {
    let bytes = single_sample_u16();
    let res = WavFile::from_reader(ByteStream::new(bytes));
    assert!(res.is_ok());

    let iter_adt = res.unwrap().samples().unwrap();
    match iter_adt {
        SampleIteratorFormat::I16(mut it) => {
            assert_eq!(it.next(), Some(0));
            assert!(it.next().is_none());
        }
        _ => panic!("Unexpected iterator format"),
    }
}

#[test]
fn test_iterator_size() {
    let bytes = single_sample_u16();
    let res = WavFile::from_reader(ByteStream::new(bytes));
    assert!(res.is_ok());

    let iter = res.unwrap().samples().unwrap();
    match iter {
        SampleIteratorFormat::I16(it) => assert_eq!(1, it.len()),
        _ => panic!("Unexpected iterator format"),
    }
}

#[test]
fn header_parse_positions_stream_at_data() {
    let bytes = wav_fixture(1, 1, 8000, 2, 16, &[7, 0, 251, 255]);
    let (header, rest) = WavHeader::from_reader(ByteStream::new(bytes)).unwrap();
    assert_eq!(header.data_size, 4);
    assert_eq!(rest.pos, 44);
}

#[test]
fn header_rejects_corrupt_riff() {
    let mut bytes = single_sample_u16();
    bytes[0] = b'X';
    match WavHeader::from_reader(ByteStream::new(bytes)) {
        Err(ReadError::ExpectedRIFF(observed)) => {
            assert_eq!(observed, vec![b'X', b'I', b'F', b'F']);
        }
        other => panic!("expected the RIFF error, got {:?}", other.map(|(h, _)| h)),
    }
}

#[test]
fn header_rejects_corrupt_wave() {
    let mut bytes = single_sample_u16();
    bytes[9] = b'0';
    match WavHeader::from_reader(ByteStream::new(bytes)) {
        Err(ReadError::ExpectedWAVE(observed)) => {
            assert_eq!(observed, vec![b'W', b'0', b'V', b'E']);
        }
        other => panic!("expected the WAVE error, got {:?}", other.map(|(h, _)| h)),
    }
}

#[test]
fn header_rejects_corrupt_fmt() {
    let mut bytes = single_sample_u16();
    bytes[15] = b'!';
    match WavHeader::from_reader(ByteStream::new(bytes)) {
        Err(ReadError::ExpectedFmt(observed)) => {
            assert_eq!(observed, vec![b'f', b'm', b't', b'!']);
        }
        other => panic!("expected the fmt error, got {:?}", other.map(|(h, _)| h)),
    }
}

#[test]
fn header_rejects_corrupt_data_tag() {
    let mut bytes = single_sample_u16();
    bytes[36] = b'D';
    match WavHeader::from_reader(ByteStream::new(bytes)) {
        Err(ReadError::ExpectedData(observed)) => {
            assert_eq!(observed, vec![b'D', b'a', b't', b'a']);
        }
        other => panic!("expected the data error, got {:?}", other.map(|(h, _)| h)),
    }
}

#[test]
fn header_rejects_truncated_stream() {
    let bytes = single_sample_u16();
    let truncated = bytes[..20].to_vec();
    match WavHeader::from_reader(ByteStream::new(truncated)) {
        Err(e) => assert_eq!(e, ReadError::UnexpectedEnd),
        Ok(_) => panic!("a truncated stream must not parse"),
    }
}

#[test]
fn dispatch_selects_documented_element_types() {
    let cases: Vec<(u16, u16, u16)> = vec![
        // (format code, bytes per block for one channel, bits)
        (1, 1, 8),
        (1, 2, 16),
        (1, 4, 32),
        (3, 4, 32),
        (1, 8, 64),
        (3, 8, 64),
    ];
    for (format, width, bits) in cases {
        let bytes = wav_fixture(format, 1, 44100, width, bits, &[]);
        let file = WavFile::from_reader(ByteStream::new(bytes)).unwrap();
        let selected = file.samples().unwrap();
        let matches_table = match (width, format, selected) {
            (1, 1, SampleIteratorFormat::U8(_)) => true,
            (2, 1, SampleIteratorFormat::I16(_)) => true,
            (4, 1, SampleIteratorFormat::I32(_)) => true,
            (4, 3, SampleIteratorFormat::F32(_)) => true,
            (8, 1, SampleIteratorFormat::I64(_)) => true,
            (8, 3, SampleIteratorFormat::F64(_)) => true,
            _ => false,
        };
        assert!(matches_table, "wrong path for width {} format {}", width, format);
    }
}

#[test]
fn dispatch_rejects_out_of_table_pairs() {
    // An unlisted width.
    let bytes = wav_fixture(1, 1, 44100, 5, 40, &[]);
    let file = WavFile::from_reader(ByteStream::new(bytes)).unwrap();
    assert!(file.samples().is_err());

    // A width listed only for the other format kind.
    let bytes = wav_fixture(3, 1, 44100, 2, 16, &[]);
    let file = WavFile::from_reader(ByteStream::new(bytes)).unwrap();
    assert!(file.samples().is_err());

    // An unknown format code.
    let bytes = wav_fixture(2, 1, 44100, 2, 16, &[]);
    let file = WavFile::from_reader(ByteStream::new(bytes)).unwrap();
    assert_eq!(file.header.audio_format, AudioFormat::Unknown(2));
    let file = WavFile::from_reader(ByteStream::new(wav_fixture(2, 1, 44100, 2, 16, &[])))
        .unwrap();
    assert!(file.samples().is_err());
}

#[test]
fn format_code_decoding() {
    assert_eq!(AudioFormat::from_u16(1), AudioFormat::PCMLinear);
    assert_eq!(AudioFormat::from_u16(3), AudioFormat::PCMFloat);
    assert_eq!(AudioFormat::from_u16(7), AudioFormat::Unknown(7));
    assert_eq!(AudioFormat::from_u16(0), AudioFormat::Unknown(0));
}

#[test]
fn length_matches_decode_steps() {
    // Five 16-bit samples, mono: the declared count equals the number of
    // successful decode steps before exhaustion.
    let payload: Vec<u8> = vec![1, 0, 2, 0, 3, 0, 4, 0, 5, 0];
    let bytes = wav_fixture(1, 1, 22050, 2, 16, &payload);
    let file = WavFile::from_reader(ByteStream::new(bytes)).unwrap();
    match file.samples().unwrap() {
        SampleIteratorFormat::I16(mut it) => {
            let declared = it.len();
            let mut steps = 0;
            while it.next().is_some() {
                steps += 1;
            }
            assert_eq!(declared, 5);
            assert_eq!(steps, declared);
        }
        _ => panic!("Unexpected iterator format"),
    }
}

#[test]
fn collect_remaining_yields_all_samples() {
    let payload: Vec<u8> = vec![10, 0, 246, 255, 0, 1];
    let bytes = wav_fixture(1, 1, 8000, 2, 16, &payload);
    let file = WavFile::from_reader(ByteStream::new(bytes)).unwrap();
    match file.samples().unwrap() {
        SampleIteratorFormat::I16(mut it) => {
            assert_eq!(it.collect_remaining(), vec![10, -10, 256]);
            assert!(it.next().is_none());
        }
        _ => panic!("Unexpected iterator format"),
    }
}

#[test]
fn trailing_partial_sample_ends_the_sequence() {
    // data_size says 4 bytes but only 3 stand in the stream: the partial
    // trailing element reads as the end of the sequence.
    let mut bytes = wav_fixture(1, 1, 8000, 2, 16, &[1, 0, 2]);
    bytes[40] = 4;
    let file = WavFile::from_reader(ByteStream::new(bytes)).unwrap();
    match file.samples().unwrap() {
        SampleIteratorFormat::I16(mut it) => {
            assert_eq!(it.next(), Some(1));
            assert!(it.next().is_none());
        }
        _ => panic!("Unexpected iterator format"),
    }
}

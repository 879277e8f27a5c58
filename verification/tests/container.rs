use hound::Error;
use hound::WavReader;
use hound::WavSpec;
use hound::WavWriter;

#[test]
fn write_read_i16_is_lossless() {
    let write_spec = WavSpec { channels: 2, sample_rate: 44100, bits_per_sample: 16 };

    let mut writer = WavWriter::new(write_spec);
    for s in -1024_i16..1024 {
        writer.write_sample(s).unwrap();
    }
    writer.finalize().unwrap();
    let buffer = writer.into_inner();

    let mut reader = WavReader::new(buffer).unwrap();
    assert_eq!(&write_spec, reader.spec());
    for expected in -1024_i16..1024 {
        let read: i16 = reader.read_sample().unwrap().unwrap();
        assert_eq!(expected, read);
    }
    assert!(reader.read_sample::<i16>().is_none());
}

#[test]
fn write_read_i8_is_lossless() {
    let write_spec = WavSpec { channels: 16, sample_rate: 48000, bits_per_sample: 8 };

    // Write `i8` samples.
    let mut writer = WavWriter::new(write_spec);
    // Iterate over i16 because we cannot specify the upper bound otherwise.
    for s in -128_i16..127 + 1 {
        writer.write_sample(s as i8).unwrap();
    }
    writer.finalize().unwrap();
    let buffer = writer.into_inner();

    // Then read them into `i16`.
    let mut reader = WavReader::new(buffer).unwrap();
    assert_eq!(&write_spec, reader.spec());
    for expected in -128_i16..127 + 1 {
        let read: i16 = reader.read_sample().unwrap().unwrap();
        assert_eq!(expected, read);
    }
}

#[test]
fn samples_returns_the_whole_sequence_in_order() {
    let spec = WavSpec { channels: 2, sample_rate: 44100, bits_per_sample: 16 };
    let mut writer = WavWriter::new(spec);
    let input: Vec<i16> = vec![-3, -2, -1, 0, 1, 2, 3, 4];
    for &s in &input {
        writer.write_sample(s).unwrap();
    }
    writer.finalize().unwrap();

    let mut reader = WavReader::new(writer.into_inner()).unwrap();
    let output: Vec<i16> = reader.samples().unwrap();
    assert_eq!(input, output);
}

#[test]
fn write_read_is_lossless_at_24_and_32_bits() {
    let spec = WavSpec { channels: 1, sample_rate: 96000, bits_per_sample: 24 };
    let mut writer = WavWriter::new(spec);
    let input: Vec<i32> = vec![-8_388_608, -1, 0, 1, 8_388_607];
    for &s in &input {
        writer.write_sample(s).unwrap();
    }
    writer.finalize().unwrap();
    let mut reader = WavReader::new(writer.into_inner()).unwrap();
    assert_eq!(&spec, reader.spec());
    let output: Vec<i32> = reader.samples().unwrap();
    assert_eq!(input, output);

    let spec = WavSpec { channels: 1, sample_rate: 96000, bits_per_sample: 32 };
    let mut writer = WavWriter::new(spec);
    let input: Vec<i32> = vec![i32::MIN, -1, 0, 1, i32::MAX];
    for &s in &input {
        writer.write_sample(s).unwrap();
    }
    writer.finalize().unwrap();
    let mut reader = WavReader::new(writer.into_inner()).unwrap();
    assert_eq!(&spec, reader.spec());
    let output: Vec<i32> = reader.samples().unwrap();
    assert_eq!(input, output);
}

#[test]
fn finalize_with_unbalanced_frame_fails() {
    let spec = WavSpec { channels: 2, sample_rate: 44100, bits_per_sample: 16 };

    // A balanced writer finalized first: its container must stay intact.
    let mut balanced = WavWriter::new(spec);
    for s in 0..4 {
        balanced.write_sample(s as i16).unwrap();
    }
    balanced.finalize().unwrap();
    let good = balanced.into_inner();

    // Three samples do not fill whole two-channel frames.
    let mut writer = WavWriter::new(spec);
    for s in 0..3 {
        writer.write_sample(s as i16).unwrap();
    }
    assert_eq!(Err(Error::UnfinishedSample), writer.finalize());

    // The failed finalize left the provisional header untouched.
    let bytes = writer.into_inner();
    assert_eq!(&bytes[4..8], &[0, 0, 0, 0]);
    assert_eq!(&bytes[40..44], &[0, 0, 0, 0]);

    // The earlier successful container still opens and parses.
    let mut reader = WavReader::new(good).unwrap();
    assert_eq!(&spec, reader.spec());
    let read: Vec<i16> = reader.samples().unwrap();
    assert_eq!(vec![0i16, 1, 2, 3], read);
}

#[test]
fn missing_data_chunk_fails_open() {
    // A well-formed RIFF/WAVE front with a full fmt chunk but no data chunk.
    let mut bytes: Vec<u8> = Vec::new();
    bytes.extend_from_slice(b"RIFF");
    bytes.extend_from_slice(&[36, 0, 0, 0]);
    bytes.extend_from_slice(b"WAVE");
    bytes.extend_from_slice(b"fmt ");
    bytes.extend_from_slice(&[16, 0, 0, 0]);
    bytes.extend_from_slice(&[1, 0]); // PCM
    bytes.extend_from_slice(&[2, 0]); // channels
    bytes.extend_from_slice(&[0x44, 0xAC, 0, 0]); // 44100
    bytes.extend_from_slice(&[0x10, 0xB1, 0x02, 0]); // byte rate
    bytes.extend_from_slice(&[4, 0]); // block align
    bytes.extend_from_slice(&[16, 0]); // bits per sample
    assert!(matches!(WavReader::new(bytes), Err(Error::FormatError(_))));
}

#[test]
fn open_rejects_wrong_tags() {
    let mut bytes: Vec<u8> = vec![0; 12];
    bytes[0..4].copy_from_slice(b"RIFX");
    assert!(matches!(WavReader::new(bytes), Err(Error::FormatError(_))));

    let mut bytes: Vec<u8> = vec![0; 12];
    bytes[0..4].copy_from_slice(b"RIFF");
    bytes[8..12].copy_from_slice(b"EVAW");
    assert!(matches!(WavReader::new(bytes), Err(Error::FormatError(_))));

    // Shorter than the RIFF header itself: an IO-class failure.
    assert!(matches!(WavReader::new(vec![b'R', b'I']), Err(Error::IoError)));
}

#[test]
fn open_rejects_non_pcm() {
    let spec = WavSpec { channels: 1, sample_rate: 8000, bits_per_sample: 8 };
    let mut writer = WavWriter::new(spec);
    writer.write_sample(1i8).unwrap();
    writer.write_sample(2i8).unwrap();
    writer.finalize().unwrap();
    let mut bytes = writer.into_inner();
    bytes[20] = 2; // format tag: not PCM
    assert!(matches!(WavReader::new(bytes), Err(Error::FormatError(_))));
}

#[test]
fn short_data_chunk_fails_the_pull_with_io_error() {
    let spec = WavSpec { channels: 1, sample_rate: 8000, bits_per_sample: 16 };
    let mut writer = WavWriter::new(spec);
    writer.write_sample(7i16).unwrap();
    writer.finalize().unwrap();
    let mut bytes = writer.into_inner();
    // Truncate the physical stream below the declared data size.
    bytes.truncate(45);
    let mut reader = WavReader::new(bytes).unwrap();
    assert_eq!(Some(Err(Error::IoError)), reader.read_sample::<i16>());
}

#[test]
fn odd_data_length_gets_one_pad_byte() {
    let spec = WavSpec { channels: 1, sample_rate: 8000, bits_per_sample: 8 };
    let mut writer = WavWriter::new(spec);
    for s in 0..3 {
        writer.write_sample(s as i8).unwrap();
    }
    writer.finalize().unwrap();
    let bytes = writer.into_inner();

    // 44 header bytes, 3 sample bytes, and exactly one pad byte.
    assert_eq!(48, bytes.len());
    // The data size field counts the 3 sample bytes, not the pad.
    assert_eq!(&bytes[40..44], &[3, 0, 0, 0]);
    // The RIFF size field holds 36 + 3, pre pad.
    assert_eq!(&bytes[4..8], &[39, 0, 0, 0]);
    assert_eq!(0, bytes[47]);
}

#[test]
fn header_layout_is_bit_exact() {
    let spec = WavSpec { channels: 2, sample_rate: 44100, bits_per_sample: 16 };
    let mut writer = WavWriter::new(spec);
    writer.write_sample(-1i16).unwrap();
    writer.write_sample(1i16).unwrap();
    writer.finalize().unwrap();
    let bytes = writer.into_inner();

    let mut expected: Vec<u8> = Vec::new();
    expected.extend_from_slice(b"RIFF");
    expected.extend_from_slice(&[40, 0, 0, 0]); // 36 + 4 data bytes
    expected.extend_from_slice(b"WAVE");
    expected.extend_from_slice(b"fmt ");
    expected.extend_from_slice(&[16, 0, 0, 0]);
    expected.extend_from_slice(&[1, 0]); // PCM
    expected.extend_from_slice(&[2, 0]); // channels
    expected.extend_from_slice(&[0x44, 0xAC, 0, 0]); // 44100
    expected.extend_from_slice(&[0x10, 0xB1, 0x02, 0]); // 176400 = 44100 * 2 * 2
    expected.extend_from_slice(&[4, 0]); // block align
    expected.extend_from_slice(&[16, 0]); // bits per sample
    expected.extend_from_slice(b"data");
    expected.extend_from_slice(&[4, 0, 0, 0]);
    expected.extend_from_slice(&[0xFF, 0xFF, 0x01, 0x00]); // -1, then 1
    assert_eq!(expected, bytes);
}

#[test]
fn unknown_chunks_are_skipped() {
    // A container with a LIST chunk of odd size (so a pad byte) before fmt,
    // and another unknown chunk between fmt and data.
    let mut bytes: Vec<u8> = Vec::new();
    bytes.extend_from_slice(b"RIFF");
    bytes.extend_from_slice(&[0, 0, 0, 0]);
    bytes.extend_from_slice(b"WAVE");
    bytes.extend_from_slice(b"LIST");
    bytes.extend_from_slice(&[3, 0, 0, 0]);
    bytes.extend_from_slice(&[9, 9, 9, 0]); // 3 bytes and a pad
    bytes.extend_from_slice(b"fmt ");
    bytes.extend_from_slice(&[16, 0, 0, 0]);
    bytes.extend_from_slice(&[1, 0]);
    bytes.extend_from_slice(&[1, 0]);
    bytes.extend_from_slice(&[0x40, 0x1F, 0, 0]); // 8000
    bytes.extend_from_slice(&[0x40, 0x1F, 0, 0]);
    bytes.extend_from_slice(&[1, 0]);
    bytes.extend_from_slice(&[8, 0]);
    bytes.extend_from_slice(b"junk");
    bytes.extend_from_slice(&[2, 0, 0, 0]);
    bytes.extend_from_slice(&[7, 7]);
    bytes.extend_from_slice(b"data");
    bytes.extend_from_slice(&[2, 0, 0, 0]);
    bytes.extend_from_slice(&[128, 129]);

    let mut reader = WavReader::new(bytes).unwrap();
    let spec = *reader.spec();
    assert_eq!(1, spec.channels);
    assert_eq!(8000, spec.sample_rate);
    assert_eq!(8, spec.bits_per_sample);
    let samples: Vec<i8> = reader.samples().unwrap();
    assert_eq!(vec![0i8, 1], samples);
}

#[test]
fn finalized_writer_rejects_further_writes_and_a_second_finalize() {
    let spec = WavSpec { channels: 1, sample_rate: 8000, bits_per_sample: 8 };
    let mut writer = WavWriter::new(spec);
    writer.write_sample(1i8).unwrap();
    writer.write_sample(2i8).unwrap();
    writer.finalize().unwrap();

    assert_eq!(Err(Error::IoError), writer.write_sample(3i8));
    assert_eq!(Err(Error::IoError), writer.finalize());

    // The sealed container is exactly the two samples, uncorrupted.
    let bytes = writer.into_inner();
    assert_eq!(46, bytes.len());
    let mut reader = WavReader::new(bytes).unwrap();
    let samples: Vec<i8> = reader.samples().unwrap();
    assert_eq!(vec![1i8, 2], samples);
}

#[test]
fn writer_rejects_unsupported_bit_depth() {
    let spec = WavSpec { channels: 1, sample_rate: 8000, bits_per_sample: 12 };
    let mut writer = WavWriter::new(spec);
    assert_eq!(Err(Error::Unsupported), writer.write_sample(5i16));
    // Nothing was counted, so finalize still succeeds with zero samples.
    writer.finalize().unwrap();
    let bytes = writer.into_inner();
    assert_eq!(44, bytes.len());
}

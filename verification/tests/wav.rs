use std::io::Cursor;

use hound::{SampleFormat, WavSpec, WavWriter};
use striputary::audio::buffer::WavError;
use striputary::audio::{get_volume_at, AudioTime, Buffer, StreamSpec};

fn wav_file(spec: WavSpec, samples: &[i16]) -> Vec<u8> {
    let mut bytes = Cursor::new(Vec::new());
    let mut writer = WavWriter::new(&mut bytes, spec).unwrap();
    for sample in samples {
        writer.write_sample(*sample).unwrap();
    }
    writer.finalize().unwrap();
    bytes.into_inner()
}

const CD: WavSpec = WavSpec {
    channels: 2,
    sample_rate: 44100,
    bits_per_sample: 16,
    sample_format: SampleFormat::Int,
};

#[test]
fn buffer_from_a_wave_file() {
    let samples: Vec<i16> = vec![0, 1, -1, i16::MAX, i16::MIN, 12_345];
    let bytes = wav_file(CD, &samples);
    let buffer = Buffer::from_wav(&bytes).unwrap();
    assert_eq!(
        buffer.spec,
        StreamSpec {
            channels: 2,
            sample_rate: 44100
        }
    );
    assert_eq!(buffer.samples, samples);
}

#[test]
fn buffer_from_a_wave_file_without_samples() {
    let mono = WavSpec {
        channels: 1,
        sample_rate: 8000,
        ..CD
    };
    let buffer = Buffer::from_wav(&wav_file(mono, &[])).unwrap();
    assert_eq!(buffer.spec.channels, 1);
    assert_eq!(buffer.spec.sample_rate, 8000);
    assert!(buffer.samples.is_empty());
}

#[test]
fn buffer_from_bytes_that_are_no_wave_file() {
    assert_eq!(Buffer::from_wav(&Vec::new()).unwrap_err(), WavError::Header);
    assert_eq!(
        Buffer::from_wav(&b"RIFF and then nothing of use".to_vec()).unwrap_err(),
        WavError::Header
    );
    let mut bytes = wav_file(CD, &[1, 2, 3, 4]);
    bytes[0] = b'X';
    assert_eq!(Buffer::from_wav(&bytes).unwrap_err(), WavError::Header);
}

#[test]
fn buffer_from_a_wave_file_with_wider_samples() {
    let wide = WavSpec {
        bits_per_sample: 24,
        ..CD
    };
    let mut bytes = Cursor::new(Vec::new());
    let mut writer = WavWriter::new(&mut bytes, wide).unwrap();
    writer.write_sample(70_000i32).unwrap();
    writer.write_sample(-70_000i32).unwrap();
    writer.finalize().unwrap();
    assert_eq!(
        Buffer::from_wav(&bytes.into_inner()).unwrap_err(),
        WavError::Samples
    );
}

#[test]
fn buffer_from_a_wave_file_that_ends_early() {
    let mut bytes = wav_file(CD, &[1, 2, 3, 4, 5, 6]);
    bytes.truncate(bytes.len() - 3);
    assert_eq!(Buffer::from_wav(&bytes).unwrap_err(), WavError::Samples);
}

#[test]
fn volume_of_a_wave_file() {
    let mono = WavSpec {
        channels: 1,
        sample_rate: 8000,
        ..CD
    };
    let bytes = wav_file(mono, &vec![-16_384; 20_000]);
    let mut buffer = Buffer::from_wav(&bytes).unwrap();
    let time = AudioTime::from_time_and_spec(1_000_000_000_000, buffer.spec);
    assert_eq!(get_volume_at(&mut buffer, time), Ok(500_000_000));
}

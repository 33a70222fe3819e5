use rekk::resample::{mono_16k, resample_16k, to_mono};
use rekk::wav::{
    decode_wav, recording_format, wav_plan, wav_read, PcmData, PcmKind, WavAudio, WavFormat,
};
use std::io::Cursor;

fn spec(channels: u16, rate: u32, bits: u16, float: bool) -> hound::WavSpec {
    hound::WavSpec {
        channels,
        sample_rate: rate,
        bits_per_sample: bits,
        sample_format: if float { hound::SampleFormat::Float } else { hound::SampleFormat::Int },
    }
}

fn wav_ints(s: hound::WavSpec, samples: &[i32]) -> Vec<u8> {
    let mut cursor = Cursor::new(Vec::new());
    let mut writer = hound::WavWriter::new(&mut cursor, s).unwrap();
    for v in samples {
        writer.write_sample(*v).unwrap();
    }
    writer.finalize().unwrap();
    cursor.into_inner()
}

fn error(r: Result<WavAudio, String>) -> String {
    match r {
        Ok(_) => panic!(),
        Err(m) => m,
    }
}

fn mean3(a: f32, b: f32, c: f32) -> f32 {
    (a + b + c) / 3.0
}

fn lerp(a: f32, b: f32, n: u32) -> f32 {
    let frac = (n as f64 / 16_000.0) as f32;
    a * (1.0 - frac) + b * frac
}

fn mean(frame: &[f32]) -> f32 {
    frame.iter().copied().sum::<f32>() / frame.len() as f32
}

#[test]
fn recorder_format_is_read_back() {
    let bytes = wav_ints(spec(1, 48_000, 16, false), &[0, 1, -1, 32767, -32768]);
    let audio = decode_wav(&bytes).unwrap_or_else(|_| panic!());
    assert_eq!(audio.channels, 1);
    assert_eq!(audio.sample_rate, 48_000);
    match audio.data {
        PcmData::I16(v) => assert_eq!(v, vec![0, 1, -1, 32767, -32768]),
        _ => panic!(),
    }
}

#[test]
fn wide_samples_are_read() {
    for bits in [24u16, 32] {
        let bytes = wav_ints(spec(2, 44_100, bits, false), &[-5, 6, 8_000_000, -8_000_000]);
        let audio = decode_wav(&bytes).unwrap_or_else(|_| panic!());
        assert_eq!(audio.channels, 2);
        match audio.data {
            PcmData::I32(v) => assert_eq!(v, vec![-5, 6, 8_000_000, -8_000_000]),
            _ => panic!(),
        }
    }
}

#[test]
fn float_samples_are_left_to_the_caller() {
    let mut cursor = Cursor::new(Vec::new());
    let mut writer = hound::WavWriter::new(&mut cursor, spec(1, 16_000, 32, true)).unwrap();
    writer.write_sample(0.5f32).unwrap();
    writer.finalize().unwrap();
    let audio = decode_wav(&cursor.into_inner()).unwrap_or_else(|_| panic!());
    assert!(matches!(audio.data, PcmData::Float));
    assert_eq!(audio.sample_rate, 16_000);
}

#[test]
fn bad_files_are_refused() {
    assert_eq!(
        error(decode_wav(b"nonsense, not a wave file")),
        "Could not open WAV: Ill-formed WAVE file: no RIFF tag found"
    );
    assert_eq!(error(decode_wav(&[])), "Could not open WAV: Failed to read enough bytes.");
    let eight = wav_ints(spec(1, 8_000, 8, false), &[1, 2]);
    assert_eq!(error(decode_wav(&eight)), "Unsupported PCM bit depth: 8");
    let mut cut = wav_ints(spec(1, 48_000, 16, false), &[1, 2, 3]);
    cut.truncate(cut.len() - 1);
    assert_eq!(error(decode_wav(&cut)), "WAV read error: Failed to read enough bytes.");
    let mut cut = wav_ints(spec(1, 48_000, 24, false), &[1, 2, 3]);
    cut.truncate(cut.len() - 1);
    assert_eq!(error(decode_wav(&cut)), "WAV read error: Failed to read enough bytes.");
}

#[test]
fn header_decides_how_to_read_on() {
    let f = |bits: u16, int_samples: bool| WavFormat {
        channels: 1,
        sample_rate: 48_000,
        bits_per_sample: bits,
        int_samples,
    };
    assert!(wav_plan(Ok(f(16, true))).unwrap_or_else(|_| panic!()).1 == PcmKind::I16);
    assert!(wav_plan(Ok(f(24, true))).unwrap_or_else(|_| panic!()).1 == PcmKind::I32);
    assert!(wav_plan(Ok(f(32, true))).unwrap_or_else(|_| panic!()).1 == PcmKind::I32);
    assert!(wav_plan(Ok(f(32, false))).unwrap_or_else(|_| panic!()).1 == PcmKind::Float);
    match wav_plan(Ok(f(12, true))) {
        Err(m) => assert_eq!(m, "Unsupported PCM bit depth: 12"),
        Ok(_) => panic!(),
    }
    match wav_plan(Err("gone".to_string())) {
        Err(m) => assert_eq!(m, "Could not open WAV: gone"),
        Ok(_) => panic!(),
    }
    assert_eq!(wav_read(Ok(vec![1])), Ok(vec![1]));
    assert_eq!(wav_read::<i16>(Err("cut".to_string())), Err("WAV read error: cut".to_string()));
}

#[test]
fn speech_rate_passes_through() {
    assert_eq!(resample_16k(vec![1.0f32, 2.0], 16_000, mean3, lerp), vec![1.0, 2.0]);
    assert_eq!(to_mono(vec![1.0f32, 2.0, 3.0], 0, mean), vec![1.0, 2.0, 3.0]);
    assert_eq!(to_mono(vec![1.0f32, 2.0, 3.0], 1, mean), vec![1.0, 2.0, 3.0]);
    assert_eq!(to_mono(vec![1.0f32, 2.0, 3.0], 2, mean), vec![1.5, 3.0]);
}

#[test]
fn triple_rate_is_decimated() {
    let input = vec![3.0f32, 6.0, 9.0, 1.0, 1.0, 1.0, 7.0, 7.0];
    assert_eq!(resample_16k(input.clone(), 48_000, mean3, lerp), vec![6.0, 1.0]);
    assert_eq!(resample_16k(vec![1.0f32, 2.0], 48_000, mean3, lerp), Vec::<f32>::new());
    assert_eq!(mono_16k(input, 1, 48_000, mean, mean3, lerp), vec![6.0, 1.0]);
    for rate in 47_900u32..48_100 {
        let near = (rate as f64 / 16_000.0 - 3.0).abs() < 0.001;
        let out = resample_16k(vec![3u32, 6, 9], rate, |_, _, _| 1000, |_, _, _| 2000);
        assert_eq!(out.contains(&1000), near);
    }
}

#[test]
fn other_rates_are_interpolated() {
    assert_eq!(
        resample_16k(vec![0.0f32, 1.0, 2.0], 8_000, mean3, lerp),
        vec![0.0, 0.5, 1.0, 1.5, 2.0, 2.0]
    );
    assert_eq!(resample_16k(vec![0.0f32, 1.0, 2.0, 3.0], 32_000, mean3, lerp), vec![0.0, 2.0]);
    assert!(resample_16k(Vec::new(), 0, mean3, lerp).is_empty());
    assert_eq!(
        mono_16k(vec![1.0f32, 3.0, 5.0, 7.0], 2, 8_000, mean, mean3, lerp),
        vec![2.0, 4.0, 6.0, 6.0]
    );
}

#[test]
fn positions_agree_with_floating_point() {
    for rate in [11_025u32, 22_050, 24_000, 44_100, 96_000] {
        let mono: Vec<f32> = (0..20_000).map(|i| ((i * 37) % 101) as f32 / 101.0).collect();
        let ratio = rate as f64 / 16_000.0;
        let out_len = ((mono.len() as f64) * 16_000.0 / rate as f64) as usize;
        let out = resample_16k(mono.clone(), rate, mean3, lerp);
        assert_eq!(out.len(), out_len);
        for n in 0..out_len {
            let src_pos = (n as f64) * ratio;
            let i0 = src_pos.floor() as usize;
            let i1 = (i0 + 1).min(mono.len() - 1);
            let frac = (src_pos - i0 as f64) as f32;
            let v = mono[i0] * (1.0 - frac) + mono[i1] * frac;
            assert!((v - out[n]).abs() < 1e-5);
        }
    }
}

#[test]
fn recordings_are_one_channel_of_16_bits() {
    let f = recording_format();
    assert_eq!((f.channels, f.sample_rate, f.bits_per_sample), (1, 48_000, 16));
    assert!(f.int_samples);
}

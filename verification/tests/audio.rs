use rekk::blocks::{
    bytes_to_f32_bits, downmix, downmix_capture, max_buffered, pull_block, queue_samples,
    settle_block, store_system_samples, take_block, CapturedBuffer, AEC_FRAME_SIZE,
    TARGET_SAMPLE_RATE,
};
use rekk::capture::{
    capture_config, capture_source, capture_started, capture_stopped, take_blocks, take_capture,
    SystemAudioCapture,
};
use rekk::mixer::{gain_percent, pair_samples, write_mixed_samples, written_samples, MixControls};
use std::collections::VecDeque;

fn mean(frame: &[f32]) -> f32 {
    frame.iter().copied().sum::<f32>() / frame.len() as f32
}

fn open() -> MixControls {
    MixControls { mic_on: true, system_on: true, echo_cancel: false, paused: false }
}

#[test]
fn block_is_ten_milliseconds() {
    assert_eq!(AEC_FRAME_SIZE * 100, TARGET_SAMPLE_RATE as usize);
}

#[test]
fn queue_and_take_blocks() {
    let mut q: VecDeque<u32> = VecDeque::new();
    queue_samples(&mut q, &(0..479).collect::<Vec<u32>>());
    assert!(take_block(&mut q).is_none());
    assert_eq!(q.len(), 479);
    queue_samples(&mut q, &[479, 480]);
    assert_eq!(take_block(&mut q).unwrap(), (0..480).collect::<Vec<u32>>());
    assert_eq!(q, VecDeque::from(vec![480]));
}

#[test]
fn pulled_block_is_filled_up() {
    let mut q: VecDeque<i32> = VecDeque::from(vec![5, 6]);
    let b = pull_block(&mut q, -1);
    assert_eq!(b.len(), 480);
    assert_eq!(&b[..4], &[5, 6, -1, -1]);
    assert!(q.is_empty());
    let mut long: VecDeque<i32> = (0..500).collect();
    assert_eq!(pull_block(&mut long, -1)[479], 479);
    assert_eq!(long.len(), 20);
    assert_eq!(long[0], 480);
}

#[test]
fn settled_block_has_the_block_size() {
    assert_eq!(settle_block(vec![1u8; 500], 0), vec![1u8; 480]);
    let b = settle_block(vec![1u8, 2], 9);
    assert_eq!(&b[..3], &[1, 2, 9]);
    assert_eq!(b.len(), 480);
    assert_eq!(settle_block(Vec::new(), 7u8), vec![7u8; 480]);
}

#[test]
fn system_buffer_is_capped() {
    assert_eq!(max_buffered(48_000), 144_000);
    let mut q: VecDeque<i32> = VecDeque::from(vec![1, 2, 3]);
    store_system_samples(&mut q, &[4, 5], 10);
    assert_eq!(q, VecDeque::from(vec![1, 2, 3, 4, 5]));
    store_system_samples(&mut q, &[6, 7], 4);
    assert_eq!(q, VecDeque::from(vec![4, 5, 6, 7]));
    store_system_samples(&mut q, &[8, 9, 10], 2);
    assert_eq!(q, VecDeque::from(vec![9, 10]));
    store_system_samples(&mut q, &[1], 0);
    assert!(q.is_empty());
}

#[test]
fn interleaved_downmix() {
    let stereo = [1.0f32, 3.0, -1.0, 1.0, 0.5];
    assert_eq!(downmix(&stereo, 2, mean), vec![2.0, 0.0, 0.5]);
    assert_eq!(downmix(&stereo, 0, mean), stereo.to_vec());
    assert_eq!(downmix(&stereo, 1, mean), stereo.to_vec());
    assert_eq!(downmix(&[] as &[f32], 2, mean), Vec::<f32>::new());
}

#[test]
fn capture_downmix() {
    let one = vec![CapturedBuffer { channels: 2, samples: vec![1.0f32, 3.0, 5.0, 7.0] }];
    assert_eq!(downmix_capture(&one, mean), vec![2.0, 6.0]);
    let two = vec![
        CapturedBuffer { channels: 1, samples: vec![1.0f32, 2.0, 3.0] },
        CapturedBuffer { channels: 1, samples: vec![3.0f32, 4.0] },
    ];
    assert_eq!(downmix_capture(&two, mean), vec![2.0, 3.0]);
    let none: Vec<CapturedBuffer<f32>> = Vec::new();
    assert!(downmix_capture(&none, mean).is_empty());
    let zero = vec![CapturedBuffer { channels: 0, samples: vec![4.0f32, 5.0] }];
    assert_eq!(downmix_capture(&zero, mean), vec![4.0, 5.0]);
}

#[test]
fn captured_bytes_are_floats() {
    let mut bytes: Vec<u8> = Vec::new();
    for v in [0.5f32, -1.0, 3.25] {
        bytes.extend_from_slice(&v.to_le_bytes());
    }
    bytes.push(1);
    let bits = bytes_to_f32_bits(&bytes, true);
    let floats: Vec<f32> = bits.iter().map(|b| f32::from_bits(*b)).collect();
    assert_eq!(floats, vec![0.5, -1.0, 3.25]);
    assert!(bytes_to_f32_bits(&bytes, false).is_empty());
    assert!(bytes_to_f32_bits(&[1, 2, 3], true).is_empty());
}

#[test]
fn mixing_takes_whole_blocks() {
    let mut mic: VecDeque<i32> = (0..100).collect();
    let raw: Vec<i32> = (100..1000).collect();
    let mut system: VecDeque<i32> = (0..600).map(|i| -i).collect();
    let (out, ()) = write_mixed_samples(&mut mic, &raw, &mut system, open(), (), |c, b| (c, b), 77);
    assert_eq!(out.mic, (0..960).collect::<Vec<i32>>());
    assert_eq!(mic, (960..1000).collect::<VecDeque<i32>>());
    assert_eq!(out.system.len(), 960);
    assert_eq!(out.system[599], -599);
    assert_eq!(out.system[600], 77);
    assert!(system.is_empty());
    assert!(out.write);
}

#[test]
fn mixing_passes_blocks_through_the_canceller() {
    let mut mic: VecDeque<i32> = VecDeque::new();
    let mut system: VecDeque<i32> = (0..2000).collect();
    let controls = MixControls { echo_cancel: true, ..open() };
    let raw = vec![4; 500];
    let cancel =
        |c, b: Vec<i32>| (c, b.into_iter().take(10).map(|v| v * 2).collect::<Vec<i32>>());
    let (out, ()) = write_mixed_samples(&mut mic, &raw, &mut system, controls, (), cancel, 0);
    assert_eq!(&out.mic[..11], &[8, 8, 8, 8, 8, 8, 8, 8, 8, 8, 0]);
    assert_eq!(out.mic.len(), 480);
    assert_eq!(system.len(), 1520);
}

#[test]
fn pausing_drains_without_writing() {
    let mut mic: VecDeque<i32> = VecDeque::new();
    let mut system: VecDeque<i32> = (0..2000).collect();
    let controls = MixControls { echo_cancel: true, paused: true, ..open() };
    let raw = vec![4; 480];
    let cancel = |calls: u32, _| (calls + 1, vec![9]);
    let (out, calls) = write_mixed_samples(&mut mic, &raw, &mut system, controls, 0, cancel, 0);
    assert_eq!(calls, 0);
    assert_eq!(out.mic, vec![4; 480]);
    assert!(!out.write);
    assert_eq!(system.len(), 1520);
    let mix = |m: i32, _s: i32, _a: u32, _b: u32| m;
    assert!(written_samples(&out, controls, mix).is_empty());
}

#[test]
fn callback_size_does_not_matter() {
    let raw: Vec<i32> = (0..1300).collect();
    let sys: VecDeque<i32> = (5000..5700).collect();
    let mut m1: VecDeque<i32> = VecDeque::new();
    let mut s1 = sys.clone();
    let controls = MixControls { echo_cancel: true, ..open() };
    let cancel = |mut log: Vec<i32>, b: Vec<i32>| {
        log.push(b[0]);
        let n = log.len() as i32;
        (log, b.into_iter().map(|v| v * n).collect::<Vec<i32>>())
    };
    let (whole, log) =
        write_mixed_samples(&mut m1, &raw, &mut s1, controls, Vec::new(), cancel, 0);
    assert_eq!(log, vec![0, 480]);
    let mut m2: VecDeque<i32> = VecDeque::new();
    let mut s2 = sys.clone();
    let (a, log_a) =
        write_mixed_samples(&mut m2, &raw[..700], &mut s2, controls, Vec::new(), cancel, 0);
    let (b, log_b) = write_mixed_samples(&mut m2, &raw[700..], &mut s2, controls, log_a, cancel, 0);
    assert_eq!(log_b, log);
    assert_eq!([a.mic, b.mic].concat(), whole.mic);
    assert_eq!([a.system, b.system].concat(), whole.system);
    assert_eq!(m1, m2);
    assert_eq!(s1, s2);
}

#[test]
fn muted_sources_have_no_gain() {
    assert_eq!(gain_percent(true), 72);
    assert_eq!(gain_percent(false), 0);
    let mix = |m: f32, s: f32, a: u32, b: u32| -> i16 {
        let mixed = (m * (a as f32 / 100.0) + s * (b as f32 / 100.0)).clamp(-1.0, 1.0);
        (mixed * i16::MAX as f32) as i16
    };
    let mut mic: VecDeque<f32> = VecDeque::new();
    let mut system: VecDeque<f32> = vec![0.5; 480].into();
    let mut controls = open();
    let pass = |c, b| (c, b);
    let raw = [0.25f32; 480];
    let (out, ()) = write_mixed_samples(&mut mic, &raw, &mut system, controls, (), pass, 0.0);
    let expect = |v: f32| (v.clamp(-1.0, 1.0) * i16::MAX as f32) as i16;
    assert_eq!(written_samples(&out, controls, mix)[0], expect(0.25 * 0.72 + 0.5 * 0.72));
    controls.set_mix_gates(true, false);
    assert_eq!(written_samples(&out, controls, mix)[479], expect(0.25 * 0.72));
    controls.set_mix_gates(false, true);
    assert_eq!(written_samples(&out, controls, mix)[0], expect(0.5 * 0.72));
    controls.set_mix_gates(false, false);
    assert_eq!(written_samples(&out, controls, mix), vec![0i16; 480]);
    controls.set_aec_enabled(true);
    assert!(controls.echo_cancel && !controls.mic_on && !controls.paused);
    assert_eq!(72u32 as f32 / 100.0, 0.72f32);
}

#[test]
fn pairing_without_blocks() {
    let mut system: VecDeque<i32> = VecDeque::from(vec![10, 20]);
    assert!(pair_samples(&[1, 2, 3], &mut system, false, false, 0).is_empty());
    assert_eq!(system.len(), 2);
    assert_eq!(pair_samples(&[1, 2, 3], &mut system, false, true, 0), vec![(1, 10), (2, 20), (3, 0)]);
    assert!(system.is_empty());
    let mut more: VecDeque<i32> = VecDeque::from(vec![1, 2, 3, 4]);
    assert!(pair_samples(&[9, 9, 9], &mut more, true, true, 0).is_empty());
    assert_eq!(more, VecDeque::from(vec![4]));
    assert!(pair_samples(&[9], &mut more, true, false, 0).is_empty());
    assert!(more.is_empty());
}

#[test]
fn captured_audio_reaches_the_canceller_in_blocks() {
    let mut queue: VecDeque<f32> = VecDeque::new();
    let samples = |from: usize, n: usize| (from..from + n).map(|i| i as f32).collect::<Vec<f32>>();
    let first = vec![CapturedBuffer { channels: 1, samples: samples(0, 500) }];
    let c = take_capture(&first, mean, true, &mut queue).unwrap();
    assert_eq!(c.mono, samples(0, 500));
    assert_eq!(c.render, vec![samples(0, 480)]);
    assert_eq!(queue, VecDeque::from(samples(480, 20)));

    let second = vec![CapturedBuffer { channels: 1, samples: samples(500, 940) }];
    let c = take_capture(&second, mean, true, &mut queue).unwrap();
    assert_eq!(c.render, vec![samples(480, 480), samples(960, 480)]);
    assert!(queue.is_empty());
}

#[test]
fn capture_without_canceller_or_frames() {
    let mut queue: VecDeque<f32> = VecDeque::from(vec![9.0]);
    let none: Vec<CapturedBuffer<f32>> = Vec::new();
    assert!(take_capture(&none, mean, true, &mut queue).is_none());
    let empty = vec![CapturedBuffer { channels: 2, samples: Vec::new() }];
    assert!(take_capture(&empty, mean, true, &mut queue).is_none());
    assert_eq!(queue, VecDeque::from(vec![9.0]));
    let stereo = vec![CapturedBuffer { channels: 2, samples: vec![0.5, 0.25, 1.0, 0.0] }];
    let c = take_capture(&stereo, mean, false, &mut queue).unwrap();
    assert_eq!(c.mono, vec![0.375, 0.5]);
    assert!(c.render.is_empty());
    assert_eq!(queue, VecDeque::from(vec![9.0]));
}

#[test]
fn whole_blocks_leave_the_queue() {
    let mut queue: VecDeque<u16> = (0..970).collect();
    let blocks = take_blocks(&mut queue);
    assert_eq!(blocks.len(), 2);
    assert_eq!(blocks[1][0], 480);
    assert_eq!(queue, (960..970).collect::<VecDeque<u16>>());
}

#[test]
fn capture_starts_on_a_display() {
    assert_eq!(capture_source(Ok(2)), Ok(()));
    assert_eq!(
        capture_source(Ok(0)),
        Err("No displays available for ScreenCaptureKit".to_string())
    );
    assert_eq!(
        capture_source(Err("denied".to_string())),
        Err("ScreenCaptureKit content unavailable: denied".to_string())
    );
    assert_eq!(capture_started(Ok(())), Ok(()));
    assert_eq!(
        capture_started(Err("busy".to_string())),
        Err("Could not start ScreenCaptureKit stream: busy".to_string())
    );
    assert_eq!(capture_stopped(Ok(())), Ok(()));
    assert_eq!(
        capture_stopped(Err("gone".to_string())),
        Err("Could not stop ScreenCaptureKit stream: gone".to_string())
    );
    let c = capture_config();
    assert_eq!((c.width, c.height, c.channels), (2, 2, 2));
    assert!(c.captures_audio);
}

#[test]
fn canceller_gets_each_block_once_and_in_order() {
    let mut mic: VecDeque<u32> = (0..10).collect();
    let raw: Vec<u32> = (10..1500).collect();
    let mut system: VecDeque<u32> = VecDeque::new();
    let controls = MixControls { echo_cancel: true, ..open() };
    let cancel = |mut log: Vec<(usize, u32)>, b: Vec<u32>| {
        log.push((b.len(), b[0]));
        (log, b)
    };
    let (out, log) =
        write_mixed_samples(&mut mic, &raw, &mut system, controls, Vec::new(), cancel, 0);
    assert_eq!(log, vec![(480, 0), (480, 480), (480, 960)]);
    assert_eq!(out.mic, (0..1440).collect::<Vec<u32>>());
    let (_, log) =
        write_mixed_samples(&mut mic, &raw, &mut system, open(), Vec::new(), cancel, 0);
    assert!(log.is_empty());
}

#[test]
fn muted_source_does_not_reach_the_file() {
    let mix = |m: i32, s: i32, a: u32, b: u32| m * a as i32 + s * b as i32;
    let pass = |c, b| (c, b);
    let run = |mic: i32, system: i32, controls: MixControls| {
        let mut queue: VecDeque<i32> = vec![system; 100].into();
        let raw = vec![mic; 480];
        let (out, ()) = write_mixed_samples(
            &mut VecDeque::new(),
            &raw,
            &mut queue,
            controls,
            (),
            pass,
            0,
        );
        written_samples(&out, controls, mix)
    };
    let no_system = MixControls { system_on: false, ..open() };
    assert_eq!(run(3, 5, no_system), run(3, -8, no_system));
    let no_mic = MixControls { mic_on: false, ..open() };
    assert_eq!(run(3, 5, no_mic), run(70, 5, no_mic));
    assert_eq!(run(3, 5, MixControls { system_on: false, ..no_mic }), vec![0; 480]);
}

#[test]
fn row_of_captures_is_cut_and_buffered_as_a_whole() {
    let samples: Vec<f32> = (0..1500).map(|i| i as f32).collect();
    let mut capture: SystemAudioCapture<f32> = SystemAudioCapture::start(100);
    let mut system: VecDeque<f32> = VecDeque::new();
    let mut blocks: Vec<Vec<f32>> = Vec::new();
    for part in samples.chunks(333) {
        let buffers = vec![CapturedBuffer { channels: 1, samples: part.to_vec() }];
        let mut c = capture.take_in(&buffers, mean, true, &mut system).unwrap();
        blocks.append(&mut c.render);
    }
    assert_eq!(blocks.len(), 3);
    assert_eq!(blocks.concat(), &samples[..1440]);
    assert_eq!(capture.waiting, VecDeque::from(samples[1440..].to_vec()));
    assert_eq!(system, VecDeque::from(samples[1200..].to_vec()));

    let none: Vec<CapturedBuffer<f32>> = Vec::new();
    assert!(capture.take_in(&none, mean, true, &mut system).is_none());
    let one = vec![CapturedBuffer { channels: 1, samples: vec![9.0] }];
    let c = capture.take_in(&one, mean, false, &mut system).unwrap();
    assert!(c.render.is_empty());
    assert_eq!(capture.waiting.len(), 60);
    assert_eq!(system.len(), 300);
    assert_eq!(system[299], 9.0);
}

#[test]
fn recording_does_not_depend_on_the_cut() {
    let data: Vec<f32> = (0..4000).map(|i| (i % 97) as f32).collect();
    let mix = |m: f32, s: f32, a: u32, b: u32| m * a as f32 + s * b as f32;
    let record = |cuts: &[usize]| {
        let mut mic: VecDeque<f32> = VecDeque::new();
        let mut system: VecDeque<f32> = (0..700).map(|i| i as f32).collect();
        let mut written: Vec<f32> = Vec::new();
        let mut from = 0;
        for to in cuts {
            let mono = downmix(&data[from..*to], 2, mean);
            let (out, ()) = write_mixed_samples(
                &mut mic,
                &mono,
                &mut system,
                open(),
                (),
                |c, b| (c, b),
                0.0,
            );
            written.extend(written_samples(&out, open(), mix));
            from = *to;
        }
        (written, mic, system)
    };
    assert_eq!(record(&[4000]), record(&[2, 1000, 1002, 3998, 4000]));
}

#[test]
fn switches_of_a_fresh_start() {
    let c = MixControls::new();
    assert!(c.mic_on && c.system_on && c.echo_cancel && !c.paused);
}

use rekk::clock::{effective_elapsed_ms, PauseClock};
use rekk::meter::{Meter, MIC_METER_INTERVAL_MS, SYSTEM_METER_INTERVAL_MS};
use rekk::protocol::Pending;
use rekk::session::{
    claim_recorder, end_start, next_start_step, occupancy, pause_at, pause_recording, release, resume_at, resume_recording,
    running_since,
    stop_at, stop_recording, stopped, Finalized, InputDevice, MicFormat, MicSample, Recorder,
    Recording, RecordingStarted, RecordingStopped, StartFacts, StartStep, StartTask, SystemAudio,
};
use std::time::{Duration, Instant};

const WRAP: u128 = 1 << 64;

#[test]
fn running_clock_counts_everything() {
    let clock = PauseClock::new();
    assert_eq!(clock.effective_at(1234, 1234), 1234);
    assert_eq!(clock.effective_at(0, 0), 0);
}

#[test]
fn paused_clock_stands_still() {
    let mut clock = PauseClock::new();
    clock.pause(1000);
    assert_eq!(clock.effective_at(1000, 1000), 1000);
    assert_eq!(clock.effective_at(9000, 9000), 1000);
    clock.pause(5000);
    assert_eq!(clock.began_at_ms, 1000);
}

#[test]
fn pauses_do_not_count() {
    let mut clock = PauseClock::new();
    clock.pause(1000);
    clock.resume(4000);
    assert_eq!(clock.offset_ms, 3000);
    assert_eq!(clock.effective_at(4000, 4000), 1000);
    assert_eq!(clock.effective_at(6000, 6000), 3000);
    clock.pause(6000);
    clock.resume(6500);
    assert_eq!(clock.offset_ms, 3500);
    assert_eq!(clock.effective_at(7000, 7000), 3500);
    clock.resume(8000);
    assert_eq!(clock.offset_ms, 3500);
}

#[test]
fn clock_saturates_and_wraps() {
    let clock = PauseClock { paused: true, offset_ms: 10, began_at_ms: 100 };
    assert_eq!(clock.effective_at(5, 50), 0);
    assert_eq!(clock.effective_at(200, 50), 190);
    assert_eq!(clock.effective_at(WRAP + 200, WRAP + 150), WRAP + 200 - 10 - 50);
    let mut late = PauseClock::new();
    late.pause(WRAP + 7);
    assert_eq!(late.began_at_ms, 7);
    let mut full = PauseClock { paused: true, offset_ms: u64::MAX, began_at_ms: 0 };
    full.resume(3);
    assert_eq!(full.offset_ms, 2);
}

#[test]
fn second_reading_only_shortens() {
    let clock = PauseClock { paused: true, offset_ms: 0, began_at_ms: 100 };
    assert_eq!(clock.effective_at(150, 150), 100);
    assert_eq!(clock.effective_at(150, 153), 97);
}

#[test]
fn elapsed_time_is_read_from_the_clock() {
    let started = Instant::now() - Duration::from_millis(5000);
    let clock = PauseClock::new();
    let ms = effective_elapsed_ms(&clock, started);
    assert!(ms >= 5000 && ms < 20_000);
    let paused = PauseClock { paused: true, offset_ms: 1000, began_at_ms: 3000 };
    let ms = effective_elapsed_ms(&paused, started);
    assert!(ms <= 2000 && ms > 1000);
}

#[test]
fn meter_reports_are_spaced() {
    let mut mic = Meter::new(500, MIC_METER_INTERVAL_MS);
    assert!(!mic.due(33_000_499));
    assert!(mic.due(33_000_500));
    mic.reported(40_000_000);
    assert!(!mic.due(72_999_999));
    assert!(mic.due(73_000_000));
    assert!(!mic.due(0));
    let system = Meter::new(0, SYSTEM_METER_INTERVAL_MS);
    assert!(!system.due(249_999_999));
    assert!(system.due(250_000_000));
}

#[test]
fn pause_and_resume_need_a_recording() {
    let mut clock = PauseClock::new();
    assert_eq!(pause_at(Recorder::Idle, &mut clock), Err("No recording is running".to_string()));
    assert_eq!(resume_at(Recorder::Idle, &mut clock), Err("No recording is running".to_string()));
    assert!(!clock.paused);
    assert_eq!(pause_recording(Recorder::Idle, &mut clock), Err("No recording is running".to_string()));
    assert_eq!(resume_recording(Recorder::Idle, &mut clock), Err("No recording is running".to_string()));
    assert_eq!(pause_at(Recorder::Running(5), &mut clock), Ok(()));
    assert!(clock.paused);
    assert_eq!(clock.began_at_ms, 5);
    assert_eq!(pause_at(Recorder::Running(9), &mut clock), Ok(()));
    assert_eq!(clock.began_at_ms, 5);
    assert_eq!(resume_at(Recorder::Running(12), &mut clock), Ok(()));
    assert!(!clock.paused);
    assert_eq!(clock.offset_ms, 7);
    assert_eq!(resume_at(Recorder::Running(99), &mut clock), Ok(()));
    assert_eq!(clock.offset_ms, 7);
}

#[test]
fn pause_and_resume_read_the_time() {
    let started = Instant::now() - Duration::from_millis(2000);
    let mut clock = PauseClock::new();
    assert_eq!(pause_recording(Recorder::Running(started), &mut clock), Ok(()));
    assert!(clock.paused && clock.began_at_ms >= 2000);
    let earlier = started - Duration::from_millis(3000);
    assert_eq!(resume_recording(Recorder::Running(earlier), &mut clock), Ok(()));
    assert!(!clock.paused && clock.offset_ms >= 3000);
}

#[test]
fn stopping_takes_the_time_and_resets_the_clock() {
    let mut clock = PauseClock { paused: true, offset_ms: 500, began_at_ms: 2000 };
    let r = stop_at(Recorder::Running("/r/a.wav".to_string()), &mut clock, 3000, 3000);
    match r {
        Ok(s) => {
            assert_eq!(s.path, "/r/a.wav");
            assert_eq!(s.duration_ms, 1500);
        }
        Err(_) => panic!(),
    }
    assert!(!clock.paused);
    assert_eq!(clock.offset_ms, 0);
    assert_eq!(clock.began_at_ms, 0);
    let mut other = PauseClock { paused: true, offset_ms: 1, began_at_ms: 2 };
    match stop_at(Recorder::Idle, &mut other, 3, 3) {
        Ok(_) => panic!(),
        Err(m) => assert_eq!(m, "No recording is running"),
    }
    assert!(other.paused);
    assert!(stop_recording::<u8>(Recorder::Idle, &mut other).is_err());
    let started = Instant::now() - Duration::from_millis(4000);
    let mut fresh = PauseClock::new();
    let recording = Recording { path: "/r/b.wav".to_string(), started_at: started, kept: 7u8 };
    match stop_recording(Recorder::Running(recording), &mut fresh) {
        Ok((s, kept)) => assert!(s.path == "/r/b.wav" && s.duration_ms >= 4000 && kept == 7),
        Err(_) => panic!(),
    }
}

#[test]
fn stopped_recording_reports_the_file() {
    let rec = |p: &str| RecordingStopped { path: p.to_string(), duration_ms: 3 };
    assert!(stopped(rec("a"), Finalized::Closed).is_ok());
    assert!(stopped(rec("a"), Finalized::NothingOpen).is_ok());
    match stopped(rec("a"), Finalized::Locked) {
        Err(m) => assert_eq!(m, "Recorder writer is locked"),
        Ok(_) => panic!(),
    }
    match stopped(rec("a"), Finalized::Failed("disk full".to_string())) {
        Err(m) => assert_eq!(m, "Could not finalize WAV file: disk full"),
        Ok(_) => panic!(),
    }
}

#[test]
fn recorder_is_claimed_once() {
    let mut clock = PauseClock { paused: true, offset_ms: 4, began_at_ms: 9 };
    assert_eq!(
        claim_recorder(Recorder::Running(()), &mut clock),
        Err("Recording is already running".to_string())
    );
    assert!(clock.paused);
    assert_eq!(claim_recorder(Recorder::Idle, &mut clock), Ok(()));
    assert!(!clock.paused);
    assert_eq!(clock.offset_ms, 0);
}

fn task(f: &StartFacts) -> Option<StartTask> {
    match next_start_step(f) {
        StartStep::Pending(Pending::Do(t)) => Some(t),
        _ => None,
    }
}

fn failure(f: &StartFacts) -> String {
    match next_start_step(f) {
        StartStep::Pending(Pending::Failed(m)) => m,
        _ => panic!(),
    }
}

#[test]
fn start_goes_through_its_steps() {
    let mut f = StartFacts::new();
    assert!(task(&f) == Some(StartTask::CheckMicrophone));
    f.microphone = Some(Ok(()));
    assert!(task(&f) == Some(StartTask::CheckScreen));
    f.screen = Some(Ok(()));
    assert!(task(&f) == Some(StartTask::ClaimRecorder));
    f.claim = Some(Ok(()));
    assert!(task(&f) == Some(StartTask::PrepareEchoCanceller));
    f.echo_canceller = Some(Ok(()));
    assert!(task(&f) == Some(StartTask::FindInput));
    f.input = Some(InputDevice::Named("Built-in".to_string()));
    assert!(task(&f) == Some(StartTask::ReadInputFormat));
    f.format = Some(Ok(MicFormat::Known(MicSample::I16)));
    assert!(task(&f) == Some(StartTask::ChoosePath));
    f.path = Some(Ok("/m/Rekk/rek-1.wav".to_string()));
    assert!(task(&f) == Some(StartTask::CreateWav));
    f.wav = Some(Ok(()));
    assert!(task(&f) == Some(StartTask::BuildStream(MicSample::I16)));
    f.stream = Some(Ok(()));
    assert!(task(&f) == Some(StartTask::StartSystemAudio));
    f.system = Some(SystemAudio::Unavailable("no displays".to_string()));
    assert!(task(&f) == Some(StartTask::PlayStream));
    f.play = Some(Ok(()));
    match next_start_step(&f) {
        StartStep::Started(s) => {
            assert_eq!(s.path, "/m/Rekk/rek-1.wav");
            assert_eq!(s.sample_rate, 48_000);
            assert_eq!(s.channels, 1);
            assert_eq!(s.input_device, "Built-in");
            assert_eq!(s.system_audio, "System audio unavailable: no displays");
        }
        _ => panic!(),
    }
    f.system = Some(SystemAudio::Capturing);
    f.input = Some(InputDevice::Unnamed);
    match next_start_step(&f) {
        StartStep::Started(s) => {
            assert_eq!(s.input_device, "Unknown input device");
            assert_eq!(s.system_audio, "ScreenCaptureKit @ 48 kHz");
        }
        _ => panic!(),
    }
    f.system = Some(SystemAudio::Unsupported);
    match next_start_step(&f) {
        StartStep::Started(s) => {
            assert_eq!(s.system_audio, "System audio capture only available on macOS");
        }
        _ => panic!(),
    }
    f.play = Some(Err("busy".to_string()));
    assert_eq!(failure(&f), "Could not start input stream: busy");
    f.stream = Some(Err("busy".to_string()));
    assert_eq!(failure(&f), "Could not build input stream: busy");
    f.format = Some(Ok(MicFormat::Other("F64".to_string())));
    assert_eq!(failure(&f), "Unsupported sample format: F64");
    f.wav = Some(Err("denied".to_string()));
    assert_eq!(failure(&f), "Could not create WAV file: denied");
    f.path = Some(Err("no directory".to_string()));
    assert_eq!(failure(&f), "no directory");
    f.format = Some(Err("gone".to_string()));
    assert_eq!(failure(&f), "Could not read default input config: gone");
    f.input = Some(InputDevice::Missing);
    assert_eq!(failure(&f), "No default input device found");
    f.echo_canceller = Some(Err("rate".to_string()));
    assert_eq!(failure(&f), "Could not initialize AEC processor: rate");
    f.claim = Some(Err("Recording is already running".to_string()));
    assert_eq!(failure(&f), "Recording is already running");
    f.screen = Some(Err("screen".to_string()));
    assert_eq!(failure(&f), "screen");
    f.microphone = Some(Err("mic".to_string()));
    assert_eq!(failure(&f), "mic");
}

#[test]
fn locked_recorder_refuses_everything() {
    let locked = || "Recorder state is locked".to_string();
    let mut clock = PauseClock { paused: true, offset_ms: 4, began_at_ms: 9 };
    assert_eq!(claim_recorder(Recorder::Locked, &mut clock), Err(locked()));
    assert_eq!(pause_at(Recorder::Locked, &mut clock), Err(locked()));
    assert_eq!(resume_at(Recorder::Locked, &mut clock), Err(locked()));
    assert_eq!(pause_recording(Recorder::Locked, &mut clock), Err(locked()));
    assert_eq!(resume_recording(Recorder::Locked, &mut clock), Err(locked()));
    match stop_recording::<u8>(Recorder::Locked, &mut clock) {
        Err(m) => assert_eq!(m, locked()),
        Ok(_) => panic!(),
    }
    assert!(clock.paused && clock.offset_ms == 4 && clock.began_at_ms == 9);
}

#[test]
fn failed_stop_empties_the_recorder() {
    let mut clock = PauseClock { paused: true, offset_ms: 4, began_at_ms: 9 };
    let started_at = Instant::now();
    let mut slot = Some(Recording { path: "/r/a.wav".to_string(), started_at, kept: 1u8 });
    let (stopped_recording, _) = match stop_recording(release(&mut slot), &mut clock) {
        Ok(r) => r,
        Err(_) => panic!(),
    };
    assert!(slot.is_none());
    match stopped(stopped_recording, Finalized::Failed("disk full".to_string())) {
        Err(m) => assert_eq!(m, "Could not finalize WAV file: disk full"),
        Ok(_) => panic!(),
    }
    assert!(!clock.paused && clock.offset_ms == 0 && clock.began_at_ms == 0);
    match stop_recording(release(&mut slot), &mut clock) {
        Err(m) => assert_eq!(m, "No recording is running"),
        Ok(_) => panic!(),
    }
    assert_eq!(claim_recorder(occupancy(&slot), &mut clock), Ok(()));
}

#[test]
fn start_fills_the_recorder_or_leaves_it() {
    let mut slot: Option<Recording<u8>> = None;
    let at = Instant::now();
    match end_start(&mut slot, Err("No default input device found".to_string())) {
        Err(m) => assert_eq!(m, "No default input device found"),
        Ok(_) => panic!(),
    }
    assert!(slot.is_none());
    assert!(matches!(running_since(&slot), Recorder::Idle));
    let started = RecordingStarted {
        path: "/r/a.wav".to_string(),
        sample_rate: 48_000,
        channels: 1,
        input_device: "Built-in".to_string(),
        system_audio: "x".to_string(),
    };
    assert!(end_start(&mut slot, Ok((started, at, 5))).is_ok());
    assert!(matches!(running_since(&slot), Recorder::Running(since) if since == at));
    assert!(matches!(occupancy(&slot), Recorder::Running(())));
    match end_start(&mut slot, Err("Recording is already running".to_string())) {
        Err(_) => {}
        Ok(_) => panic!(),
    }
    match release(&mut slot) {
        Recorder::Running(r) => assert!(r.path == "/r/a.wav" && r.kept == 5),
        _ => panic!(),
    }
}

//! The life of a recording: starting, pausing, resuming and stopping it.
//!
//! Starting alternates with work outside: opening devices and files. What has
//! been found out so far is a `StartFacts`; `next_start_step` says what is to
//! be done next, or how the start ended.
use crate::blocks::TARGET_SAMPLE_RATE;
use crate::clock::{elapsed_ms, elapsed_twice_ms, PauseClock};
use crate::protocol::{after_step, first_of, settle, Pending, PendingView};
use crate::text::concat_text;
use vstd::prelude::*;

verus! {

/// The recorder as a request finds it: its state cannot be had, no recording is
/// running, or one is, with what is known of it.
pub enum Recorder<T> {
    Locked,
    Idle,
    Running(T),
}

/// Why a request that needs a running recording is refused; nothing where one is
/// running.
pub open spec fn refusal<T>(recorder: Recorder<T>) -> Option<Seq<char>> {
    match recorder {
        Recorder::Locked => Some("Recorder state is locked"@),
        Recorder::Idle => Some("No recording is running"@),
        Recorder::Running(_) => None,
    }
}

/// Whether a request is answered as the recorder asks for: refused with the
/// message, or granted.
pub open spec fn is_answer<T, R>(recorder: Recorder<T>, r: Result<R, String>) -> bool {
    match refusal(recorder) {
        Some(message) => r matches Err(m) && m@ == message,
        None => r is Ok,
    }
}

/// What is known of the running recording, or why the request is refused.
fn running<T>(recorder: Recorder<T>) -> (r: Result<T, String>)
    ensures
        is_answer(recorder, r),
        recorder matches Recorder::Running(known) ==> r == Ok::<T, String>(known),
{
    match recorder {
        Recorder::Locked => Err("Recorder state is locked".to_owned()),
        Recorder::Idle => Err("No recording is running".to_owned()),
        Recorder::Running(known) => Ok(known),
    }
}

/// Pauses the recording that is running, so many milliseconds after its start.
pub fn pause_at(recorder: Recorder<u128>, clock: &mut PauseClock) -> (r: Result<(), String>)
    ensures
        is_answer(recorder, r),
        *final(clock) == (match recorder {
            Recorder::Running(now) => old(clock).paused_at(now as int),
            _ => *old(clock),
        }),
{
    match running(recorder) {
        Ok(now) => {
            clock.pause(now);
            Ok(())
        },
        Err(message) => Err(message),
    }
}

/// Resumes the recording that is running, so many milliseconds after its start.
pub fn resume_at(recorder: Recorder<u128>, clock: &mut PauseClock) -> (r: Result<(), String>)
    ensures
        is_answer(recorder, r),
        *final(clock) == (match recorder {
            Recorder::Running(now) => old(clock).resumed_at(now as int),
            _ => *old(clock),
        }),
{
    match running(recorder) {
        Ok(now) => {
            clock.resume(now);
            Ok(())
        },
        Err(message) => Err(message),
    }
}

/// Pauses the recording that is running, given when it started.
pub fn pause_recording(recorder: Recorder<std::time::Instant>, clock: &mut PauseClock) -> (r: Result<
    (),
    String,
>)
    ensures
        is_answer(recorder, r),
        recorder is Running ==> exists|now: u128| *final(clock) == #[trigger] old(clock).paused_at(
            now as int,
        ),
        !(recorder is Running) ==> *final(clock) == *old(clock),
{
    match running(recorder) {
        Ok(started_at) => {
            let now: u128 = elapsed_ms(&started_at);
            pause_at(Recorder::Running(now), clock)
        },
        Err(message) => Err(message),
    }
}

/// Resumes the recording that is running, given when it started.
pub fn resume_recording(recorder: Recorder<std::time::Instant>, clock: &mut PauseClock) -> (r: Result<
    (),
    String,
>)
    ensures
        is_answer(recorder, r),
        recorder is Running ==> exists|now: u128| *final(clock) == #[trigger] old(clock).resumed_at(
            now as int,
        ),
        !(recorder is Running) ==> *final(clock) == *old(clock),
{
    match running(recorder) {
        Ok(started_at) => {
            let now: u128 = elapsed_ms(&started_at);
            resume_at(Recorder::Running(now), clock)
        },
        Err(message) => Err(message),
    }
}

/// A recording that was stopped: its file and its recorded time.
pub struct RecordingStopped {
    pub path: String,
    pub duration_ms: u128,
}

/// Stops the recording that is running, given its file: its recorded time is
/// taken first, and then its pauses are forgotten.
pub fn stop_at(recorder: Recorder<String>, clock: &mut PauseClock, raw: u128, now: u128) -> (r: Result<
    RecordingStopped,
    String,
>)
    ensures
        is_answer(recorder, r),
        match recorder {
            Recorder::Running(path) => {
                &&& r matches Ok(s) && s.path@ == path@ && s.duration_ms == old(clock).effective(
                    raw as int,
                    now as int,
                )
                &&& *final(clock) == PauseClock::fresh()
            },
            _ => *final(clock) == *old(clock),
        },
{
    match running(recorder) {
        Ok(path) => {
            let duration_ms: u128 = clock.effective_at(raw, now);
            *clock = PauseClock::new();
            Ok(RecordingStopped { path, duration_ms })
        },
        Err(message) => Err(message),
    }
}

/// A recording that is running: its file, when it started, and what is kept open
/// for it.
pub struct Recording<T> {
    pub path: String,
    pub started_at: std::time::Instant,
    pub kept: T,
}

/// The recorder as its slot shows it.
pub open spec fn slot_state<T>(slot: Option<Recording<T>>) -> Recorder<Recording<T>> {
    match slot {
        Some(recording) => Recorder::Running(recording),
        None => Recorder::Idle,
    }
}

/// What a request that needs no more than the start of the recording is told.
pub fn running_since<T>(slot: &Option<Recording<T>>) -> (r: Recorder<std::time::Instant>)
    ensures
        r == (match *slot {
            Some(recording) => Recorder::Running(recording.started_at),
            None => Recorder::Idle,
        }),
{
    match slot {
        Some(recording) => Recorder::Running(recording.started_at),
        None => Recorder::Idle,
    }
}

/// What a request to start is told.
pub fn occupancy<T>(slot: &Option<Recording<T>>) -> (r: Recorder<()>)
    ensures
        r == (match *slot {
            Some(_) => Recorder::Running(()),
            None => Recorder::<()>::Idle,
        }),
{
    match slot {
        Some(_) => Recorder::Running(()),
        None => Recorder::Idle,
    }
}

/// The slot after a stop: empty, however the stop goes on.
pub open spec fn released<T>(slot: Option<Recording<T>>) -> Option<Recording<T>> {
    None
}

/// Takes the recording out of the slot, for a stop.
pub fn release<T>(slot: &mut Option<Recording<T>>) -> (r: Recorder<Recording<T>>)
    ensures
        r == slot_state(*old(slot)),
        *final(slot) == released(*old(slot)),
{
    match slot.take() {
        Some(recording) => Recorder::Running(recording),
        None => Recorder::Idle,
    }
}

/// Whether `after` is the slot after a start that ended so: a recording that has
/// started goes into it, and a start that failed leaves it.
pub open spec fn is_slot_after_start<T>(
    slot: Option<Recording<T>>,
    end: Result<(RecordingStarted, std::time::Instant, T), String>,
    after: Option<Recording<T>>,
) -> bool {
    match end {
        Ok((started, started_at, kept)) => after matches Some(recording) && recording.path@
            == started.path@ && recording.started_at == started_at && recording.kept == kept,
        Err(_) => after == slot,
    }
}

/// Ends a start: a recording that has started goes into the slot, with when it
/// started and what is kept open for it.
pub fn end_start<T>(
    slot: &mut Option<Recording<T>>,
    end: Result<(RecordingStarted, std::time::Instant, T), String>,
) -> (r: Result<RecordingStarted, String>)
    ensures
        is_slot_after_start(*old(slot), end, *final(slot)),
        match end {
            Ok((started, _, _)) => r == Ok::<RecordingStarted, String>(started),
            Err(message) => r == Err::<RecordingStarted, String>(message),
        },
{
    match end {
        Ok((started, started_at, kept)) => {
            *slot = Some(Recording { path: started.path.clone(), started_at, kept });
            Ok(started)
        },
        Err(message) => Err(message),
    }
}

/// Stops the recording that is running. What is kept open for it is handed out,
/// to be closed. Its recorded time is read in two steps; the pauses are then
/// forgotten.
pub fn stop_recording<T>(recorder: Recorder<Recording<T>>, clock: &mut PauseClock) -> (r: Result<
    (RecordingStopped, T),
    String,
>)
    ensures
        is_answer(recorder, r),
        match recorder {
            Recorder::Running(recording) => {
                &&& r matches Ok((s, kept)) && s.path@ == recording.path@ && old(clock).reads(
                    s.duration_ms as int,
                ) && kept == recording.kept
                &&& *final(clock) == PauseClock::fresh()
            },
            _ => *final(clock) == *old(clock),
        },
{
    match running(recorder) {
        Ok(recording) => {
            let (raw, now) = elapsed_twice_ms(&recording.started_at);
            let ghost before = *clock;
            match stop_at(Recorder::Running(recording.path), clock, raw, now) {
                Ok(stopped) => {
                    assert(stopped.duration_ms == before.effective(raw as int, now as int));
                    Ok((stopped, recording.kept))
                },
                Err(message) => Err(message),
            }
        },
        Err(message) => Err(message),
    }
}

/// How the closing of the file went.
pub enum Finalized {
    Closed,
    NothingOpen,
    Locked,
    Failed(String),
}

/// Whether `r` is what a stopped recording is answered, given how the closing of
/// its file went.
pub open spec fn is_stopped(
    recording: RecordingStopped,
    file: Finalized,
    r: Result<RecordingStopped, String>,
) -> bool {
    match file {
        Finalized::Locked => r matches Err(m) && m@ == "Recorder writer is locked"@,
        Finalized::Failed(e) => r matches Err(m) && m@ == "Could not finalize WAV file: "@ + e@,
        _ => r == Ok::<RecordingStopped, String>(recording),
    }
}

/// What a stopped recording is answered, given how the closing of its file
/// went.
pub fn stopped(recording: RecordingStopped, file: Finalized) -> (r: Result<
    RecordingStopped,
    String,
>)
    ensures
        is_stopped(recording, file, r),
{
    match file {
        Finalized::Locked => Err("Recorder writer is locked".to_owned()),
        Finalized::Failed(e) => Err(concat_text("Could not finalize WAV file: ", e.as_str())),
        _ => Ok(recording),
    }
}

/// Whether `r` is what a claim of the recorder is answered, and `after` its clock
/// then.
pub open spec fn is_claim(
    recorder: Recorder<()>,
    clock: PauseClock,
    r: Result<(), String>,
    after: PauseClock,
) -> bool {
    match recorder {
        Recorder::Locked => (r matches Err(m) && m@ == "Recorder state is locked"@) && after
            == clock,
        Recorder::Running(_) => (r matches Err(m) && m@ == "Recording is already running"@)
            && after == clock,
        Recorder::Idle => r is Ok && after == PauseClock::fresh(),
    }
}

/// Claims the recorder for a new recording, whose clock starts afresh; refused
/// while one is running.
pub fn claim_recorder(recorder: Recorder<()>, clock: &mut PauseClock) -> (r: Result<(), String>)
    ensures
        is_claim(recorder, *old(clock), r, *final(clock)),
{
    match recorder {
        Recorder::Locked => Err("Recorder state is locked".to_owned()),
        Recorder::Running(_) => Err("Recording is already running".to_owned()),
        Recorder::Idle => {
            *clock = PauseClock::new();
            Ok(())
        },
    }
}

/// A stop empties the recorder even where closing the file fails: the answer is
/// the failure, the next stop finds no recording, and a new one can be started.
pub proof fn law_failed_stop_empties_the_recorder<T>(
    slot: Option<Recording<T>>,
    recording: RecordingStopped,
    error: String,
    answer: Result<RecordingStopped, String>,
    next_stop: Result<(RecordingStopped, T), String>,
    next_claim: Result<(), String>,
    clock: PauseClock,
    after: PauseClock,
)
    requires
        slot is Some,
        is_stopped(recording, Finalized::Failed(error), answer),
        is_answer(slot_state(released(slot)), next_stop),
        is_claim(
            match released(slot) {
                Some(_) => Recorder::Running(()),
                None => Recorder::<()>::Idle,
            },
            clock,
            next_claim,
            after,
        ),
    ensures
        answer matches Err(m) && m@ == "Could not finalize WAV file: "@ + error@,
        released(slot) is None,
        next_stop matches Err(m) && m@ == "No recording is running"@,
        next_claim is Ok,
        after == PauseClock::fresh(),
{
}

/// A start that fails leaves the recorder as it was, and one that succeeds can be
/// stopped: the stop gets its file and what was kept open for it.
pub proof fn law_start_fills_the_recorder<T>(
    slot: Option<Recording<T>>,
    end: Result<(RecordingStarted, std::time::Instant, T), String>,
    after: Option<Recording<T>>,
)
    requires
        is_slot_after_start(slot, end, after),
    ensures
        end is Err ==> slot_state(after) == slot_state(slot),
        end matches Ok((started, started_at, kept)) ==> (slot_state(
            after,
        ) matches Recorder::Running(recording) && recording.path@ == started.path@
            && recording.started_at == started_at && recording.kept == kept),
{
}

/// The sample types that the microphone is read in.
#[derive(Clone, Copy, PartialEq, Eq, Structural)]
pub enum MicSample {
    F32,
    I16,
    U16,
}

/// The sample format of the input device: one that can be read, or another,
/// with its name.
pub enum MicFormat {
    Known(MicSample),
    Other(String),
}

/// The input device that was found.
pub enum InputDevice {
    Missing,
    Unnamed,
    Named(String),
}

/// How the capture of system audio started.
pub enum SystemAudio {
    Capturing,
    Unavailable(String),
    Unsupported,
}

/// What has been found out so far about a recording that is starting; each
/// field is filled in by one step.
pub struct StartFacts {
    pub microphone: Option<Result<(), String>>,
    pub screen: Option<Result<(), String>>,
    pub claim: Option<Result<(), String>>,
    pub echo_canceller: Option<Result<(), String>>,
    pub input: Option<InputDevice>,
    pub format: Option<Result<MicFormat, String>>,
    pub path: Option<Result<String, String>>,
    pub wav: Option<Result<(), String>>,
    pub stream: Option<Result<(), String>>,
    pub system: Option<SystemAudio>,
    pub play: Option<Result<(), String>>,
}

/// One step of a start, to be done outside.
#[derive(Clone, Copy, PartialEq, Eq, Structural)]
pub enum StartTask {
    CheckMicrophone,
    CheckScreen,
    ClaimRecorder,
    PrepareEchoCanceller,
    FindInput,
    ReadInputFormat,
    ChoosePath,
    CreateWav,
    BuildStream(MicSample),
    StartSystemAudio,
    PlayStream,
}

/// A recording that has started.
pub struct RecordingStarted {
    pub path: String,
    pub sample_rate: u32,
    pub channels: u16,
    pub input_device: String,
    pub system_audio: String,
}

/// What comes next in a start: more to be done, or the recording.
pub enum StartStep {
    Pending(Pending<StartTask>),
    Started(RecordingStarted),
}

/// What comes next in a start, apart from how texts are stored.
pub enum StartVerdict {
    Pending(PendingView<StartTask>),
    Started {
        path: Seq<char>,
        sample_rate: u32,
        channels: u16,
        input_device: Seq<char>,
        system_audio: Seq<char>,
    },
}

impl View for StartStep {
    type V = StartVerdict;

    open spec fn view(&self) -> StartVerdict {
        match *self {
            StartStep::Pending(p) => StartVerdict::Pending(p@),
            StartStep::Started(s) => StartVerdict::Started {
                path: s.path@,
                sample_rate: s.sample_rate,
                channels: s.channels,
                input_device: s.input_device@,
                system_audio: s.system_audio@,
            },
        }
    }
}

/// How the capture of system audio is reported.
pub open spec fn system_audio_text(system: SystemAudio) -> Seq<char> {
    match system {
        SystemAudio::Capturing => "ScreenCaptureKit @ 48 kHz"@,
        SystemAudio::Unavailable(e) => "System audio unavailable: "@ + e@,
        SystemAudio::Unsupported => "System audio capture only available on macOS"@,
    }
}

/// How the input device is reported.
pub open spec fn input_device_text(input: InputDevice) -> Seq<char> {
    match input {
        InputDevice::Named(name) => name@,
        _ => "Unknown input device"@,
    }
}

/// Permissions and claim come first: nothing is opened before they are settled.
pub open spec fn admission(f: StartFacts) -> Option<PendingView<StartTask>> {
    first_of(
        after_step(f.microphone, StartTask::CheckMicrophone, Seq::empty()),
        first_of(
            after_step(f.screen, StartTask::CheckScreen, Seq::empty()),
            after_step(f.claim, StartTask::ClaimRecorder, Seq::empty()),
        ),
    )
}

/// Then the echo canceller and the input device are looked up.
pub open spec fn devices(f: StartFacts) -> Option<PendingView<StartTask>> {
    first_of(
        after_step(
            f.echo_canceller,
            StartTask::PrepareEchoCanceller,
            "Could not initialize AEC processor: "@,
        ),
        first_of(
            match f.input {
                None => Some(PendingView::Do(StartTask::FindInput)),
                Some(InputDevice::Missing) => Some(
                    PendingView::Failed("No default input device found"@),
                ),
                Some(_) => None,
            },
            after_step(
                f.format,
                StartTask::ReadInputFormat,
                "Could not read default input config: "@,
            ),
        ),
    )
}

/// Then the file is made, and the stream is built; a sample format that cannot
/// be read is noticed only here.
pub open spec fn outputs(f: StartFacts) -> Option<PendingView<StartTask>> {
    first_of(
        after_step(f.path, StartTask::ChoosePath, Seq::empty()),
        first_of(
            after_step(f.wav, StartTask::CreateWav, "Could not create WAV file: "@),
            match f.format {
                Some(Ok(MicFormat::Other(name))) => Some(
                    PendingView::Failed("Unsupported sample format: "@ + name@),
                ),
                Some(Ok(MicFormat::Known(sample))) => after_step(
                    f.stream,
                    StartTask::BuildStream(sample),
                    "Could not build input stream: "@,
                ),
                _ => None,
            },
        ),
    )
}

/// Last, system audio starts, which cannot fail the recording, and the stream
/// plays.
pub open spec fn going_live(f: StartFacts) -> Option<PendingView<StartTask>> {
    first_of(
        match f.system {
            None => Some(PendingView::Do(StartTask::StartSystemAudio)),
            Some(_) => None,
        },
        after_step(f.play, StartTask::PlayStream, "Could not start input stream: "@),
    )
}

/// What comes next, given the facts: the first step that is not done or failed,
/// or the recording that has started.
pub open spec fn start_verdict(f: StartFacts) -> StartVerdict {
    match first_of(admission(f), first_of(devices(f), first_of(outputs(f), going_live(f)))) {
        Some(v) => StartVerdict::Pending(v),
        None => StartVerdict::Started {
            path: f.path->Some_0->Ok_0@,
            sample_rate: TARGET_SAMPLE_RATE,
            channels: 1,
            input_device: input_device_text(f.input->Some_0),
            system_audio: system_audio_text(f.system->Some_0),
        },
    }
}

impl StartFacts {
    /// Nothing is known yet.
    pub fn new() -> (r: StartFacts)
        ensures
            r.microphone is None,
            r.screen is None,
            r.claim is None,
            r.echo_canceller is None,
            r.input is None,
            r.format is None,
            r.path is None,
            r.wav is None,
            r.stream is None,
            r.system is None,
            r.play is None,
    {
        StartFacts {
            microphone: None,
            screen: None,
            claim: None,
            echo_canceller: None,
            input: None,
            format: None,
            path: None,
            wav: None,
            stream: None,
            system: None,
            play: None,
        }
    }
}

/// The report on system audio.
fn system_audio_status(system: &SystemAudio) -> (r: String)
    ensures
        r@ == system_audio_text(*system),
{
    match system {
        SystemAudio::Capturing => "ScreenCaptureKit @ 48 kHz".to_owned(),
        SystemAudio::Unavailable(e) => concat_text("System audio unavailable: ", e.as_str()),
        SystemAudio::Unsupported => "System audio capture only available on macOS".to_owned(),
    }
}

/// What comes next in a start, given what has been found out.
pub fn next_start_step(f: &StartFacts) -> (r: StartStep)
    ensures
        r@ == start_verdict(*f),
{
    proof {
        reveal_strlit("");
        assert(""@ =~= Seq::empty());
    }
    if let Some(step) = settle(&f.microphone, StartTask::CheckMicrophone, "") {
        return StartStep::Pending(step);
    }
    if let Some(step) = settle(&f.screen, StartTask::CheckScreen, "") {
        return StartStep::Pending(step);
    }
    if let Some(step) = settle(&f.claim, StartTask::ClaimRecorder, "") {
        return StartStep::Pending(step);
    }
    if let Some(step) = settle(
        &f.echo_canceller,
        StartTask::PrepareEchoCanceller,
        "Could not initialize AEC processor: ",
    ) {
        return StartStep::Pending(step);
    }
    let input_device = match &f.input {
        None => {
            return StartStep::Pending(Pending::Do(StartTask::FindInput));
        },
        Some(InputDevice::Missing) => {
            return StartStep::Pending(Pending::Failed("No default input device found".to_owned()));
        },
        Some(InputDevice::Unnamed) => "Unknown input device".to_owned(),
        Some(InputDevice::Named(name)) => name.clone(),
    };
    if let Some(step) = settle(
        &f.format,
        StartTask::ReadInputFormat,
        "Could not read default input config: ",
    ) {
        return StartStep::Pending(step);
    }
    if let Some(step) = settle(&f.path, StartTask::ChoosePath, "") {
        return StartStep::Pending(step);
    }
    if let Some(step) = settle(&f.wav, StartTask::CreateWav, "Could not create WAV file: ") {
        return StartStep::Pending(step);
    }
    if let Some(Ok(format)) = &f.format {
        match format {
            MicFormat::Other(name) => {
                return StartStep::Pending(Pending::Failed(concat_text("Unsupported sample format: ", name.as_str())));
            },
            MicFormat::Known(sample) => {
                if let Some(step) = settle(
                    &f.stream,
                    StartTask::BuildStream(*sample),
                    "Could not build input stream: ",
                ) {
                    return StartStep::Pending(step);
                }
            },
        }
    }
    let system_audio = match &f.system {
        None => {
            return StartStep::Pending(Pending::Do(StartTask::StartSystemAudio));
        },
        Some(system) => system_audio_status(system),
    };
    if let Some(step) = settle(&f.play, StartTask::PlayStream, "Could not start input stream: ") {
        return StartStep::Pending(step);
    }
    let path = match &f.path {
        Some(Ok(path)) => path.clone(),
        _ => String::new(),
    };
    StartStep::Started(
        RecordingStarted { path, sample_rate: TARGET_SAMPLE_RATE, channels: 1, input_device, system_audio },
    )
}

/// A recording has started only if every step succeeded; of system audio it is
/// enough that it was tried.
pub proof fn law_started_needs_every_step(f: StartFacts)
    requires
        start_verdict(f) is Started,
    ensures
        f.microphone matches Some(m) && m is Ok,
        f.screen matches Some(s) && s is Ok,
        f.claim matches Some(c) && c is Ok,
        f.echo_canceller matches Some(e) && e is Ok,
        f.input matches Some(i) && !(i is Missing),
        f.format matches Some(Ok(MicFormat::Known(_))),
        f.path matches Some(p) && p is Ok,
        f.wav matches Some(w) && w is Ok,
        f.stream matches Some(s) && s is Ok,
        f.system is Some,
        f.play matches Some(p) && p is Ok,
{
}

/// While a recording is running, or a permission is missing, no device is
/// opened and no file is made: a start that was refused stays refused,
/// whatever else is known.
pub proof fn law_refused_start_touches_nothing(f: StartFacts, g: StartFacts)
    requires
        admission(f) matches Some(v) && v is Failed,
        g.microphone == f.microphone,
        g.screen == f.screen,
        g.claim == f.claim,
    ensures
        start_verdict(g) == start_verdict(f),
        start_verdict(f) matches StartVerdict::Pending(v) && v is Failed,
{
}

/// Missing system audio never fails a recording: whatever became of it, the
/// start comes to the same end, and only the report on system audio differs.
pub proof fn law_system_audio_is_optional(f: StartFacts, g: StartFacts)
    requires
        f.system is Some,
        g.system is Some,
        g == (StartFacts { system: g.system, ..f }),
    ensures
        match (start_verdict(f), start_verdict(g)) {
            (
                StartVerdict::Started { path: p, sample_rate: sr, channels: c, input_device: i, .. },
                StartVerdict::Started {
                    path: p2,
                    sample_rate: sr2,
                    channels: c2,
                    input_device: i2,
                    ..
                },
            ) => p == p2 && sr == sr2 && c == c2 && i == i2,
            (StartVerdict::Started { .. }, _) => false,
            (_, StartVerdict::Started { .. }) => false,
            (a, b) => a == b,
        },
{
}

/// The stream plays last: it is asked for only when everything else is in
/// place.
pub proof fn law_plays_last(f: StartFacts)
    requires
        start_verdict(f) == StartVerdict::Pending(PendingView::Do(StartTask::PlayStream)),
    ensures
        f.wav matches Some(w) && w is Ok,
        f.stream matches Some(s) && s is Ok,
        f.system is Some,
        start_verdict(StartFacts { play: Some(Ok(())), ..f }) is Started,
{
}

/// Whether a step was done and succeeded.
pub open spec fn succeeded<F>(fact: Option<Result<F, String>>) -> bool {
    fact matches Some(r) && r is Ok
}

/// What is answered where a step that comes first of those left is in the given
/// state: it is asked for, or fails the start with its whole message.
pub open spec fn turns_on<F>(
    verdict: StartVerdict,
    fact: Option<Result<F, String>>,
    task: StartTask,
    prefix: Seq<char>,
) -> bool {
    &&& fact is None ==> verdict == StartVerdict::Pending(PendingView::Do(task))
    &&& fact matches Some(Err(e)) ==> verdict == StartVerdict::Pending(
        PendingView::Failed(prefix + e@),
    )
}

/// A start goes step by step: permissions, the recorder, the canceller, the
/// device and its format, the file, the stream, system audio, and then it plays.
/// Each step is asked for once those before it succeeded, and its failure ends
/// the start.
pub proof fn law_start_goes_step_by_step(f: StartFacts)
    ensures
        ({
            let v = start_verdict(f);
            let admitted = succeeded(f.microphone) && succeeded(f.screen) && succeeded(f.claim);
            let prepared = admitted && succeeded(f.echo_canceller);
            let found = prepared && (f.input matches Some(i) && !(i is Missing));
            let known = found && succeeded(f.format);
            let filed = known && succeeded(f.path) && succeeded(f.wav);
            let built = filed && (f.format matches Some(Ok(MicFormat::Known(_)))) && succeeded(
                f.stream,
            );
            let none = Seq::<char>::empty();
            &&& turns_on(v, f.microphone, StartTask::CheckMicrophone, none)
            &&& succeeded(f.microphone) ==> turns_on(v, f.screen, StartTask::CheckScreen, none)
            &&& succeeded(f.microphone) && succeeded(f.screen) ==> turns_on(
                v,
                f.claim,
                StartTask::ClaimRecorder,
                none,
            )
            &&& admitted ==> turns_on(
                v,
                f.echo_canceller,
                StartTask::PrepareEchoCanceller,
                "Could not initialize AEC processor: "@,
            )
            &&& prepared && f.input is None ==> v == StartVerdict::Pending(
                PendingView::Do(StartTask::FindInput),
            )
            &&& prepared && f.input == Some(InputDevice::Missing) ==> v == StartVerdict::Pending(
                PendingView::Failed("No default input device found"@),
            )
            &&& found ==> turns_on(
                v,
                f.format,
                StartTask::ReadInputFormat,
                "Could not read default input config: "@,
            )
            &&& known ==> turns_on(v, f.path, StartTask::ChoosePath, none)
            &&& known && succeeded(f.path) ==> turns_on(
                v,
                f.wav,
                StartTask::CreateWav,
                "Could not create WAV file: "@,
            )
            &&& filed ==> (f.format matches Some(Ok(MicFormat::Other(name))) ==> v
                == StartVerdict::Pending(
                PendingView::Failed("Unsupported sample format: "@ + name@),
            ))
            &&& filed ==> (f.format matches Some(Ok(MicFormat::Known(sample))) ==> turns_on(
                v,
                f.stream,
                StartTask::BuildStream(sample),
                "Could not build input stream: "@,
            ))
            &&& built && f.system is None ==> v == StartVerdict::Pending(
                PendingView::Do(StartTask::StartSystemAudio),
            )
            &&& built && f.system is Some ==> turns_on(
                v,
                f.play,
                StartTask::PlayStream,
                "Could not start input stream: "@,
            )
            &&& built && f.system is Some && succeeded(f.play) ==> v is Started
        }),
{
}

/// A recording that has started is reported with the path that was chosen, 48 kHz
/// on one channel, the device's own name where it has one, and how system audio
/// fares, with the whole reason where it is missing.
pub proof fn law_started_reports_what_was_found(f: StartFacts)
    requires
        start_verdict(f) is Started,
    ensures
        start_verdict(f) matches StartVerdict::Started {
            path,
            sample_rate,
            channels,
            input_device,
            system_audio,
        } && {
            &&& f.path matches Some(Ok(p)) && path == p@
            &&& sample_rate == 48_000
            &&& channels == 1
            &&& f.input matches Some(InputDevice::Named(name)) ==> input_device == name@
            &&& f.input == Some(InputDevice::Unnamed) ==> input_device == "Unknown input device"@
            &&& f.system == Some(SystemAudio::Capturing) ==> system_audio
                == "ScreenCaptureKit @ 48 kHz"@
            &&& f.system matches Some(SystemAudio::Unavailable(e)) ==> system_audio
                == "System audio unavailable: "@ + e@
            &&& f.system == Some(SystemAudio::Unsupported) ==> system_audio
                == "System audio capture only available on macOS"@
        },
{
}

/// A request that needs a running recording is granted exactly where one is
/// running.
pub proof fn law_answered_by_the_recorder<T, R>(recorder: Recorder<T>, r: Result<R, String>)
    requires
        is_answer(recorder, r),
    ensures
        r is Ok <==> recorder is Running,
        recorder is Locked ==> (r matches Err(m) && m@ == "Recorder state is locked"@),
        recorder is Idle ==> (r matches Err(m) && m@ == "No recording is running"@),
{
}

/// A stopped recording is answered as it is, unless its file could not be closed;
/// then with the whole reason.
pub proof fn law_stopped_is_answered(
    recording: RecordingStopped,
    file: Finalized,
    r: Result<RecordingStopped, String>,
)
    requires
        is_stopped(recording, file, r),
    ensures
        file is Closed || file is NothingOpen ==> r == Ok::<RecordingStopped, String>(recording),
        file is Locked ==> (r matches Err(m) && m@ == "Recorder writer is locked"@),
        file matches Finalized::Failed(e) ==> (r matches Err(m) && m@
            == "Could not finalize WAV file: "@ + e@),
{
}

/// A recorder is claimed exactly where it is idle, with a clock that has counted
/// nothing; a refused claim leaves the clock.
pub proof fn law_claimed_only_when_idle(
    recorder: Recorder<()>,
    clock: PauseClock,
    r: Result<(), String>,
    after: PauseClock,
)
    requires
        is_claim(recorder, clock, r, after),
    ensures
        r is Ok <==> recorder is Idle,
        r is Ok ==> !after.paused && after.offset_ms == 0 && after.began_at_ms == 0,
        r is Err ==> after == clock,
        recorder is Running ==> (r matches Err(m) && m@ == "Recording is already running"@),
        recorder is Locked ==> (r matches Err(m) && m@ == "Recorder state is locked"@),
{
}

/// What comes next in a start is seen whole: the step or the message, or all that
/// is reported of the recording.
pub proof fn law_start_step_is_seen_whole(pending: Pending<StartTask>, started: RecordingStarted)
    ensures
        StartStep::Pending(pending)@ == StartVerdict::Pending(pending@),
        StartStep::Started(started)@ matches StartVerdict::Started {
            path,
            sample_rate,
            channels,
            input_device,
            system_audio,
        } && path == started.path@ && sample_rate == started.sample_rate && channels
            == started.channels && input_device == started.input_device@ && system_audio
            == started.system_audio@,
{
}

} // verus!

//! The transcription of a recording: its segments as they come in, its
//! progress, and the text that is written in the end.
use crate::clock::less_or_zero;
use crate::paths::with_extension_of;
use crate::protocol::{after_step, first_of, settle, Pending, PendingView};
use crate::recordings::transcript_path;
use crate::text::{
    join_lines, law_every_line_is_in_its_place, law_text_grows_by_each_line, lines_text, same_text,
    texts, trim, trimmed,
};
use vstd::prelude::*;

verus! {

/// Milliseconds between two reports on a transcription.
pub const PROGRESS_INTERVAL_MS: u64 = 80;

/// A transcription that has started, with the length of its audio in samples at
/// the speech rate.
pub struct TranscriptStarted {
    pub path: String,
    pub model: String,
    pub language: String,
    pub audio_samples: usize,
}

/// A segment as it comes in; its times are in hundredths of a second.
pub struct TranscriptSegment {
    pub path: String,
    pub index: usize,
    pub start_cs: i64,
    pub end_cs: i64,
    pub text: String,
}

/// A report on a transcription.
pub struct TranscriptProgress {
    pub path: String,
    pub percent: i32,
}

/// A transcription that is done.
pub struct TranscriptDone {
    pub path: String,
    pub language: String,
    pub segment_count: usize,
}

/// What a transcription gave.
pub struct TranscriptResult {
    pub text_path: String,
    pub text: String,
    pub language: String,
    pub segment_count: usize,
}

/// The announcement of a transcription, with so many samples of audio.
pub fn transcript_started(path: &str, model: &str, language: &str, audio_samples: usize) -> (r:
    TranscriptStarted)
    ensures
        r.path@ == path@,
        r.model@ == model@,
        r.language@ == language@,
        r.audio_samples == audio_samples,
{
    TranscriptStarted {
        path: path.to_owned(),
        model: model.to_owned(),
        language: language.to_owned(),
        audio_samples,
    }
}

/// The language to transcribe in, where one is set: neither the word `auto` nor
/// an empty text sets one.
pub fn language_arg(language: &str) -> (r: Option<String>)
    ensures
        language@ == "auto"@ || language@.len() == 0 ==> r is None,
        language@ != "auto"@ && language@.len() > 0 ==> (r matches Some(l) && l@ == language@),
{
    if same_text(language, "auto") || language.is_empty() {
        None
    } else {
        Some(language.to_owned())
    }
}

/// The texts of the segments that say something, without the white space around
/// them.
pub open spec fn spoken(segments: Seq<Seq<char>>) -> Seq<Seq<char>>
    decreases segments.len(),
{
    if segments.len() == 0 {
        Seq::empty()
    } else {
        let before = spoken(segments.drop_last());
        let text = trimmed(segments.last());
        if text.len() == 0 {
            before
        } else {
            before.push(text)
        }
    }
}

/// The segments of a recording so far.
pub struct Transcript {
    pub path: String,
    pub lines: Vec<String>,
}

impl Transcript {
    /// The texts so far.
    pub open spec fn said(self) -> Seq<Seq<char>> {
        texts(self.lines@)
    }

    /// No segment has come in.
    pub fn new(path: &str) -> (r: Transcript)
        ensures
            r.path@ == path@,
            r.said() == Seq::<Seq<char>>::empty(),
            r.said() == spoken(Seq::empty()),
    {
        let r = Transcript { path: path.to_owned(), lines: Vec::new() };
        assert(r.said() =~= Seq::<Seq<char>>::empty());
        r
    }

    /// Takes in a segment. One without text is dropped; any other is numbered
    /// on and passed on, without the white space around it. A transcript that
    /// holds what some segments say then holds what they and this one say.
    pub fn add_segment(&mut self, text: &str, start_cs: i64, end_cs: i64) -> (r: Option<
        TranscriptSegment,
    >)
        ensures
            final(self).path == old(self).path,
            forall|segments: Seq<Seq<char>>|
                old(self).said() == #[trigger] spoken(segments) ==> final(self).said() == spoken(
                    segments.push(text@),
                ),
            trimmed(text@).len() == 0 ==> r is None && final(self).said() == old(self).said(),
            trimmed(text@).len() > 0 ==> {
                &&& final(self).said() == old(self).said().push(trimmed(text@))
                &&& r matches Some(s) && s.path@ == old(self).path@ && s.index == old(
                    self).said().len() && s.start_cs == start_cs && s.end_cs == end_cs && s.text@
                    == trimmed(text@)
            },
    {
        proof {
            assert forall|segments: Seq<Seq<char>>|
                #[trigger] spoken(segments.push(text@)) == (if trimmed(text@).len() == 0 {
                    spoken(segments)
                } else {
                    spoken(segments).push(trimmed(text@))
                }) by {
                law_segments_are_kept_in_order(segments, text@);
            }
        }
        let line = trim(text);
        if line.as_str().is_empty() {
            return None;
        }
        let segment = TranscriptSegment {
            path: self.path.clone(),
            index: self.lines.len(),
            start_cs,
            end_cs,
            text: line.clone(),
        };
        let ghost before = self.said();
        self.lines.push(line);
        assert(self.said() =~= before.push(trimmed(text@)));
        Some(segment)
    }

    /// The transcript as it is written and handed on, with the language that
    /// was detected, if any: the texts line by line.
    pub fn finish(&self, language: Option<&str>) -> (r: (TranscriptDone, TranscriptResult))
        ensures
            ({
                let detected = match language {
                    Some(l) => l@,
                    None => Seq::<char>::empty(),
                };
                &&& r.0.path@ == self.path@
                &&& r.0.language@ == detected
                &&& r.0.segment_count == self.said().len()
                &&& r.1.text_path@ == with_extension_of(self.path@, "txt"@)
                &&& r.1.text@ == lines_text(self.said())
                &&& r.1.language@ == detected
                &&& r.1.segment_count == self.said().len()
            }),
    {
        let detected = match language {
            Some(l) => l.to_owned(),
            None => String::new(),
        };
        let count: usize = self.lines.len();
        let done = TranscriptDone {
            path: self.path.clone(),
            language: detected.clone(),
            segment_count: count,
        };
        let result = TranscriptResult {
            text_path: transcript_path(self.path.as_str()),
            text: join_lines(&self.lines),
            language: detected,
            segment_count: count,
        };
        (done, result)
    }
}

/// Taking in one more segment goes on from the texts of those before.
pub proof fn law_segments_are_kept_in_order(segments: Seq<Seq<char>>, text: Seq<char>)
    ensures
        spoken(segments.push(text)) == (if trimmed(text).len() == 0 {
            spoken(segments)
        } else {
            spoken(segments).push(trimmed(text))
        }),
        spoken(segments).len() <= segments.len(),
    decreases segments.len(),
{
    assert(segments.push(text).drop_last() =~= segments);
    if segments.len() > 0 {
        law_segments_are_kept_in_order(segments.drop_last(), segments.last());
        assert(segments.drop_last().push(segments.last()) =~= segments);
    }
}

/// The percentage as far as it makes sense.
pub open spec fn clamped(percent: i32) -> int {
    if percent < 0 {
        0
    } else if percent > 100 {
        100
    } else {
        percent as int
    }
}

/// When progress was last reported, and what it was.
#[derive(Clone, Copy)]
pub struct ProgressThrottle {
    pub last_emit_ms: u64,
    pub last_percent: Option<u8>,
}

impl ProgressThrottle {
    /// Whether progress is to be reported: only where it changed, and not
    /// within the interval unless it is complete.
    pub open spec fn opens(self, percent: i32, now_ms: int) -> bool {
        &&& !(self.last_percent matches Some(p) && p == clamped(percent))
        &&& less_or_zero(now_ms, self.last_emit_ms as int) >= PROGRESS_INTERVAL_MS || clamped(
            percent,
        ) == 100
    }

    /// Nothing was reported yet.
    pub fn new() -> (r: ProgressThrottle)
        ensures
            r == (ProgressThrottle { last_emit_ms: 0, last_percent: None }),
    {
        ProgressThrottle { last_emit_ms: 0, last_percent: None }
    }

    /// The report on the given percentage, where one is due. It carries the
    /// percentage as it came.
    pub fn on_progress(&mut self, path: &str, percent: i32, now_ms: u64) -> (r: Option<
        TranscriptProgress,
    >)
        ensures
            old(self).opens(percent, now_ms as int) ==> {
                &&& r matches Some(p) && p.path@ == path@ && p.percent == percent
                &&& *final(self) == (ProgressThrottle {
                    last_emit_ms: now_ms,
                    last_percent: Some(clamped(percent) as u8),
                })
            },
            !old(self).opens(percent, now_ms as int) ==> r is None && *final(self) == *old(self),
    {
        let percent_now: u8 = if percent < 0 {
            0
        } else if percent > 100 {
            100
        } else {
            percent as u8
        };
        if let Some(last) = self.last_percent {
            if last == percent_now {
                return None;
            }
        }
        if now_ms.saturating_sub(self.last_emit_ms) < PROGRESS_INTERVAL_MS && percent_now != 100 {
            return None;
        }
        self.last_emit_ms = now_ms;
        self.last_percent = Some(percent_now);
        Some(TranscriptProgress { path: path.to_owned(), percent })
    }
}

/// The throttle after a report.
pub open spec fn reported(percent: i32, now_ms: u64) -> ProgressThrottle {
    ProgressThrottle { last_emit_ms: now_ms, last_percent: Some(clamped(percent) as u8) }
}

/// Two reports in a row differ, and are at least the interval apart unless the
/// second says that the transcription is complete.
pub proof fn law_reports_change_and_are_spaced(first: i32, at_ms: u64, second: i32, then_ms: u64)
    requires
        reported(first, at_ms).opens(second, then_ms as int),
    ensures
        clamped(first) != clamped(second),
        clamped(second) == 100 || then_ms - at_ms >= PROGRESS_INTERVAL_MS,
{
}

/// What is known of the model that was loaded.
pub enum CachedModel {
    Locked,
    Absent,
    Ready,
}

/// What has been found out so far about a transcription; each field is filled
/// in by one step.
pub struct TranscribeFacts {
    pub found: Option<Result<(), String>>,
    pub audio: Option<Result<usize, String>>,
    pub announced: bool,
    pub model: Option<Result<(), String>>,
    pub cached: Option<CachedModel>,
    pub state: Option<Result<(), String>>,
    pub inference: Option<Result<(), String>>,
    pub written: Option<Result<(), String>>,
}

/// One step of a transcription, to be done outside.
#[derive(Clone, Copy, PartialEq, Eq, Structural)]
pub enum TranscribeTask {
    FindModel,
    ReadAudio,
    Announce,
    LoadModel,
    OpenModel,
    CreateState,
    Infer,
    WriteText,
}

/// What comes next in a transcription, or nothing where it is done. A model that
/// cannot be loaded is refused before anything else. Loading it takes long, so
/// the audio is read and the transcription announced before that. Where both
/// the load and the reading of the audio fail, the load's failure counts.
pub open spec fn transcribe_verdict(f: TranscribeFacts) -> Option<PendingView<TranscribeTask>> {
    let announce = match f.audio {
        None => Some(PendingView::Do(TranscribeTask::ReadAudio)),
        Some(Ok(_)) if !f.announced => Some(PendingView::Do(TranscribeTask::Announce)),
        _ => None,
    };
    let model = match f.cached {
        None => Some(PendingView::Do(TranscribeTask::OpenModel)),
        Some(CachedModel::Locked) => Some(PendingView::Failed("Model cache is locked"@)),
        Some(CachedModel::Absent) => Some(PendingView::Failed("Model not loaded"@)),
        Some(CachedModel::Ready) => None,
    };
    let state = after_step(
        f.state,
        TranscribeTask::CreateState,
        "Could not create whisper state: "@,
    );
    let inference = after_step(f.inference, TranscribeTask::Infer, "Whisper inference failed: "@);
    let written = after_step(f.written, TranscribeTask::WriteText, "Could not write transcript: "@);
    first_of(
        after_step(f.found, TranscribeTask::FindModel, Seq::empty()),
        first_of(
            announce,
            first_of(
                after_step(f.model, TranscribeTask::LoadModel, Seq::empty()),
                first_of(
                    after_step(f.audio, TranscribeTask::ReadAudio, Seq::empty()),
                    first_of(model, first_of(state, first_of(inference, written))),
                ),
            ),
        ),
    )
}

impl TranscribeFacts {
    /// Nothing is known yet.
    pub fn new() -> (r: TranscribeFacts)
        ensures
            r.found is None,
            r.audio is None,
            !r.announced,
            r.model is None,
            r.cached is None,
            r.state is None,
            r.inference is None,
            r.written is None,
    {
        TranscribeFacts {
            found: None,
            audio: None,
            announced: false,
            model: None,
            cached: None,
            state: None,
            inference: None,
            written: None,
        }
    }
}

/// What comes next in a transcription, given what has been found out; nothing
/// where it is done.
pub fn next_transcribe_step(f: &TranscribeFacts) -> (r: Option<Pending<TranscribeTask>>)
    ensures
        match (r, transcribe_verdict(*f)) {
            (Some(step), Some(v)) => step@ == v,
            (None, None) => true,
            _ => false,
        },
{
    proof {
        reveal_strlit("");
        assert(""@ =~= Seq::empty());
    }
    if let Some(step) = settle(&f.found, TranscribeTask::FindModel, "") {
        return Some(step);
    }
    match &f.audio {
        None => {
            return Some(Pending::Do(TranscribeTask::ReadAudio));
        },
        Some(Ok(_)) => {
            if !f.announced {
                return Some(Pending::Do(TranscribeTask::Announce));
            }
        },
        Some(Err(_)) => {},
    }
    if let Some(step) = settle(&f.model, TranscribeTask::LoadModel, "") {
        return Some(step);
    }
    if let Some(step) = settle(&f.audio, TranscribeTask::ReadAudio, "") {
        return Some(step);
    }
    match &f.cached {
        None => {
            return Some(Pending::Do(TranscribeTask::OpenModel));
        },
        Some(CachedModel::Locked) => {
            return Some(Pending::Failed("Model cache is locked".to_owned()));
        },
        Some(CachedModel::Absent) => {
            return Some(Pending::Failed("Model not loaded".to_owned()));
        },
        Some(CachedModel::Ready) => {},
    }
    if let Some(step) = settle(
        &f.state,
        TranscribeTask::CreateState,
        "Could not create whisper state: ",
    ) {
        return Some(step);
    }
    if let Some(step) = settle(&f.inference, TranscribeTask::Infer, "Whisper inference failed: ") {
        return Some(step);
    }
    settle(&f.written, TranscribeTask::WriteText, "Could not write transcript: ")
}

/// A transcription is done only if every step succeeded, and its text is
/// written only after it was inferred.
pub proof fn law_transcript_needs_every_step(f: TranscribeFacts)
    ensures
        transcribe_verdict(f) is None ==> {
            &&& f.found matches Some(m) && m is Ok
            &&& f.audio matches Some(a) && a is Ok
            &&& f.announced
            &&& f.model matches Some(m) && m is Ok
            &&& f.cached matches Some(c) && c is Ready
            &&& f.state matches Some(s) && s is Ok
            &&& f.inference matches Some(i) && i is Ok
            &&& f.written matches Some(w) && w is Ok
        },
        transcribe_verdict(f) == Some(PendingView::Do(TranscribeTask::WriteText)) ==> (
        f.inference matches Some(i) && i is Ok),
{
}

/// A transcription whose audio can be read is announced before the long waits:
/// the model is loaded, and the speech inferred, only once it was. It is
/// announced only where the model was found and the audio was read.
pub proof fn law_announced_before_the_wait(f: TranscribeFacts)
    ensures
        transcribe_verdict(f) == Some(PendingView::Do(TranscribeTask::LoadModel)) ==> f.announced
            || (f.audio matches Some(a) && a is Err),
        transcribe_verdict(f) == Some(PendingView::Do(TranscribeTask::Infer)) ==> f.announced,
        transcribe_verdict(f) == Some(PendingView::Do(TranscribeTask::Announce)) ==> (
        f.found matches Some(m) && m is Ok) && (f.audio matches Some(a) && a is Ok),
{
}

/// A model that cannot be loaded refuses a transcription, whatever else is
/// known: nothing is read, announced or loaded.
pub proof fn law_missing_model_is_refused_first(f: TranscribeFacts)
    requires
        f.found matches Some(m) && m is Err,
    ensures
        transcribe_verdict(f) == Some(
            PendingView::<TranscribeTask>::Failed(f.found->Some_0->Err_0@),
        ),
{
    assert(Seq::<char>::empty() + f.found->Some_0->Err_0@ =~= f.found->Some_0->Err_0@);
}

/// Which failure a transcription ends with does not depend on when it was
/// announced: that of the model's load comes before that of the audio, whose own
/// comes before all others.
pub proof fn law_failures_come_in_order(f: TranscribeFacts)
    requires
        f.found matches Some(m) && m is Ok,
        f.audio is Some,
        f.announced || (f.audio matches Some(a) && a is Err),
        f.model is Some,
    ensures
        f.model matches Some(Err(e)) ==> transcribe_verdict(f) == Some(
            PendingView::<TranscribeTask>::Failed(e@),
        ),
        (f.model matches Some(m) && m is Ok) && (f.audio matches Some(a) && a is Err)
            ==> transcribe_verdict(f) == Some(
            PendingView::<TranscribeTask>::Failed(f.audio->Some_0->Err_0@),
        ),
{
    assert(Seq::<char>::empty() + f.model->Some_0->Err_0@ =~= f.model->Some_0->Err_0@);
    assert(Seq::<char>::empty() + f.audio->Some_0->Err_0@ =~= f.audio->Some_0->Err_0@);
}

/// A transcript holds the texts of its lines, each and in order.
pub proof fn law_transcript_says_its_lines(t: Transcript)
    ensures
        t.said().len() == t.lines@.len(),
        forall|i: int| 0 <= i < t.lines@.len() ==> #[trigger] t.said()[i] == t.lines@[i]@,
{
}

/// What is said is every segment without the white space around it, in order,
/// but for those that are nothing else.
pub proof fn law_every_segment_is_said(segments: Seq<Seq<char>>)
    ensures
        spoken(segments) == segments.map_values(|s: Seq<char>| trimmed(s)).filter(
            |s: Seq<char>| s.len() > 0,
        ),
    decreases segments.len(),
{
    reveal(Seq::filter);
    let all = segments.map_values(|s: Seq<char>| trimmed(s));
    if segments.len() > 0 {
        law_every_segment_is_said(segments.drop_last());
        assert(all.drop_last() =~= segments.drop_last().map_values(|s: Seq<char>| trimmed(s)));
        assert(all.last() == trimmed(segments.last()));
    } else {
        assert(all =~= Seq::<Seq<char>>::empty());
    }
}

/// The text of a transcript has every segment that says something, in its place.
pub proof fn law_text_has_every_segment(t: Transcript, segments: Seq<Seq<char>>, k: int)
    requires
        t.said() == spoken(segments),
        0 <= k < t.lines@.len(),
    ensures
        ({
            let said = segments.map_values(|s: Seq<char>| trimmed(s)).filter(
                |s: Seq<char>| s.len() > 0,
            );
            let from = said.take(k).flatten().len() + k;
            &&& said.len() == t.lines@.len()
            &&& lines_text(t.said()).subrange(from as int, from + said[k].len()) == said[k]
            &&& lines_text(t.said()).len() == said.flatten().len() + said.len() - 1
        }),
{
    law_every_segment_is_said(segments);
    law_every_line_is_in_its_place(t.said(), k);
    law_text_grows_by_each_line(t.said(), Seq::empty());
}

/// Progress is reported exactly where it differs from what was last reported and
/// 80 ms have passed since, or it is complete; percentages outside the range
/// count as its ends.
pub proof fn law_progress_is_reported_when_due(
    throttle: ProgressThrottle,
    percent: i32,
    now_ms: int,
)
    requires
        0 <= now_ms,
    ensures
        0 <= percent <= 100 ==> clamped(percent) == percent,
        percent < 0 ==> clamped(percent) == 0,
        percent > 100 ==> clamped(percent) == 100,
        throttle.opens(percent, now_ms) <==> (match throttle.last_percent {
            Some(p) => p != clamped(percent),
            None => true,
        }) && (percent >= 100 || now_ms - throttle.last_emit_ms >= 80),
{
}

/// Whether a step was done and succeeded.
pub open spec fn succeeded<F>(fact: Option<Result<F, String>>) -> bool {
    fact matches Some(r) && r is Ok
}

/// What is answered where a step that comes first of those left is in the given
/// state: it is asked for, or fails the transcription with its whole message.
pub open spec fn turns_on<F>(
    verdict: Option<PendingView<TranscribeTask>>,
    fact: Option<Result<F, String>>,
    task: TranscribeTask,
    prefix: Seq<char>,
) -> bool {
    &&& fact is None ==> verdict == Some(PendingView::Do(task))
    &&& fact matches Some(Err(e)) ==> verdict == Some(
        PendingView::<TranscribeTask>::Failed(prefix + e@),
    )
}

/// A transcription goes step by step, from finding the model to writing the text:
/// each step is asked for once those before it succeeded, its failure ends it,
/// and once all succeeded it is done. Audio that cannot be read ends it only once
/// the model is loaded.
pub proof fn law_transcription_goes_step_by_step(f: TranscribeFacts)
    ensures
        ({
            let v = transcribe_verdict(f);
            let read = succeeded(f.found) && succeeded(f.audio);
            let loaded = read && f.announced && succeeded(f.model);
            let opened = loaded && (f.cached matches Some(c) && c is Ready);
            let inferring = opened && succeeded(f.state);
            let writing = inferring && succeeded(f.inference);
            let none = Seq::<char>::empty();
            &&& turns_on(v, f.found, TranscribeTask::FindModel, none)
            &&& succeeded(f.found) && f.audio is None ==> v == Some(
                PendingView::Do(TranscribeTask::ReadAudio),
            )
            &&& read && !f.announced ==> v == Some(PendingView::Do(TranscribeTask::Announce))
            &&& succeeded(f.found) && (f.audio matches Some(a) && a is Err) ==> turns_on(
                v,
                f.model,
                TranscribeTask::LoadModel,
                none,
            )
            &&& succeeded(f.found) && succeeded(f.model) ==> (f.audio matches Some(Err(e)) ==> v
                == Some(PendingView::<TranscribeTask>::Failed(none + e@)))
            &&& read && f.announced ==> turns_on(v, f.model, TranscribeTask::LoadModel, none)
            &&& loaded && f.cached is None ==> v == Some(PendingView::Do(TranscribeTask::OpenModel))
            &&& loaded && (f.cached matches Some(c) && c is Locked) ==> v == Some(
                PendingView::<TranscribeTask>::Failed("Model cache is locked"@),
            )
            &&& loaded && (f.cached matches Some(c) && c is Absent) ==> v == Some(
                PendingView::<TranscribeTask>::Failed("Model not loaded"@),
            )
            &&& opened ==> turns_on(
                v,
                f.state,
                TranscribeTask::CreateState,
                "Could not create whisper state: "@,
            )
            &&& inferring ==> turns_on(
                v,
                f.inference,
                TranscribeTask::Infer,
                "Whisper inference failed: "@,
            )
            &&& writing ==> turns_on(
                v,
                f.written,
                TranscribeTask::WriteText,
                "Could not write transcript: "@,
            )
            &&& writing && succeeded(f.written) ==> v is None
        }),
{
}

/// A finished transcript has every line: its text has each in its place, and it
/// counts all of them.
pub proof fn law_finished_transcript_is_whole(
    t: &Transcript,
    language: Option<&str>,
    done: TranscriptDone,
    result: TranscriptResult,
    k: int,
)
    requires
        call_ensures(Transcript::finish, (t, language), (done, result)),
        0 <= k < t.lines@.len(),
    ensures
        ({
            let all = Seq::new(t.lines@.len(), |i: int| t.lines@[i]@);
            let from = all.take(k).flatten().len() + k;
            &&& result.text@.len() == all.flatten().len() + t.lines@.len() - 1
            &&& result.text@.subrange(from as int, from + t.lines@[k]@.len()) == t.lines@[k]@
        }),
        result.segment_count == t.lines@.len(),
        done.segment_count == t.lines@.len(),
        done.path@ == t.path@,
        language matches Some(l) ==> result.language@ == l@ && done.language@ == l@,
{
    let all = Seq::new(t.lines@.len(), |i: int| t.lines@[i]@);
    assert(t.said() =~= all);
    law_text_grows_by_each_line(all, Seq::empty());
    law_every_line_is_in_its_place(all, k);
}

} // verus!

//! The download of a model.
//!
//! One download runs at a time. It reads its source piece by piece into a
//! temporary file, which becomes the model's file only when the source is
//! exhausted; it can be cancelled between two pieces.
use crate::clock::less_or_zero;
use crate::models::{
    catalogue, find_model, is_model, known, law_models_are_distinct, lemma_model_file,
    models_dir_in, models_dir_of, row_of, unknown_model,
};
use crate::paths::{data_dir, opt_view, plain_name, under, FilePath, PathView};
use crate::text::{
    concat_text, decimal_text, law_decimal_is_read_back, parse_u64, parsed_u64,
};
use vstd::prelude::*;

verus! {

/// Milliseconds between two reports on a download.
pub const PROGRESS_INTERVAL_MS: u64 = 120;

/// What all downloads share: whether one is running, whether it is to be
/// cancelled, and when progress was last reported.
#[derive(Clone, Copy)]
pub struct DownloadControl {
    pub in_flight: bool,
    pub cancel: bool,
    pub last_emit_ms: u64,
}

impl DownloadControl {
    /// After a request to cancel.
    pub open spec fn cancelled(self) -> DownloadControl {
        DownloadControl { cancel: true, ..self }
    }

    /// After a download began; one that runs goes on undisturbed.
    pub open spec fn begun(self) -> DownloadControl {
        if self.in_flight {
            self
        } else {
            DownloadControl { in_flight: true, cancel: false, ..self }
        }
    }

    /// After a download ended.
    pub open spec fn ended(self) -> DownloadControl {
        DownloadControl { in_flight: false, ..self }
    }

    /// No download is running.
    pub fn new() -> (r: DownloadControl)
        ensures
            r == (DownloadControl { in_flight: false, cancel: false, last_emit_ms: 0 }),
    {
        DownloadControl { in_flight: false, cancel: false, last_emit_ms: 0 }
    }
}

/// Asks the running download to stop.
pub fn cancel_download(control: &mut DownloadControl)
    ensures
        *final(control) == old(control).cancelled(),
{
    control.cancel = true;
}

/// Begins a download; refused while another one is running. A request to cancel
/// from before does not carry over.
pub fn begin_download(control: &mut DownloadControl) -> (r: Result<(), String>)
    ensures
        r is Ok <==> !old(control).in_flight,
        r matches Err(m) ==> m@ == "A download is already in progress"@,
        *final(control) == old(control).begun(),
{
    if control.in_flight {
        return Err("A download is already in progress".to_owned());
    }
    control.in_flight = true;
    control.cancel = false;
    Ok(())
}

/// Ends the running download, however it went.
pub fn end_download(control: &mut DownloadControl)
    ensures
        *final(control) == old(control).ended(),
{
    control.in_flight = false;
}

/// One download at a time: once one has begun, no other does until it has
/// ended. A request to cancel counts for the download that runs, whatever was
/// asked before it began, and until it has ended.
pub proof fn law_one_download_at_a_time(control: DownloadControl)
    ensures
        control.begun().in_flight,
        control.begun().cancelled().begun() == control.begun().cancelled(),
        !control.begun().ended().in_flight,
        !control.in_flight ==> control.cancelled().begun() == control.begun(),
        control.begun().cancelled().cancel,
        !control.in_flight ==> !control.begun().cancel,
{
}

/// Where a download comes from and goes to, and how large it is expected to be.
pub struct DownloadPlan {
    pub model: String,
    pub url: String,
    pub final_path: FilePath,
    pub tmp_path: FilePath,
    pub expected_bytes: u64,
}

/// Whether `plan` is that of the given model into the given directory.
pub open spec fn is_plan(id: Seq<char>, dir: PathView, plan: DownloadPlan) -> bool {
    let row = row_of(id);
    &&& plan.model@ == id
    &&& plan.url@ == "https://huggingface.co/ggerganov/whisper.cpp/resolve/main/"@ + row.file
    &&& plan.final_path@ == under(dir, row.file)
    &&& plan.tmp_path@ == under(dir, row.file + ".part"@)
    &&& plan.expected_bytes == row.bytes
}

/// The plan for a model, given the models directory or the message that there
/// is none. An identifier that the catalogue does not have is refused first.
/// What is downloaded so far is never at the model's own path.
pub fn plan_download_in(model_id: &str, dir: Result<FilePath, String>) -> (r: Result<
    DownloadPlan,
    String,
>)
    ensures
        !known(model_id@) ==> (r matches Err(m) && m@ == unknown_model(model_id@)),
        known(model_id@) ==> match dir {
            Err(e) => r matches Err(m) && m@ == e@,
            Ok(d) => r matches Ok(plan) && is_plan(model_id@, d@, plan) && plan.tmp_path@
                != plan.final_path@,
        },
{
    match find_model(model_id) {
        None => Err(concat_text("Unknown model: ", model_id)),
        Some(preset) => match dir {
            Err(e) => Err(e),
            Ok(d) => {
                let part = concat_text(preset.file, ".part");
                proof {
                    let i = choose|i: int| #[trigger] is_model(model_id@, i);
                    lemma_model_file(i);
                    lemma_part_file(i);
                }
                let final_path = d.join(preset.file);
                let tmp_path = d.join(part.as_str());
                assert(part@.len() != preset.file@.len()) by {
                    reveal_strlit(".part");
                }
                Ok(
                    DownloadPlan {
                        model: model_id.to_owned(),
                        url: concat_text(
                            "https://huggingface.co/ggerganov/whisper.cpp/resolve/main/",
                            preset.file,
                        ),
                        final_path,
                        tmp_path,
                        expected_bytes: preset.bytes,
                    },
                )
            },
        },
    }
}

/// The temporary file of a model is a single component.
proof fn lemma_part_file(i: int)
    requires
        0 <= i < catalogue().len(),
    ensures
        plain_name(catalogue()[i].file + ".part"@),
{
    reveal_strlit(".part");
    lemma_model_file(i);
    let file = catalogue()[i].file;
    let part = file + ".part"@;
    assert(part.len() > 2);
    assert forall|k: int| 0 <= k < part.len() implies #[trigger] part[k] != '/' && part[k] != '\\'
        && part[k] != ':' by {
        if k < file.len() {
            assert(part[k] == file[k]);
        } else {
            assert(part[k] == ".part"@[k - file.len()]);
        }
    }
}

/// Whether `r` can be the plan for a model, given the user's data directory.
pub open spec fn is_download_plan(
    model_id: Seq<char>,
    data: Option<PathView>,
    r: Result<DownloadPlan, String>,
) -> bool {
    if !known(model_id) {
        r matches Err(m) && m@ == unknown_model(model_id)
    } else {
        match models_dir_of(data) {
            None => r matches Err(m) && m@ == "Could not resolve data directory"@,
            Some(dir) => r matches Ok(plan) && is_plan(model_id, dir, plan) && plan.tmp_path@
                != plan.final_path@,
        }
    }
}

/// The plan for a model, into the models directory of this user.
pub fn plan_download(model_id: &str) -> (r: Result<DownloadPlan, String>)
    ensures
        exists|data: Option<PathView>| #[trigger] is_download_plan(model_id@, data, r),
{
    let data = data_dir();
    let ghost d = opt_view(data);
    let r = plan_download_in(model_id, models_dir_in(data));
    assert(is_download_plan(model_id@, d, r));
    r
}

/// A report on a download.
pub struct DownloadProgress {
    pub model: String,
    pub downloaded: u64,
    pub total: u64,
}

/// How large a download is: what the server declares, else what the catalogue
/// expects.
pub open spec fn total_bytes(content_length: Option<Seq<char>>, expected: u64) -> u64 {
    match content_length {
        None => expected,
        Some(text) => match parsed_u64(text) {
            Some(n) => n,
            None => expected,
        },
    }
}

/// A running download: of which model, how much of it is there, how much there
/// will be, and how many bytes were read and are being written.
pub struct DownloadRun {
    pub model: String,
    pub downloaded: u64,
    pub total: u64,
    pub pending: usize,
}

/// What happened outside: the download is about to start reading, a read came
/// back, or a write at the given time.
pub enum DownloadEvent {
    Opened,
    Read(Result<usize, String>),
    Written(Result<(), String>, u64),
}

/// What is to be done next: read a piece, write the one that was read, turn the
/// temporary file into the model, or give up with a message. Giving up a
/// cancelled download discards its temporary file.
pub enum DownloadAction {
    Read,
    Write(usize),
    Finalize,
    Discard(String),
    Fail(String),
}

/// What is to be done next, apart from how texts are stored.
pub enum DownloadActionView {
    Read,
    Write(usize),
    Finalize,
    Discard(Seq<char>),
    Fail(Seq<char>),
}

impl View for DownloadAction {
    type V = DownloadActionView;

    open spec fn view(&self) -> DownloadActionView {
        match *self {
            DownloadAction::Read => DownloadActionView::Read,
            DownloadAction::Write(n) => DownloadActionView::Write(n),
            DownloadAction::Finalize => DownloadActionView::Finalize,
            DownloadAction::Discard(m) => DownloadActionView::Discard(m@),
            DownloadAction::Fail(m) => DownloadActionView::Fail(m@),
        }
    }
}

/// Whether a report is due: the interval has passed, or the download is
/// complete.
pub open spec fn report_due(last_ms: int, now_ms: int, downloaded: int, total: int) -> bool {
    less_or_zero(now_ms, last_ms) >= PROGRESS_INTERVAL_MS || downloaded == total
}

/// What is to be done next, given what happened and whether the download is to
/// be cancelled, which is heeded before each read.
pub open spec fn action_after(cancel: bool, event: DownloadEvent) -> DownloadActionView {
    let on = if cancel {
        DownloadActionView::Discard("Download cancelled"@)
    } else {
        DownloadActionView::Read
    };
    match event {
        DownloadEvent::Opened => on,
        DownloadEvent::Read(Err(e)) => DownloadActionView::Fail("Download read error: "@ + e@),
        DownloadEvent::Read(Ok(n)) => if n == 0 {
            DownloadActionView::Finalize
        } else {
            DownloadActionView::Write(n)
        },
        DownloadEvent::Written(Err(e), _) => DownloadActionView::Fail("Download write error: "@ + e@),
        DownloadEvent::Written(Ok(_), _) => on,
    }
}

/// Whether a report goes out with this event, where it is the end of a write
/// that brings the download to `downloaded` bytes.
pub open spec fn reports(
    run: DownloadRun,
    control: DownloadControl,
    event: DownloadEvent,
) -> bool {
    event matches DownloadEvent::Written(Ok(_), now_ms) && report_due(
        control.last_emit_ms as int,
        now_ms as int,
        run.downloaded + run.pending,
        run.total as int,
    )
}

/// The bytes of a download that were written, and those that were read and are
/// being written.
pub struct ByteCount {
    pub downloaded: int,
    pub pending: int,
}

impl ByteCount {
    /// The count after an event: a piece counts when it has been written.
    pub open spec fn after(self, event: DownloadEvent) -> ByteCount {
        match event {
            DownloadEvent::Read(Ok(n)) => ByteCount {
                downloaded: self.downloaded,
                pending: n as int,
            },
            DownloadEvent::Written(Ok(_), _) => ByteCount {
                downloaded: self.downloaded + self.pending,
                pending: 0,
            },
            _ => ByteCount { downloaded: self.downloaded, pending: 0 },
        }
    }
}

impl DownloadRun {
    /// The bytes of this download.
    pub open spec fn count(self) -> ByteCount {
        ByteCount { downloaded: self.downloaded as int, pending: self.pending as int }
    }

    /// The download of a plan, answered with the given `Content-Length`.
    pub fn start(plan: &DownloadPlan, content_length: Option<&str>) -> (r: DownloadRun)
        ensures
            r.model@ == plan.model@,
            r.downloaded == 0,
            r.pending == 0,
            r.total == total_bytes(
                match content_length {
                    Some(text) => Some(text@),
                    None => None,
                },
                plan.expected_bytes,
            ),
    {
        let total: u64 = match content_length {
            None => plan.expected_bytes,
            Some(text) => match parse_u64(text) {
                Some(n) => n,
                None => plan.expected_bytes,
            },
        };
        DownloadRun { model: plan.model.clone(), downloaded: 0, total, pending: 0 }
    }

    /// What is to be done next, and a report where one is due. A piece counts
    /// when it has been written.
    pub fn advance(&mut self, control: &mut DownloadControl, event: DownloadEvent) -> (r: (
        DownloadAction,
        Option<DownloadProgress>,
    ))
        requires
            old(self).downloaded + old(self).pending <= u64::MAX,
        ensures
            r.0@ == action_after(old(control).cancel, event),
            final(self).model == old(self).model,
            final(self).total == old(self).total,
            final(self).count() == old(self).count().after(event),
            reports(*old(self), *old(control), event) ==> {
                &&& r.1 matches Some(p) && p.model@ == old(self).model@ && p.downloaded
                    == final(self).downloaded && p.total == old(self).total
                &&& *final(control) == (DownloadControl {
                    last_emit_ms: event->Written_1,
                    ..*old(control)
                })
            },
            !reports(*old(self), *old(control), event) ==> r.1 is None && *final(control)
                == *old(control),
    {
        match event {
            DownloadEvent::Opened => {
                self.pending = 0;
                (heed_cancel(control), None)
            },
            DownloadEvent::Read(Err(e)) => {
                self.pending = 0;
                (DownloadAction::Fail(concat_text("Download read error: ", e.as_str())), None)
            },
            DownloadEvent::Read(Ok(n)) => {
                self.pending = n;
                if n == 0 {
                    (DownloadAction::Finalize, None)
                } else {
                    (DownloadAction::Write(n), None)
                }
            },
            DownloadEvent::Written(Err(e), _) => {
                self.pending = 0;
                (DownloadAction::Fail(concat_text("Download write error: ", e.as_str())), None)
            },
            DownloadEvent::Written(Ok(_), now_ms) => {
                self.downloaded = self.downloaded + self.pending as u64;
                self.pending = 0;
                let action = heed_cancel(control);
                if now_ms.saturating_sub(control.last_emit_ms) >= PROGRESS_INTERVAL_MS
                    || self.downloaded == self.total {
                    control.last_emit_ms = now_ms;
                    let report = DownloadProgress {
                        model: self.model.clone(),
                        downloaded: self.downloaded,
                        total: self.total,
                    };
                    (action, Some(report))
                } else {
                    (action, None)
                }
            },
        }
    }
}

/// Reads on, unless the download is to be cancelled.
fn heed_cancel(control: &DownloadControl) -> (r: DownloadAction)
    ensures
        r@ == (if control.cancel {
            DownloadActionView::Discard("Download cancelled"@)
        } else {
            DownloadActionView::Read
        }),
{
    if control.cancel {
        DownloadAction::Discard("Download cancelled".to_owned())
    } else {
        DownloadAction::Read
    }
}

/// The model's file appears only when the source is exhausted: nothing else
/// that happens leads to it, and a cancelled download never reads on.
pub proof fn law_finalized_only_when_exhausted(cancel: bool, event: DownloadEvent)
    ensures
        action_after(cancel, event) is Finalize <==> event == DownloadEvent::Read(
            Ok::<usize, String>(0),
        ),
        cancel ==> !(action_after(cancel, event) is Read),
        action_after(cancel, event) is Discard ==> cancel,
{
}

/// The count after all events of a download, in order.
pub open spec fn counted(events: Seq<DownloadEvent>) -> ByteCount
    decreases events.len(),
{
    if events.len() == 0 {
        ByteCount { downloaded: 0, pending: 0 }
    } else {
        counted(events.drop_last()).after(events.last())
    }
}

/// How many bytes all reads of a download came to.
pub open spec fn bytes_read(events: Seq<DownloadEvent>) -> int
    decreases events.len(),
{
    if events.len() == 0 {
        0
    } else {
        bytes_read(events.drop_last()) + (match events.last() {
            DownloadEvent::Read(Ok(n)) => n as int,
            _ => 0,
        })
    }
}

/// Whether each read of a download was followed by its write.
pub open spec fn all_written(events: Seq<DownloadEvent>) -> bool {
    forall|k: int|
        0 <= k < events.len() ==> ((#[trigger] events[k]) matches DownloadEvent::Read(Ok(_)) ==> k + 1
            < events.len() && (events[k + 1] matches DownloadEvent::Written(Ok(_), _)))
}

/// A download never claims more than was read; and where each read was followed
/// by its write, it claims all of it.
pub proof fn law_downloaded_is_what_was_written(events: Seq<DownloadEvent>)
    ensures
        0 <= counted(events).downloaded,
        0 <= counted(events).pending,
        counted(events).downloaded + counted(events).pending <= bytes_read(events),
        all_written(events) ==> counted(events) == (ByteCount {
            downloaded: bytes_read(events),
            pending: 0,
        }),
    decreases events.len(),
{
    if events.len() > 0 {
        let before = events.drop_last();
        law_downloaded_is_what_was_written(before);
        if all_written(events) {
            let last = events.last();
            assert(!(events[events.len() - 1] matches DownloadEvent::Read(Ok(_))));
            if before.len() > 0 && (before.last() matches DownloadEvent::Read(Ok(_))) {
                let earlier = before.drop_last();
                law_downloaded_is_what_was_written(earlier);
                assert(before.last() == events[events.len() - 2]);
                assert(events[events.len() - 2 + 1] == last);
                assert forall|k: int| 0 <= k < earlier.len() implies ((#[trigger] earlier[k])
                    matches DownloadEvent::Read(Ok(_)) ==> k + 1 < earlier.len() && (earlier[k + 1]
                    matches DownloadEvent::Written(Ok(_), _))) by {
                    assert(earlier[k] == events[k]);
                    if k + 1 < earlier.len() {
                        assert(earlier[k + 1] == events[k + 1]);
                    }
                }
                assert(all_written(earlier));
            } else {
                assert forall|k: int| 0 <= k < before.len() implies ((#[trigger] before[k])
                    matches DownloadEvent::Read(Ok(_)) ==> k + 1 < before.len() && (before[k + 1]
                    matches DownloadEvent::Written(Ok(_), _))) by {
                    assert(before[k] == events[k]);
                    if k + 1 < before.len() {
                        assert(before[k + 1] == events[k + 1]);
                    }
                }
                assert(all_written(before));
            }
        }
    }
}

/// A step of a download outside the loop that can fail.
#[derive(Clone, Copy, PartialEq, Eq, Structural)]
pub enum DownloadStage {
    Request,
    CreateFile,
    Finalize,
}

/// How the failure of a step is reported.
pub open spec fn stage_message(stage: DownloadStage) -> Seq<char> {
    match stage {
        DownloadStage::Request => "Download request failed: "@,
        DownloadStage::CreateFile => "Could not create temp file: "@,
        DownloadStage::Finalize => "Could not finalize model: "@,
    }
}

/// What a step is answered.
pub fn stage_result<T>(stage: DownloadStage, result: Result<T, String>) -> (r: Result<T, String>)
    ensures
        match result {
            Ok(v) => r == Ok::<T, String>(v),
            Err(e) => r matches Err(m) && m@ == stage_message(stage) + e@,
        },
{
    match result {
        Ok(v) => Ok(v),
        Err(e) => {
            let prefix = match stage {
                DownloadStage::Request => "Download request failed: ",
                DownloadStage::CreateFile => "Could not create temp file: ",
                DownloadStage::Finalize => "Could not finalize model: ",
            };
            Err(concat_text(prefix, e.as_str()))
        },
    }
}

/// Completion is always reported; apart from that, two reports in a row are at
/// least the interval apart.
pub proof fn law_reports_are_spaced(last_ms: int, now_ms: int, downloaded: int, total: int)
    ensures
        downloaded == total ==> report_due(last_ms, now_ms, downloaded, total),
        report_due(last_ms, now_ms, downloaded, total) && downloaded != total ==> now_ms - last_ms
            >= PROGRESS_INTERVAL_MS,
{
}

/// A piece is written whole, and what happened decides the rest: the end of the
/// source finalizes, an error fails with its whole text, and before each read a
/// request to cancel is heeded.
pub proof fn law_what_follows_an_event(cancel: bool, n: usize, error: String, now_ms: u64)
    ensures
        n > 0 ==> action_after(cancel, DownloadEvent::Read(Ok(n))) == DownloadActionView::Write(n),
        action_after(cancel, DownloadEvent::Read(Ok(0))) == DownloadActionView::Finalize,
        action_after(cancel, DownloadEvent::Read(Err(error))) == DownloadActionView::Fail(
            "Download read error: "@ + error@,
        ),
        action_after(cancel, DownloadEvent::Written(Err(error), now_ms))
            == DownloadActionView::Fail("Download write error: "@ + error@),
        cancel ==> action_after(cancel, DownloadEvent::Opened) == DownloadActionView::Discard(
            "Download cancelled"@,
        ),
        !cancel ==> action_after(cancel, DownloadEvent::Opened) == DownloadActionView::Read,
        action_after(cancel, DownloadEvent::Written(Ok(()), now_ms)) == action_after(
            cancel,
            DownloadEvent::Opened,
        ),
{
}

/// How many bytes are asked to be written over a download.
pub open spec fn bytes_asked(actions: Seq<DownloadActionView>) -> int {
    actions.fold_left(
        0int,
        |sum: int, a: DownloadActionView|
            sum + (match a {
                DownloadActionView::Write(n) => n as int,
                _ => 0,
            }),
    )
}

/// Over a download every byte that was read is written: the sizes that are asked
/// to be written add up to the sizes that were read and, where each read was
/// followed by its write, to the count of downloaded bytes. `cancels` says at
/// each event whether a cancel was asked for.
pub proof fn law_every_byte_is_written(
    events: Seq<DownloadEvent>,
    cancels: Seq<bool>,
    actions: Seq<DownloadActionView>,
)
    requires
        cancels.len() == events.len(),
        actions.len() == events.len(),
        forall|k: int|
            0 <= k < events.len() ==> #[trigger] actions[k] == action_after(cancels[k], events[k]),
    ensures
        bytes_asked(actions) == bytes_read(events),
        all_written(events) ==> counted(events).downloaded == bytes_asked(actions),
    decreases events.len(),
{
    law_downloaded_is_what_was_written(events);
    if events.len() > 0 {
        let last = events.len() - 1;
        assert forall|k: int| 0 <= k < last implies #[trigger] actions.drop_last()[k]
            == action_after(cancels.drop_last()[k], events.drop_last()[k]) by {
            assert(actions.drop_last()[k] == actions[k]);
        }
        lemma_bytes_asked(actions);
        assert(actions[last] == action_after(cancels[last], events[last]));
        let before = events.drop_last();
        law_every_byte_is_written(before, cancels.drop_last(), actions.drop_last());
    }
}

proof fn lemma_bytes_asked(actions: Seq<DownloadActionView>)
    requires
        actions.len() > 0,
    ensures
        bytes_asked(actions) == bytes_asked(actions.drop_last()) + (match actions.last() {
            DownloadActionView::Write(n) => n as int,
            _ => 0,
        }),
{
    reveal_with_fuel(Seq::fold_left, 2);
}

/// A write that brings a download on counts all of its piece, and is reported
/// exactly where 120 ms have passed since the last report or all bytes are there.
pub proof fn law_reports_come_when_due(
    run: DownloadRun,
    control: DownloadControl,
    event: DownloadEvent,
)
    ensures
        reports(run, control, event) <==> (event matches DownloadEvent::Written(Ok(_), now_ms) && (
        now_ms - control.last_emit_ms >= 120 || run.downloaded + run.pending == run.total)),
        event matches DownloadEvent::Written(Ok(_), _) ==> run.count().after(event).downloaded
            == run.downloaded + run.pending && run.count().after(event).pending == 0,
        event matches DownloadEvent::Read(Ok(n)) ==> run.count().after(event).downloaded
            == run.downloaded && run.count().after(event).pending == n,
{
}

/// A declared length counts where it is a number, and else the expected one.
pub proof fn law_declared_length_counts(n: u64, expected: u64, other: Seq<char>)
    ensures
        total_bytes(Some(decimal_text(n as nat)), expected) == n,
        total_bytes(None, expected) == expected,
        parsed_u64(other) is None ==> total_bytes(Some(other), expected) == expected,
        parsed_u64(other) matches Some(m) ==> total_bytes(Some(other), expected) == m,
{
    law_decimal_is_read_back(n);
}

/// Downloads of distinct models have nothing in common: not the address, the file
/// or the temporary file. The address ends in the name of the model's file.
pub proof fn law_downloads_are_apart(
    a: Seq<char>,
    b: Seq<char>,
    dir: PathView,
    plan_a: DownloadPlan,
    plan_b: DownloadPlan,
)
    requires
        known(a),
        known(b),
        a != b,
        is_plan(a, dir, plan_a),
        is_plan(b, dir, plan_b),
    ensures
        plan_a.model@ == a,
        plan_a.url@ == "https://huggingface.co/ggerganov/whisper.cpp/resolve/main/"@ + row_of(
            a,
        ).file,
        plan_a.url@ != plan_b.url@,
        plan_a.url@.len() >= row_of(a).file.len(),
        plan_a.url@.skip(plan_a.url@.len() - row_of(a).file.len()) == row_of(a).file,
        plan_a.final_path@ == under(dir, row_of(a).file),
        plan_a.tmp_path@ == under(dir, row_of(a).file + seq!['.', 'p', 'a', 'r', 't']),
        plan_a.expected_bytes == row_of(a).bytes,
{
    reveal_strlit(".part");
    assert(".part"@ =~= seq!['.', 'p', 'a', 'r', 't']);
    let i = choose|i: int| #[trigger] is_model(a, i);
    let j = choose|j: int| #[trigger] is_model(b, j);
    if row_of(a).file == row_of(b).file {
        law_models_are_distinct(i, j);
    }
    let base = "https://huggingface.co/ggerganov/whisper.cpp/resolve/main/"@;
    assert((base + row_of(a).file).skip(base.len() as int) =~= row_of(a).file);
    assert((base + row_of(b).file).skip(base.len() as int) =~= row_of(b).file);
}

/// Beginning, cancelling and ending change nothing but what they are for: when
/// progress was last reported stays, and a request to cancel lasts to the end.
pub proof fn law_control_keeps_the_rest(control: DownloadControl)
    ensures
        control.begun().last_emit_ms == control.last_emit_ms,
        control.cancelled().last_emit_ms == control.last_emit_ms,
        control.ended().last_emit_ms == control.last_emit_ms,
        control.cancelled().in_flight == control.in_flight,
        control.cancelled().cancel,
        control.ended().cancel == control.cancel,
        !control.ended().in_flight,
        control.in_flight ==> control.begun() == control,
        !control.in_flight ==> control.begun().in_flight && !control.begun().cancel,
{
}

/// What is to be done is what is said: sizes and messages are those of the action.
pub proof fn law_action_is_seen_whole(n: usize, message: String)
    ensures
        DownloadAction::Read@ == DownloadActionView::Read,
        DownloadAction::Write(n)@ == DownloadActionView::Write(n),
        DownloadAction::Finalize@ == DownloadActionView::Finalize,
        DownloadAction::Discard(message)@ == DownloadActionView::Discard(message@),
        DownloadAction::Fail(message)@ == DownloadActionView::Fail(message@),
{
}

/// A download goes into the models directory of the application, of a model that
/// is known and for a user who has a data directory; it is refused otherwise.
pub proof fn law_planned_only_where_it_can_go(
    id: Seq<char>,
    data: Option<PathView>,
    r: Result<DownloadPlan, String>,
)
    requires
        is_download_plan(id, data, r),
    ensures
        r is Ok <==> known(id) && data is Some,
        !known(id) ==> (r matches Err(m) && m@ == "Unknown model: "@ + id),
        known(id) && data is None ==> (r matches Err(m) && m@ == "Could not resolve data directory"@),
        r matches Ok(plan) ==> (data matches Some(base) && {
            let dir = under(under(base, "io.dbr.rekk"@), "models"@);
            &&& plan.model@ == id
            &&& plan.url@ == "https://huggingface.co/ggerganov/whisper.cpp/resolve/main/"@ + row_of(
                id,
            ).file
            &&& plan.final_path@ == under(dir, row_of(id).file)
            &&& plan.tmp_path@ == under(dir, row_of(id).file + ".part"@)
            &&& plan.tmp_path@ != plan.final_path@
            &&& plan.expected_bytes == row_of(id).bytes
        }),
{
}

/// A step that failed is named.
pub proof fn law_failed_step_is_named(stage: DownloadStage)
    ensures
        stage is Request ==> stage_message(stage) == "Download request failed: "@,
        stage is CreateFile ==> stage_message(stage) == "Could not create temp file: "@,
        stage is Finalize ==> stage_message(stage) == "Could not finalize model: "@,
{
}

/// A piece that was read is written whole, however large it is, and counts once it
/// has been written.
pub proof fn law_a_piece_is_written_whole(n: usize)
    requires
        n > 0,
    ensures
        forall|
            run: &mut DownloadRun,
            control: &mut DownloadControl,
            r: (DownloadAction, Option<DownloadProgress>),
        | #[trigger]
            call_ensures(
                DownloadRun::advance,
                (run, control, DownloadEvent::Read(Ok(n))),
                r,
            ) ==> r.0 == DownloadAction::Write(n) && final(run).pending == n
                && final(run).downloaded == run.downloaded,
{
}

} // verus!

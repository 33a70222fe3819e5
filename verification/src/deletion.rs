//! The deletion of a recording: its audio goes first, and its transcript only
//! once that is gone.
use crate::protocol::{after_step, first_of, settle, Pending, PendingView};
use vstd::prelude::*;

verus! {

/// What has been found out so far about a deletion.
pub struct DeleteFacts {
    pub audio_there: Option<bool>,
    pub audio_removed: Option<Result<(), String>>,
    pub transcript_there: Option<bool>,
    pub transcript_tried: bool,
}

/// One step of a deletion, to be done outside. How the removal of the transcript
/// went does not matter.
#[derive(Clone, Copy, PartialEq, Eq, Structural)]
pub enum DeleteTask {
    LookForAudio,
    RemoveAudio,
    LookForTranscript,
    RemoveTranscript,
}

impl DeleteFacts {
    /// Nothing is known yet.
    pub open spec fn fresh() -> DeleteFacts {
        DeleteFacts {
            audio_there: None,
            audio_removed: None,
            transcript_there: None,
            transcript_tried: false,
        }
    }

    /// Nothing is known yet.
    pub fn new() -> (r: DeleteFacts)
        ensures
            r == DeleteFacts::fresh(),
    {
        DeleteFacts {
            audio_there: None,
            audio_removed: None,
            transcript_there: None,
            transcript_tried: false,
        }
    }
}

/// What becomes of the audio: it is removed where it is there.
pub open spec fn audio_verdict(f: DeleteFacts) -> Option<PendingView<DeleteTask>> {
    match f.audio_there {
        None => Some(PendingView::Do(DeleteTask::LookForAudio)),
        Some(there) => if there {
            after_step(f.audio_removed, DeleteTask::RemoveAudio, "Could not delete recording: "@)
        } else {
            None
        },
    }
}

/// What becomes of the transcript: its removal is tried where it is there.
pub open spec fn transcript_verdict(f: DeleteFacts) -> Option<PendingView<DeleteTask>> {
    match f.transcript_there {
        None => Some(PendingView::Do(DeleteTask::LookForTranscript)),
        Some(there) => if there && !f.transcript_tried {
            Some(PendingView::Do(DeleteTask::RemoveTranscript))
        } else {
            None
        },
    }
}

/// What comes next in a deletion, or nothing where it is done.
pub open spec fn delete_verdict(f: DeleteFacts) -> Option<PendingView<DeleteTask>> {
    first_of(audio_verdict(f), transcript_verdict(f))
}

/// What comes next in a deletion, given what has been found out; nothing where
/// it is done.
pub fn next_delete_step(f: &DeleteFacts) -> (r: Option<Pending<DeleteTask>>)
    ensures
        match (r, delete_verdict(*f)) {
            (Some(step), Some(v)) => step@ == v,
            (None, None) => true,
            _ => false,
        },
{
    match f.audio_there {
        None => {
            return Some(Pending::Do(DeleteTask::LookForAudio));
        },
        Some(there) => {
            if there {
                if let Some(step) = settle(
                    &f.audio_removed,
                    DeleteTask::RemoveAudio,
                    "Could not delete recording: ",
                ) {
                    return Some(step);
                }
            }
        },
    }
    match f.transcript_there {
        None => Some(Pending::Do(DeleteTask::LookForTranscript)),
        Some(there) => if there && !f.transcript_tried {
            Some(Pending::Do(DeleteTask::RemoveTranscript))
        } else {
            None
        },
    }
}

/// The transcript is looked at only once the audio is gone, and how its removal
/// went changes nothing.
pub proof fn law_transcript_goes_last(f: DeleteFacts)
    ensures
        delete_verdict(f) == Some(PendingView::Do(DeleteTask::RemoveTranscript)) ==> {
            ||| f.audio_there == Some(false)
            ||| f.audio_removed matches Some(removal) && removal is Ok
        },
        delete_verdict(f) matches Some(PendingView::Failed(_)) ==> f.audio_there == Some(true) && (
        f.audio_removed matches Some(removal) && removal is Err),
        audio_verdict(f) is None && f.transcript_there is Some && f.transcript_tried
            ==> delete_verdict(f) is None,
{
}

/// Files that cannot be removed: why the audio cannot, and whether the transcript
/// cannot.
pub struct Faults {
    pub audio: Option<String>,
    pub transcript: bool,
}

/// What a step finds out, and leaves, on a disk that holds the given files.
pub open spec fn performed(
    files: Set<Seq<char>>,
    audio: Seq<char>,
    transcript: Seq<char>,
    faults: Faults,
    f: DeleteFacts,
    task: DeleteTask,
) -> (Set<Seq<char>>, DeleteFacts) {
    match task {
        DeleteTask::LookForAudio => (
            files,
            DeleteFacts { audio_there: Some(files.contains(audio)), ..f },
        ),
        DeleteTask::RemoveAudio => match faults.audio {
            Some(e) => (files, DeleteFacts { audio_removed: Some(Err(e)), ..f }),
            None => (files.remove(audio), DeleteFacts { audio_removed: Some(Ok(())), ..f }),
        },
        DeleteTask::LookForTranscript => (
            files,
            DeleteFacts { transcript_there: Some(files.contains(transcript)), ..f },
        ),
        DeleteTask::RemoveTranscript => (
            if faults.transcript {
                files
            } else {
                files.remove(transcript)
            },
            DeleteFacts { transcript_tried: true, ..f },
        ),
    }
}

/// A deletion from the given facts on, over at most `fuel` steps: the files that
/// are left, and the message where it failed.
pub open spec fn run(
    files: Set<Seq<char>>,
    audio: Seq<char>,
    transcript: Seq<char>,
    faults: Faults,
    f: DeleteFacts,
    fuel: nat,
) -> (Set<Seq<char>>, Option<Seq<char>>)
    decreases fuel,
{
    match delete_verdict(f) {
        None => (files, None),
        Some(PendingView::Failed(message)) => (files, Some(message)),
        Some(PendingView::Do(task)) => if fuel == 0 {
            (files, None)
        } else {
            let (left, facts) = performed(files, audio, transcript, faults, f, task);
            run(left, audio, transcript, faults, facts, (fuel - 1) as nat)
        },
    }
}

/// A whole deletion: four steps are enough.
pub open spec fn deletion(
    files: Set<Seq<char>>,
    audio: Seq<char>,
    transcript: Seq<char>,
    faults: Faults,
) -> (Set<Seq<char>>, Option<Seq<char>>) {
    run(files, audio, transcript, faults, DeleteFacts::fresh(), 4)
}

/// A deletion that succeeds leaves no audio, nor a transcript that could be
/// removed, and touches no other file. It fails only where the audio is there
/// and cannot be removed, and then leaves everything. Deleting again succeeds.
pub proof fn law_deletion(
    files: Set<Seq<char>>,
    audio: Seq<char>,
    transcript: Seq<char>,
    faults: Faults,
    later: Faults,
)
    ensures
        ({
            let (left, failure) = deletion(files, audio, transcript, faults);
            &&& failure is Some <==> files.contains(audio) && faults.audio is Some
            &&& failure is Some ==> left == files && failure == Some(
                "Could not delete recording: "@ + faults.audio->Some_0@,
            )
            &&& failure is None ==> {
                &&& !left.contains(audio)
                &&& !faults.transcript ==> !left.contains(transcript)
                &&& deletion(left, audio, transcript, later).1 is None
            }
            &&& left.subset_of(files)
            &&& forall|p: Seq<char>|
                files.contains(p) && !(#[trigger] left.contains(p)) ==> p == audio || p
                    == transcript
        }),
{
    reveal_with_fuel(run, 5);
}

/// A deletion goes step by step: the audio is looked for and, where it is there,
/// removed, and then the transcript. A failure to remove the audio ends it with
/// the whole reason; nothing else does.
pub proof fn law_deletion_goes_step_by_step(f: DeleteFacts)
    ensures
        ({
            let v = delete_verdict(f);
            let gone = f.audio_there == Some(false) || (f.audio_there == Some(true) && (
            f.audio_removed matches Some(removal) && removal is Ok));
            &&& f.audio_there is None ==> v == Some(PendingView::Do(DeleteTask::LookForAudio))
            &&& f.audio_there == Some(true) && f.audio_removed is None ==> v == Some(
                PendingView::Do(DeleteTask::RemoveAudio),
            )
            &&& f.audio_there == Some(true) ==> (f.audio_removed matches Some(Err(e)) ==> v == Some(
                PendingView::<DeleteTask>::Failed("Could not delete recording: "@ + e@),
            ))
            &&& gone && f.transcript_there is None ==> v == Some(
                PendingView::Do(DeleteTask::LookForTranscript),
            )
            &&& gone && f.transcript_there == Some(true) && !f.transcript_tried ==> v == Some(
                PendingView::Do(DeleteTask::RemoveTranscript),
            )
            &&& gone && (f.transcript_there == Some(false) || (f.transcript_there == Some(true)
                && f.transcript_tried)) ==> v is None
        }),
{
}

} // verus!

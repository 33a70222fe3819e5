//! Work that alternates with outside steps.
//!
//! Each outside step fills in one fact: how it went. The facts so far decide
//! what comes next: the first step that is not done yet, or the failure of the
//! first that failed.
use crate::text::concat_text;
use vstd::prelude::*;

verus! {

/// What comes next: a step to be done, or the end of it with a message.
pub enum Pending<T> {
    Do(T),
    Failed(String),
}

/// What comes next, apart from how texts are stored.
pub enum PendingView<T> {
    Do(T),
    Failed(Seq<char>),
}

impl<T> View for Pending<T> {
    type V = PendingView<T>;

    open spec fn view(&self) -> PendingView<T> {
        match *self {
            Pending::Do(task) => PendingView::Do(task),
            Pending::Failed(m) => PendingView::Failed(m@),
        }
    }
}

/// What a fact comes to: its step is still to be done, it failed with a message
/// that follows the prefix, or the work goes on.
pub open spec fn after_step<F, T>(
    fact: Option<Result<F, String>>,
    task: T,
    prefix: Seq<char>,
) -> Option<PendingView<T>> {
    match fact {
        None => Some(PendingView::Do(task)),
        Some(Err(e)) => Some(PendingView::Failed(prefix + e@)),
        Some(Ok(_)) => None,
    }
}

/// The first of two that is there.
pub open spec fn first_of<T>(
    a: Option<PendingView<T>>,
    b: Option<PendingView<T>>,
) -> Option<PendingView<T>> {
    match a {
        Some(v) => Some(v),
        None => b,
    }
}

/// What a fact comes to.
pub(crate) fn settle<F, T>(fact: &Option<Result<F, String>>, task: T, prefix: &str) -> (r: Option<
    Pending<T>,
>)
    ensures
        match (r, after_step(*fact, task, prefix@)) {
            (Some(step), Some(v)) => step@ == v,
            (None, None) => true,
            _ => false,
        },
{
    match fact {
        None => Some(Pending::Do(task)),
        Some(Err(e)) => Some(Pending::Failed(concat_text(prefix, e.as_str()))),
        Some(Ok(_)) => None,
    }
}

/// A step that is not done is asked for, one that failed ends the work with its
/// whole message behind the prefix, and one that succeeded lets it go on.
pub proof fn law_a_step_decides<F, T>(fact: F, error: String, task: T, prefix: Seq<char>)
    ensures
        after_step(None::<Result<F, String>>, task, prefix) == Some(PendingView::Do(task)),
        after_step(Some(Ok::<F, String>(fact)), task, prefix) is None,
        after_step(Some(Err::<F, String>(error)), task, prefix) == Some(
            PendingView::<T>::Failed(prefix + error@),
        ),
{
}

/// Of two, the first counts where it is there, and else the second.
pub proof fn law_the_first_counts<T>(a: PendingView<T>, b: Option<PendingView<T>>)
    ensures
        first_of(Some(a), b) == Some(a),
        first_of(None, b) == b,
{
}

/// What comes next is seen whole: the step, or the message.
pub proof fn law_pending_is_seen_whole<T>(task: T, message: String)
    ensures
        Pending::Do(task)@ == PendingView::Do(task),
        Pending::<T>::Failed(message)@ == PendingView::<T>::Failed(message@),
{
}

} // verus!

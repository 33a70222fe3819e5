//! When level reports go out: each stream reports at most once in an interval.
//!
//! Times are nanoseconds since some moment before the stream was built.
use crate::clock::less_or_zero;
use vstd::prelude::*;

verus! {

/// Milliseconds between two level reports of the microphone.
pub const MIC_METER_INTERVAL_MS: u64 = 33;

/// Milliseconds between two level reports of the system audio.
pub const SYSTEM_METER_INTERVAL_MS: u64 = 250;

/// Nanoseconds in a millisecond.
pub const NANOS_PER_MILLI: u128 = 1_000_000;

/// The schedule of a stream's reports: when the last one had gone out, and how
/// long the next one waits.
#[derive(Clone, Copy)]
pub struct Meter {
    pub last_ns: u128,
    pub interval_ms: u64,
}

impl Meter {
    /// The interval in nanoseconds.
    pub open spec fn interval_ns(self) -> int {
        self.interval_ms * NANOS_PER_MILLI
    }

    /// Whether a report is due: the interval has passed since the last one.
    pub open spec fn due_at(self, now_ns: int) -> bool {
        less_or_zero(now_ns, self.last_ns as int) >= self.interval_ns()
    }

    /// The schedule of a stream that is built now.
    pub fn new(now_ns: u128, interval_ms: u64) -> (r: Meter)
        ensures
            r == (Meter { last_ns: now_ns, interval_ms }),
    {
        Meter { last_ns: now_ns, interval_ms }
    }

    /// Whether a report is due.
    pub fn due(&self, now_ns: u128) -> (r: bool)
        ensures
            r == self.due_at(now_ns as int),
    {
        now_ns.saturating_sub(self.last_ns) >= self.interval_ms as u128 * NANOS_PER_MILLI
    }

    /// Notes that a report has gone out.
    pub fn reported(&mut self, at_ns: u128)
        ensures
            *final(self) == (Meter { last_ns: at_ns, ..*old(self) }),
    {
        self.last_ns = at_ns;
    }
}

/// One callback of a stream: when it looks whether a report is due, and when the
/// report has gone out, if it is.
pub struct Poll {
    pub now_ns: u128,
    pub after_ns: u128,
}

/// Whether the callbacks come one after the other.
pub open spec fn in_turn(polls: Seq<Poll>) -> bool {
    &&& forall|i: int| 0 <= i < polls.len() ==> (#[trigger] polls[i]).now_ns <= polls[i].after_ns
    &&& forall|i: int, j: int|
        0 <= i < j < polls.len() ==> (#[trigger] polls[i]).after_ns <= (#[trigger] polls[j]).now_ns
}

/// When reports go out over the callbacks of a stream: at each callback that
/// finds one due, which is then noted.
pub open spec fn report_times(meter: Meter, polls: Seq<Poll>) -> Seq<u128>
    decreases polls.len(),
{
    if polls.len() == 0 {
        Seq::empty()
    } else {
        let poll = polls[0];
        if meter.due_at(poll.now_ns as int) {
            seq![poll.now_ns] + report_times(
                Meter { last_ns: poll.after_ns, ..meter },
                polls.drop_first(),
            )
        } else {
            report_times(meter, polls.drop_first())
        }
    }
}

/// However often a stream calls back, its reports are at least the interval
/// apart, and the first waits as long after the stream was built.
pub proof fn law_meter_reports_are_spaced(meter: Meter, polls: Seq<Poll>)
    requires
        meter.interval_ms > 0,
        in_turn(polls),
    ensures
        forall|k: int|
            0 <= k < report_times(meter, polls).len() ==> #[trigger] report_times(meter, polls)[k]
                >= meter.last_ns + meter.interval_ns(),
        forall|j: int, k: int|
            0 <= j < k < report_times(meter, polls).len() ==> #[trigger] report_times(
                meter,
                polls,
            )[k] - #[trigger] report_times(meter, polls)[j] >= meter.interval_ns(),
    decreases polls.len(),
{
    if polls.len() > 0 {
        let poll = polls[0];
        let rest = polls.drop_first();
        let times = report_times(meter, polls);
        assert forall|i: int, j: int| 0 <= i < j < rest.len() implies (
        #[trigger] rest[i]).after_ns <= (#[trigger] rest[j]).now_ns by {
            assert(rest[i] == polls[i + 1] && rest[j] == polls[j + 1]);
        }
        assert(in_turn(rest)) by {
            assert forall|i: int| 0 <= i < rest.len() implies (#[trigger] rest[i]).now_ns
                <= rest[i].after_ns by {
                assert(rest[i] == polls[i + 1]);
            }
        }
        if meter.due_at(poll.now_ns as int) {
            let next = Meter { last_ns: poll.after_ns, ..meter };
            law_meter_reports_are_spaced(next, rest);
            let later = report_times(next, rest);
            assert(times == seq![poll.now_ns] + later);
            assert(polls[0].now_ns <= polls[0].after_ns);
            assert(meter.interval_ns() > 0 && next.interval_ns() == meter.interval_ns());
            assert(poll.now_ns >= meter.last_ns + meter.interval_ns());
            assert forall|k: int| 0 < k < times.len() implies #[trigger] times[k] >= poll.after_ns
                + meter.interval_ns() by {
                assert(times[k] == later[k - 1]);
            }
            assert forall|j: int, k: int| 0 <= j < k < times.len() implies #[trigger] times[k]
                - #[trigger] times[j] >= meter.interval_ns() by {
                if j > 0 {
                    assert(times[k] == later[k - 1] && times[j] == later[j - 1]);
                }
            }
        } else {
            law_meter_reports_are_spaced(meter, rest);
            assert(times == report_times(meter, rest));
        }
    }
}

/// A report is due exactly from the end of the interval on, no later: 33 ms after
/// the last one for the microphone, and a quarter of a second for the system.
pub proof fn law_report_is_due_after_the_interval(meter: Meter, now_ns: int)
    requires
        meter.interval_ms > 0,
    ensures
        meter.due_at(now_ns) <==> now_ns >= meter.last_ns + meter.interval_ms * 1_000_000,
        meter.interval_ms == MIC_METER_INTERVAL_MS ==> (meter.due_at(now_ns) <==> now_ns
            - meter.last_ns >= 33_000_000),
        meter.interval_ms == SYSTEM_METER_INTERVAL_MS ==> (meter.due_at(now_ns) <==> now_ns
            - meter.last_ns >= 250_000_000),
{
}

/// Without an interval a report is always due.
pub proof fn law_no_interval_is_always_due(meter: Meter, now_ns: int)
    requires
        meter.interval_ms == 0,
    ensures
        meter.due_at(now_ns),
{
}

} // verus!

//! The pause-aware clock of a recording.
//!
//! Times are milliseconds since the recording started. The clock keeps how much
//! of that was spent in pauses that are over, and when the present pause began.
use vstd::prelude::*;

verus! {

/// `std::time::Instant`: a point in time, carried through.
#[verifier::external_type_specification]
#[verifier::external_body]
pub struct ExInstant(std::time::Instant);

/// `std::time::Instant::elapsed`, in whole milliseconds. The result is the
/// time, so nothing is claimed of it.
#[verifier::external_body]
pub(crate) fn elapsed_ms(since: &std::time::Instant) -> (r: u128) {
    since.elapsed().as_millis()
}

/// `std::time::Instant::elapsed`, read twice, in whole milliseconds. The results
/// are the time; the contract claims what the documentation says of the clock,
/// that it does not go back.
#[verifier::external_body]
pub(crate) fn elapsed_twice_ms(since: &std::time::Instant) -> (r: (u128, u128))
    ensures
        r.0 <= r.1,
{
    let first = since.elapsed().as_millis();
    let second = since.elapsed().as_millis();
    (first, second)
}

/// The pauses of a recording.
#[derive(Clone, Copy)]
pub struct PauseClock {
    pub paused: bool,
    pub offset_ms: u64,
    pub began_at_ms: u64,
}

/// One more than the largest 64-bit time.
pub open spec fn wrap() -> int {
    0x1_0000_0000_0000_0000
}

/// `a` less `b`, or nothing where `b` is more.
pub open spec fn less_or_zero(a: int, b: int) -> int {
    if a >= b {
        a - b
    } else {
        0
    }
}

impl PauseClock {
    /// The clock of a recording that has not been paused.
    pub open spec fn fresh() -> PauseClock {
        PauseClock { paused: false, offset_ms: 0, began_at_ms: 0 }
    }

    /// The recorded time, read in two steps: `raw` milliseconds have elapsed,
    /// and `now` when the length of the present pause is taken.
    pub open spec fn effective(self, raw: int, now: int) -> int {
        let present = if self.paused {
            less_or_zero(now % wrap(), self.began_at_ms as int)
        } else {
            0
        };
        less_or_zero(less_or_zero(raw, self.offset_ms as int), present)
    }

    /// Whether `r` can be the recorded time, read in two steps. While paused it
    /// does not go beyond what was recorded when the pause began.
    pub open spec fn reads(self, r: int) -> bool {
        exists|raw: u128, now: u128|
            {
                &&& r == #[trigger] self.effective(raw as int, now as int)
                &&& raw <= now
                &&& self.paused && now < wrap() ==> r <= less_or_zero(
                    self.began_at_ms as int,
                    self.offset_ms as int,
                )
            }
    }

    /// The clock after a pause at `now`; a second pause changes nothing.
    pub open spec fn paused_at(self, now: int) -> PauseClock {
        if self.paused {
            self
        } else {
            PauseClock { paused: true, began_at_ms: (now % wrap()) as u64, ..self }
        }
    }

    /// The clock after resuming at `now`: the pause that ends is added up. A
    /// clock that is not paused does not change.
    pub open spec fn resumed_at(self, now: int) -> PauseClock {
        if !self.paused {
            self
        } else {
            PauseClock {
                paused: false,
                offset_ms: ((self.offset_ms + less_or_zero(now % wrap(), self.began_at_ms as int))
                    % wrap()) as u64,
                ..self
            }
        }
    }

    /// Whether the clock can be that of a recording `now` milliseconds old: its
    /// pauses fit into the time before the present pause, or before now.
    pub open spec fn fits(self, now: int) -> bool {
        &&& 0 <= now < wrap()
        &&& self.paused ==> self.offset_ms <= self.began_at_ms <= now
        &&& !self.paused ==> self.offset_ms <= now
    }

    /// The clock of a recording that has not been paused.
    pub fn new() -> (r: PauseClock)
        ensures
            r == PauseClock::fresh(),
    {
        PauseClock { paused: false, offset_ms: 0, began_at_ms: 0 }
    }

    /// Pauses at `now`.
    pub fn pause(&mut self, now: u128)
        ensures
            *final(self) == old(self).paused_at(now as int),
    {
        if !self.paused {
            self.began_at_ms = low_u64(now);
            self.paused = true;
        }
    }

    /// Resumes at `now`.
    pub fn resume(&mut self, now: u128)
        ensures
            *final(self) == old(self).resumed_at(now as int),
    {
        if self.paused {
            let delta: u64 = low_u64(now).saturating_sub(self.began_at_ms);
            self.offset_ms = low_u64(self.offset_ms as u128 + delta as u128);
            self.paused = false;
        }
    }

    /// The recorded time, where `raw` milliseconds have elapsed, and `now` when
    /// the length of the present pause is taken.
    pub fn effective_at(&self, raw: u128, now: u128) -> (r: u128)
        ensures
            r == self.effective(raw as int, now as int),
    {
        let present: u128 = if self.paused {
            low_u64(now).saturating_sub(self.began_at_ms) as u128
        } else {
            0
        };
        raw.saturating_sub(self.offset_ms as u128).saturating_sub(present)
    }
}

/// The lower half of a 128-bit time.
fn low_u64(x: u128) -> (r: u64)
    ensures
        r == x as int % wrap(),
{
    let r: u64 = #[verifier::truncate] (x as u64);
    assert(r == x % 0x1_0000_0000_0000_0000) by (bit_vector)
        requires
            r == x as u64,
    ;
    r
}

/// The recorded time of a recording that started at `started_at`, in
/// milliseconds: the elapsed time without the pauses. Two readings of the time
/// go into it.
pub fn effective_elapsed_ms(clock: &PauseClock, started_at: std::time::Instant) -> (r: u128)
    ensures
        clock.reads(r as int),
{
    let (raw, now) = elapsed_twice_ms(&started_at);
    let r: u128 = clock.effective_at(raw, now);
    assert(r == clock.effective(raw as int, now as int));
    r
}

/// While paused, the recorded time stands still at what it was when the pause
/// began.
pub proof fn law_pause_freezes(clock: PauseClock, now: int)
    requires
        clock.paused,
        clock.fits(now),
    ensures
        clock.effective(now, now) == clock.began_at_ms - clock.offset_ms,
{
}

/// Pausing does not move the recorded time, and a second pause does nothing.
pub proof fn law_pausing_is_seamless(clock: PauseClock, now: int)
    requires
        clock.fits(now),
    ensures
        clock.paused_at(now).effective(now, now) == clock.effective(now, now),
        clock.paused_at(now).paused_at(now) == clock.paused_at(now),
{
}

/// Resuming does not move the recorded time, and resuming again does nothing.
pub proof fn law_resuming_is_seamless(clock: PauseClock, now: int)
    requires
        clock.fits(now),
    ensures
        clock.resumed_at(now).effective(now, now) == clock.effective(now, now),
        clock.resumed_at(now).resumed_at(now) == clock.resumed_at(now),
{
}

/// While not paused, the recorded time runs with the elapsed time.
pub proof fn law_running_advances(clock: PauseClock, now: int, later: int)
    requires
        !clock.paused,
        clock.fits(now),
        now <= later,
    ensures
        clock.effective(later, later) - clock.effective(now, now) == later - now,
{
}

/// A pause does not count: recorded up to `from`, paused until `until`, and
/// read at `now`, the time has grown by what came after the pause alone.
pub proof fn law_pause_does_not_count(clock: PauseClock, from: int, until: int, now: int)
    requires
        !clock.paused,
        clock.fits(from),
        from <= until <= now < wrap(),
    ensures
        clock.paused_at(from).resumed_at(until).effective(now, now) == clock.effective(from, from) + (
        now - until),
{
}

/// Every clock a recording goes through fits its age: a fresh one does, and
/// waiting, pausing and resuming keep it so.
pub proof fn law_clock_keeps_fitting(clock: PauseClock, now: int, later: int)
    requires
        clock.fits(now),
        now <= later < wrap(),
    ensures
        PauseClock::fresh().fits(now),
        clock.fits(later),
        clock.paused_at(later).fits(later),
        clock.resumed_at(later).fits(later),
{
}

/// A reading whose second look at the clock comes later never overstates the
/// recorded time, and falls short of it by no more than the delay.
pub proof fn law_two_readings(clock: PauseClock, raw: int, now: int)
    requires
        clock.fits(raw),
        raw <= now < wrap(),
    ensures
        clock.effective(raw, now) <= clock.effective(raw, raw),
        clock.effective(raw, raw) - clock.effective(raw, now) <= now - raw,
{
}

/// A reading during a pause never goes beyond what was recorded when the pause
/// began, whatever the clock.
pub proof fn law_paused_reading_is_bounded(clock: PauseClock, raw: int, now: int)
    requires
        clock.paused,
        0 <= raw <= now < wrap(),
    ensures
        clock.effective(raw, now) <= less_or_zero(
            clock.began_at_ms as int,
            clock.offset_ms as int,
        ),
{
}

/// Pausing notes when, and resuming adds the length of the pause; nothing else
/// changes, and neither does anything where there is nothing to do.
pub proof fn law_pause_and_resume_note_the_time(clock: PauseClock, now: int)
    requires
        0 <= now < 0x1_0000_0000_0000_0000,
    ensures
        !clock.paused ==> {
            &&& clock.paused_at(now).paused
            &&& clock.paused_at(now).began_at_ms == now
            &&& clock.paused_at(now).offset_ms == clock.offset_ms
            &&& clock.resumed_at(now) == clock
        },
        clock.paused ==> {
            &&& clock.paused_at(now) == clock
            &&& !clock.resumed_at(now).paused
            &&& clock.began_at_ms <= now && clock.offset_ms + now - clock.began_at_ms < 0x1_0000_0000_0000_0000
                ==> clock.resumed_at(now).offset_ms == clock.offset_ms + now - clock.began_at_ms
            &&& now < clock.began_at_ms ==> clock.resumed_at(now).offset_ms == clock.offset_ms
        },
{
}

/// The recorded time is the elapsed time less what was spent in pauses, and never
/// less than nothing.
pub proof fn law_recorded_and_paused_make_up_the_time(clock: PauseClock, raw: int, now: int)
    requires
        0 <= raw,
        0 <= now < 0x1_0000_0000_0000_0000,
    ensures
        clock.effective(raw, now) >= 0,
        ({
            let present = if clock.paused && now >= clock.began_at_ms {
                now - clock.began_at_ms
            } else {
                0
            };
            let spent = clock.offset_ms + present;
            &&& raw >= spent ==> clock.effective(raw, now) + spent == raw
            &&& raw < spent ==> clock.effective(raw, now) == 0
        }),
{
}

/// The clock of a recording that was paused and resumed at the given times.
pub open spec fn after_pauses(pauses: Seq<(int, int)>) -> PauseClock
    decreases pauses.len(),
{
    if pauses.len() == 0 {
        PauseClock::fresh()
    } else {
        after_pauses(pauses.drop_last()).paused_at(pauses.last().0).resumed_at(pauses.last().1)
    }
}

/// The time that pauses took together.
pub open spec fn time_in(pauses: Seq<(int, int)>) -> int {
    pauses.fold_left(0int, |sum: int, p: (int, int)| sum + (p.1 - p.0))
}

/// However often a recording is paused, its recorded time is the elapsed time
/// less the time in its pauses; and while it is paused once more, it is what it
/// was when that pause began.
pub proof fn law_pauses_add_up(pauses: Seq<(int, int)>, from: int, now: int)
    requires
        forall|i: int|
            0 <= i < pauses.len() ==> 0 <= (#[trigger] pauses[i]).0 <= pauses[i].1 <= from,
        forall|i: int, j: int|
            0 <= i < j < pauses.len() ==> (#[trigger] pauses[i]).1 <= (#[trigger] pauses[j]).0,
        0 <= from <= now < 0x1_0000_0000_0000_0000,
    ensures
        after_pauses(pauses).effective(now, now) == now - time_in(pauses),
        after_pauses(pauses).paused_at(from).effective(now, now) == from - time_in(pauses),
        after_pauses(pauses).paused_at(from).resumed_at(now).effective(now, now) == from - time_in(
            pauses,
        ),
{
    lemma_after_pauses(pauses, from);
}

proof fn lemma_after_pauses(pauses: Seq<(int, int)>, end: int)
    requires
        forall|i: int|
            0 <= i < pauses.len() ==> 0 <= (#[trigger] pauses[i]).0 <= pauses[i].1 <= end,
        forall|i: int, j: int|
            0 <= i < j < pauses.len() ==> (#[trigger] pauses[i]).1 <= (#[trigger] pauses[j]).0,
        0 <= end < 0x1_0000_0000_0000_0000,
    ensures
        !after_pauses(pauses).paused,
        after_pauses(pauses).offset_ms == time_in(pauses),
        0 <= time_in(pauses) <= end,
    decreases pauses.len(),
{
    reveal_with_fuel(Seq::fold_left, 2);
    if pauses.len() > 0 {
        let before = pauses.drop_last();
        let last = pauses.last();
        assert(last == pauses[pauses.len() - 1]);
        assert forall|i: int| 0 <= i < before.len() implies 0 <= (#[trigger] before[i]).0
            <= before[i].1 <= last.0 by {
            assert(before[i] == pauses[i]);
        }
        assert forall|i: int, j: int| 0 <= i < j < before.len() implies (#[trigger] before[i]).1
            <= (#[trigger] before[j]).0 by {
            assert(before[i] == pauses[i] && before[j] == pauses[j]);
        }
        lemma_after_pauses(before, last.0);
        assert(time_in(pauses) == time_in(before) + (last.1 - last.0));
    }
}

/// A time counts by its lower 64 bits, and pauses that together are longer than
/// these hold wrap around.
pub proof fn law_only_the_low_half_counts(clock: PauseClock, raw: int, now: int)
    requires
        0 <= now,
    ensures
        clock.paused_at(now) == clock.paused_at(now % 0x1_0000_0000_0000_0000),
        clock.resumed_at(now) == clock.resumed_at(now % 0x1_0000_0000_0000_0000),
        clock.effective(raw, now) == clock.effective(raw, now % 0x1_0000_0000_0000_0000),
        clock.paused && clock.began_at_ms <= now < 0x1_0000_0000_0000_0000 && clock.offset_ms + now
            - clock.began_at_ms >= 0x1_0000_0000_0000_0000 ==> clock.resumed_at(now).offset_ms
            == clock.offset_ms + now - clock.began_at_ms - 0x1_0000_0000_0000_0000,
{
}

/// A reading is the recorded time at two moments, the second not before the first:
/// while the recording runs, what elapsed less the pauses, and while it is paused
/// no more than was recorded when the pause began.
pub proof fn law_reading_is_a_recorded_time(clock: PauseClock, r: int) -> (at: (u128, u128))
    requires
        clock.reads(r),
    ensures
        at.0 <= at.1,
        r == clock.effective(at.0 as int, at.1 as int),
        !clock.paused && at.0 >= clock.offset_ms ==> r == at.0 - clock.offset_ms,
        !clock.paused && at.0 < clock.offset_ms ==> r == 0,
        clock.paused && at.1 < 0x1_0000_0000_0000_0000 ==> r == 0 || r <= clock.began_at_ms
            - clock.offset_ms,
{
    choose|raw: u128, now: u128|
        {
            &&& r == #[trigger] clock.effective(raw as int, now as int)
            &&& raw <= now
            &&& clock.paused && now < wrap() ==> r <= less_or_zero(
                clock.began_at_ms as int,
                clock.offset_ms as int,
            )
        }
}

} // verus!

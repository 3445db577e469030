//! When the client syncs: once, an hour after launch, where that is switched
//! on, and every day at four o'clock in the morning, Beijing time.

use vstd::prelude::*;

use crate::client::error::SyncError;
use crate::time::{
    Delay, NANOS_PER_SEC, SECS_PER_DAY, SECS_PER_HOUR, Timestamp, calendar_agrees, delay_of_nanos,
    hour_of_local_day, hour_today, timestamp_in_range,
};

verus! {

/// How long after launch the startup sync runs, in seconds.
pub const STARTUP_SYNC_DELAY_SECS: u64 = 3600;

/// Beijing time, in seconds east of UTC.
pub const BEIJING_OFFSET_SECS: i32 = 28_800;

/// The hour of the daily sync, local time.
pub const DAILY_SYNC_HOUR: u32 = 4;

/// Nanoseconds in a day.
pub open spec fn day_nanos() -> int {
    SECS_PER_DAY * NANOS_PER_SEC
}

/// The time from `now` to the next occurrence of the daily instant, given
/// the instant `today_at` at which it occurs on the day of `now`, all in
/// nanoseconds: until `today_at` where `now` lies before it, else until the
/// same time on the next day. Nothing where even that has passed.
pub open spec fn next_occurrence_delay(now: int, today_at: int) -> int {
    if now < today_at {
        today_at - now
    } else if now < today_at + day_nanos() {
        today_at + day_nanos() - now
    } else {
        0
    }
}

/// Before the daily instant the delay is the time until it today; at or
/// after it, the time until it tomorrow. Either way the delay is more than
/// nothing, and within a day of `today_at` it is at most a day.
pub proof fn lemma_next_occurrence(now: int, today_at: int)
    requires
        today_at - day_nanos() <= now < today_at + day_nanos(),
    ensures
        now < today_at ==> now + next_occurrence_delay(now, today_at) == today_at,
        now >= today_at ==> now + next_occurrence_delay(now, today_at) == today_at + day_nanos(),
        0 < next_occurrence_delay(now, today_at) <= day_nanos(),
{
}

/// The delay shrinks as time passes, until the daily instant is reached;
/// at that instant it is a whole day again.
pub proof fn lemma_delay_across_the_instant(earlier: int, later: int, today_at: int)
    requires
        today_at - day_nanos() <= earlier <= later < today_at + day_nanos(),
    ensures
        later < today_at ==> next_occurrence_delay(later, today_at) == next_occurrence_delay(
            earlier,
            today_at,
        ) - (later - earlier),
        earlier >= today_at ==> next_occurrence_delay(later, today_at) == next_occurrence_delay(
            earlier,
            today_at,
        ) - (later - earlier),
        next_occurrence_delay(today_at, today_at) == day_nanos(),
{
}

/// The time from `now` to the next occurrence of the daily instant, which
/// on the day of `now` occurs at `today_at`.
pub fn delay_until_next(now: Timestamp, today_at: Timestamp) -> (delay: Delay)
    ensures
        delay == delay_of_nanos(next_occurrence_delay(now@, today_at@)),
        delay@ == next_occurrence_delay(now@, today_at@),
        delay.nanos < NANOS_PER_SEC,
{
    proof {
        now.lemma_view();
        today_at.lemma_view();
    }
    let billion: i128 = NANOS_PER_SEC as i128;
    let day: i128 = SECS_PER_DAY as i128 * billion;
    let current: i128 = now.secs() as i128 * billion + now.nanos() as i128;
    let today: i128 = today_at.secs() as i128 * billion + today_at.nanos() as i128;
    let span: i128 = if current < today {
        today - current
    } else if current < today + day {
        today + day - current
    } else {
        0
    };
    Delay { secs: (span / billion) as u64, nanos: (span % billion) as u32 }
}

/// The instant, in seconds after the epoch, of four o'clock in the morning
/// on the day that `now_secs` falls on in Beijing.
pub open spec fn beijing_4am_today(now_secs: int) -> int {
    hour_of_local_day(now_secs, BEIJING_OFFSET_SECS as int, DAILY_SYNC_HOUR as int)
}

/// The delay until the next four o'clock in the morning, Beijing time;
/// `None` where the calendar of `chrono` does not place four o'clock of the
/// day of `now` where the count of seconds does.
pub open spec fn beijing_4am_delay(now: Timestamp) -> Option<Delay> {
    if calendar_agrees(now.seconds(), BEIJING_OFFSET_SECS as int, DAILY_SYNC_HOUR as int) {
        Some(
            delay_of_nanos(
                next_occurrence_delay(now@, beijing_4am_today(now.seconds()) * NANOS_PER_SEC),
            ),
        )
    } else {
        None
    }
}

/// The time of day in Beijing at the instant `now`, in nanoseconds since
/// midnight.
pub open spec fn beijing_time_of_day(now: int) -> int {
    (now + BEIJING_OFFSET_SECS * NANOS_PER_SEC) % day_nanos()
}

/// Four o'clock in the morning, in nanoseconds since midnight.
pub open spec fn four_o_clock() -> int {
    DAILY_SYNC_HOUR * SECS_PER_HOUR * NANOS_PER_SEC
}

/// The delay is the time until four o'clock in Beijing: before four, the
/// time until four on the same day; at four or after it, the time until
/// four on the next day. It is more than nothing and at most a day, and
/// the wait ends at four o'clock.
pub proof fn lemma_beijing_4am_delay(now: Timestamp, delay: Delay)
    requires
        timestamp_in_range(now.seconds(), now.subsec_nanos()),
        beijing_4am_delay(now) == Some(delay),
    ensures
        beijing_time_of_day(now@) < four_o_clock() ==> delay@ == four_o_clock()
            - beijing_time_of_day(now@),
        beijing_time_of_day(now@) >= four_o_clock() ==> delay@ == day_nanos() + four_o_clock()
            - beijing_time_of_day(now@),
        0 < delay@ <= day_nanos(),
        beijing_time_of_day(now@ + delay@) == four_o_clock(),
{
    now.lemma_view();
    let s = now.seconds();
    let n = now.subsec_nanos();
    let local = s + 28_800;
    let day = local / 86_400;
    let second_of_day = local % 86_400;
    let today_at = beijing_4am_today(s);
    assert(today_at == day * 86_400 - 28_800 + 14_400);
    assert(now@ == s * 1_000_000_000 + n);
    assert(day_nanos() == 86_400_000_000_000);
    assert(four_o_clock() == 14_400_000_000_000);
    assert(today_at * NANOS_PER_SEC == today_at * 1_000_000_000);
    assert(BEIJING_OFFSET_SECS * NANOS_PER_SEC == 28_800_000_000_000);
    let rest = second_of_day * 1_000_000_000 + n;
    assert(now@ + 28_800_000_000_000 == day * 86_400_000_000_000 + rest);
    assert(day * day_nanos() == day * 86_400_000_000_000);
    assert((day + 1) * day_nanos() == (day + 1) * 86_400_000_000_000);
    lemma_time_of_day(day, rest);
    assert(beijing_time_of_day(now@) == rest);
    let wait = next_occurrence_delay(now@, today_at * NANOS_PER_SEC);
    assert(0 < wait <= day_nanos());
    assert(delay@ == wait);
    if rest < four_o_clock() {
        assert(now@ + wait + 28_800_000_000_000 == day * 86_400_000_000_000 + four_o_clock());
        lemma_time_of_day(day, four_o_clock());
    } else {
        assert(now@ + wait + 28_800_000_000_000 == (day + 1) * 86_400_000_000_000
            + four_o_clock());
        lemma_time_of_day(day + 1, four_o_clock());
    }
}

proof fn lemma_time_of_day(days: int, rest: int)
    requires
        0 <= rest < day_nanos(),
    ensures
        (days * day_nanos() + rest) % day_nanos() == rest,
{
    vstd::arithmetic::div_mod::lemma_mod_multiples_vanish(days, rest, day_nanos());
}

/// The delay from `now` until the next four o'clock in the morning, Beijing
/// time. It is computed afresh from `now` each time, so nothing adds up
/// from one day to the next.
pub fn next_beijing_4am_delay(now: Timestamp) -> (delay: Option<Delay>)
    ensures
        delay == beijing_4am_delay(now),
{
    match hour_today(now, BEIJING_OFFSET_SECS, DAILY_SYNC_HOUR) {
        Some(today_at) => {
            proof {
                today_at.lemma_view();
            }
            Some(delay_until_next(now, today_at))
        },
        None => None,
    }
}

/// The two triggers of a sync.
#[derive(Clone, Copy, Debug, PartialEq, Eq, Structural)]
pub enum TriggerKind {
    /// One sync, a fixed time after launch.
    Startup,
    /// A sync every day at the fixed time, without end.
    Recurring,
}

/// Where a trigger stands.
#[derive(Clone, Copy, Debug, PartialEq, Eq, Structural)]
pub enum TriggerPhase {
    /// About to work out how long to wait.
    Scheduling,
    /// Told to wait; the sync comes next.
    Waiting,
    /// Nothing more to do.
    Finished,
}

/// A trigger: its kind and where it stands.
#[derive(Clone, Copy, Debug, PartialEq, Eq, Structural)]
pub struct Trigger {
    pub kind: TriggerKind,
    pub phase: TriggerPhase,
}

/// What the runner of a trigger does next.
#[derive(Clone, Copy, Debug, PartialEq, Eq, Structural)]
pub enum TriggerAction {
    /// Wait this long.
    Sleep(Delay),
    /// Run one sync. Whether it fails or not is logged and changes nothing.
    RunSync,
    /// End the trigger.
    Stop,
}

/// How long a trigger waits before its sync, counted from `now`.
pub open spec fn wait_of(kind: TriggerKind, now: Timestamp) -> Option<Delay> {
    match kind {
        TriggerKind::Startup => Some(Delay { secs: STARTUP_SYNC_DELAY_SECS, nanos: 0 }),
        TriggerKind::Recurring => beijing_4am_delay(now),
    }
}

/// The next state and action of a trigger, given the wait that applies. A
/// trigger waits, then syncs. After its sync the startup trigger is
/// finished, and the recurring trigger schedules the next one. A trigger
/// for which there is no wait ends.
pub open spec fn advanced(trigger: Trigger, wait: Option<Delay>) -> (Trigger, TriggerAction) {
    match trigger.phase {
        TriggerPhase::Scheduling => match wait {
            Some(delay) => (
                Trigger { kind: trigger.kind, phase: TriggerPhase::Waiting },
                TriggerAction::Sleep(delay),
            ),
            None => (
                Trigger { kind: trigger.kind, phase: TriggerPhase::Finished },
                TriggerAction::Stop,
            ),
        },
        TriggerPhase::Waiting => match trigger.kind {
            TriggerKind::Startup => (
                Trigger { kind: trigger.kind, phase: TriggerPhase::Finished },
                TriggerAction::RunSync,
            ),
            TriggerKind::Recurring => (
                Trigger { kind: trigger.kind, phase: TriggerPhase::Scheduling },
                TriggerAction::RunSync,
            ),
        },
        TriggerPhase::Finished => (trigger, TriggerAction::Stop),
    }
}

/// A trigger at its beginning.
pub fn new_trigger(kind: TriggerKind) -> (trigger: Trigger)
    ensures
        trigger == (Trigger { kind: kind, phase: TriggerPhase::Scheduling }),
{
    Trigger { kind, phase: TriggerPhase::Scheduling }
}

/// A trigger that was told to end: it does nothing more.
pub fn cancel(trigger: Trigger) -> (ended: Trigger)
    ensures
        ended == (Trigger { kind: trigger.kind, phase: TriggerPhase::Finished }),
        forall|wait: Option<Delay>| #[trigger]
            advanced(ended, wait) == (ended, TriggerAction::Stop),
{
    Trigger { kind: trigger.kind, phase: TriggerPhase::Finished }
}

/// The next state of a trigger and what its runner does next, at `now`.
pub fn advance(trigger: Trigger, now: Timestamp) -> (next: (Trigger, TriggerAction))
    ensures
        next == advanced(trigger, wait_of(trigger.kind, now)),
{
    match trigger.phase {
        TriggerPhase::Scheduling => {
            let wait = match trigger.kind {
                TriggerKind::Startup => Some(Delay { secs: STARTUP_SYNC_DELAY_SECS, nanos: 0 }),
                TriggerKind::Recurring => next_beijing_4am_delay(now),
            };
            match wait {
                Some(delay) => (
                    Trigger { kind: trigger.kind, phase: TriggerPhase::Waiting },
                    TriggerAction::Sleep(delay),
                ),
                None => (
                    Trigger { kind: trigger.kind, phase: TriggerPhase::Finished },
                    TriggerAction::Stop,
                ),
            }
        },
        TriggerPhase::Waiting => match trigger.kind {
            TriggerKind::Startup => (
                Trigger { kind: trigger.kind, phase: TriggerPhase::Finished },
                TriggerAction::RunSync,
            ),
            TriggerKind::Recurring => (
                Trigger { kind: trigger.kind, phase: TriggerPhase::Scheduling },
                TriggerAction::RunSync,
            ),
        },
        TriggerPhase::Finished => (trigger, TriggerAction::Stop),
    }
}

/// The startup trigger waits the fixed delay, runs one sync, and ends.
pub proof fn lemma_startup_runs_once(
    first: Option<Delay>,
    second: Option<Delay>,
    third: Option<Delay>,
)
    requires
        first == Some(Delay { secs: STARTUP_SYNC_DELAY_SECS, nanos: 0 }),
    ensures
        ({
            let start = Trigger { kind: TriggerKind::Startup, phase: TriggerPhase::Scheduling };
            let a = advanced(start, first);
            let b = advanced(a.0, second);
            let c = advanced(b.0, third);
            &&& a.1 == TriggerAction::Sleep(Delay { secs: STARTUP_SYNC_DELAY_SECS, nanos: 0 })
            &&& b.1 == TriggerAction::RunSync
            &&& c.1 == TriggerAction::Stop
            &&& c.0.phase == TriggerPhase::Finished
        }),
{
}

/// The recurring trigger never ends while the calendar gives it a wait:
/// from scheduling it waits, from waiting it syncs and schedules again,
/// whatever became of the sync before.
pub proof fn lemma_recurring_goes_on(trigger: Trigger, wait: Delay)
    requires
        trigger.kind == TriggerKind::Recurring,
        trigger.phase != TriggerPhase::Finished,
    ensures
        advanced(trigger, Some(wait)).0.kind == TriggerKind::Recurring,
        advanced(trigger, Some(wait)).0.phase != TriggerPhase::Finished,
        advanced(trigger, Some(wait)).1 != TriggerAction::Stop,
        trigger.phase == TriggerPhase::Scheduling ==> advanced(trigger, Some(wait)).1
            == TriggerAction::Sleep(wait),
        trigger.phase == TriggerPhase::Waiting ==> advanced(trigger, Some(wait)).1
            == TriggerAction::RunSync && advanced(trigger, Some(wait)).0.phase
            == TriggerPhase::Scheduling,
{
}

/// Whether a setting switches the startup sync on: the texts `true` and
/// `1` do, nothing else does.
pub fn sync_on_start_flag(value: Option<&str>) -> (on: bool)
    ensures
        on == (value matches Some(v) && (v@ == "true"@ || v@ == "1"@)),
{
    match value {
        Some(v) => crate::text::same_text(v, "true") || crate::text::same_text(v, "1"),
        None => false,
    }
}

/// The line for the log when the sync of a trigger failed.
pub fn failure_line(kind: TriggerKind, error: &SyncError) -> (line: String)
    ensures
        line@ == match kind {
            TriggerKind::Startup => "Management startup sync failed: "@,
            TriggerKind::Recurring => "Management sync failed: "@,
        } + error.message@,
{
    let prefix = match kind {
        TriggerKind::Startup => "Management startup sync failed: ",
        TriggerKind::Recurring => "Management sync failed: ",
    };
    prefix.to_owned().concat(error.message.as_str())
}

} // verus!

//! The background scheduler: every tick it decides whether the monitor runs and whether
//! the daily report is due.
use vstd::prelude::*;
use vstd::string::*;
use crate::monitor::opt_text;
use crate::settings::AppSettings;
use crate::text::chars_of;

verus! {

/// Seconds between scheduler ticks.
pub const TICK_SECONDS: u64 = 30;

/// `a < b` in the order of `String`: lexicographic by code point, which is the order of
/// their UTF-8 bytes.
pub open spec fn text_less(a: Seq<char>, b: Seq<char>) -> bool
    decreases a.len(),
{
    if a.len() == 0 {
        b.len() > 0
    } else if b.len() == 0 {
        false
    } else if a[0] != b[0] {
        (a[0] as u32) < (b[0] as u32)
    } else {
        text_less(a.drop_first(), b.drop_first())
    }
}

/// `a >= b` in the order of `String`.
pub fn text_at_least(a: &str, b: &str) -> (r: bool)
    ensures
        r == !text_less(a@, b@),
{
    let x = chars_of(a);
    let y = chars_of(b);
    let mut i: usize = 0;
    assert(x@.skip(0) =~= x@);
    assert(y@.skip(0) =~= y@);
    while i < x.len() && i < y.len() && x[i] == y[i]
        invariant
            i <= x.len(),
            i <= y.len(),
            x@ == a@,
            y@ == b@,
            text_less(a@, b@) == text_less(x@.skip(i as int), y@.skip(i as int)),
        decreases x.len() - i,
    {
        assert(x@.skip(i as int).drop_first() =~= x@.skip(i + 1));
        assert(y@.skip(i as int).drop_first() =~= y@.skip(i + 1));
        i = i + 1;
    }
    if i == x.len() {
        !(i < y.len())
    } else if i == y.len() {
        true
    } else {
        assert(x@.skip(i as int)[0] == x@[i as int]);
        assert(y@.skip(i as int)[0] == y@[i as int]);
        !((x[i] as u32) < (y[i] as u32))
    }
}

/// What the scheduler remembers between ticks.
#[derive(Debug)]
pub struct SchedulerState {
    pub elapsed_seconds: u64,
    pub last_report_attempt_date: Option<String>,
}

pub fn scheduler_start() -> (s: SchedulerState)
    ensures
        s.elapsed_seconds == 0,
        s.last_report_attempt_date is None,
{
    SchedulerState { elapsed_seconds: 0, last_report_attempt_date: None }
}

/// A tick passes: the elapsed time grows by one tick, saturating.
pub fn advance_clock(state: SchedulerState) -> (r: SchedulerState)
    ensures
        r.elapsed_seconds == (if state.elapsed_seconds + TICK_SECONDS > u64::MAX {
            u64::MAX as int
        } else {
            state.elapsed_seconds + TICK_SECONDS
        }),
        r.last_report_attempt_date == state.last_report_attempt_date,
{
    SchedulerState {
        elapsed_seconds: state.elapsed_seconds.saturating_add(TICK_SECONDS),
        last_report_attempt_date: state.last_report_attempt_date,
    }
}

/// The monitoring interval in seconds: the configured minutes (at least one) times sixty,
/// saturating.
pub open spec fn interval_seconds(minutes: u64) -> int {
    let m = if minutes > 1 {
        minutes as int
    } else {
        1
    };
    if m * 60 > u64::MAX {
        u64::MAX as int
    } else {
        m * 60
    }
}

/// What a tick decided.
#[derive(Debug)]
pub struct TickPlan {
    pub run_monitor: bool,
    /// The daily report is due unless one already exists for today; the caller checks.
    pub report_due: bool,
}

pub open spec fn same_date(last: Option<String>, today: Seq<char>) -> bool {
    match last {
        Some(d) => d@ == today,
        None => false,
    }
}

/// Decides a tick. `today` and `clock` are the local date (`%Y-%m-%d`) and time (`%H:%M`).
/// With monitoring on, the monitor runs once the interval has elapsed, which restarts the
/// count; with it off the count stays at zero. The report is due when scheduling is on, the
/// clock has reached the scheduled time and no attempt was made today.
pub fn plan_tick(state: SchedulerState, settings: &AppSettings, today: &str, clock: &str) -> (r: (
    SchedulerState,
    TickPlan,
))
    ensures
        r.1.run_monitor == (settings.monitor_enabled && state.elapsed_seconds >= interval_seconds(
            settings.monitor_interval_minutes,
        )),
        r.0.elapsed_seconds == (if !settings.monitor_enabled || r.1.run_monitor {
            0
        } else {
            state.elapsed_seconds
        }),
        r.0.last_report_attempt_date == state.last_report_attempt_date,
        r.1.report_due == (settings.schedule_enabled && !text_less(clock@, settings@.schedule_time)
            && !same_date(state.last_report_attempt_date, today@)),
{
    let mut elapsed = state.elapsed_seconds;
    let mut run_monitor = false;
    if settings.monitor_enabled {
        let minutes = if settings.monitor_interval_minutes > 1 {
            settings.monitor_interval_minutes
        } else {
            1
        };
        let interval: u64 = if minutes > u64::MAX / 60 {
            u64::MAX
        } else {
            minutes * 60
        };
        if elapsed >= interval {
            elapsed = 0;
            run_monitor = true;
        }
    } else {
        elapsed = 0;
    }
    let report_due = settings.schedule_enabled && text_at_least(clock, settings.schedule_time.as_str())
        && match &state.last_report_attempt_date {
        Some(d) => !(d.as_str().to_owned() == today.to_owned()),
        None => true,
    };
    (
        SchedulerState { elapsed_seconds: elapsed, last_report_attempt_date: state.last_report_attempt_date },
        TickPlan { run_monitor, report_due },
    )
}

/// Remembers that today's report was attempted, so that it is attempted at most once a
/// day whatever its outcome.
pub fn record_report_attempt(state: SchedulerState, today: &str) -> (r: SchedulerState)
    ensures
        r.elapsed_seconds == state.elapsed_seconds,
        r.last_report_attempt_date matches Some(d) && d@ == today@,
{
    SchedulerState { elapsed_seconds: state.elapsed_seconds, last_report_attempt_date: Some(today.to_owned()) }
}

/// Once today's report has been attempted, no later tick of the same day finds it due.
pub proof fn law_one_report_attempt_per_day(last: Option<String>, today: Seq<char>, schedule_enabled: bool, after_time: bool)
    requires
        last matches Some(d) && d@ == today,
    ensures
        !(schedule_enabled && after_time && !same_date(last, today)),
{
}

/// The monitor never runs more often than the interval allows: a run needs the elapsed
/// time to have reached it, and resets the count.
pub proof fn law_monitor_waits_for_interval(minutes: u64, elapsed: u64)
    requires
        elapsed < interval_seconds(minutes),
    ensures
        interval_seconds(minutes) >= 60,
        !(elapsed >= interval_seconds(minutes)),
{
}

/// The report attempts over a day's ticks, starting from the date of the last attempt.
/// Each tick gives whether scheduling is on and the scheduled time has come (`.0`) and
/// whether a report for today already exists (`.1`); a tick attempts the report when it is
/// due (see `plan_tick`) and none exists, and the attempt is then remembered (see
/// `record_report_attempt`).
pub open spec fn day_attempts(last: Option<Seq<char>>, today: Seq<char>, ticks: Seq<(bool, bool)>) -> nat
    decreases ticks.len(),
{
    if ticks.len() == 0 {
        0
    } else {
        let attempt = ticks[0].0 && last != Some(today) && !ticks[0].1;
        (if attempt {
            1nat
        } else {
            0nat
        }) + day_attempts(
            if attempt {
                Some(today)
            } else {
                last
            },
            today,
            ticks.drop_first(),
        )
    }
}

proof fn lemma_no_attempt_after_attempt(today: Seq<char>, ticks: Seq<(bool, bool)>)
    ensures
        day_attempts(Some(today), today, ticks) == 0,
    decreases ticks.len(),
{
    if ticks.len() > 0 {
        lemma_no_attempt_after_attempt(today, ticks.drop_first());
    }
}

/// Over any run of ticks on the same day, the daily report is attempted at most once.
pub proof fn law_at_most_one_report_per_day(last: Option<Seq<char>>, today: Seq<char>, ticks: Seq<(bool, bool)>)
    ensures
        day_attempts(last, today, ticks) <= 1,
    decreases ticks.len(),
{
    if ticks.len() > 0 {
        let attempt = ticks[0].0 && last != Some(today) && !ticks[0].1;
        if attempt {
            lemma_no_attempt_after_attempt(today, ticks.drop_first());
        } else {
            law_at_most_one_report_per_day(last, today, ticks.drop_first());
        }
    }
}

/// A tick's report decision as `plan_tick` makes it (due and no report exists for today)
/// is the step of `day_attempts` from the date remembered in the state; an attempt
/// remembered by `record_report_attempt` is that step's new date.
pub proof fn law_ticks_follow_day_model(last: Option<String>, remembered: Option<String>, today: Seq<char>, ready: bool, exists: bool)
    requires
        remembered matches Some(d) && d@ == today,
    ensures
        (ready && !same_date(last, today) && !exists) == (ready && opt_text(last) != Some(today)
            && !exists),
        opt_text(remembered) == Some(today),
{
}

/// A day's ticks as the scheduler runs them: before tick `k` the remembered date is
/// `lasts[k]`; the tick attempts the report (`attempts[k]`) when scheduling is on and the
/// time has come (`ready[k]`), no attempt is remembered for today and no report exists for
/// today (`exists[k]`); an attempt is remembered as today's (see `plan_tick`,
/// `record_report_attempt` and `law_ticks_follow_day_model`).
pub open spec fn report_ticks(
    today: Seq<char>,
    ready: Seq<bool>,
    exists: Seq<bool>,
    lasts: Seq<Option<Seq<char>>>,
    attempts: Seq<bool>,
) -> bool {
    &&& exists.len() == ready.len()
    &&& attempts.len() == ready.len()
    &&& lasts.len() == ready.len() + 1
    &&& forall|k: int| 0 <= k < ready.len() ==> #[trigger] attempts[k] == (ready[k] && lasts[k] != Some(
        today,
    ) && !exists[k])
    &&& forall|k: int| 0 <= k < ready.len() ==> #[trigger] lasts[k + 1] == if attempts[k] {
        Some(today)
    } else {
        lasts[k]
    }
}

proof fn lemma_attempt_is_remembered(
    today: Seq<char>,
    ready: Seq<bool>,
    exists: Seq<bool>,
    lasts: Seq<Option<Seq<char>>>,
    attempts: Seq<bool>,
    i: int,
    k: int,
)
    requires
        report_ticks(today, ready, exists, lasts, attempts),
        0 <= i < ready.len(),
        attempts[i],
        i < k <= ready.len(),
    ensures
        lasts[k] == Some(today),
    decreases k - i,
{
    if k > i + 1 {
        lemma_attempt_is_remembered(today, ready, exists, lasts, attempts, i, k - 1);
        assert(lasts[(k - 1) + 1] == if attempts[k - 1] {
            Some(today)
        } else {
            lasts[k - 1]
        });
    } else {
        assert(lasts[i + 1] == if attempts[i] {
            Some(today)
        } else {
            lasts[i]
        });
    }
}

/// Over any sequence of ticks on one day, the report is attempted at most once: no two
/// ticks both attempt it.
pub proof fn law_one_attempt_over_ticks(
    today: Seq<char>,
    ready: Seq<bool>,
    exists: Seq<bool>,
    lasts: Seq<Option<Seq<char>>>,
    attempts: Seq<bool>,
    i: int,
    j: int,
)
    requires
        report_ticks(today, ready, exists, lasts, attempts),
        0 <= i < j < ready.len(),
    ensures
        !(attempts[i] && attempts[j]),
{
    if attempts[i] {
        lemma_attempt_is_remembered(today, ready, exists, lasts, attempts, i, j);
        assert(attempts[j] == (ready[j] && lasts[j] != Some(today) && !exists[j]));
    }
}

/// `a + b`, saturating at `u64::MAX`.
pub open spec fn saturating(a: int, b: int) -> int {
    if a + b > u64::MAX {
        u64::MAX as int
    } else {
        a + b
    }
}

/// Ticks as the scheduler runs them for monitoring: `elapsed[k]` is the count kept before
/// tick `k`; the tick advances it by one tick (`advance_clock`), then runs the monitor
/// (`runs[k]`) when monitoring is on (`enabled[k]`) and the count has reached the
/// interval for `minutes[k]`; a run, or monitoring off, restarts the count (`plan_tick`).
pub open spec fn monitor_ticks(enabled: Seq<bool>, minutes: Seq<u64>, elapsed: Seq<int>, runs: Seq<bool>) -> bool {
    &&& minutes.len() == enabled.len()
    &&& runs.len() == enabled.len()
    &&& elapsed.len() == enabled.len() + 1
    &&& elapsed[0] == 0
    &&& forall|k: int| 0 <= k < enabled.len() ==> #[trigger] runs[k] == (enabled[k] && saturating(
        elapsed[k],
        TICK_SECONDS as int,
    ) >= interval_seconds(minutes[k]))
    &&& forall|k: int| 0 <= k < enabled.len() ==> #[trigger] elapsed[k + 1] == if !enabled[k] || runs[k] {
        0
    } else {
        saturating(elapsed[k], TICK_SECONDS as int)
    }
}

/// How many ticks in a row before tick `k` had monitoring on without running it.
pub open spec fn quiet_ticks(enabled: Seq<bool>, runs: Seq<bool>, k: int) -> nat
    decreases k,
{
    if k <= 0 {
        0
    } else if !enabled[k - 1] || runs[k - 1] {
        0
    } else {
        quiet_ticks(enabled, runs, k - 1) + 1
    }
}

proof fn lemma_elapsed_counts_quiet_ticks(enabled: Seq<bool>, minutes: Seq<u64>, elapsed: Seq<int>, runs: Seq<bool>, k: int)
    requires
        monitor_ticks(enabled, minutes, elapsed, runs),
        0 <= k <= enabled.len(),
    ensures
        elapsed[k] == if quiet_ticks(enabled, runs, k) * TICK_SECONDS > u64::MAX {
            u64::MAX as int
        } else {
            quiet_ticks(enabled, runs, k) * TICK_SECONDS
        },
    decreases k,
{
    if k > 0 {
        lemma_elapsed_counts_quiet_ticks(enabled, minutes, elapsed, runs, k - 1);
        assert(elapsed[(k - 1) + 1] == if !enabled[k - 1] || runs[k - 1] {
            0
        } else {
            saturating(elapsed[k - 1], TICK_SECONDS as int)
        });
    }
}

/// Over any sequence of ticks, the monitor runs only after monitoring has been on, without
/// a run, for ticks adding up to at least the interval (this tick included).
pub proof fn law_monitor_runs_after_interval(enabled: Seq<bool>, minutes: Seq<u64>, elapsed: Seq<int>, runs: Seq<bool>, k: int)
    requires
        monitor_ticks(enabled, minutes, elapsed, runs),
        0 <= k < enabled.len(),
        runs[k],
    ensures
        enabled[k],
        (quiet_ticks(enabled, runs, k) + 1) * TICK_SECONDS >= interval_seconds(minutes[k]),
{
    lemma_elapsed_counts_quiet_ticks(enabled, minutes, elapsed, runs, k);
    assert(runs[k] == (enabled[k] && saturating(elapsed[k], TICK_SECONDS as int) >= interval_seconds(
        minutes[k],
    )));
}

/// The monitoring interval is the configured number of minutes in seconds, a zero
/// setting counting as one minute: one minute is 60 s, and each further minute adds 60 s
/// (until the count would no longer fit in 64 bits).
pub proof fn law_interval_is_minutes(minutes: u64)
    ensures
        interval_seconds(0) == 60,
        interval_seconds(1) == 60,
        1 <= minutes && (minutes + 1) * 60 <= u64::MAX ==> interval_seconds((minutes + 1) as u64)
            == interval_seconds(minutes) + 60,
        minutes * 60 <= u64::MAX ==> interval_seconds(minutes) >= minutes * 60,
{
}

/// A tick runs the monitor exactly when monitoring is on and at least the configured
/// minutes (one, for zero) have passed since the count restarted: for an interval of `m`
/// minutes that fits in 64 bits, a tick at `elapsed` seconds runs it if and only if
/// `elapsed >= m * 60`.
pub proof fn law_tick_runs_after_minutes(minutes: u64, elapsed: u64)
    requires
        minutes >= 1,
        minutes * 60 <= u64::MAX,
    ensures
        (elapsed >= interval_seconds(minutes)) <==> (elapsed >= minutes * 60),
{
}

} // verus!

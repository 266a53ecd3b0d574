//! Alert rules and the per-rule alert state machine.
use vstd::prelude::*;
use vstd::string::*;
use crate::text::{int_text, i128_text};

verus! {

/// How a reading is compared with a rule's threshold.
#[derive(Clone, Copy, PartialEq, Eq, Structural, Debug)]
pub enum Comparison {
    GreaterThan,
    GreaterOrEqual,
    LessThan,
    LessOrEqual,
    Equal,
}

impl Comparison {
    /// Whether several readings of one instance are combined by their minimum (for a
    /// lower bound) rather than their maximum.
    pub fn prefers_lowest(self) -> (r: bool)
        ensures
            r == (self == Comparison::LessThan || self == Comparison::LessOrEqual),
    {
        match self {
            Comparison::LessThan | Comparison::LessOrEqual => true,
            _ => false,
        }
    }
}

/// An alert rule. `threshold` is the threshold's decimal literal; comparing a reading
/// with it is the caller's floating-point work.
#[derive(Debug)]
pub struct AlertRule {
    pub id: String,
    pub name: String,
    pub expr: String,
    pub operator: Comparison,
    pub threshold: String,
    pub for_checks: u32,
    pub severity: String,
    pub unit: String,
}

/// The consecutive checks a rule needs when none is configured.
pub fn default_for() -> (r: u32)
    ensures
        r == 1,
{
    1
}

/// The severity a rule has when none is configured.
pub fn default_severity() -> (r: String)
    ensures
        r@ == "warning"@,
{
    String::from_str("warning")
}

/// What is remembered of a rule between checks.
#[derive(Debug)]
pub struct AlertState {
    pub rule_id: String,
    pub consecutive_failures: u32,
    pub active: bool,
    pub last_notified_at: Option<String>,
}

pub struct StateView {
    pub rule_id: Seq<char>,
    pub consecutive_failures: u32,
    pub active: bool,
    pub last_notified_at: Option<Seq<char>>,
}

pub open spec fn opt_text(t: Option<String>) -> Option<Seq<char>> {
    match t {
        Some(s) => Some(s@),
        None => None,
    }
}

impl View for AlertState {
    type V = StateView;

    open spec fn view(&self) -> StateView {
        StateView {
            rule_id: self.rule_id@,
            consecutive_failures: self.consecutive_failures,
            active: self.active,
            last_notified_at: opt_text(self.last_notified_at),
        }
    }
}

/// An instant as the clock gave it: seconds since the Unix epoch, the nanoseconds past
/// them, and its RFC 3339 text in local time.
#[derive(Debug)]
pub struct Moment {
    pub secs: i64,
    pub nanos: u32,
    pub rfc3339: String,
}

/// The instant an RFC 3339 timestamp denotes: whole seconds since the Unix epoch and the
/// nanoseconds past them; `None` when the text is not RFC 3339.
pub uninterp spec fn rfc3339_instant(raw: Seq<char>) -> Option<(i64, u32)>;

/// `chrono::DateTime::parse_from_rfc3339`, reduced to the instant it denotes
/// (`timestamp`, `timestamp_subsec_nanos`). The contract names the result only.
#[verifier::external_body]
fn parse_rfc3339(raw: &str) -> (r: Option<(i64, u32)>)
    ensures
        r == rfc3339_instant(raw@),
{
    match chrono::DateTime::parse_from_rfc3339(raw) {
        Ok(t) => Some((t.timestamp(), t.timestamp_subsec_nanos())),
        Err(_) => None,
    }
}

/// A moment whose text reads back as the moment itself.
pub open spec fn reads_back(m: Moment) -> bool {
    rfc3339_instant(m.rfc3339@) == Some((m.secs, m.nanos))
}

/// The moment an RFC 3339 text (as the clock writes it) denotes, carrying that text;
/// `None` when the text is not RFC 3339.
pub fn moment_of(rfc3339: String) -> (r: Option<Moment>)
    ensures
        r is Some <==> rfc3339_instant(rfc3339@) is Some,
        r matches Some(m) ==> m.rfc3339@ == rfc3339@ && reads_back(m),
{
    match parse_rfc3339(rfc3339.as_str()) {
        Some((secs, nanos)) => Some(Moment { secs, nanos, rfc3339 }),
        None => None,
    }
}

pub open spec fn nanos_since_epoch(secs: i64, nanos: u32) -> int {
    secs * 1_000_000_000 + nanos
}

/// Integer division rounding toward zero, as Rust's `/` does.
pub open spec fn div_toward_zero(a: int, b: int) -> int
    recommends
        b > 0,
{
    if a >= 0 {
        a / b
    } else {
        -((-a) / b)
    }
}

/// Whole minutes from `(secs, nanos)` to `now`, truncated toward zero as
/// `TimeDelta::num_minutes` does (whole seconds first, then minutes).
pub open spec fn minutes_between(now: Moment, secs: i64, nanos: u32) -> int {
    div_toward_zero(
        div_toward_zero(
            nanos_since_epoch(now.secs, now.nanos) - nanos_since_epoch(secs, nanos),
            1_000_000_000,
        ),
        60,
    )
}

/// Whether the cooldown since the last notification has run out. A missing or unreadable
/// timestamp counts as run out.
pub open spec fn cooldown_elapsed(last: Option<Seq<char>>, now: Moment, cooldown_minutes: i64) -> bool {
    match last {
        None => true,
        Some(raw) => match rfc3339_instant(raw) {
            None => true,
            Some(instant) => minutes_between(now, instant.0, instant.1) >= cooldown_minutes,
        },
    }
}

fn div_toward_zero_i128(a: i128, b: i128) -> (r: i128)
    requires
        b > 0,
        a > i128::MIN,
    ensures
        r == div_toward_zero(a as int, b as int),
{
    if a >= 0 {
        a / b
    } else {
        -((-a) / b)
    }
}

fn elapsed_minutes(now: &Moment, secs: i64, nanos: u32) -> (r: i128)
    ensures
        r == minutes_between(*now, secs, nanos),
{
    let d: i128 = (now.secs as i128) * 1_000_000_000 + (now.nanos as i128) - ((secs as i128)
        * 1_000_000_000 + (nanos as i128));
    let whole_seconds = div_toward_zero_i128(d, 1_000_000_000);
    div_toward_zero_i128(whole_seconds, 60)
}

fn cooldown_over(last: &Option<String>, now: &Moment, cooldown_minutes: i64) -> (r: bool)
    ensures
        r == cooldown_elapsed(opt_text(*last), *now, cooldown_minutes),
{
    match last {
        None => true,
        Some(raw) => match parse_rfc3339(raw.as_str()) {
            None => true,
            Some((secs, nanos)) => elapsed_minutes(now, secs, nanos) >= cooldown_minutes as i128,
        },
    }
}

/// What a check of a rule reports.
#[derive(Clone, Copy, PartialEq, Eq, Structural, Debug)]
pub enum EventKind {
    Firing,
    Resolved,
}

/// The state a rule starts from before its first check.
pub open spec fn fresh_state(rule: AlertRule) -> StateView {
    StateView { rule_id: rule.id@, consecutive_failures: 0, active: false, last_notified_at: None }
}

pub open spec fn effective_for(rule: AlertRule) -> u32 {
    if rule.for_checks > 1 {
        rule.for_checks
    } else {
        1
    }
}

/// The state after one check and what, if anything, the check reports. A breach counts
/// toward `for_checks` consecutive breaches (at least one) before the rule turns active;
/// an active rule reports again only once the cooldown has run out; a rule that stops
/// breaching resets its count and, if it was active, reports recovery.
pub open spec fn step(
    rule: AlertRule,
    breached: bool,
    prior: StateView,
    cooldown_minutes: i64,
    now: Moment,
) -> (StateView, Option<EventKind>) {
    if breached {
        let failures: u32 = if prior.consecutive_failures == u32::MAX {
            u32::MAX
        } else {
            (prior.consecutive_failures + 1) as u32
        };
        if failures >= effective_for(rule) {
            let notify = !prior.active || cooldown_elapsed(
                prior.last_notified_at,
                now,
                cooldown_minutes,
            );
            (
                StateView {
                    rule_id: prior.rule_id,
                    consecutive_failures: failures,
                    active: true,
                    last_notified_at: if notify {
                        Some(now.rfc3339@)
                    } else {
                        prior.last_notified_at
                    },
                },
                if notify {
                    Some(EventKind::Firing)
                } else {
                    None
                },
            )
        } else {
            (StateView { consecutive_failures: failures, ..prior }, None)
        }
    } else {
        (
            StateView {
                rule_id: prior.rule_id,
                consecutive_failures: 0,
                active: false,
                last_notified_at: if prior.active {
                    Some(now.rfc3339@)
                } else {
                    prior.last_notified_at
                },
            },
            if prior.active {
                Some(EventKind::Resolved)
            } else {
                None
            },
        )
    }
}

pub open spec fn prior_of(rule: AlertRule, state: Option<AlertState>) -> StateView {
    match state {
        Some(s) => s@,
        None => fresh_state(rule),
    }
}

/// An alert notice: who reports what and when. The reading, the threshold and the
/// message formatted from them go with it.
#[derive(Debug)]
pub struct AlertEvent {
    pub id: String,
    pub rule_id: String,
    pub rule_name: String,
    pub severity: String,
    pub kind: String,
    pub unit: String,
    pub created_at: String,
}

/// `timestamp_millis` of an instant.
pub open spec fn millis_of(now: Moment) -> int {
    now.secs * 1000 + now.nanos / 1_000_000
}

pub open spec fn kind_text(kind: EventKind) -> Seq<char> {
    match kind {
        EventKind::Firing => "firing"@,
        EventKind::Resolved => "resolved"@,
    }
}

/// The notice a check reports: its id is the rule's id, `-` and the instant in
/// milliseconds; a recovery is of severity `info`, a firing has the rule's severity.
pub open spec fn event_matches(e: AlertEvent, rule: AlertRule, kind: EventKind, now: Moment) -> bool {
    &&& e.id@ == rule.id@ + "-"@ + int_text(millis_of(now))
    &&& e.rule_id@ == rule.id@
    &&& e.rule_name@ == rule.name@
    &&& e.severity@ == (if kind == EventKind::Resolved {
        "info"@
    } else {
        rule.severity@
    })
    &&& e.kind@ == kind_text(kind)
    &&& e.unit@ == rule.unit@
    &&& e.created_at@ == now.rfc3339@
}

/// `now` in milliseconds since the Unix epoch.
pub fn instant_millis(now: &Moment) -> (r: i128)
    ensures
        r == millis_of(*now),
{
    (now.secs as i128) * 1000 + (now.nanos / 1_000_000) as i128
}

/// The notice for `kind` reported by `rule` at `now`.
pub fn make_event(rule: &AlertRule, kind: EventKind, now: &Moment) -> (e: AlertEvent)
    ensures
        event_matches(e, *rule, kind, *now),
{
    let millis = instant_millis(now);
    let id = rule.id.clone().concat("-").concat(i128_text(millis).as_str());
    proof {
        reveal_strlit("-");
    }
    let severity = match kind {
        EventKind::Resolved => String::from_str("info"),
        EventKind::Firing => rule.severity.clone(),
    };
    let kind_name = match kind {
        EventKind::Firing => String::from_str("firing"),
        EventKind::Resolved => String::from_str("resolved"),
    };
    AlertEvent {
        id,
        rule_id: rule.id.clone(),
        rule_name: rule.name.clone(),
        severity,
        kind: kind_name,
        unit: rule.unit.clone(),
        created_at: now.rfc3339.clone(),
    }
}

/// One check of `rule`: `breached` is whether the reading broke the threshold, `state`
/// what was remembered of the rule. Returns the new state and the notice to send, if any.
pub fn evaluate(
    rule: &AlertRule,
    breached: bool,
    state: Option<AlertState>,
    cooldown_minutes: i64,
    now: &Moment,
) -> (r: (AlertState, Option<AlertEvent>))
    ensures
        r.0@ == step(*rule, breached, prior_of(*rule, state), cooldown_minutes, *now).0,
        r.1 is Some <==> step(*rule, breached, prior_of(*rule, state), cooldown_minutes, *now).1 is Some,
        r.1 matches Some(e) ==> event_matches(
            e,
            *rule,
            step(*rule, breached, prior_of(*rule, state), cooldown_minutes, *now).1.unwrap(),
            *now,
        ),
{
    let ghost prior = prior_of(*rule, state);
    let mut state = match state {
        Some(s) => s,
        None => AlertState {
            rule_id: rule.id.clone(),
            consecutive_failures: 0,
            active: false,
            last_notified_at: None,
        },
    };
    assert(state@ == prior);
    let mut event: Option<AlertEvent> = None;
    if breached {
        state.consecutive_failures = if state.consecutive_failures == u32::MAX {
            u32::MAX
        } else {
            state.consecutive_failures + 1
        };
        let needed = if rule.for_checks > 1 {
            rule.for_checks
        } else {
            1
        };
        if state.consecutive_failures >= needed {
            let elapsed = cooldown_over(&state.last_notified_at, now, cooldown_minutes);
            if !state.active || elapsed {
                event = Some(make_event(rule, EventKind::Firing, now));
                state.last_notified_at = Some(now.rfc3339.clone());
            }
            state.active = true;
        }
    } else {
        state.consecutive_failures = 0;
        if state.active {
            event = Some(make_event(rule, EventKind::Resolved, now));
            state.last_notified_at = Some(now.rfc3339.clone());
        }
        state.active = false;
    }
    (state, event)
}

/// A rule stays quiet until it has breached on `for_checks` consecutive checks (at least
/// one): a breach that does not complete the run reports nothing and leaves the rule as
/// active as it was.
pub proof fn law_breaches_below_for_checks_stay_quiet(
    rule: AlertRule,
    prior: StateView,
    cooldown_minutes: i64,
    now: Moment,
)
    requires
        prior.consecutive_failures + 1 < effective_for(rule),
    ensures
        step(rule, true, prior, cooldown_minutes, now).1 is None,
        step(rule, true, prior, cooldown_minutes, now).0.active == prior.active,
        step(rule, true, prior, cooldown_minutes, now).0.consecutive_failures
            == prior.consecutive_failures + 1,
{
}

/// The breach that completes the run of `for_checks` consecutive breaches on an inactive
/// rule reports `firing` and makes the rule active, with `now` as its last notification.
pub proof fn law_completed_run_fires(rule: AlertRule, prior: StateView, cooldown_minutes: i64, now: Moment)
    requires
        !prior.active,
        prior.consecutive_failures + 1 >= effective_for(rule),
    ensures
        step(rule, true, prior, cooldown_minutes, now).1 == Some(EventKind::Firing),
        step(rule, true, prior, cooldown_minutes, now).0.active,
        step(rule, true, prior, cooldown_minutes, now).0.last_notified_at == Some(now.rfc3339@),
{
}

/// While a rule stays active, a further breach reports again only once the cooldown since
/// the last notification has run out.
pub proof fn law_active_rule_repeats_only_after_cooldown(
    rule: AlertRule,
    prior: StateView,
    cooldown_minutes: i64,
    now: Moment,
)
    requires
        prior.active,
        prior.consecutive_failures >= effective_for(rule),
    ensures
        step(rule, true, prior, cooldown_minutes, now).1 is Some <==> cooldown_elapsed(
            prior.last_notified_at,
            now,
            cooldown_minutes,
        ),
        step(rule, true, prior, cooldown_minutes, now).0.active,
{
}

/// A check without breach resets the count of consecutive breaches and deactivates the
/// rule; it reports `resolved` exactly when the rule was active.
pub proof fn law_recovery_is_reported_once(
    rule: AlertRule,
    prior: StateView,
    cooldown_minutes: i64,
    now: Moment,
)
    ensures
        step(rule, false, prior, cooldown_minutes, now).0.consecutive_failures == 0,
        !step(rule, false, prior, cooldown_minutes, now).0.active,
        prior.active ==> step(rule, false, prior, cooldown_minutes, now).1 == Some(
            EventKind::Resolved,
        ),
        !prior.active ==> step(rule, false, prior, cooldown_minutes, now).1 is None,
        !prior.active ==> step(rule, false, prior, cooldown_minutes, now).0.last_notified_at
            == prior.last_notified_at,
{
}

/// An active rule has breached on at least `for_checks` consecutive checks: true of the
/// fresh state and kept by every check. Checks never change which rule a state is for.
pub proof fn law_active_means_enough_breaches(
    rule: AlertRule,
    prior: StateView,
    breached: bool,
    cooldown_minutes: i64,
    now: Moment,
)
    requires
        prior.active ==> prior.consecutive_failures >= effective_for(rule),
    ensures
        !fresh_state(rule).active,
        step(rule, breached, prior, cooldown_minutes, now).0.active ==> step(
            rule,
            breached,
            prior,
            cooldown_minutes,
            now,
        ).0.consecutive_failures >= effective_for(rule),
        step(rule, breached, prior, cooldown_minutes, now).0.rule_id == prior.rule_id,
{
}

/// Every report is remembered: when a check reports, the new state's last notification
/// is `now`; when it does not, the last notification is unchanged.
pub proof fn law_reports_are_remembered(
    rule: AlertRule,
    prior: StateView,
    breached: bool,
    cooldown_minutes: i64,
    now: Moment,
)
    ensures
        step(rule, breached, prior, cooldown_minutes, now).1 is Some ==> step(
            rule,
            breached,
            prior,
            cooldown_minutes,
            now,
        ).0.last_notified_at == Some(now.rfc3339@),
        step(rule, breached, prior, cooldown_minutes, now).1 is None ==> step(
            rule,
            breached,
            prior,
            cooldown_minutes,
            now,
        ).0.last_notified_at == prior.last_notified_at,
{
}

/// While a rule stays active, a breach within the cooldown after its notification at `t`
/// reports nothing and keeps `t` as the last notification, for a moment `t` whose text
/// reads back as itself (as every moment made by `moment_of` does).
pub proof fn law_quiet_within_cooldown(
    rule: AlertRule,
    prior: StateView,
    t: Moment,
    cooldown_minutes: i64,
    now: Moment,
)
    requires
        prior.active,
        prior.last_notified_at == Some(t.rfc3339@),
        reads_back(t),
        minutes_between(now, t.secs, t.nanos) < cooldown_minutes,
    ensures
        step(rule, true, prior, cooldown_minutes, now).1 is None,
        step(rule, true, prior, cooldown_minutes, now).0.active,
        step(rule, true, prior, cooldown_minutes, now).0.last_notified_at == Some(t.rfc3339@),
{
}

/// Re-checking an active rule at the very instant it was notified, with a positive
/// cooldown, reports nothing.
pub proof fn law_recheck_at_notification_is_quiet(
    rule: AlertRule,
    prior: StateView,
    t: Moment,
    cooldown_minutes: i64,
)
    requires
        prior.active,
        prior.last_notified_at == Some(t.rfc3339@),
        reads_back(t),
        cooldown_minutes > 0,
    ensures
        step(rule, true, prior, cooldown_minutes, t).1 is None,
        step(rule, true, prior, cooldown_minutes, t).0.last_notified_at == Some(t.rfc3339@),
{
    assert(minutes_between(t, t.secs, t.nanos) == 0);
    law_quiet_within_cooldown(rule, prior, t, cooldown_minutes, t);
}

/// One check of a rule: whether the reading breached, the cooldown, and the instant.
pub struct Check {
    pub breached: bool,
    pub cooldown_minutes: i64,
    pub now: Moment,
}

/// A rule's state after a sequence of checks from the fresh state, and what each check
/// reported, in order.
pub open spec fn run_checks(rule: AlertRule, checks: Seq<Check>) -> (StateView, Seq<Option<EventKind>>)
    decreases checks.len(),
{
    if checks.len() == 0 {
        (fresh_state(rule), seq![])
    } else {
        let before = run_checks(rule, checks.drop_last());
        let c = checks.last();
        let after = step(rule, c.breached, before.0, c.cooldown_minutes, c.now);
        (after.0, before.1.push(after.1))
    }
}

/// The latest report in a sequence of reports, if any.
pub open spec fn last_report(reports: Seq<Option<EventKind>>) -> Option<EventKind>
    decreases reports.len(),
{
    if reports.len() == 0 {
        None
    } else if reports.last() is Some {
        reports.last()
    } else {
        last_report(reports.drop_last())
    }
}

/// A rule is active after a sequence of checks exactly when its latest report was
/// `firing`.
pub proof fn lemma_active_iff_last_firing(rule: AlertRule, checks: Seq<Check>)
    ensures
        run_checks(rule, checks).0.active <==> last_report(run_checks(rule, checks).1) == Some(
            EventKind::Firing,
        ),
    decreases checks.len(),
{
    if checks.len() > 0 {
        lemma_active_iff_last_firing(rule, checks.drop_last());
        let before = run_checks(rule, checks.drop_last());
        let reports = run_checks(rule, checks).1;
        assert(reports.drop_last() =~= before.1);
    }
}

/// Over any sequence of checks from the fresh state: a check reports `resolved` only when
/// the latest earlier report was `firing`, so every recovery follows a firing with no
/// other recovery between; and a check that makes the rule active reports `firing`.
pub proof fn law_resolved_follows_firing(rule: AlertRule, checks: Seq<Check>)
    requires
        checks.len() > 0,
    ensures
        run_checks(rule, checks).1.last() == Some(EventKind::Resolved) ==> last_report(
            run_checks(rule, checks.drop_last()).1,
        ) == Some(EventKind::Firing),
        !run_checks(rule, checks.drop_last()).0.active && run_checks(rule, checks).0.active
            ==> run_checks(rule, checks).1.last() == Some(EventKind::Firing),
{
    lemma_active_iff_last_firing(rule, checks.drop_last());
}

/// How many of the last checks in a row breached.
pub open spec fn trailing_breaches(checks: Seq<Check>) -> nat
    decreases checks.len(),
{
    if checks.len() == 0 || !checks.last().breached {
        0
    } else {
        1 + trailing_breaches(checks.drop_last())
    }
}

/// Over any sequence of checks from the fresh state, the count of consecutive breaches is
/// the number of last checks in a row that breached (saturating), and an active rule has
/// breached on at least `for_checks` (at least one) of its last checks in a row.
pub proof fn lemma_count_is_trailing_breaches(rule: AlertRule, checks: Seq<Check>)
    ensures
        run_checks(rule, checks).0.consecutive_failures == (if trailing_breaches(checks) > u32::MAX {
            u32::MAX as nat
        } else {
            trailing_breaches(checks)
        }),
        run_checks(rule, checks).0.active ==> run_checks(rule, checks).0.consecutive_failures
            >= effective_for(rule),
    decreases checks.len(),
{
    if checks.len() > 0 {
        lemma_count_is_trailing_breaches(rule, checks.drop_last());
    }
}

/// Over any sequence of checks from the fresh state, a check reports `firing` only after
/// at least `for_checks` (at least one) consecutive breaches, that check included.
pub proof fn law_firing_needs_enough_breaches(rule: AlertRule, checks: Seq<Check>)
    requires
        checks.len() > 0,
        run_checks(rule, checks).1.last() == Some(EventKind::Firing),
    ensures
        trailing_breaches(checks) >= effective_for(rule),
{
    lemma_count_is_trailing_breaches(rule, checks);
    lemma_count_is_trailing_breaches(rule, checks.drop_last());
}

/// States and reports of a chain of checks from the fresh state, each state made from the
/// one before by one check (as `evaluate` makes them: its new state is the `step` of the
/// prior one, and it reports exactly the `step`'s report).
pub open spec fn chained(rule: AlertRule, checks: Seq<Check>, states: Seq<StateView>, reports: Seq<Option<EventKind>>) -> bool {
    &&& states.len() == checks.len() + 1
    &&& reports.len() == checks.len()
    &&& states[0] == fresh_state(rule)
    &&& forall|k: int| 0 <= k < checks.len() ==> #[trigger] states[k + 1] == step(
        rule,
        checks[k].breached,
        states[k],
        checks[k].cooldown_minutes,
        checks[k].now,
    ).0 && reports[k] == step(
        rule,
        checks[k].breached,
        states[k],
        checks[k].cooldown_minutes,
        checks[k].now,
    ).1
}

proof fn lemma_chain_is_run(rule: AlertRule, checks: Seq<Check>, states: Seq<StateView>, reports: Seq<Option<EventKind>>, k: int)
    requires
        chained(rule, checks, states, reports),
        0 <= k <= checks.len(),
    ensures
        states[k] == run_checks(rule, checks.take(k)).0,
        reports.take(k) == run_checks(rule, checks.take(k)).1,
    decreases k,
{
    if k == 0 {
        assert(reports.take(0) =~= Seq::<Option<EventKind>>::empty());
    } else {
        lemma_chain_is_run(rule, checks, states, reports, k - 1);
        assert(checks.take(k).drop_last() =~= checks.take(k - 1));
        assert(checks.take(k).last() == checks[k - 1]);
        assert(states[(k - 1) + 1] == step(
            rule,
            checks[k - 1].breached,
            states[k - 1],
            checks[k - 1].cooldown_minutes,
            checks[k - 1].now,
        ).0);
        assert(reports.take(k) =~= reports.take(k - 1).push(reports[k - 1]));
    }
}

/// Over any chain of checks from the fresh state (any readings, cooldowns and instants):
/// a recovery is reported only when the latest earlier report was a firing, so it follows a
/// firing with no recovery between; a check that makes the rule active reports a firing;
/// and a firing comes only after at least `for_checks` (at least one) consecutive
/// breaches, that check included.
pub proof fn law_chain_of_checks(
    rule: AlertRule,
    checks: Seq<Check>,
    states: Seq<StateView>,
    reports: Seq<Option<EventKind>>,
    k: int,
)
    requires
        chained(rule, checks, states, reports),
        0 <= k < checks.len(),
    ensures
        reports[k] == Some(EventKind::Resolved) ==> last_report(reports.take(k)) == Some(
            EventKind::Firing,
        ),
        !states[k].active && states[k + 1].active ==> reports[k] == Some(EventKind::Firing),
        reports[k] == Some(EventKind::Firing) ==> trailing_breaches(checks.take(k + 1))
            >= effective_for(rule),
{
    lemma_chain_is_run(rule, checks, states, reports, k);
    lemma_chain_is_run(rule, checks, states, reports, k + 1);
    let upto = checks.take(k + 1);
    assert(upto.drop_last() =~= checks.take(k));
    assert(reports.take(k + 1).last() == reports[k]);
    law_resolved_follows_firing(rule, upto);
    if reports[k] == Some(EventKind::Firing) {
        law_firing_needs_enough_breaches(rule, upto);
    }
}

/// Checks that all breached.
pub open spec fn all_breached(checks: Seq<Check>) -> bool {
    forall|k: int| 0 <= k < checks.len() ==> #[trigger] checks[k].breached
}

proof fn lemma_run_of_breaches(rule: AlertRule, checks: Seq<Check>)
    requires
        all_breached(checks),
        checks.len() <= u32::MAX,
    ensures
        run_checks(rule, checks).0.consecutive_failures == checks.len(),
        run_checks(rule, checks).0.active == (checks.len() >= effective_for(rule)),
        checks.len() > 0 && checks.len() < effective_for(rule) ==> run_checks(rule, checks).1.last() is None,
        checks.len() > 0 && checks.len() == effective_for(rule) ==> run_checks(rule, checks).1.last()
            == Some(EventKind::Firing),
    decreases checks.len(),
{
    if checks.len() > 0 {
        assert(all_breached(checks.drop_last())) by {
            assert forall|k: int| 0 <= k < checks.drop_last().len() implies #[trigger] checks.drop_last()[k].breached by {
                assert(checks.drop_last()[k] == checks[k]);
            }
        }
        assert(checks.last().breached) by {
            assert(checks[checks.len() - 1].breached);
        }
        lemma_run_of_breaches(rule, checks.drop_last());
    }
}

/// A rule reports `firing` for a run of breaches from the fresh state exactly at its
/// `for_checks`-th breach (the first, when `for_checks` is 0 or 1): every earlier breach
/// reports nothing and leaves the rule inactive, and no firing is ever reported before
/// that many breaches in a row.
pub proof fn law_fires_at_for_checks(rule: AlertRule, checks: Seq<Check>)
    requires
        checks.len() > 0,
    ensures
        run_checks(rule, checks).1.last() == Some(EventKind::Firing) ==> trailing_breaches(checks)
            >= rule.for_checks && trailing_breaches(checks) >= 1,
        all_breached(checks) && checks.len() < rule.for_checks ==> run_checks(rule, checks).1.last() is None
            && !run_checks(rule, checks).0.active,
        all_breached(checks) && checks.len() == (if rule.for_checks == 0 {
            1
        } else {
            rule.for_checks as int
        }) ==> run_checks(rule, checks).1.last() == Some(EventKind::Firing) && run_checks(
            rule,
            checks,
        ).0.active,
{
    if run_checks(rule, checks).1.last() == Some(EventKind::Firing) {
        law_firing_needs_enough_breaches(rule, checks);
    }
    if all_breached(checks) && checks.len() <= u32::MAX {
        lemma_run_of_breaches(rule, checks);
    }
}

/// A single check makes an inactive rule active only when it completes at least
/// `for_checks` (and at least one) breaches in a row.
pub proof fn law_activation_needs_for_checks(
    rule: AlertRule,
    prior: StateView,
    breached: bool,
    cooldown_minutes: i64,
    now: Moment,
)
    requires
        !prior.active,
    ensures
        step(rule, breached, prior, cooldown_minutes, now).0.active ==> breached
            && step(rule, breached, prior, cooldown_minutes, now).0.consecutive_failures >= rule.for_checks
            && step(rule, breached, prior, cooldown_minutes, now).0.consecutive_failures >= 1,
{
}

/// Elapsed minutes count whole minutes: `k` minutes after an instant (same fraction of a
/// second) is `k`, and any time short of the next whole minute still counts as `k`.
pub proof fn law_minutes_are_whole(now: Moment, secs: i64, nanos: u32, k: int, extra_secs: int)
    requires
        k >= 0,
        0 <= extra_secs < 60,
        now.secs == secs + 60 * k + extra_secs,
        now.nanos == nanos,
    ensures
        minutes_between(now, secs, nanos) == k,
{
    let d = nanos_since_epoch(now.secs, now.nanos) - nanos_since_epoch(secs, nanos);
    assert(d == (60 * k + extra_secs) * 1_000_000_000) by (nonlinear_arith)
        requires
            now.secs == secs + 60 * k + extra_secs,
            now.nanos == nanos,
            d == nanos_since_epoch(now.secs, now.nanos) - nanos_since_epoch(secs, nanos),
    ;
    assert(d >= 0) by (nonlinear_arith)
        requires
            d == (60 * k + extra_secs) * 1_000_000_000,
            k >= 0,
            extra_secs >= 0,
    ;
    assert(d / 1_000_000_000 == 60 * k + extra_secs) by (nonlinear_arith)
        requires
            d == (60 * k + extra_secs) * 1_000_000_000,
    ;
    assert((60 * k + extra_secs) / 60 == k) by (nonlinear_arith)
        requires
            0 <= extra_secs < 60,
            k >= 0,
    ;
}

} // verus!

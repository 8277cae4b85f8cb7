//! Domain types for runtime-state persistence.
use vstd::prelude::*;

use crate::runtime_state::error::RuntimeStateValidationError;
use crate::text::{trim, trim_str};

verus! {

/// The view of an optional string.
pub open spec fn opt_str_view(o: Option<String>) -> Option<Seq<char>> {
    match o {
        Some(s) => Some(s@),
        None => None,
    }
}

/// A copy of an optional string.
pub fn clone_opt_string(o: &Option<String>) -> (r: Option<String>)
    ensures
        opt_str_view(r) == opt_str_view(*o),
{
    match o {
        Some(s) => Some(s.clone()),
        None => None,
    }
}

/// An optional owned copy of an optional string slice.
pub fn opt_str_to_string(o: Option<&str>) -> (r: Option<String>)
    ensures
        opt_str_view(r) == match o {
            Some(s) => Some(s@),
            None => None::<Seq<char>>,
        },
{
    match o {
        Some(s) => Some(String::from_str(s)),
        None => None,
    }
}

/// Binding from an external channel identity to a global Alice user id.
#[derive(Debug, Clone, PartialEq, Eq)]
pub struct GlobalIdentityBinding {
    /// Channel/provider name such as `cli`, `telegram`, or `discord`.
    pub provider: String,
    /// External user identifier from the provider.
    pub external_user_id: String,
    /// Stable Alice-global user id.
    pub global_user_id: String,
    /// Unix epoch milliseconds for the binding creation/update time.
    pub bound_at_epoch_ms: i64,
}

/// Abstract value of a [`GlobalIdentityBinding`].
pub struct GlobalIdentityBindingView {
    pub provider: Seq<char>,
    pub external_user_id: Seq<char>,
    pub global_user_id: Seq<char>,
    pub bound_at_epoch_ms: i64,
}

impl View for GlobalIdentityBinding {
    type V = GlobalIdentityBindingView;

    open spec fn view(&self) -> GlobalIdentityBindingView {
        GlobalIdentityBindingView {
            provider: self.provider@,
            external_user_id: self.external_user_id@,
            global_user_id: self.global_user_id@,
            bound_at_epoch_ms: self.bound_at_epoch_ms,
        }
    }
}

impl GlobalIdentityBinding {
    /// A field-by-field copy.
    pub fn duplicate(&self) -> (r: Self)
        ensures
            r@ == self@,
    {
        GlobalIdentityBinding {
            provider: self.provider.clone(),
            external_user_id: self.external_user_id.clone(),
            global_user_id: self.global_user_id.clone(),
            bound_at_epoch_ms: self.bound_at_epoch_ms,
        }
    }
}

/// One-time token used to link a new provider identity to a global user id.
#[derive(Debug, Clone, PartialEq, Eq)]
pub struct BindToken {
    /// Unique token value.
    pub token: String,
    /// The global user this token links to.
    pub global_user_id: String,
    /// Optional provider restriction. When set, only that provider may consume it.
    pub provider: Option<String>,
    /// Unix epoch milliseconds when this token expires.
    pub expires_at_epoch_ms: i64,
    /// Unix epoch milliseconds when this token was consumed.
    pub consumed_at_epoch_ms: Option<i64>,
    /// Unix epoch milliseconds when this token was created.
    pub created_at_epoch_ms: i64,
}

/// Abstract value of a [`BindToken`].
pub struct BindTokenView {
    pub token: Seq<char>,
    pub global_user_id: Seq<char>,
    pub provider: Option<Seq<char>>,
    pub expires_at_epoch_ms: i64,
    pub consumed_at_epoch_ms: Option<i64>,
    pub created_at_epoch_ms: i64,
}

impl View for BindToken {
    type V = BindTokenView;

    open spec fn view(&self) -> BindTokenView {
        BindTokenView {
            token: self.token@,
            global_user_id: self.global_user_id@,
            provider: opt_str_view(self.provider),
            expires_at_epoch_ms: self.expires_at_epoch_ms,
            consumed_at_epoch_ms: self.consumed_at_epoch_ms,
            created_at_epoch_ms: self.created_at_epoch_ms,
        }
    }
}

impl BindToken {
    /// A field-by-field copy.
    pub fn duplicate(&self) -> (r: Self)
        ensures
            r@ == self@,
    {
        BindToken {
            token: self.token.clone(),
            global_user_id: self.global_user_id.clone(),
            provider: clone_opt_string(&self.provider),
            expires_at_epoch_ms: self.expires_at_epoch_ms,
            consumed_at_epoch_ms: self.consumed_at_epoch_ms,
            created_at_epoch_ms: self.created_at_epoch_ms,
        }
    }
}

/// Leased active session for a global user.
#[derive(Debug, Clone, PartialEq, Eq)]
pub struct ActiveSessionLease {
    /// The stable global user id.
    pub global_user_id: String,
    /// The effective Alice session id currently associated with the user.
    pub session_id: String,
    /// Optional channel label where this session was last active.
    pub channel: Option<String>,
    /// Optional external thread or conversation id associated with the session.
    pub thread_id: Option<String>,
    /// Unix epoch milliseconds of the last session update.
    pub updated_at_epoch_ms: i64,
}

/// Abstract value of an [`ActiveSessionLease`].
pub struct ActiveSessionLeaseView {
    pub global_user_id: Seq<char>,
    pub session_id: Seq<char>,
    pub channel: Option<Seq<char>>,
    pub thread_id: Option<Seq<char>>,
    pub updated_at_epoch_ms: i64,
}

impl View for ActiveSessionLease {
    type V = ActiveSessionLeaseView;

    open spec fn view(&self) -> ActiveSessionLeaseView {
        ActiveSessionLeaseView {
            global_user_id: self.global_user_id@,
            session_id: self.session_id@,
            channel: opt_str_view(self.channel),
            thread_id: opt_str_view(self.thread_id),
            updated_at_epoch_ms: self.updated_at_epoch_ms,
        }
    }
}

impl ActiveSessionLease {
    /// A field-by-field copy.
    pub fn duplicate(&self) -> (r: Self)
        ensures
            r@ == self@,
    {
        ActiveSessionLease {
            global_user_id: self.global_user_id.clone(),
            session_id: self.session_id.clone(),
            channel: clone_opt_string(&self.channel),
            thread_id: clone_opt_string(&self.thread_id),
            updated_at_epoch_ms: self.updated_at_epoch_ms,
        }
    }
}

/// Supported schedule representations for recurring tasks.
#[derive(Debug, Clone, Copy, PartialEq, Eq, Structural)]
pub enum ScheduleKind {
    /// Execute every `n` minutes.
    EveryMinutes(u32),
    /// Execute once per hour at the given minute.
    Hourly {
        /// Minute within the hour in `0..=59`.
        minute: u8,
    },
    /// Execute once per day at `hour:minute` in local time.
    DailyAt {
        /// Hour within the day in `0..=23`.
        hour: u8,
        /// Minute within the hour in `0..=59`.
        minute: u8,
    },
}

/// Milliseconds in one minute.
pub const MINUTE_MS: i64 = 60000;

/// Milliseconds in one hour.
pub const HOUR_MS: i64 = 3600000;

/// Milliseconds in one day.
pub const DAY_MS: i64 = 86400000;

/// Integer division rounding toward zero, as `/` does on `i64`.
pub open spec fn trunc_div(a: int, b: int) -> int
    recommends
        b > 0,
{
    if a >= 0 {
        a / b
    } else {
        -((-a) / b)
    }
}

/// The start of the period of length `period` that holds `t` (`(t / period) * period` on `i64`).
pub open spec fn period_start(t: int, period: int) -> int {
    trunc_div(t, period) * period
}

/// The first time after `ran_at` whose offset within its period is `offset`,
/// looking at the period of `ran_at` and the next one.
pub open spec fn align_after(ran_at: int, period: int, offset: int) -> int {
    let candidate = period_start(ran_at, period) + offset;
    if candidate > ran_at {
        candidate
    } else {
        candidate + period
    }
}

/// Whether `utc_offset` (milliseconds that local time is ahead of UTC) is an offset a
/// time zone can have: less than a day either way.
pub open spec fn valid_utc_offset(utc_offset: int) -> bool {
    -DAY_MS < utc_offset < DAY_MS
}

/// The first instant strictly after `ran_at` at which the local clock, `utc_offset` ahead
/// of UTC, reads `time_of_day` (milliseconds since local midnight).
pub open spec fn daily_next_run(ran_at: int, time_of_day: int, utc_offset: int) -> int {
    let local = (ran_at + utc_offset) % (DAY_MS as int);
    if time_of_day > local {
        ran_at + (time_of_day - local)
    } else {
        ran_at + (time_of_day - local) + DAY_MS
    }
}

impl ScheduleKind {
    /// The outcome of validating a schedule.
    pub open spec fn spec_validate(self) -> Result<(), RuntimeStateValidationError> {
        match self {
            ScheduleKind::EveryMinutes(minutes) => if minutes == 0 {
                Err(RuntimeStateValidationError::InvalidScheduleMinutes)
            } else {
                Ok(())
            },
            ScheduleKind::Hourly { minute } => if minute > 59 {
                Err(RuntimeStateValidationError::InvalidScheduleMinute)
            } else {
                Ok(())
            },
            ScheduleKind::DailyAt { hour, minute } => if hour > 23 {
                Err(RuntimeStateValidationError::InvalidScheduleHour)
            } else if minute > 59 {
                Err(RuntimeStateValidationError::InvalidScheduleMinute)
            } else {
                Ok(())
            },
        }
    }

    /// The next run after a successful execution at `ran_at`, in unbounded arithmetic,
    /// where local time is `utc_offset` ahead of UTC (only daily schedules depend on it).
    pub open spec fn spec_next_run_after(self, ran_at: int, utc_offset: int) -> int {
        match self {
            ScheduleKind::EveryMinutes(minutes) => ran_at + minutes * MINUTE_MS,
            ScheduleKind::Hourly { minute } => align_after(ran_at, HOUR_MS as int, minute * MINUTE_MS),
            ScheduleKind::DailyAt { hour, minute } => daily_next_run(
                ran_at,
                hour * HOUR_MS + minute * MINUTE_MS,
                utc_offset,
            ),
        }
    }

    /// Whether `next` is the next run after `ran_at` in some time zone.
    pub open spec fn is_next_run(self, ran_at: int, next: int) -> bool {
        exists|utc_offset: int|
            valid_utc_offset(utc_offset) && next == #[trigger] self.spec_next_run_after(
                ran_at,
                utc_offset,
            )
    }

    /// Whether the next run after `ran_at` is representable as an `i64` in every time zone.
    pub open spec fn next_run_fits(self, ran_at: i64) -> bool {
        match self {
            ScheduleKind::DailyAt { hour, minute } => ran_at + hour * HOUR_MS + minute * MINUTE_MS
                + DAY_MS <= i64::MAX,
            _ => self.spec_next_run_after(ran_at as int, 0) <= i64::MAX,
        }
    }

    /// Validate a schedule kind.
    pub fn validate(&self) -> (r: Result<(), RuntimeStateValidationError>)
        ensures
            r == self.spec_validate(),
    {
        match self {
            ScheduleKind::EveryMinutes(minutes) => if *minutes == 0 {
                Err(RuntimeStateValidationError::InvalidScheduleMinutes)
            } else {
                Ok(())
            },
            ScheduleKind::Hourly { minute } => if *minute > 59 {
                Err(RuntimeStateValidationError::InvalidScheduleMinute)
            } else {
                Ok(())
            },
            ScheduleKind::DailyAt { hour, minute } => if *hour > 23 {
                Err(RuntimeStateValidationError::InvalidScheduleHour)
            } else if *minute > 59 {
                Err(RuntimeStateValidationError::InvalidScheduleMinute)
            } else {
                Ok(())
            },
        }
    }

    /// The next run after a successful execution at `ran_at_epoch_ms`, where local time
    /// is `utc_offset_ms` ahead of UTC.
    pub fn next_run_in_zone(&self, ran_at_epoch_ms: i64, utc_offset_ms: i64) -> (r: i64)
        requires
            self.next_run_fits(ran_at_epoch_ms),
            valid_utc_offset(utc_offset_ms as int),
        ensures
            r == self.spec_next_run_after(ran_at_epoch_ms as int, utc_offset_ms as int),
    {
        match self {
            ScheduleKind::EveryMinutes(minutes) => {
                let step: i64 = (*minutes as i64) * MINUTE_MS;
                ran_at_epoch_ms + step
            },
            ScheduleKind::Hourly { minute } => align_hourly(ran_at_epoch_ms, *minute),
            ScheduleKind::DailyAt { hour, minute } => align_daily(
                ran_at_epoch_ms,
                *hour,
                *minute,
                utc_offset_ms,
            ),
        }
    }

    /// Compute the next run after a successful execution timestamp. A daily schedule
    /// runs at its time of day on the local clock, in the offset from UTC that the local
    /// time zone has at `ran_at_epoch_ms` (UTC when the zone cannot say).
    pub fn next_run_after(&self, ran_at_epoch_ms: i64) -> (r: i64)
        requires
            self.next_run_fits(ran_at_epoch_ms),
        ensures
            self.is_next_run(ran_at_epoch_ms as int, r as int),
            !(self is DailyAt) ==> r == self.spec_next_run_after(ran_at_epoch_ms as int, 0),
    {
        let reading = match self {
            ScheduleKind::DailyAt { .. } => crate::clock::local_utc_offset_ms_at(ran_at_epoch_ms),
            _ => None,
        };
        let r = self.next_run_after_reading(ran_at_epoch_ms, reading);
        assert(valid_utc_offset(reading_offset(reading)) && r == self.spec_next_run_after(
            ran_at_epoch_ms as int,
            reading_offset(reading),
        ));
        r
    }

    /// The next run after a successful execution at `ran_at_epoch_ms`, given what the
    /// local time zone reported as its offset from UTC then: that offset, or UTC when it
    /// reported none (or an offset no zone can have).
    pub fn next_run_after_reading(&self, ran_at_epoch_ms: i64, utc_offset_reading: Option<i64>) -> (r:
        i64)
        requires
            self.next_run_fits(ran_at_epoch_ms),
        ensures
            r == self.spec_next_run_after(
                ran_at_epoch_ms as int,
                reading_offset(utc_offset_reading),
            ),
    {
        let utc_offset_ms: i64 = match utc_offset_reading {
            Some(o) => if -86400000 < o && o < 86400000 {
                o
            } else {
                0
            },
            None => 0,
        };
        self.next_run_in_zone(ran_at_epoch_ms, utc_offset_ms)
    }
}

/// The offset a reading of the local time zone stands for: the offset read, or UTC when
/// there is none or it is not an offset a zone can have.
pub open spec fn reading_offset(reading: Option<i64>) -> int {
    match reading {
        Some(o) => if valid_utc_offset(o as int) {
            o as int
        } else {
            0
        },
        None => 0,
    }
}

/// Law: a schedule is valid exactly when its numbers are in range: an interval of at least
/// one minute, a minute of the hour in `0..=59`, and a daily time with hour in `0..=23`
/// and minute in `0..=59`; an hour out of range is reported before a minute.
pub proof fn lemma_schedule_validity(s: ScheduleKind)
    ensures
        (s.spec_validate() is Ok) <==> match s {
            ScheduleKind::EveryMinutes(m) => m >= 1,
            ScheduleKind::Hourly { minute } => minute <= 59,
            ScheduleKind::DailyAt { hour, minute } => hour <= 23 && minute <= 59,
        },
        s matches ScheduleKind::EveryMinutes(m) && m == 0 ==> s.spec_validate() == Err::<
            (),
            RuntimeStateValidationError,
        >(RuntimeStateValidationError::InvalidScheduleMinutes),
        s matches ScheduleKind::DailyAt { hour, minute } && hour > 23 ==> s.spec_validate() == Err::<
            (),
            RuntimeStateValidationError,
        >(RuntimeStateValidationError::InvalidScheduleHour),
        s matches ScheduleKind::DailyAt { hour, minute } && hour <= 23 && minute > 59
            ==> s.spec_validate() == Err::<(), RuntimeStateValidationError>(
            RuntimeStateValidationError::InvalidScheduleMinute,
        ),
        s matches ScheduleKind::Hourly { minute } && minute > 59 ==> s.spec_validate() == Err::<
            (),
            RuntimeStateValidationError,
        >(RuntimeStateValidationError::InvalidScheduleMinute),
{
}

/// Facts about the start of a period.
proof fn lemma_period_start(t: int, period: int)
    requires
        period > 0,
    ensures
        t >= 0 ==> 0 <= period_start(t, period) <= t,
        t >= 0 ==> t - period < period_start(t, period),
        t < 0 ==> t <= period_start(t, period) <= 0,
{
    let q = trunc_div(t, period);
    if t >= 0 {
        vstd::arithmetic::div_mod::lemma_fundamental_div_mod(t, period);
        assert(0 <= t % period < period) by {
            vstd::arithmetic::div_mod::lemma_mod_pos_bound(t, period);
        }
        assert(q >= 0) by {
            vstd::arithmetic::div_mod::lemma_div_pos_is_pos(t, period);
        }
        assert(q * period == t - t % period) by (nonlinear_arith)
            requires
                t == period * (t / period) + t % period,
                q == t / period,
        ;
    } else {
        let n = -t;
        vstd::arithmetic::div_mod::lemma_fundamental_div_mod(n, period);
        assert(0 <= n % period < period) by {
            vstd::arithmetic::div_mod::lemma_mod_pos_bound(n, period);
        }
        assert(n / period >= 0) by {
            vstd::arithmetic::div_mod::lemma_div_pos_is_pos(n, period);
        }
        assert(q * period == -(n - n % period)) by (nonlinear_arith)
            requires
                n == period * (n / period) + n % period,
                q == -(n / period),
        ;
    }
}

fn align_hourly(ran_at_epoch_ms: i64, minute: u8) -> (r: i64)
    requires
        align_after(ran_at_epoch_ms as int, HOUR_MS as int, minute * MINUTE_MS) <= i64::MAX,
    ensures
        r == align_after(ran_at_epoch_ms as int, HOUR_MS as int, minute * MINUTE_MS),
{
    proof {
        lemma_period_start(ran_at_epoch_ms as int, HOUR_MS as int);
    }
    let q = ran_at_epoch_ms / HOUR_MS;
    assert(q == trunc_div(ran_at_epoch_ms as int, HOUR_MS as int));
    let current_hour = q * HOUR_MS;
    let offset: i64 = (minute as i64) * MINUTE_MS;
    let candidate = current_hour + offset;
    if candidate > ran_at_epoch_ms {
        candidate
    } else {
        candidate + HOUR_MS
    }
}

fn align_daily(ran_at_epoch_ms: i64, hour: u8, minute: u8, utc_offset_ms: i64) -> (r: i64)
    requires
        ran_at_epoch_ms + hour * HOUR_MS + minute * MINUTE_MS + DAY_MS <= i64::MAX,
        valid_utc_offset(utc_offset_ms as int),
    ensures
        r == daily_next_run(ran_at_epoch_ms as int, hour * HOUR_MS + minute * MINUTE_MS, utc_offset_ms as int),
{
    let ghost d = DAY_MS as int;
    let local_wide: i128 = ran_at_epoch_ms as i128 + utc_offset_ms as i128;
    let rem: i128 = local_wide % (DAY_MS as i128);
    let local: i128 = if rem < 0 { rem + 86400000i128 } else { rem };
    proof {
        lemma_euclid_rem(local_wide as int, d, rem as int);
        vstd::arithmetic::div_mod::lemma_mod_bound(local_wide as int, d);
    }
    assert(local == (ran_at_epoch_ms + utc_offset_ms) % d);
    let target: i128 = (hour as i128) * 3600000i128 + (minute as i128) * 60000i128;
    let step: i128 = if target > local { target - local } else { target - local + 86400000i128 };
    (ran_at_epoch_ms as i128 + step) as i64
}

/// The remainder that `%` leaves on `i128` (sign of the dividend), moved into
/// `0..d`, is the Euclidean remainder.
proof fn lemma_euclid_rem(x: int, d: int, rem: int)
    requires
        d > 0,
        rem == (if x >= 0 { x % d } else { -((-x) % d) }),
    ensures
        (if rem < 0 { rem + d } else { rem }) == x % d,
{
    if x < 0 {
        let n = -x;
        vstd::arithmetic::div_mod::lemma_fundamental_div_mod(n, d);
        vstd::arithmetic::div_mod::lemma_mod_pos_bound(n, d);
        let q = n / d;
        if n % d == 0 {
            assert(x == (-q) * d + 0) by (nonlinear_arith)
                requires
                    n == d * q + n % d,
                    n % d == 0,
                    x == -n,
            ;
            vstd::arithmetic::div_mod::lemma_fundamental_div_mod_converse(x, d, -q, 0);
        } else {
            assert(x == (-q - 1) * d + (d - n % d)) by (nonlinear_arith)
                requires
                    n == d * q + n % d,
                    x == -n,
            ;
            vstd::arithmetic::div_mod::lemma_fundamental_div_mod_converse(x, d, -q - 1, d - n % d);
        }
    }
}

/// The largest amount by which any schedule can move a task's next run past the
/// time it ran, for times at or after the epoch: an interval of `u32::MAX` minutes.
pub const MAX_NEXT_RUN_ADVANCE_MS: i64 = 257698037700000;

/// Below this bound every schedule's next run is representable.
pub proof fn lemma_next_run_fits_below_bound(schedule: ScheduleKind, ran_at: i64)
    requires
        ran_at <= i64::MAX - MAX_NEXT_RUN_ADVANCE_MS,
    ensures
        schedule.next_run_fits(ran_at),
{
    lemma_period_start(ran_at as int, HOUR_MS as int);
    lemma_period_start(ran_at as int, DAY_MS as int);
}

/// Persisted scheduled background task.
#[derive(Debug, Clone, PartialEq, Eq)]
pub struct ScheduledTask {
    /// Stable task identifier.
    pub task_id: String,
    /// Global user id of the owner.
    pub global_user_id: String,
    /// Preferred output channel for results.
    pub channel: Option<String>,
    /// Prompt executed when the task runs.
    pub prompt: String,
    /// Recurrence strategy.
    pub schedule: ScheduleKind,
    /// Unix epoch milliseconds when the task should next run.
    pub next_run_epoch_ms: i64,
    /// Whether the task is enabled.
    pub enabled: bool,
    /// Unix epoch milliseconds of the most recent successful execution.
    pub last_run_epoch_ms: Option<i64>,
}

/// Abstract value of a [`ScheduledTask`].
pub struct ScheduledTaskView {
    pub task_id: Seq<char>,
    pub global_user_id: Seq<char>,
    pub channel: Option<Seq<char>>,
    pub prompt: Seq<char>,
    pub schedule: ScheduleKind,
    pub next_run_epoch_ms: i64,
    pub enabled: bool,
    pub last_run_epoch_ms: Option<i64>,
}

impl View for ScheduledTask {
    type V = ScheduledTaskView;

    open spec fn view(&self) -> ScheduledTaskView {
        ScheduledTaskView {
            task_id: self.task_id@,
            global_user_id: self.global_user_id@,
            channel: opt_str_view(self.channel),
            prompt: self.prompt@,
            schedule: self.schedule,
            next_run_epoch_ms: self.next_run_epoch_ms,
            enabled: self.enabled,
            last_run_epoch_ms: self.last_run_epoch_ms,
        }
    }
}

impl ScheduledTaskView {
    /// The outcome of validating a task before persistence.
    pub open spec fn spec_validate(self) -> Result<(), RuntimeStateValidationError> {
        if trim(self.prompt).len() == 0 {
            Err(RuntimeStateValidationError::EmptyTaskPrompt)
        } else {
            self.schedule.spec_validate()
        }
    }
}

impl ScheduledTask {
    /// Validate a task before persistence.
    pub fn validate(&self) -> (r: Result<(), RuntimeStateValidationError>)
        ensures
            r == self@.spec_validate(),
    {
        let trimmed = trim_str(self.prompt.as_str());
        if trimmed.len() == 0 {
            return Err(RuntimeStateValidationError::EmptyTaskPrompt);
        }
        self.schedule.validate()
    }

    /// A field-by-field copy.
    pub fn duplicate(&self) -> (r: Self)
        ensures
            r@ == self@,
    {
        ScheduledTask {
            task_id: self.task_id.clone(),
            global_user_id: self.global_user_id.clone(),
            channel: clone_opt_string(&self.channel),
            prompt: self.prompt.clone(),
            schedule: self.schedule,
            next_run_epoch_ms: self.next_run_epoch_ms,
            enabled: self.enabled,
            last_run_epoch_ms: self.last_run_epoch_ms,
        }
    }
}

} // verus!

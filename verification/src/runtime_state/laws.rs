//! Properties of runtime-state workflows that span several operations.
use vstd::prelude::*;

use crate::runtime_state::domain::{
    align_after, daily_next_run, period_start, valid_utc_offset, ActiveSessionLeaseView, GlobalIdentityBindingView, ScheduleKind,
    ScheduledTaskView, DAY_MS, HOUR_MS, MINUTE_MS,
};
use crate::runtime_state::ports::{
    is_due, is_task_listing, lemma_task_before_asymmetric, lemma_task_before_irreflexive,
    task_before, RuntimeStateModel,
};
use crate::runtime_state::service::{
    consume_decision, consumed_binding, executed_task, issued_token,
};

verus! {

/// Facts about the start of a period, for non-negative and negative times.
proof fn lemma_period_start_bounds(t: int, period: int)
    requires
        period > 0,
    ensures
        t >= 0 ==> t - period < period_start(t, period) <= t,
        t < 0 ==> t <= period_start(t, period) <= 0,
        t >= 0 ==> period_start(t, period) % period == 0,
{
    let q = crate::runtime_state::domain::trunc_div(t, period);
    if t >= 0 {
        vstd::arithmetic::div_mod::lemma_fundamental_div_mod(t, period);
        vstd::arithmetic::div_mod::lemma_mod_pos_bound(t, period);
        assert(q * period == t - t % period) by (nonlinear_arith)
            requires
                t == period * (t / period) + t % period,
                q == t / period,
        ;
        vstd::arithmetic::div_mod::lemma_mod_multiples_basic(q, period);
    } else {
        let n = -t;
        vstd::arithmetic::div_mod::lemma_fundamental_div_mod(n, period);
        vstd::arithmetic::div_mod::lemma_mod_pos_bound(n, period);
        vstd::arithmetic::div_mod::lemma_div_pos_is_pos(n, period);
        assert(q * period == -(n - n % period)) by (nonlinear_arith)
            requires
                n == period * (n / period) + n % period,
                q == -(n / period),
        ;
    }
}

/// Aligning to an offset inside the period always moves strictly forward, and for
/// non-negative times by at most one period, landing on the offset within a period.
proof fn lemma_align_after(ran_at: int, period: int, offset: int)
    requires
        period > 0,
        0 <= offset < period,
    ensures
        align_after(ran_at, period, offset) > ran_at,
        ran_at >= 0 ==> align_after(ran_at, period, offset) <= ran_at + period,
        ran_at >= 0 ==> (align_after(ran_at, period, offset) - offset) % period == 0,
{
    lemma_period_start_bounds(ran_at, period);
    if ran_at >= 0 {
        let ps = period_start(ran_at, period);
        let q = ps / period;
        vstd::arithmetic::div_mod::lemma_fundamental_div_mod(ps, period);
        assert(ps == period * q);
        vstd::arithmetic::div_mod::lemma_mod_multiples_basic(q + 1, period);
        assert(ps + period == (q + 1) * period) by (nonlinear_arith)
            requires
                ps == period * q,
        ;
    }
}

/// Law: a daily run lands on the first instant after the run at which the local clock
/// reads the configured time of day: it is strictly later, at most a day later, the local
/// clock reads that time then, and at no instant in between.
pub proof fn lemma_daily_next_run_is_first_local_match(
    ran_at: int,
    time_of_day: int,
    utc_offset: int,
    t: int,
)
    requires
        0 <= time_of_day < DAY_MS,
    ensures
        ran_at < daily_next_run(ran_at, time_of_day, utc_offset) <= ran_at + DAY_MS,
        (daily_next_run(ran_at, time_of_day, utc_offset) + utc_offset) % (DAY_MS as int)
            == time_of_day,
        ran_at < t < daily_next_run(ran_at, time_of_day, utc_offset) ==> (t + utc_offset) % (
        DAY_MS as int) != time_of_day,
{
    let d = DAY_MS as int;
    let x = ran_at + utc_offset;
    vstd::arithmetic::div_mod::lemma_fundamental_div_mod(x, d);
    vstd::arithmetic::div_mod::lemma_mod_bound(x, d);
    let q = x / d;
    let local = x % d;
    let next = daily_next_run(ran_at, time_of_day, utc_offset);
    if time_of_day > local {
        assert(next + utc_offset == q * d + time_of_day) by (nonlinear_arith)
            requires
                next == ran_at + (time_of_day - local),
                x == d * q + local,
                x == ran_at + utc_offset,
        ;
        vstd::arithmetic::div_mod::lemma_fundamental_div_mod_converse(next + utc_offset, d, q, time_of_day);
    } else {
        assert(next + utc_offset == (q + 1) * d + time_of_day) by (nonlinear_arith)
            requires
                next == ran_at + (time_of_day - local) + d,
                x == d * q + local,
                x == ran_at + utc_offset,
        ;
        vstd::arithmetic::div_mod::lemma_fundamental_div_mod_converse(next + utc_offset, d, q + 1, time_of_day);
    }
    if ran_at < t < next {
        let k = t - ran_at;
        if local + k < d {
            assert(t + utc_offset == q * d + (local + k)) by (nonlinear_arith)
                requires
                    x == d * q + local,
                    x == ran_at + utc_offset,
                    k == t - ran_at,
            ;
            vstd::arithmetic::div_mod::lemma_fundamental_div_mod_converse(t + utc_offset, d, q, local + k);
        } else {
            assert(t + utc_offset == (q + 1) * d + (local + k - d)) by (nonlinear_arith)
                requires
                    x == d * q + local,
                    x == ran_at + utc_offset,
                    k == t - ran_at,
            ;
            vstd::arithmetic::div_mod::lemma_fundamental_div_mod_converse(t + utc_offset, d, q + 1, local + k - d);
        }
    }
}

/// Law: a valid schedule always moves a task's next run strictly past the time it ran,
/// in every time zone; an interval schedule moves it by exactly its interval, an hourly
/// schedule (for times at or after the epoch) by at most an hour onto the configured
/// minute, and a daily schedule by at most a day onto the first instant at which the
/// local clock reads the configured time of day.
pub proof fn lemma_next_run_after_advances(schedule: ScheduleKind, ran_at: int, utc_offset: int)
    requires
        schedule.spec_validate() is Ok,
    ensures
        schedule.spec_next_run_after(ran_at, utc_offset) > ran_at,
        schedule matches ScheduleKind::EveryMinutes(m) ==> schedule.spec_next_run_after(ran_at, utc_offset)
            == ran_at + m * MINUTE_MS,
        schedule matches ScheduleKind::Hourly { minute } ==> (ran_at >= 0 ==> schedule.spec_next_run_after(ran_at, utc_offset)
            <= ran_at + HOUR_MS && (schedule.spec_next_run_after(ran_at, utc_offset) - minute * MINUTE_MS)
            % (HOUR_MS as int) == 0),
        schedule matches ScheduleKind::DailyAt { hour, minute } ==> (schedule.spec_next_run_after(ran_at, utc_offset)
            <= ran_at + DAY_MS && (schedule.spec_next_run_after(ran_at, utc_offset) + utc_offset) % (
            DAY_MS as int) == hour * HOUR_MS + minute * MINUTE_MS),
{
    match schedule {
        ScheduleKind::EveryMinutes(m) => {},
        ScheduleKind::Hourly { minute } => {
            lemma_align_after(ran_at, HOUR_MS as int, minute * MINUTE_MS);
        },
        ScheduleKind::DailyAt { hour, minute } => {
            lemma_daily_next_run_is_first_local_match(
                ran_at,
                hour * HOUR_MS + minute * MINUTE_MS,
                utc_offset,
                ran_at,
            );
        },
    }
}

/// Law: a task that was just marked executed under a valid schedule is no longer due
/// at the time it ran, and keeps its id, owner, prompt, schedule and enabled flag.
pub proof fn lemma_executed_task_not_due_at_run_time(t: ScheduledTaskView, ran_at: i64, next: i64)
    requires
        t.schedule.spec_validate() is Ok,
        t.schedule.is_next_run(ran_at as int, next as int),
    ensures
        !is_due(executed_task(t, ran_at, next), ran_at),
        executed_task(t, ran_at, next).last_run_epoch_ms == Some(ran_at),
        executed_task(t, ran_at, next).task_id == t.task_id,
        executed_task(t, ran_at, next).global_user_id == t.global_user_id,
        executed_task(t, ran_at, next).prompt == t.prompt,
        executed_task(t, ran_at, next).schedule == t.schedule,
        executed_task(t, ran_at, next).enabled == t.enabled,
{
    let off = choose|off: int|
        valid_utc_offset(off) && next == #[trigger] t.schedule.spec_next_run_after(ran_at as int, off);
    lemma_next_run_after_advances(t.schedule, ran_at as int, off);
}

/// Law: a bind token can be consumed at most once; once consumed, every later attempt,
/// by any provider at any time, is refused.
pub proof fn lemma_bind_token_single_use(
    m: RuntimeStateModel,
    token: Seq<char>,
    provider: Seq<char>,
    external_user_id: Seq<char>,
    now_ms: i64,
    later_provider: Seq<char>,
    later_ms: i64,
)
    requires
        consume_decision(m, token, provider, now_ms) is Some,
    ensures
        ({
            let g = consume_decision(m, token, provider, now_ms)->0;
            let after = m.with_binding(
                consumed_binding(provider, external_user_id, g, now_ms),
            ).with_token_consumed(token, now_ms);
            consume_decision(after, token, later_provider, later_ms) is None
        }),
{
}

/// Law: an expired token is refused.
pub proof fn lemma_expired_token_refused(
    m: RuntimeStateModel,
    token: Seq<char>,
    provider: Seq<char>,
    now_ms: i64,
)
    requires
        m.tokens.contains_key(token),
        m.tokens[token].expires_at_epoch_ms < now_ms,
    ensures
        consume_decision(m, token, provider, now_ms) is None,
{
}

/// Law: a token restricted to one provider is refused for any other provider.
pub proof fn lemma_token_provider_restriction(
    m: RuntimeStateModel,
    token: Seq<char>,
    provider: Seq<char>,
    now_ms: i64,
)
    requires
        m.tokens.contains_key(token),
        m.tokens[token].provider matches Some(p) && p != provider,
    ensures
        consume_decision(m, token, provider, now_ms) is None,
{
}

/// Law: a freshly issued token, consumed before it expires by a provider it admits,
/// binds to the user it was issued for.
pub proof fn lemma_issued_token_consumable(
    m: RuntimeStateModel,
    global_user_id: Seq<char>,
    restriction: Option<Seq<char>>,
    ttl_ms: i64,
    issued_ms: i64,
    counter: u64,
    provider: Seq<char>,
    now_ms: i64,
)
    requires
        ttl_ms > 0,
        issued_ms + ttl_ms <= i64::MAX,
        now_ms <= issued_ms + ttl_ms,
        restriction is None || restriction == Some(provider),
    ensures
        ({
            let t = issued_token(global_user_id, restriction, ttl_ms, issued_ms, counter);
            consume_decision(m.with_token(t), t.token, provider, now_ms) == Some(global_user_id)
        }),
{
}

/// Law: once a token has been consumed for a provider identity, that identity
/// resolves to the token's user.
pub proof fn lemma_consumed_binding_resolves(
    m: RuntimeStateModel,
    token: Seq<char>,
    provider: Seq<char>,
    external_user_id: Seq<char>,
    global_user_id: Seq<char>,
    now_ms: i64,
)
    ensures
        ({
            let after = m.with_binding(
                consumed_binding(provider, external_user_id, global_user_id, now_ms),
            ).with_token_consumed(token, now_ms);
            after.binding_for(provider, external_user_id) matches Some(b) && b.global_user_id
                == global_user_id
        }),
{
}

/// Law: a stored binding is what a later lookup of the same identity returns, and
/// other identities keep their bindings.
pub proof fn lemma_binding_read_after_write(
    m: RuntimeStateModel,
    b: GlobalIdentityBindingView,
    provider: Seq<char>,
    external_user_id: Seq<char>,
)
    ensures
        m.with_binding(b).binding_for(b.provider, b.external_user_id) == Some(b),
        (provider, external_user_id) != (b.provider, b.external_user_id) ==> m.with_binding(
            b,
        ).binding_for(provider, external_user_id) == m.binding_for(provider, external_user_id),
{
}

/// Law: the active session stored for a user is what a later lookup returns, and
/// other users keep their leases.
pub proof fn lemma_session_read_after_write(
    m: RuntimeStateModel,
    l: ActiveSessionLeaseView,
    other_user: Seq<char>,
)
    ensures
        m.with_session(l).sessions.get(l.global_user_id) == Some(l),
        other_user != l.global_user_id ==> m.with_session(l).sessions.get(other_user)
            == m.sessions.get(other_user),
{
}

/// Law: a stored task is what a later lookup of its id returns, and other tasks are unchanged.
pub proof fn lemma_task_read_after_write(m: RuntimeStateModel, t: ScheduledTaskView, other_id: Seq<char>)
    ensures
        m.with_task(t).tasks.get(t.task_id) == Some(t),
        other_id != t.task_id ==> m.with_task(t).tasks.get(other_id) == m.tasks.get(other_id),
{
}

/// Whether each task of `s` is listed before every later one.
pub open spec fn strictly_listed(s: Seq<ScheduledTaskView>) -> bool {
    forall|i: int, j: int| 0 <= i < j < s.len() ==> task_before(s[i], s[j])
}

/// Two sequences in strict listing order that hold the same tasks are equal.
proof fn lemma_sorted_same_elements(a: Seq<ScheduledTaskView>, b: Seq<ScheduledTaskView>)
    requires
        strictly_listed(a),
        strictly_listed(b),
        forall|x: ScheduledTaskView| a.contains(x) <==> b.contains(x),
    ensures
        a == b,
    decreases a.len(),
{
    if a.len() == 0 {
        if b.len() > 0 {
            assert(b.contains(b[0]));
        }
        assert(a =~= b);
    } else {
        assert(a.contains(a[0]));
        assert(b.len() > 0);
        assert(b.contains(b[0]));
        if a[0] != b[0] {
            let i = choose|i: int| 0 <= i < a.len() && a[i] == b[0];
            let j = choose|j: int| 0 <= j < b.len() && b[j] == a[0];
            assert(i > 0 && j > 0);
            assert(task_before(a[0], b[0]));
            assert(task_before(b[0], a[0]));
            lemma_task_before_asymmetric(a[0], b[0]);
        }
        let a1 = a.drop_first();
        let b1 = b.drop_first();
        assert forall|x: ScheduledTaskView| a1.contains(x) implies b1.contains(x) by {
            let i = choose|i: int| 0 <= i < a1.len() && a1[i] == x;
            assert(a[i + 1] == x);
            assert(task_before(a[0], x));
            lemma_task_before_irreflexive(x);
            assert(b.contains(x));
            let j = choose|j: int| 0 <= j < b.len() && b[j] == x;
            assert(j != 0);
            assert(b1[j - 1] == x);
        }
        assert forall|x: ScheduledTaskView| b1.contains(x) implies a1.contains(x) by {
            let j = choose|j: int| 0 <= j < b1.len() && b1[j] == x;
            assert(b[j + 1] == x);
            assert(task_before(b[0], x));
            lemma_task_before_irreflexive(x);
            assert(a.contains(x));
            let i = choose|i: int| 0 <= i < a.len() && a[i] == x;
            assert(i != 0);
            assert(a1[i - 1] == x);
        }
        lemma_sorted_same_elements(a1, b1);
        assert(a =~= seq![a[0]] + a1);
        assert(b =~= seq![b[0]] + b1);
    }
}

/// Law: a task listing is determined by the stored tasks and the selection: any two
/// listings of the same tasks are the same sequence, ordered by next run time, then id.
pub proof fn lemma_task_listing_unique(
    tasks: Map<Seq<char>, ScheduledTaskView>,
    selects: spec_fn(ScheduledTaskView) -> bool,
    a: Seq<ScheduledTaskView>,
    b: Seq<ScheduledTaskView>,
)
    requires
        is_task_listing(tasks, selects, a),
        is_task_listing(tasks, selects, b),
    ensures
        a == b,
{
    assert forall|x: ScheduledTaskView| a.contains(x) implies b.contains(x) by {
        let i = choose|i: int| 0 <= i < a.len() && a[i] == x;
        assert(tasks.contains_key(a[i].task_id) && tasks[a[i].task_id] == a[i] && selects(a[i]));
        let k = x.task_id;
        let j = choose|j: int| 0 <= j < b.len() && b[j] == tasks[k];
        assert(b[j] == x);
    }
    assert forall|x: ScheduledTaskView| b.contains(x) implies a.contains(x) by {
        let i = choose|i: int| 0 <= i < b.len() && b[i] == x;
        assert(tasks.contains_key(b[i].task_id) && tasks[b[i].task_id] == b[i] && selects(b[i]));
        let k = x.task_id;
        let j = choose|j: int| 0 <= j < a.len() && a[j] == tasks[k];
        assert(a[j] == x);
    }
    lemma_sorted_same_elements(a, b);
}

} // verus!

//! Alert cooldown per key (the monitor keys it on the domain).
//!
//! Times are whole nanoseconds measured on a monotonic clock from the moment
//! the limiter was created.
use std::time::Instant;
use vstd::hash_map::StringHashMap;
use vstd::prelude::*;

verus! {

#[verifier::external_type_specification]
#[verifier::external_body]
pub struct ExInstant(Instant);

/// Calls `Instant::now`. Nothing is promised of the instant it returns.
#[verifier::external_body]
fn instant_now() -> Instant {
    Instant::now()
}

/// Calls `Instant::elapsed` on `epoch` and converts the duration to whole
/// nanoseconds (`Duration::as_nanos`). The value depends on the clock, so
/// nothing is promised of it.
#[verifier::external_body]
fn nanos_since(epoch: &Instant) -> u128 {
    epoch.elapsed().as_nanos()
}

/// The model of a limiter: its cooldown and, for each key, the time of the
/// last alert that it let through.
pub struct RateLimiterView {
    pub cooldown_seconds: u64,
    pub last_alert: Map<Seq<char>, u128>,
}

/// The cooldown in nanoseconds.
pub open spec fn cooldown_nanos(cooldown_seconds: u64) -> int {
    cooldown_seconds * 1_000_000_000
}

/// The time from `earlier` to `later`, or zero when `later` comes first
/// (the saturating `Instant::duration_since`).
pub open spec fn nanos_between(earlier: u128, later: u128) -> int {
    if later >= earlier {
        later - earlier
    } else {
        0
    }
}

/// An alert for `key` at `now` is let through: the key never alerted, or
/// its last alert is at least a cooldown ago.
pub open spec fn alert_allowed(v: RateLimiterView, key: Seq<char>, now: u128) -> bool {
    !v.last_alert.contains_key(key) || nanos_between(v.last_alert[key], now) >= cooldown_nanos(
        v.cooldown_seconds,
    )
}

/// The limiter after it was asked about `key` at `now`: an alert that is let
/// through records `now` for the key; a suppressed one changes nothing.
pub open spec fn after_check(v: RateLimiterView, key: Seq<char>, now: u128) -> RateLimiterView {
    if alert_allowed(v, key, now) {
        RateLimiterView { cooldown_seconds: v.cooldown_seconds, last_alert: v.last_alert.insert(key, now) }
    } else {
        v
    }
}

/// Suppresses repeated alerts for the same key within a cooldown.
pub struct RateLimiter {
    cooldown_seconds: u64,
    epoch: Instant,
    last_alert: StringHashMap<u128>,
}

impl View for RateLimiter {
    type V = RateLimiterView;

    closed spec fn view(&self) -> RateLimiterView {
        RateLimiterView { cooldown_seconds: self.cooldown_seconds, last_alert: self.last_alert@ }
    }
}

impl RateLimiter {
    /// A limiter with the given cooldown that has not let any alert through.
    pub fn new(cooldown_seconds: u64) -> (r: Self)
        ensures
            r@.cooldown_seconds == cooldown_seconds,
            r@.last_alert == Map::<Seq<char>, u128>::empty(),
    {
        RateLimiter { cooldown_seconds, epoch: instant_now(), last_alert: StringHashMap::new() }
    }

    /// The cooldown in seconds.
    pub fn cooldown_seconds(&self) -> (s: u64)
        ensures
            s == self@.cooldown_seconds,
    {
        self.cooldown_seconds
    }

    /// The time on this limiter's clock: nanoseconds since it was created.
    /// It is read from the clock, so nothing is promised of it.
    pub fn elapsed_nanos(&self) -> u128 {
        nanos_since(&self.epoch)
    }

    /// Decides whether an alert for `key` at time `now` (nanoseconds
    /// since the limiter was created) goes out, and records it when it does.
    pub fn should_alert_at(&mut self, key: &str, now: u128) -> (b: bool)
        ensures
            b == alert_allowed(old(self)@, key@, now),
            final(self)@ == after_check(old(self)@, key@, now),
    {
        let cooldown: u128 = (self.cooldown_seconds as u128) * 1_000_000_000u128;
        match self.last_alert.get(key) {
            Some(last) => {
                let last_time: u128 = *last;
                let elapsed: u128 = if now >= last_time {
                    now - last_time
                } else {
                    0
                };
                if elapsed < cooldown {
                    return false;
                }
            },
            None => {},
        }
        self.last_alert.insert(String::from_str(key), now);
        true
    }

    /// Decides whether an alert for `key` goes out now, and records
    /// it when it does. The time is read from the clock: the decision is the
    /// one `should_alert_at` makes at some time.
    pub fn should_alert(&mut self, key: &str) -> (b: bool)
        ensures
            exists|now: u128|
                {
                    &&& b == alert_allowed(old(self)@, key@, now)
                    &&& final(self)@ == after_check(old(self)@, key@, now)
                },
    {
        let now = self.elapsed_nanos();
        self.should_alert_at(key, now)
    }
}

/// A key that never alerted is let through, at any time.
pub proof fn lemma_first_alert_allowed(v: RateLimiterView, key: Seq<char>, now: u128)
    requires
        !v.last_alert.contains_key(key),
    ensures
        alert_allowed(v, key, now),
        after_check(v, key, now).last_alert[key] == now,
{
}

/// After an alert for a key went out at `t`, another alert for the same key
/// at any `t2` with `t <= t2 < t + cooldown` is suppressed and leaves the
/// limiter unchanged.
pub proof fn lemma_suppressed_within_cooldown(v: RateLimiterView, key: Seq<char>, t: u128, t2: u128)
    requires
        alert_allowed(v, key, t),
        t <= t2 < t + cooldown_nanos(v.cooldown_seconds),
    ensures
        !alert_allowed(after_check(v, key, t), key, t2),
        after_check(after_check(v, key, t), key, t2) == after_check(v, key, t),
{
}

/// After an alert for a key went out at `t`, the next alert for that key at
/// `t + cooldown` or later goes out.
pub proof fn lemma_allowed_after_cooldown(v: RateLimiterView, key: Seq<char>, t: u128, t2: u128)
    requires
        alert_allowed(v, key, t),
        t2 >= t + cooldown_nanos(v.cooldown_seconds),
    ensures
        alert_allowed(after_check(v, key, t), key, t2),
{
}

/// Keys are limited independently: asking about one key does not change
/// the answer for another.
pub proof fn lemma_keys_independent(
    v: RateLimiterView,
    key: Seq<char>,
    other: Seq<char>,
    t: u128,
    t2: u128,
)
    requires
        key != other,
    ensures
        alert_allowed(after_check(v, key, t), other, t2) == alert_allowed(v, other, t2),
        after_check(v, key, t).cooldown_seconds == v.cooldown_seconds,
{
}

/// With a zero cooldown every alert goes out.
pub proof fn lemma_zero_cooldown_never_suppresses(v: RateLimiterView, key: Seq<char>, now: u128)
    requires
        v.cooldown_seconds == 0,
    ensures
        alert_allowed(v, key, now),
{
}

// ---------------------------------------------------------------------------
// Sequences of checks
// ---------------------------------------------------------------------------
/// The limiter after a sequence of checks, each a key and a time, made in
/// order.
pub open spec fn after_checks(v: RateLimiterView, calls: Seq<(Seq<char>, u128)>) -> RateLimiterView
    decreases calls.len(),
{
    if calls.len() == 0 {
        v
    } else {
        after_check(after_checks(v, calls.drop_last()), calls.last().0, calls.last().1)
    }
}

/// The answer to check `k` of a sequence of checks.
pub open spec fn answer_at(v: RateLimiterView, calls: Seq<(Seq<char>, u128)>, k: int) -> bool {
    alert_allowed(after_checks(v, calls.take(k)), calls[k].0, calls[k].1)
}

/// Check `q` is for `key` and was let through.
pub open spec fn let_through(v: RateLimiterView, calls: Seq<(Seq<char>, u128)>, q: int, key: Seq<char>) -> bool {
    calls[q].0 == key && answer_at(v, calls, q)
}

/// The last check among `calls` that was for `key` and was let through.
pub open spec fn last_let_through(v: RateLimiterView, calls: Seq<(Seq<char>, u128)>, key: Seq<char>) -> Option<int>
    decreases calls.len(),
{
    if calls.len() == 0 {
        None
    } else {
        let k = calls.len() - 1;
        if calls[k].0 == key && alert_allowed(after_checks(v, calls.drop_last()), key, calls[k].1) {
            Some(k)
        } else {
            last_let_through(v, calls.drop_last(), key)
        }
    }
}

/// The times of a sequence of checks never go back.
pub open spec fn times_non_decreasing(calls: Seq<(Seq<char>, u128)>) -> bool {
    forall|i: int, j: int| 0 <= i <= j < calls.len() ==> #[trigger] calls[i].1 <= #[trigger] calls[j].1
}

/// A fresh limiter records for a key the time of the last check for that key
/// that was let through, and nothing for a key that never was.
proof fn lemma_records_last_let_through(v: RateLimiterView, calls: Seq<(Seq<char>, u128)>, key: Seq<char>)
    requires
        v.last_alert == Map::<Seq<char>, u128>::empty(),
    ensures
        after_checks(v, calls).cooldown_seconds == v.cooldown_seconds,
        match last_let_through(v, calls, key) {
            Some(m) => 0 <= m < calls.len() && calls[m].0 == key && after_checks(v, calls).last_alert.contains_key(key)
                && after_checks(v, calls).last_alert[key] == calls[m].1,
            None => !after_checks(v, calls).last_alert.contains_key(key),
        },
    decreases calls.len(),
{
    if calls.len() > 0 {
        lemma_records_last_let_through(v, calls.drop_last(), key);
    }
}

/// The last check let through for a key, among the first `k` checks, is the
/// latest one before `k` that was.
proof fn lemma_last_let_through_prefix(
    v: RateLimiterView,
    calls: Seq<(Seq<char>, u128)>,
    key: Seq<char>,
    k: int,
)
    requires
        0 <= k <= calls.len(),
    ensures
        match last_let_through(v, calls.take(k), key) {
            Some(m) => 0 <= m < k && let_through(v, calls, m, key) && forall|q: int|
                m < q < k ==> !#[trigger] let_through(v, calls, q, key),
            None => forall|q: int| 0 <= q < k ==> !#[trigger] let_through(v, calls, q, key),
        },
    decreases k,
{
    if k > 0 {
        lemma_last_let_through_prefix(v, calls, key, k - 1);
        let p = calls.take(k);
        assert(p.drop_last() =~= calls.take(k - 1));
        assert(p[k - 1] == calls[k - 1]);
        if !(p[k - 1].0 == key && alert_allowed(after_checks(v, p.drop_last()), key, p[k - 1].1)) {
            assert(!let_through(v, calls, k - 1, key));
        }
    }
}

/// The answer to check `k` for a fresh limiter: let through unless an
/// earlier check for the same key was let through less than a cooldown
/// before it, with no check for that key let through in between.
proof fn lemma_answer_by_history(v: RateLimiterView, calls: Seq<(Seq<char>, u128)>, k: int)
    requires
        v.last_alert == Map::<Seq<char>, u128>::empty(),
        0 <= k < calls.len(),
    ensures
        answer_at(v, calls, k) == match last_let_through(v, calls.take(k), calls[k].0) {
            Some(m) => nanos_between(calls[m].1, calls[k].1) >= cooldown_nanos(v.cooldown_seconds),
            None => true,
        },
{
    lemma_records_last_let_through(v, calls.take(k), calls[k].0);
    match last_let_through(v, calls.take(k), calls[k].0) {
        Some(m) => {
            assert(calls.take(k)[m] == calls[m]);
        },
        None => {},
    }
}

/// Over any sequence of checks on a fresh limiter made at times that never
/// go back, two checks for the same key that are both let through lie at
/// least a cooldown apart.
pub proof fn lemma_alerts_spaced_by_cooldown(
    v: RateLimiterView,
    calls: Seq<(Seq<char>, u128)>,
    i: int,
    j: int,
)
    requires
        v.last_alert == Map::<Seq<char>, u128>::empty(),
        times_non_decreasing(calls),
        0 <= i < j < calls.len(),
        calls[i].0 == calls[j].0,
        answer_at(v, calls, i),
        answer_at(v, calls, j),
    ensures
        calls[j].1 - calls[i].1 >= cooldown_nanos(v.cooldown_seconds),
{
    let key = calls[j].0;
    lemma_last_let_through_prefix(v, calls, key, j);
    lemma_answer_by_history(v, calls, j);
    assert(let_through(v, calls, i, key));
    match last_let_through(v, calls.take(j), key) {
        Some(m) => {
            assert(i <= m);
            assert(calls[i].1 <= calls[m].1);
            assert(calls[m].1 <= calls[j].1);
        },
        None => {},
    }
}

/// Over any sequence of checks on a fresh limiter made at times that never
/// go back, check `k` is held back exactly when an earlier check for the
/// same key was let through less than a cooldown before it and no check for
/// that key was let through in between.
pub proof fn lemma_held_back_iff_recent_alert(v: RateLimiterView, calls: Seq<(Seq<char>, u128)>, k: int)
    requires
        v.last_alert == Map::<Seq<char>, u128>::empty(),
        times_non_decreasing(calls),
        0 <= k < calls.len(),
    ensures
        !answer_at(v, calls, k) <==> exists|i: int|
            {
                &&& 0 <= i < k
                &&& #[trigger] let_through(v, calls, i, calls[k].0)
                &&& calls[k].1 - calls[i].1 < cooldown_nanos(v.cooldown_seconds)
                &&& forall|q: int| i < q < k ==> !#[trigger] let_through(v, calls, q, calls[k].0)
            },
{
    let key = calls[k].0;
    lemma_last_let_through_prefix(v, calls, key, k);
    lemma_answer_by_history(v, calls, k);
    match last_let_through(v, calls.take(k), key) {
        Some(m) => {
            assert(calls[m].1 <= calls[k].1);
            if exists|i: int|
                {
                    &&& 0 <= i < k
                    &&& #[trigger] let_through(v, calls, i, key)
                    &&& calls[k].1 - calls[i].1 < cooldown_nanos(v.cooldown_seconds)
                    &&& forall|q: int| i < q < k ==> !#[trigger] let_through(v, calls, q, key)
                } {
                let i = choose|i: int|
                    {
                        &&& 0 <= i < k
                        &&& #[trigger] let_through(v, calls, i, key)
                        &&& calls[k].1 - calls[i].1 < cooldown_nanos(v.cooldown_seconds)
                        &&& forall|q: int| i < q < k ==> !#[trigger] let_through(v, calls, q, key)
                    };
                if i < m {
                    assert(!let_through(v, calls, m, key));
                }
                if m < i {
                    assert(!let_through(v, calls, i, key));
                }
                assert(i == m);
            }
        },
        None => {
            if exists|i: int|
                {
                    &&& 0 <= i < k
                    &&& #[trigger] let_through(v, calls, i, key)
                    &&& calls[k].1 - calls[i].1 < cooldown_nanos(v.cooldown_seconds)
                    &&& forall|q: int| i < q < k ==> !#[trigger] let_through(v, calls, q, key)
                } {
                let i = choose|i: int|
                    {
                        &&& 0 <= i < k
                        &&& #[trigger] let_through(v, calls, i, key)
                        &&& calls[k].1 - calls[i].1 < cooldown_nanos(v.cooldown_seconds)
                        &&& forall|q: int| i < q < k ==> !#[trigger] let_through(v, calls, q, key)
                    };
                assert(!let_through(v, calls, i, key));
            }
        },
    }
}

} // verus!

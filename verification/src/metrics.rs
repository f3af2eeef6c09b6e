//! Server-wide counters and the per-key rate limiter.
use vstd::prelude::*;
use std::time::Instant;
use dashmap::DashMap;
use crate::clock::{instant_now, elapsed_nanos, secs_between, seconds_between, whole_seconds, max_duration_nanos, secs_in, Reading, law_seconds_between_readings, law_whole_seconds_of_duration};

verus! {

/// `dashmap::DashMap`, used as the rate limiter's table of windows.
#[verifier::external_type_specification]
#[verifier::external_body]
#[verifier::reject_recursive_types(K)]
#[verifier::reject_recursive_types(V)]
#[verifier::reject_recursive_types(S)]
pub struct ExDashMap<K, V, S>(DashMap<K, V, S>);

/// What the rate limiter's table holds: per key, the start of its window (nanoseconds on the
/// limiter's clock) and the number of requests let through in it.
pub uninterp spec fn rate_windows(m: DashMap<String, (u128, u32)>) -> Map<Seq<char>, (u128, u32)>;

/// `DashMap::new`: the table starts empty.
#[verifier::external_body]
fn rate_windows_new() -> (r: DashMap<String, (u128, u32)>)
    ensures
        rate_windows(r).is_empty(),
{
    DashMap::new()
}

/// `DashMap::get`, copying the value out: the entry of `key`, if there is one.
#[verifier::external_body]
fn rate_windows_get(m: &DashMap<String, (u128, u32)>, key: &str) -> (r: Option<(u128, u32)>)
    ensures
        rate_windows(*m).contains_key(key@) ==> r == Some(rate_windows(*m)[key@]),
        !rate_windows(*m).contains_key(key@) ==> r is None,
{
    m.get(key).map(|e| *e.value())
}

/// `DashMap::insert`: sets the entry of `key`, leaving the others.
#[verifier::external_body]
fn rate_windows_insert(m: &mut DashMap<String, (u128, u32)>, key: String, value: (u128, u32))
    ensures
        rate_windows(*final(m)) == rate_windows(*old(m)).insert(key@, value),
{
    m.insert(key, value);
}


/// Server-wide metrics. The counters wrap around at `u64::MAX`, as atomic `fetch_add` and
/// `fetch_sub` do.
pub struct Metrics {
    pub started_at: Instant,
    pub total_requests: u64,
    pub total_bytes_in: u64,
    pub total_bytes_out: u64,
    pub active_connections: u64,
    pub total_connections: u64,
    pub failed_auth: u64,
    pub rate_limited: u64,
}

/// Metrics as the dashboard reports them.
#[derive(Debug, Clone)]
pub struct MetricsSnapshot {
    pub uptime_secs: u64,
    pub total_requests: u64,
    pub total_bytes_in: u64,
    pub total_bytes_out: u64,
    pub active_connections: u64,
    pub total_connections: u64,
    pub failed_auth: u64,
    pub rate_limited: u64,
}

/// `x + 1`, wrapping at `u64::MAX`.
pub open spec fn wrap_inc(x: u64) -> u64 {
    if x == u64::MAX {
        0
    } else {
        (x + 1) as u64
    }
}

/// `x - 1`, wrapping at zero.
pub open spec fn wrap_dec(x: u64) -> u64 {
    if x == 0 {
        u64::MAX
    } else {
        (x - 1) as u64
    }
}

fn inc(x: u64) -> (r: u64)
    ensures
        r == wrap_inc(x),
{
    if x == u64::MAX {
        0
    } else {
        x + 1
    }
}

fn dec(x: u64) -> (r: u64)
    ensures
        r == wrap_dec(x),
{
    if x == 0 {
        u64::MAX
    } else {
        x - 1
    }
}

/// Opening then closing a stream leaves the count of active connections as it was.
pub proof fn law_open_close_restores_active(x: u64)
    ensures
        wrap_dec(wrap_inc(x)) == x,
{
}

impl Metrics {
    /// All counters at zero; the clock starts now.
    pub fn new() -> (r: Self)
        ensures
            r.total_requests == 0,
            r.total_bytes_in == 0,
            r.total_bytes_out == 0,
            r.active_connections == 0,
            r.total_connections == 0,
            r.failed_auth == 0,
            r.rate_limited == 0,
    {
        Metrics {
            started_at: instant_now(),
            total_requests: 0,
            total_bytes_in: 0,
            total_bytes_out: 0,
            active_connections: 0,
            total_connections: 0,
            failed_auth: 0,
            rate_limited: 0,
        }
    }

    /// The counters as they stand, with `elapsed_ns` nanoseconds since `new` reported as whole
    /// seconds of uptime.
    pub fn snapshot_at(&self, elapsed_ns: u128) -> (r: MetricsSnapshot)
        requires
            elapsed_ns <= max_duration_nanos(),
        ensures
            r.uptime_secs == secs_in(elapsed_ns),
            r.total_requests == self.total_requests,
            r.total_bytes_in == self.total_bytes_in,
            r.total_bytes_out == self.total_bytes_out,
            r.active_connections == self.active_connections,
            r.total_connections == self.total_connections,
            r.failed_auth == self.failed_auth,
            r.rate_limited == self.rate_limited,
    {
        MetricsSnapshot {
            uptime_secs: whole_seconds(elapsed_ns),
            total_requests: self.total_requests,
            total_bytes_in: self.total_bytes_in,
            total_bytes_out: self.total_bytes_out,
            active_connections: self.active_connections,
            total_connections: self.total_connections,
            failed_auth: self.failed_auth,
            rate_limited: self.rate_limited,
        }
    }

    /// The counters as they stand, with the whole seconds since `new`:
    /// [`Metrics::snapshot_at`] at the time elapsed on the clock started by `new`.
    pub fn snapshot(&self) -> (r: MetricsSnapshot)
        ensures
            exists|elapsed_ns: u128|
                elapsed_ns <= max_duration_nanos() && r.uptime_secs == #[trigger] secs_in(elapsed_ns),
            exists|elapsed: Reading|
                elapsed.base() == self.started_at && r.uptime_secs == #[trigger] secs_in(elapsed.nanos()),
            r.total_requests == self.total_requests,
            r.total_bytes_in == self.total_bytes_in,
            r.total_bytes_out == self.total_bytes_out,
            r.active_connections == self.active_connections,
            r.total_connections == self.total_connections,
            r.failed_auth == self.failed_auth,
            r.rate_limited == self.rate_limited,
    {
        let elapsed = elapsed_nanos(&self.started_at);
        let r = self.snapshot_at(elapsed.value());
        assert(r.uptime_secs == secs_in(elapsed.nanos()));
        r
    }

    /// One more public request.
    pub fn record_request(&mut self)
        ensures
            final(self).total_requests == wrap_inc(old(self).total_requests),
            final(self).active_connections == old(self).active_connections,
            final(self).rate_limited == old(self).rate_limited,
            final(self).total_connections == old(self).total_connections,
            final(self).failed_auth == old(self).failed_auth,
            final(self).total_bytes_in == old(self).total_bytes_in,
            final(self).total_bytes_out == old(self).total_bytes_out,
            final(self).started_at == old(self).started_at,
    {
        self.total_requests = inc(self.total_requests);
    }

    /// One more request refused by the rate limiter.
    pub fn record_rate_limited(&mut self)
        ensures
            final(self).rate_limited == wrap_inc(old(self).rate_limited),
            final(self).total_requests == old(self).total_requests,
            final(self).active_connections == old(self).active_connections,
            final(self).total_connections == old(self).total_connections,
            final(self).failed_auth == old(self).failed_auth,
            final(self).total_bytes_in == old(self).total_bytes_in,
            final(self).total_bytes_out == old(self).total_bytes_out,
            final(self).started_at == old(self).started_at,
    {
        self.rate_limited = inc(self.rate_limited);
    }

    /// One more control connection accepted.
    pub fn record_connection(&mut self)
        ensures
            final(self).total_connections == wrap_inc(old(self).total_connections),
            final(self).total_requests == old(self).total_requests,
            final(self).active_connections == old(self).active_connections,
            final(self).rate_limited == old(self).rate_limited,
            final(self).failed_auth == old(self).failed_auth,
            final(self).total_bytes_in == old(self).total_bytes_in,
            final(self).total_bytes_out == old(self).total_bytes_out,
            final(self).started_at == old(self).started_at,
    {
        self.total_connections = inc(self.total_connections);
    }

    /// One more failed authentication.
    pub fn record_failed_auth(&mut self)
        ensures
            final(self).failed_auth == wrap_inc(old(self).failed_auth),
            final(self).total_requests == old(self).total_requests,
            final(self).active_connections == old(self).active_connections,
            final(self).rate_limited == old(self).rate_limited,
            final(self).total_connections == old(self).total_connections,
            final(self).total_bytes_in == old(self).total_bytes_in,
            final(self).total_bytes_out == old(self).total_bytes_out,
            final(self).started_at == old(self).started_at,
    {
        self.failed_auth = inc(self.failed_auth);
    }

    /// A proxied stream opened.
    pub fn stream_opened(&mut self)
        ensures
            final(self).active_connections == wrap_inc(old(self).active_connections),
            final(self).total_requests == old(self).total_requests,
            final(self).rate_limited == old(self).rate_limited,
            final(self).total_connections == old(self).total_connections,
            final(self).failed_auth == old(self).failed_auth,
            final(self).total_bytes_in == old(self).total_bytes_in,
            final(self).total_bytes_out == old(self).total_bytes_out,
            final(self).started_at == old(self).started_at,
    {
        self.active_connections = inc(self.active_connections);
    }

    /// A proxied stream ended.
    pub fn stream_closed(&mut self)
        ensures
            final(self).active_connections == wrap_dec(old(self).active_connections),
            final(self).total_requests == old(self).total_requests,
            final(self).rate_limited == old(self).rate_limited,
            final(self).total_connections == old(self).total_connections,
            final(self).failed_auth == old(self).failed_auth,
            final(self).total_bytes_in == old(self).total_bytes_in,
            final(self).total_bytes_out == old(self).total_bytes_out,
            final(self).started_at == old(self).started_at,
    {
        self.active_connections = dec(self.active_connections);
    }
}

/// One rate-limiter decision: the window of a key after a request at `now` (nanoseconds), and
/// whether the request passes. A key seen for the first time opens a window at `now`. A window
/// that is a whole second old or more restarts with this request; otherwise the request passes
/// while fewer than `max` passed in the window.
pub open spec fn rate_step(window: Option<(u128, u32)>, now: u128, max: u32) -> ((u128, u32), bool) {
    let (start, count) = match window {
        Some(w) => w,
        None => (now, 0u32),
    };
    if secs_between(start, now) >= 1 {
        ((now, 1u32), true)
    } else if count < max {
        ((start, (count + 1) as u32), true)
    } else {
        ((start, count), false)
    }
}

/// The window of `key`, if it has one.
pub open spec fn window_of(m: Map<Seq<char>, (u128, u32)>, key: Seq<char>) -> Option<(u128, u32)> {
    if m.contains_key(key) {
        Some(m[key])
    } else {
        None
    }
}

/// A check of `key` at `now` took the table from `before` to `after` and answered `pass`: with
/// no limit everything passes and nothing is recorded; else the window of `key` is replaced as
/// [`rate_step`] says.
pub open spec fn rate_checked(
    before: Map<Seq<char>, (u128, u32)>,
    after: Map<Seq<char>, (u128, u32)>,
    key: Seq<char>,
    now: u128,
    max: u32,
    pass: bool,
) -> bool {
    if max == 0 {
        pass && after == before
    } else {
        let (nw, p) = rate_step(window_of(before, key), now, max);
        pass == p && after == before.insert(key, nw)
    }
}

/// No window holds more requests than the limit.
pub open spec fn windows_within(m: Map<Seq<char>, (u128, u32)>, max: u32) -> bool {
    forall|k: Seq<char>| m.contains_key(k) ==> m[k].1 <= max
}

/// Simple per-key sliding-window rate limiter.
pub struct RateLimiter {
    max_per_second: u32,
    counters: DashMap<String, (u128, u32)>,
    clock: Instant,
}

impl RateLimiter {
    /// The windows per key.
    pub closed spec fn windows(&self) -> Map<Seq<char>, (u128, u32)> {
        rate_windows(self.counters)
    }

    /// The limit per key and second (zero: no limit).
    pub closed spec fn max(&self) -> u32 {
        self.max_per_second
    }

    /// The start of the limiter's clock, which the window starts and request times are read on.
    pub closed spec fn clock(&self) -> Instant {
        self.clock
    }

    /// A limiter with no windows yet.
    pub fn new(max_per_second: u32) -> (r: Self)
        ensures
            r.max() == max_per_second,
            r.windows().is_empty(),
    {
        RateLimiter { max_per_second, counters: rate_windows_new(), clock: instant_now() }
    }

    /// Whether a request for `key` at `now_ns` on the limiter's clock passes, recording it.
    pub fn check_at(&mut self, key: &str, now_ns: u128) -> (r: bool)
        ensures
            final(self).max() == old(self).max(),
            final(self).clock() == old(self).clock(),
            rate_checked(old(self).windows(), final(self).windows(), key@, now_ns, old(self).max(), r),
    {
        if self.max_per_second == 0 {
            return true;
        }
        let (start, count) = match rate_windows_get(&self.counters, key) {
            Some(w) => w,
            None => (now_ns, 0u32),
        };
        if seconds_between(start, now_ns) >= 1 {
            rate_windows_insert(&mut self.counters, key.to_string(), (now_ns, 1));
            true
        } else if count < self.max_per_second {
            rate_windows_insert(&mut self.counters, key.to_string(), (start, count + 1));
            true
        } else {
            rate_windows_insert(&mut self.counters, key.to_string(), (start, count));
            false
        }
    }

    /// Whether a request for `key` passes now, recording it: [`RateLimiter::check_at`] at the
    /// current reading of the limiter's clock.
    pub fn check(&mut self, key: &str) -> (r: bool)
        ensures
            final(self).max() == old(self).max(),
            exists|now: u128|
                rate_checked(old(self).windows(), final(self).windows(), key@, now, old(self).max(), r),
            final(self).clock() == old(self).clock(),
            exists|now: Reading|
                now.base() == old(self).clock() && #[trigger] rate_checked(
                    old(self).windows(),
                    final(self).windows(),
                    key@,
                    now.nanos(),
                    old(self).max(),
                    r,
                ),
    {
        let now = elapsed_nanos(&self.clock);
        let r = self.check_at(key, now.value());
        assert(rate_checked(old(self).windows(), self.windows(), key@, now.nanos(), old(self).max(), r));
        r
    }
}

/// Every decision keeps each window within the limit.
pub proof fn law_rate_windows_stay_within(
    m: Map<Seq<char>, (u128, u32)>,
    key: Seq<char>,
    now: u128,
    max: u32,
)
    requires
        max > 0,
        windows_within(m, max),
    ensures
        windows_within(m.insert(key, rate_step(window_of(m, key), now, max).0), max),
{
}

/// A refused request finds its window full and less than a second old.
pub proof fn law_refusal_means_full_window(window: Option<(u128, u32)>, now: u128, max: u32)
    requires
        max > 0,
        !rate_step(window, now, max).1,
    ensures
        window matches Some(w) && w.1 >= max && secs_between(w.0, now) == 0,
{
}

/// Within one window, after the first pass the `max` following requests bring the count from 1
/// to `max` and every further one is refused: a key passes at most `max` times a window.
pub proof fn law_window_counts_passes(start: u128, count: u32, now: u128, max: u32)
    requires
        secs_between(start, now) == 0,
    ensures
        rate_step(Some((start, count)), now, max).1 == (count < max),
        count < max ==> rate_step(Some((start, count)), now, max).0 == (start, (count + 1) as u32),
{
}

/// A request of a key whose window began at least one second earlier on the limiter's clock
/// always passes and starts a new window that counts it alone; no other key's window changes.
pub proof fn law_late_request_restarts_window(
    before: Map<Seq<char>, (u128, u32)>,
    after: Map<Seq<char>, (u128, u32)>,
    key: Seq<char>,
    now: u128,
    max: u32,
    pass: bool,
)
    requires
        rate_checked(before, after, key, now, max, pass),
        before.contains_key(key),
        before[key].0 <= now,
        now - before[key].0 >= 1_000_000_000,
    ensures
        pass,
        max > 0 ==> after[key] == (now, 1u32),
        forall|k: Seq<char>| k != key ==> (#[trigger] after.contains_key(k) == before.contains_key(k)) && (
        before.contains_key(k) ==> after[k] == before[k]),
{
    law_seconds_between_readings(before[key].0, now, 1);
}

/// The first request of a key passes and opens a window at its time that counts it.
pub proof fn law_first_request_opens_window(
    before: Map<Seq<char>, (u128, u32)>,
    after: Map<Seq<char>, (u128, u32)>,
    key: Seq<char>,
    now: u128,
    max: u32,
    pass: bool,
)
    requires
        rate_checked(before, after, key, now, max, pass),
        !before.contains_key(key),
        max > 0,
    ensures
        pass,
        after[key] == (now, 1u32),
{
}

/// Within one second of its window's start, a request of a key passes exactly when fewer than
/// `max` requests passed in the window, and then counts one more; a refused one changes nothing.
pub proof fn law_request_within_window(
    before: Map<Seq<char>, (u128, u32)>,
    after: Map<Seq<char>, (u128, u32)>,
    key: Seq<char>,
    now: u128,
    max: u32,
    pass: bool,
)
    requires
        rate_checked(before, after, key, now, max, pass),
        max > 0,
        before.contains_key(key),
        before[key].0 <= now,
        now - before[key].0 < 1_000_000_000,
    ensures
        pass == (before[key].1 < max),
        pass ==> after[key] == (before[key].0, (before[key].1 + 1) as u32),
        !pass ==> after == before,
{
    law_seconds_between_readings(before[key].0, now, 1);
    if !pass {
        assert(after =~= before);
    }
}

/// The uptime of a snapshot is the whole seconds elapsed since the metrics started: `s`
/// seconds and any fraction of a second report `s`.
pub proof fn law_uptime_is_whole_seconds_elapsed(r: MetricsSnapshot, elapsed: u128, s: nat, frac: nat)
    requires
        r.uptime_secs == secs_in(elapsed),
        frac < 1_000_000_000,
        elapsed == s * 1_000_000_000 + frac,
    ensures
        r.uptime_secs == s,
{
    law_whole_seconds_of_duration(s, frac);
}

} // verus!

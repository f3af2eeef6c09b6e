//! Monotonic time, read through `std::time::Instant`.
use vstd::prelude::*;
use std::time::Instant;

verus! {

/// `std::time::Instant`, carried through as an opaque value.
#[verifier::external_type_specification]
#[verifier::external_body]
pub struct ExInstant(Instant);

/// `Instant::clone`: `Instant` is `Copy`, so the clone is the same instant.
pub assume_specification[ <Instant as Clone>::clone ](instant: &Instant) -> (r: Instant)
    ensures
        r == *instant,
;

/// `Instant::now`. Nothing is claimed of the value: it is the time of the call.
#[verifier::external_body]
pub(crate) fn instant_now() -> Instant {
    Instant::now()
}

/// The most nanoseconds a `Duration` can hold: its whole seconds are a `u64` and its
/// sub-second part is below one second.
pub open spec fn max_duration_nanos() -> int {
    (u64::MAX as int + 1) * 1_000_000_000 - 1
}

/// A reading of a monotonic clock: the nanoseconds elapsed since the clock's start `base`, as
/// `Instant::elapsed` gave them. Only [`elapsed_nanos`] makes one, so a reading of a given base
/// is always what that clock showed when it was read.
pub struct Reading {
    base: Instant,
    nanos: u128,
}

impl Reading {
    /// The start of the clock that was read.
    pub closed spec fn base(&self) -> Instant {
        self.base
    }

    /// The nanoseconds the clock showed.
    pub closed spec fn nanos(&self) -> u128 {
        self.nanos
    }

    /// The nanoseconds the clock showed.
    pub fn value(&self) -> (r: u128)
        ensures
            r == self.nanos(),
    {
        self.nanos
    }
}

/// `Instant::elapsed`, in nanoseconds (`Duration::as_nanos`), as a reading of the clock that
/// started at `start`. Nothing is claimed of the value but that it fits a `Duration`: it
/// depends on the time of the call.
#[verifier::external_body]
pub(crate) fn elapsed_nanos(start: &Instant) -> (r: Reading)
    ensures
        r.base() == *start,
        r.nanos() <= max_duration_nanos(),
{
    Reading { base: *start, nanos: start.elapsed().as_nanos() }
}

/// Whole seconds between two readings of one clock in nanoseconds, as
/// `Instant::duration_since(..).as_secs()` gives them (zero when `later` is earlier).
pub open spec fn secs_between(earlier: u128, later: u128) -> nat {
    if later >= earlier {
        ((later - earlier) / 1_000_000_000) as nat
    } else {
        0
    }
}

/// Executable [`secs_between`].
pub fn seconds_between(earlier: u128, later: u128) -> (r: u128)
    ensures
        r == secs_between(earlier, later),
{
    if later >= earlier {
        (later - earlier) / 1_000_000_000
    } else {
        0
    }
}

/// The whole seconds in `nanos` nanoseconds.
pub open spec fn secs_in(nanos: u128) -> int {
    (nanos / 1_000_000_000) as int
}

/// The whole seconds in `nanos` nanoseconds of a `Duration`, as `Duration::as_secs` gives them.
pub fn whole_seconds(nanos: u128) -> (r: u64)
    requires
        nanos <= max_duration_nanos(),
    ensures
        r == secs_in(nanos),
{
    (nanos / 1_000_000_000) as u64
}

/// A duration of `s` seconds and a fraction below one second is `s` whole seconds.
pub proof fn law_whole_seconds_of_duration(s: nat, frac: nat)
    requires
        frac < 1_000_000_000,
        s * 1_000_000_000 + frac <= u128::MAX,
    ensures
        secs_in((s * 1_000_000_000 + frac) as u128) == s,
{
    vstd::arithmetic::div_mod::lemma_fundamental_div_mod_converse(
        (s * 1_000_000_000 + frac) as int,
        1_000_000_000,
        s as int,
        frac as int,
    );
}

/// Between two readings of one clock, at least `s` whole seconds have passed exactly when the
/// later reading is at least `s` seconds' worth of nanoseconds after the earlier one.
pub proof fn law_seconds_between_readings(earlier: u128, later: u128, s: nat)
    requires
        earlier <= later,
    ensures
        secs_between(earlier, later) >= s <==> later - earlier >= s * 1_000_000_000,
{
    let x = (later - earlier) as int;
    let q = x / 1_000_000_000;
    let r = x % 1_000_000_000;
    vstd::arithmetic::div_mod::lemma_fundamental_div_mod(x, 1_000_000_000);
    assert(x == 1_000_000_000 * q + r && 0 <= r < 1_000_000_000);
    assert(q >= s ==> x >= s * 1_000_000_000) by (nonlinear_arith)
        requires
            x == 1_000_000_000 * q + r,
            0 <= r,
    ;
    assert(q < s ==> x < s * 1_000_000_000) by (nonlinear_arith)
        requires
            x == 1_000_000_000 * q + r,
            r < 1_000_000_000,
    ;
}

} // verus!

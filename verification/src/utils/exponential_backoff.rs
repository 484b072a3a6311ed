//! Exponential backoff: a bounded sequence of growing waiting times.
//!
//! Durations are counted in microseconds.

use vstd::prelude::*;

use crate::random::random_in_range;

verus! {

/// `base` raised to the power `exp`.
pub open spec fn power(base: int, exp: nat) -> int
    decreases exp,
{
    if exp == 0 {
        1
    } else {
        base * power(base, (exp - 1) as nat)
    }
}

/// The low 64 bits of `r` (the conversion of a `u128` to a `u64`).
pub open spec fn truncate_to_u64(r: u128) -> u128 {
    (r as u64) as u128
}

/// The largest duration that can be represented, in microseconds
/// (`u64::MAX` seconds and 999 999 microseconds).
pub const MAX_DURATION_MICROS: u128 = 18446744073709551615999999;

/// An exponential backoff strategy based on a start duration and a maximum number of retries.
///
/// The `k`-th emitted duration (counting from zero) is `base^k * start_duration`, optionally
/// randomized into `[d/2, 3d/2)`.
#[derive(Debug, Clone, Copy, PartialEq, Eq)]
pub struct ExponentialBackoff {
    pub base: u32,
    pub max_retries: u32,
    pub current_retries: u32,
    /// Duration of the first retry, in microseconds.
    pub start_duration: u128,
    /// Durations are randomized into `[d/2, 3d/2)`.
    pub randomize: bool,
    /// The backoff stays at its last duration instead of ending.
    pub limit: bool,
    /// A duration was emitted since creation or the last reset.
    pub started: bool,
}

impl ExponentialBackoff {
    /// Whether emitted durations are randomized into `[d/2, 3d/2)`.
    pub open spec fn randomized(&self) -> bool {
        self.randomize
    }

    /// Whether the backoff stays at its last duration instead of ending.
    pub open spec fn limited(&self) -> bool {
        self.limit
    }

    /// The duration (before randomization) of the next retry.
    pub open spec fn step_duration(&self) -> int {
        power(self.base as int, self.current_retries as nat) * self.start_duration
    }

    /// The next call of [next](Self::next) computes its duration without overflow.
    pub open spec fn next_defined(&self) -> bool {
        self.current_retries < self.max_retries ==> {
            &&& power(self.base as int, self.current_retries as nat) <= u32::MAX
            &&& self.step_duration() <= MAX_DURATION_MICROS
            &&& (self.randomized() ==> self.step_duration() >= 1)
        }
    }

    /// The backoff after one more emitted duration: one more retry, except at the last
    /// retry of a limited backoff, which stays.
    pub open spec fn after_next(self) -> Self {
        Self {
            current_retries: if self.limited() && self.current_retries + 1 == self.max_retries {
                self.current_retries
            } else {
                (self.current_retries + 1) as u32
            },
            started: true,
            ..self
        }
    }

    /// The next call of [next](Self::next) emits a duration.
    pub open spec fn has_next(&self) -> bool {
        self.current_retries < self.max_retries
    }

    /// The backoff after a [reset](Self::reset).
    pub open spec fn reset_of(self) -> Self {
        Self { current_retries: 0, started: false, ..self }
    }

    /// The backoff after `k` more calls of [next](Self::next) (calls after the end change
    /// nothing).
    pub open spec fn after_steps(self, k: nat) -> Self
        decreases k,
    {
        if k == 0 {
            self
        } else {
            let b = self.after_steps((k - 1) as nat);
            if b.current_retries < b.max_retries {
                b.after_next()
            } else {
                b
            }
        }
    }

    /// Creates a new [ExponentialBackoff] with default base **2**.
    pub fn with_default_base(max_retries: u32, start_duration: u128) -> (b: Self)
        ensures
            b.base == 2,
            b.max_retries == max_retries,
            b.current_retries == 0,
            b.start_duration == start_duration,
            !b.randomized(),
            !b.limited(),
            !b.started,
    {
        Self::new(2, max_retries, start_duration)
    }

    /// Creates a new randomized [ExponentialBackoff] with default base **2**.
    pub fn random_with_default_base(max_retries: u32, start_duration: u128) -> (b: Self)
        ensures
            b.base == 2,
            b.max_retries == max_retries,
            b.current_retries == 0,
            b.start_duration == start_duration,
            b.randomized(),
            !b.limited(),
            !b.started,
    {
        Self::new_random(2, max_retries, start_duration)
    }

    /// Creates a new [ExponentialBackoff].
    pub fn new(base: u32, max_retries: u32, start_duration: u128) -> (b: Self)
        ensures
            b.base == base,
            b.max_retries == max_retries,
            b.current_retries == 0,
            b.start_duration == start_duration,
            !b.randomized(),
            !b.limited(),
            !b.started,
    {
        Self { base, max_retries, current_retries: 0, start_duration, randomize: false, limit: false, started: false }
    }

    /// Creates a new [ExponentialBackoff] with randomized durations.
    pub fn new_random(base: u32, max_retries: u32, start_duration: u128) -> (b: Self)
        ensures
            b.base == base,
            b.max_retries == max_retries,
            b.current_retries == 0,
            b.start_duration == start_duration,
            b.randomized(),
            !b.limited(),
            !b.started,
    {
        Self { base, max_retries, current_retries: 0, start_duration, randomize: true, limit: false, started: false }
    }

    /// Resets the backoff: the number of performed retries becomes 0, and it is no longer
    /// started.
    pub fn reset(&mut self)
        ensures
            *final(self) == old(self).reset_of(),
    {
        self.current_retries = 0;
        self.started = false;
    }

    /// Once `max_retries` is reached, the duration stays at its last value forever.
    pub fn set_limit(&mut self)
        ensures
            final(self).limited(),
            final(self).randomized() == old(self).randomized(),
            final(self).base == old(self).base,
            final(self).max_retries == old(self).max_retries,
            final(self).current_retries == old(self).current_retries,
            final(self).start_duration == old(self).start_duration,
            final(self).started == old(self).started,
    {
        self.limit = true;
    }

    /// Once `max_retries` is reached, [next](Self::next) returns `None`.
    pub fn clear_limit(&mut self)
        ensures
            !final(self).limited(),
            final(self).randomized() == old(self).randomized(),
            final(self).base == old(self).base,
            final(self).max_retries == old(self).max_retries,
            final(self).current_retries == old(self).current_retries,
            final(self).start_duration == old(self).start_duration,
            final(self).started == old(self).started,
    {
        self.limit = false;
    }

    /// Whether [next](Self::next) was called at least once since creation or the last reset.
    pub fn is_started(&self) -> (started: bool)
        ensures
            started == self.started,
    {
        self.started
    }

    /// Emits the next duration, or `None` once `max_retries` durations were emitted
    /// (never, while the limit is set).
    pub fn next(&mut self) -> (res: Option<u128>)
        requires
            old(self).next_defined(),
        ensures
            res is Some <==> old(self).has_next(),
            old(self).current_retries >= old(self).max_retries ==> res.is_none() && *final(self)
                == *old(self),
            old(self).current_retries < old(self).max_retries ==> {
                let d = old(self).step_duration();
                &&& res.is_some()
                &&& !old(self).randomized() ==> res.unwrap() == d
                &&& old(self).randomized() ==> exists|r: u128|
                    d / 2 <= r < 3 * d / 2 && res.unwrap() == #[trigger] truncate_to_u64(r)
                &&& final(self).current_retries == if old(self).limited()
                    && old(self).current_retries + 1 == old(self).max_retries {
                    old(self).current_retries as int
                } else {
                    old(self).current_retries + 1
                }
                &&& final(self).base == old(self).base
                &&& final(self).max_retries == old(self).max_retries
                &&& final(self).start_duration == old(self).start_duration
                &&& final(self).randomized() == old(self).randomized()
                &&& final(self).limited() == old(self).limited()
                &&& final(self).started
                &&& *final(self) == old(self).after_next()
            },
    {
        if self.current_retries >= self.max_retries {
            return None;
        }
        let factor = pow_u32(self.base, self.current_retries);
        proof {
            assert(factor * self.start_duration <= MAX_DURATION_MICROS);
        }
        let mut duration: u128 = (factor as u128) * self.start_duration;
        if self.randomize {
            let lower_bound = duration / 2;
            let upper_bound = 3 * duration / 2;
            let r = random_in_range(lower_bound, upper_bound);
            duration = (r as u64) as u128;
            assert(duration == truncate_to_u64(r));
        }
        self.current_retries = self.current_retries + 1;
        self.started = true;
        if self.limit && self.current_retries == self.max_retries && self.max_retries > 0 {
            self.current_retries = self.current_retries - 1;
        }
        Some(duration)
    }
}

/// `base` raised to `exp`, for results that fit in a `u32`.
fn pow_u32(base: u32, exp: u32) -> (r: u32)
    requires
        power(base as int, exp as nat) <= u32::MAX,
    ensures
        r == power(base as int, exp as nat),
{
    let mut acc: u32 = 1;
    let mut i: u32 = 0;
    while i < exp
        invariant
            i <= exp,
            acc == power(base as int, i as nat),
            power(base as int, exp as nat) <= u32::MAX,
        decreases exp - i,
    {
        proof {
            let p = power(base as int, i as nat);
            assert(power(base as int, (i + 1) as nat) == base * p);
            lemma_power_le(base as int, (i + 1) as nat, exp as nat);
            assert(acc * base == base * p) by (nonlinear_arith)
                requires acc == p;
        }
        acc = acc * base;
        i = i + 1;
    }
    acc
}

/// Powers of a non-negative base grow with a positive exponent.
proof fn lemma_power_le(base: int, a: nat, b: nat)
    requires
        base >= 0,
        1 <= a <= b,
    ensures
        power(base, a) <= power(base, b),
    decreases b - a,
{
    if a < b {
        lemma_power_le(base, a, (b - 1) as nat);
        lemma_power_nonneg(base, (b - 1) as nat);
        let p = power(base, (b - 1) as nat);
        assert(power(base, b) == base * p);
        if base == 0 {
            lemma_power_zero_base(b);
            lemma_power_zero_base(a);
        } else {
            assert(base * p >= p) by (nonlinear_arith)
                requires base >= 1, p >= 0;
        }
    }
}

proof fn lemma_power_nonneg(base: int, e: nat)
    requires
        base >= 0,
    ensures
        power(base, e) >= 0,
    decreases e,
{
    if e > 0 {
        lemma_power_nonneg(base, (e - 1) as nat);
        assert(base * power(base, (e - 1) as nat) >= 0) by (nonlinear_arith)
            requires base >= 0, power(base, (e - 1) as nat) >= 0;
    }
}

proof fn lemma_power_zero_base(e: nat)
    requires
        e > 0,
    ensures
        power(0, e) == 0,
{
    assert(power(0, e) == 0 * power(0, (e - 1) as nat));
}

/// A backoff without limit, fresh or reset, emits exactly `max_retries` durations: after
/// `k <= max_retries` calls of `next` it has performed `k` retries (so the `k`-th duration
/// was `base^(k-1) * start_duration`), and the call after the last one ends it.
pub proof fn law_emits_max_retries(b: ExponentialBackoff, k: nat)
    requires
        !b.limited(),
        b.current_retries == 0,
        k <= b.max_retries,
    ensures
        b.after_steps(k) == (ExponentialBackoff { current_retries: k as u32, started: b.started || k > 0, ..b }),
    decreases k,
{
    if k > 0 {
        law_emits_max_retries(b, (k - 1) as nat);
    }
}

/// A limited backoff never ends, and once it reached its last retry its duration stays the
/// same forever.
pub proof fn law_limit_holds_forever(b: ExponentialBackoff, k: nat)
    requires
        b.limited(),
        b.current_retries < b.max_retries,
    ensures
        b.after_steps(k).current_retries < b.max_retries,
        b.after_steps(k) == (ExponentialBackoff {
            current_retries: b.after_steps(k).current_retries,
            started: b.started || k > 0,
            ..b
        }),
        b.current_retries + k >= b.max_retries - 1 ==> b.after_steps(k).current_retries == b.max_retries - 1,
        b.current_retries + k < b.max_retries - 1 ==> b.after_steps(k).current_retries == b.current_retries + k,
    decreases k,
{
    if k > 0 {
        law_limit_holds_forever(b, (k - 1) as nat);
    }
}

/// With the limit set, a backoff that has a next duration has one after any number of
/// calls of `next`: `next` never returns `None` (until the limit is cleared).
pub proof fn law_limited_never_ends(b: ExponentialBackoff, k: nat)
    requires
        b.limited(),
        b.has_next(),
    ensures
        b.after_steps(k).has_next(),
        b.after_steps(k).limited(),
{
    law_limit_holds_forever(b, k);
}

/// `next` changes only the retry count and the started flag.
proof fn lemma_steps_keep_config(b: ExponentialBackoff, k: nat)
    ensures
        b.after_steps(k) == (ExponentialBackoff {
            current_retries: b.after_steps(k).current_retries,
            started: b.after_steps(k).started,
            ..b
        }),
    decreases k,
{
    if k > 0 {
        lemma_steps_keep_config(b, (k - 1) as nat);
    }
}

/// A reset undoes any number of calls of `next`: the backoff is as after a reset of the
/// backoff before them (for a new backoff: as new).
pub proof fn law_reset_undoes_next(b: ExponentialBackoff, k: nat)
    ensures
        b.after_steps(k).reset_of() == b.reset_of(),
{
    lemma_steps_keep_config(b, k);
}

} // verus!

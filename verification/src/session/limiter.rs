//! The limit on the messages of a control channel.

use crate::clock::{elapsed, elapsed_nanos, MAX_NANOS, NANOS_PER_SECOND};
use vstd::prelude::*;

verus! {

pub const RATE_PER_SECOND: u32 = 250;

pub const RATE_BURST: u32 = 500;

/// A token bucket. Its credit is counted in billionths of a message, so that a whole rate per
/// second refills it exactly by the nanosecond.
pub struct RateLimiter {
    credit: u128,
    last_refill: u128,
    rate: u32,
    burst: u32,
}

/// What a rate limiter remembers.
pub struct LimiterModel {
    pub credit: int,
    pub last_refill: u128,
    pub rate: u32,
    pub burst: u32,
}

impl LimiterModel {
    /// The credit at a later time: what the time between has brought, up to the burst.
    pub open spec fn refilled(self, now: u128) -> int {
        let full = self.burst * 1_000_000_000;
        let credit = self.credit + elapsed(self.last_refill, now) * self.rate;
        if credit > full {
            full
        } else {
            credit
        }
    }

    /// A message passes where there is credit for it.
    pub open spec fn allows(self, now: u128) -> bool {
        self.refilled(now) >= 1_000_000_000
    }

    /// The limiter behind a message at the given time.
    pub open spec fn after(self, now: u128) -> LimiterModel {
        LimiterModel {
            credit: if self.allows(now) {
                self.refilled(now) - 1_000_000_000
            } else {
                self.refilled(now)
            },
            last_refill: now,
            ..self
        }
    }

    pub open spec fn valid(self) -> bool {
        0 <= self.credit <= self.burst * 1_000_000_000 && self.last_refill <= MAX_NANOS
    }

    /// The limiter behind a list of messages.
    pub open spec fn after_all(self, times: Seq<u128>) -> LimiterModel
        decreases times.len(),
    {
        if times.len() == 0 {
            self
        } else {
            self.after_all(times.drop_last()).after(times.last())
        }
    }

    /// How many of a list of messages pass.
    pub open spec fn passed(self, times: Seq<u128>) -> nat
        decreases times.len(),
    {
        if times.len() == 0 {
            0
        } else {
            self.passed(times.drop_last()) + if self.after_all(times.drop_last()).allows(
                times.last(),
            ) {
                1nat
            } else {
                0nat
            }
        }
    }
}

impl View for RateLimiter {
    type V = LimiterModel;

    closed spec fn view(&self) -> LimiterModel {
        LimiterModel {
            credit: self.credit as int,
            last_refill: self.last_refill,
            rate: self.rate,
            burst: self.burst,
        }
    }
}

impl RateLimiter {
    #[verifier::type_invariant]
    spec fn bounded(self) -> bool {
        self.credit <= self.burst * 1_000_000_000 && self.last_refill <= MAX_NANOS
    }

    /// The limit of a control channel.
    #[must_use]
    pub fn standard(now: u128) -> (limiter: Self)
        requires
            now <= MAX_NANOS,
        ensures
            limiter@ == (LimiterModel {
                credit: RATE_BURST * 1_000_000_000,
                last_refill: now,
                rate: RATE_PER_SECOND,
                burst: RATE_BURST,
            }),
            limiter@.valid(),
    {
        RateLimiter::new(RATE_PER_SECOND, RATE_BURST, now)
    }

    /// A limiter that starts full.
    #[must_use]
    pub fn new(rate: u32, burst: u32, now: u128) -> (limiter: Self)
        requires
            now <= MAX_NANOS,
        ensures
            limiter@ == (LimiterModel {
                credit: burst * 1_000_000_000,
                last_refill: now,
                rate,
                burst,
            }),
            limiter@.valid(),
    {
        RateLimiter {
            credit: (burst as u128) * NANOS_PER_SECOND,
            last_refill: now,
            rate,
            burst,
        }
    }

    /// Lets a message pass and takes its credit, or refuses it for want of credit.
    pub fn allow_at(&mut self, now: u128) -> (allowed: bool)
        requires
            now <= MAX_NANOS,
        ensures
            allowed == old(self)@.allows(now),
            final(self)@ == old(self)@.after(now),
            final(self)@.valid(),
    {
        proof {
            use_type_invariant(&*self);
        }
        let time: u128 = elapsed_nanos(self.last_refill, now);
        let full: u128 = (self.burst as u128) * NANOS_PER_SECOND;
        let rate: u128 = self.rate as u128;
        assert(time * rate <= MAX_NANOS * 0xffff_ffff) by (nonlinear_arith)
            requires
                time <= MAX_NANOS,
                rate <= 0xffff_ffff,
        ;
        let mut credit: u128 = self.credit + time * rate;
        if credit > full {
            credit = full;
        }
        let allowed = credit >= NANOS_PER_SECOND;
        if allowed {
            credit = credit - NANOS_PER_SECOND;
        }
        *self = RateLimiter { credit, last_refill: now, rate: self.rate, burst: self.burst };
        allowed
    }
}

/// However messages arrive, no more pass than the burst and what the rate brings between the
/// first and the last of them.
pub proof fn law_rate_is_bounded(limiter: LimiterModel, times: Seq<u128>)
    requires
        limiter.valid(),
        forall|i: int, j: int| 0 <= i <= j < times.len() ==> times[i] <= times[j],
        forall|i: int| 0 <= i < times.len() ==> limiter.last_refill <= #[trigger] times[i] <= MAX_NANOS,
    ensures
        limiter.after_all(times).valid(),
        times.len() > 0 ==> limiter.after_all(times).last_refill == times.last(),
        limiter.passed(times) * 1_000_000_000 <= limiter.burst * 1_000_000_000 + limiter.rate * (
        limiter.after_all(times).last_refill - limiter.last_refill),
{
    lemma_credit_balance(limiter, times);
}

proof fn lemma_credit_balance(limiter: LimiterModel, times: Seq<u128>)
    requires
        limiter.valid(),
        forall|i: int, j: int| 0 <= i <= j < times.len() ==> times[i] <= times[j],
        forall|i: int| 0 <= i < times.len() ==> limiter.last_refill <= #[trigger] times[i] <= MAX_NANOS,
    ensures
        ({
            let end = limiter.after_all(times);
            &&& end.valid()
            &&& end.rate == limiter.rate
            &&& end.burst == limiter.burst
            &&& end.last_refill == if times.len() > 0 {
                times.last()
            } else {
                limiter.last_refill
            }
            &&& limiter.passed(times) * 1_000_000_000 + end.credit <= limiter.credit + limiter.rate
                * (end.last_refill - limiter.last_refill)
        }),
    decreases times.len(),
{
    if times.len() > 0 {
        let shorter = times.drop_last();
        lemma_credit_balance(limiter, shorter);
        let middle = limiter.after_all(shorter);
        let now = times.last();
        let time = elapsed(middle.last_refill, now);
        assert(times[times.len() - 1] == now);
        if shorter.len() > 0 {
            assert(shorter.last() == times[times.len() - 2]);
        }
        assert(limiter.rate * (now - limiter.last_refill) == limiter.rate * (middle.last_refill
            - limiter.last_refill) + time * limiter.rate) by (nonlinear_arith)
            requires
                time == now - middle.last_refill,
        ;
        assert(time * limiter.rate >= 0) by (nonlinear_arith)
            requires
                time >= 0,
        ;
    } else {
        assert(limiter.rate * (limiter.last_refill - limiter.last_refill) == 0)
            by (nonlinear_arith);
    }
}

/// A limiter that was idle for as long as its rate takes for one message lets one pass.
pub proof fn law_rate_refills(limiter: LimiterModel, now: u128)
    requires
        limiter.valid(),
        limiter.burst > 0,
        elapsed(limiter.last_refill, now) * limiter.rate >= 1_000_000_000,
    ensures
        limiter.allows(now),
{
}

/// A limiter that is full lets a burst of messages pass at once, and no more than that.
pub proof fn law_burst_passes_at_once(limiter: LimiterModel, times: Seq<u128>)
    requires
        limiter.valid(),
        limiter.credit == limiter.burst * 1_000_000_000,
        forall|i: int| 0 <= i < times.len() ==> #[trigger] times[i] == limiter.last_refill,
    ensures
        limiter.passed(times) == if times.len() <= limiter.burst {
            times.len()
        } else {
            limiter.burst as nat
        },
        limiter.after_all(times).credit == (limiter.burst - limiter.passed(times)) * 1_000_000_000,
        limiter.after_all(times).last_refill == limiter.last_refill,
        limiter.after_all(times).burst == limiter.burst,
    decreases times.len(),
{
    if times.len() > 0 {
        let shorter = times.drop_last();
        assert forall|i: int| 0 <= i < shorter.len() implies #[trigger] shorter[i]
            == limiter.last_refill by {
            assert(shorter[i] == times[i]);
        }
        law_burst_passes_at_once(limiter, shorter);
        assert(times[times.len() - 1] == limiter.last_refill);
        let middle = limiter.after_all(shorter);
        assert(elapsed(middle.last_refill, times.last()) * middle.rate == 0) by (nonlinear_arith)
            requires
                elapsed(middle.last_refill, times.last()) == 0,
        ;
    }
}

/// A channel starts with a burst of five hundred messages and gains two hundred and fifty each
/// second: a second after it was empty, so many pass and one more does not.
pub proof fn law_standard_rate(limiter: LimiterModel, now: u128)
    requires
        limiter.rate == RATE_PER_SECOND,
        limiter.burst == RATE_BURST,
        limiter.valid(),
        limiter.last_refill <= now,
    ensures
        limiter.refilled(now) <= 500 * 1_000_000_000,
        limiter.credit + 250 * (now - limiter.last_refill) <= 500 * 1_000_000_000
            ==> limiter.refilled(now) == limiter.credit + 250 * (now - limiter.last_refill),
        limiter.credit + 250 * (now - limiter.last_refill) >= 500 * 1_000_000_000
            ==> limiter.refilled(now) == 500 * 1_000_000_000,
        limiter.allows(now) <==> limiter.refilled(now) >= 1_000_000_000,
        limiter.after(now).credit == limiter.refilled(now) - if limiter.allows(now) {
            1_000_000_000int
        } else {
            0
        },
{
}

} // verus!

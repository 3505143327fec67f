//! The sample clock: a position within a rolling window of one second.

use vstd::prelude::*;

verus! {

/// Counts the samples rendered since the last wrap-around. The position
/// always lies below the sample rate, so it names a point within one second
/// of output.
#[derive(Debug, Clone, Copy, PartialEq, Eq, Structural)]
pub struct SampleClock {
    position: u32,
    sample_rate: u32,
}

/// The clock position `steps` samples after `position`.
pub open spec fn position_after(position: nat, sample_rate: nat, steps: nat) -> nat
    recommends
        sample_rate > 0,
{
    (position + steps) % sample_rate
}

impl SampleClock {
    #[verifier::type_invariant]
    spec fn in_window(self) -> bool {
        self.position < self.sample_rate
    }

    /// The position within the current window, in samples.
    pub closed spec fn position_spec(self) -> nat {
        self.position as nat
    }

    /// The number of samples per second, which is the window's length.
    pub closed spec fn sample_rate_spec(self) -> nat {
        self.sample_rate as nat
    }

    /// The position that follows `position` in a window of `sample_rate`
    /// samples: one further, or zero where that would reach the sample rate.
    pub open spec fn next_position(position: nat, sample_rate: nat) -> nat {
        if position + 1 >= sample_rate {
            0
        } else {
            position + 1
        }
    }

    /// A clock at position zero. A window of no samples has no position, so
    /// a sample rate of zero gives no clock.
    pub fn new(sample_rate: u32) -> (clock: Option<SampleClock>)
        ensures
            sample_rate == 0 <==> clock.is_none(),
            clock.is_some() ==> clock.unwrap().position_spec() == 0
                && clock.unwrap().sample_rate_spec() == sample_rate,
    {
        if sample_rate == 0 {
            None
        } else {
            Some(SampleClock { position: 0, sample_rate })
        }
    }

    /// The position within the current window, in samples.
    pub fn position(&self) -> (position: u32)
        ensures
            position == self.position_spec(),
            position < self.sample_rate_spec(),
    {
        proof {
            use_type_invariant(self);
        }
        self.position
    }

    /// The number of samples per second.
    pub fn sample_rate(&self) -> (sample_rate: u32)
        ensures
            sample_rate == self.sample_rate_spec(),
            sample_rate > 0,
    {
        proof {
            use_type_invariant(self);
        }
        self.sample_rate
    }

    /// Moves the clock on by one sample, back to zero where it would reach
    /// the sample rate.
    pub fn advance(&mut self)
        ensures
            final(self).sample_rate_spec() == old(self).sample_rate_spec(),
            final(self).position_spec() == Self::next_position(
                old(self).position_spec(),
                old(self).sample_rate_spec(),
            ),
    {
        proof {
            use_type_invariant(&*self);
        }
        if self.position + 1 >= self.sample_rate {
            self.position = 0;
        } else {
            self.position = self.position + 1;
        }
    }
}

/// A step of the clock stays within the window, and the step from the last
/// position of the window leads to zero.
pub proof fn lemma_next_position_in_window(position: nat, sample_rate: nat)
    requires
        sample_rate > 0,
    ensures
        SampleClock::next_position(position, sample_rate) < sample_rate,
        position + 1 == sample_rate ==> SampleClock::next_position(position, sample_rate) == 0,
        position + 1 < sample_rate ==> SampleClock::next_position(position, sample_rate)
            == position + 1,
{
}

/// One step of the clock leads from the position after `steps` samples to
/// the position after one more.
pub proof fn lemma_position_step(position: nat, sample_rate: nat, steps: nat)
    requires
        sample_rate > 0,
    ensures
        SampleClock::next_position(position_after(position, sample_rate, steps), sample_rate)
            == position_after(position, sample_rate, steps + 1),
        position_after(position, sample_rate, steps) < sample_rate,
{
    let total = (position + steps) as int;
    let rate = sample_rate as int;
    vstd::arithmetic::div_mod::lemma_fundamental_div_mod(total, rate);
    vstd::arithmetic::div_mod::lemma_mod_bound(total, rate);
    let quotient = total / rate;
    let rest = total % rate;
    if rest + 1 < rate {
        vstd::arithmetic::div_mod::lemma_fundamental_div_mod_converse(
            total + 1,
            rate,
            quotient,
            rest + 1,
        );
    } else {
        assert(total + 1 == rate * (quotient + 1)) by (nonlinear_arith)
            requires
                total == rate * quotient + rest,
                rest + 1 == rate,
        ;
        vstd::arithmetic::div_mod::lemma_fundamental_div_mod_converse(
            total + 1,
            rate,
            quotient + 1,
            0,
        );
    }
}

} // verus!

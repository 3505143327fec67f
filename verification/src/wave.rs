//! The waveform generator: the value of a wave of a given shape at a given
//! sample, computed without rounding.
//!
//! Frequencies are whole hundredths of a hertz and clock positions are whole
//! samples, so the phase of a wave is a fraction of integers. The triangle,
//! the sawtooth and the square are linear in the phase, and their values are
//! fractions too. The sine is a whole number at the four quarter turns and
//! is given exactly there; elsewhere the generator hands out the phase whose
//! sine the value is, for the caller to take.

use vstd::math::abs;
use vstd::prelude::*;

verus! {

/// The number of frequency units in one hertz.
pub const FREQ_UNITS_PER_HERTZ: u64 = 100;

/// The family of periodic functions that a voice is drawn from.
#[derive(Debug, Clone, Copy, PartialEq, Eq, Structural)]
pub enum WaveShape {
    Sine,
    Triangle,
    Saw,
    Square,
}

/// A point within one period of a wave: the fraction `ticks / period` of a
/// full turn.
#[derive(Debug, Clone, Copy, PartialEq, Eq, Structural)]
pub struct Phase {
    pub ticks: u64,
    pub period: u64,
}

/// The fraction `numer / denom`.
#[derive(Debug, Clone, Copy, PartialEq, Eq, Structural)]
pub struct Amplitude {
    pub numer: i64,
    pub denom: u64,
}

/// The value of one voice at one sample.
#[derive(Debug, Clone, Copy, PartialEq, Eq, Structural)]
pub enum Sample {
    /// The value is this fraction.
    Exact(Amplitude),
    /// The value is the sine of this phase, taken as a fraction of a full
    /// turn.
    SineOf(Phase),
}

impl Phase {
    /// The phase lies within one period: at or after its start and before
    /// its end.
    pub open spec fn is_valid(self) -> bool {
        self.ticks < self.period
    }
}

impl Amplitude {
    /// The fraction has a denominator and lies between minus one and one.
    pub open spec fn within_unit(self) -> bool {
        self.denom > 0 && -self.denom <= self.numer <= self.denom
    }
}

impl Sample {
    /// A fraction lies between minus one and one, and a sine is taken of a
    /// phase within its period.
    pub open spec fn is_well_formed(self) -> bool {
        match self {
            Sample::Exact(amplitude) => amplitude.within_unit(),
            Sample::SineOf(phase) => phase.is_valid(),
        }
    }
}

/// The length of one second in phase ticks, which is what every phase at
/// this sample rate is a fraction of.
pub open spec fn period_spec(sample_rate: nat) -> nat {
    FREQ_UNITS_PER_HERTZ as nat * sample_rate
}

/// The phase of a wave of frequency `freq`, in hundredths of a hertz, after
/// `clock` samples at `sample_rate` samples per second: the fractional part
/// of the number of periods that have passed.
pub open spec fn phase_spec(clock: nat, freq: nat, sample_rate: nat) -> Phase {
    Phase {
        ticks: ((clock * freq) % period_spec(sample_rate)) as u64,
        period: period_spec(sample_rate) as u64,
    }
}

impl WaveShape {
    /// The numerator, over the phase's period, of the shape's value at a
    /// phase, where that value is a fraction.
    ///
    /// The sawtooth rises from minus one to one over the period. The square
    /// is one in the first half of the period and minus one in the second.
    /// The triangle falls from one to minus one over the first half and
    /// rises back over the second. The sine is zero at the start and at the
    /// half of the period, one at the first quarter and minus one at the
    /// third; at any other phase it has no numerator.
    pub open spec fn exact_numer(self, phase: Phase) -> Option<int> {
        match self {
            WaveShape::Saw => Some(2 * phase.ticks - phase.period),
            WaveShape::Square => Some(
                if 2 * phase.ticks < phase.period {
                    phase.period as int
                } else {
                    -(phase.period as int)
                },
            ),
            WaveShape::Triangle => Some(abs(4 * phase.ticks - 2 * phase.period) - phase.period),
            WaveShape::Sine => if phase.ticks == 0 || 2 * phase.ticks == phase.period {
                Some(0)
            } else if 4 * phase.ticks == phase.period {
                Some(phase.period as int)
            } else if 4 * phase.ticks == 3 * phase.period {
                Some(-(phase.period as int))
            } else {
                None
            },
        }
    }

    /// The value of the shape at a phase.
    pub open spec fn value_at(self, phase: Phase) -> Sample {
        match self.exact_numer(phase) {
            Some(numer) => Sample::Exact(Amplitude { numer: numer as i64, denom: phase.period }),
            None => Sample::SineOf(phase),
        }
    }

    /// The value of a wave of this shape and of frequency `freq`, in
    /// hundredths of a hertz, after `clock` samples at `sample_rate` samples
    /// per second.
    pub open spec fn sample_spec(self, clock: nat, freq: nat, sample_rate: nat) -> Sample {
        self.value_at(phase_spec(clock, freq, sample_rate))
    }
}

/// The period and the phase fit their fields, and the phase lies within the
/// period.
pub proof fn lemma_phase_valid(clock: nat, freq: nat, sample_rate: nat)
    requires
        clock <= u32::MAX,
        freq <= u32::MAX,
        0 < sample_rate <= u32::MAX,
    ensures
        0 < period_spec(sample_rate) <= 100 * u32::MAX,
        phase_spec(clock, freq, sample_rate).period == period_spec(sample_rate),
        phase_spec(clock, freq, sample_rate).ticks == (clock * freq) % period_spec(sample_rate),
        phase_spec(clock, freq, sample_rate).is_valid(),
{
    let period = period_spec(sample_rate);
    assert(clock * freq >= 0) by (nonlinear_arith)
        requires
            clock >= 0,
            freq >= 0,
    ;
    vstd::arithmetic::div_mod::lemma_mod_bound((clock * freq) as int, period as int);
}

/// The value of a shape at a phase within its period is well formed: where
/// it is a fraction, it is one of the period and lies between minus one and
/// one, and only the sine is anything else.
pub proof fn lemma_value_in_range(shape: WaveShape, phase: Phase)
    requires
        phase.is_valid(),
        phase.period <= i64::MAX,
    ensures
        shape.value_at(phase).is_well_formed(),
        shape != WaveShape::Sine ==> shape.value_at(phase) is Exact,
        shape.value_at(phase) matches Sample::Exact(amplitude) ==> {
            &&& shape.exact_numer(phase) == Some(amplitude.numer as int)
            &&& amplitude.denom == phase.period
            &&& -phase.period <= amplitude.numer <= phase.period
        },
        shape.value_at(phase) matches Sample::SineOf(shifted) ==> {
            &&& shape == WaveShape::Sine
            &&& shifted == phase
        },
{
}

/// Every sample of every shape is well formed. The three linear shapes'
/// samples are fractions between minus one and one, and so is the sine's
/// wherever it is a fraction.
pub proof fn lemma_sample_in_range(shape: WaveShape, clock: nat, freq: nat, sample_rate: nat)
    requires
        clock <= u32::MAX,
        freq <= u32::MAX,
        0 < sample_rate <= u32::MAX,
    ensures
        shape.sample_spec(clock, freq, sample_rate).is_well_formed(),
        shape != WaveShape::Sine ==> shape.sample_spec(clock, freq, sample_rate) is Exact,
        shape.sample_spec(clock, freq, sample_rate) matches Sample::Exact(amplitude) ==> {
            &&& amplitude.denom == period_spec(sample_rate)
            &&& -period_spec(sample_rate) <= amplitude.numer <= period_spec(sample_rate)
        },
        shape.sample_spec(clock, freq, sample_rate) matches Sample::SineOf(phase) ==> {
            &&& shape == WaveShape::Sine
            &&& phase == phase_spec(clock, freq, sample_rate)
        },
{
    lemma_phase_valid(clock, freq, sample_rate);
    lemma_value_in_range(shape, phase_spec(clock, freq, sample_rate));
}

/// At clock position zero the sine is exactly zero, whatever the frequency
/// and the sample rate.
pub proof fn lemma_sine_starts_at_zero(freq: nat, sample_rate: nat)
    requires
        0 < sample_rate <= u32::MAX,
    ensures
        WaveShape::Sine.sample_spec(0, freq, sample_rate) == Sample::Exact(
            Amplitude { numer: 0, denom: period_spec(sample_rate) as u64 },
        ),
{
    assert(0 * freq == 0) by (nonlinear_arith);
    vstd::arithmetic::div_mod::lemma_small_mod(0, period_spec(sample_rate));
}

/// The square is exactly one in the first half of the period and exactly
/// minus one in the second.
pub proof fn lemma_square_halves(phase: Phase)
    requires
        phase.is_valid(),
        phase.period <= i64::MAX,
    ensures
        WaveShape::Square.value_at(phase) matches Sample::Exact(amplitude) && {
            &&& amplitude.denom == phase.period
            &&& 2 * phase.ticks < phase.period ==> amplitude.numer == amplitude.denom
            &&& 2 * phase.ticks >= phase.period ==> amplitude.numer == -amplitude.denom
        },
{
}

/// The phase of a wave after `clock` samples.
pub fn phase(clock: u32, freq: u32, sample_rate: u32) -> (phase: Phase)
    requires
        sample_rate > 0,
    ensures
        phase == phase_spec(clock as nat, freq as nat, sample_rate as nat),
        phase.is_valid(),
{
    proof {
        lemma_phase_valid(clock as nat, freq as nat, sample_rate as nat);
        assert(clock * freq <= u32::MAX * u32::MAX) by (nonlinear_arith)
            requires
                0 <= clock <= u32::MAX,
                0 <= freq <= u32::MAX,
        ;
    }
    let period: u64 = FREQ_UNITS_PER_HERTZ * (sample_rate as u64);
    let turns: u64 = (clock as u64) * (freq as u64);
    Phase { ticks: turns % period, period }
}

impl WaveShape {
    /// The value of the shape at a phase.
    pub fn at_phase(&self, phase: Phase) -> (sample: Sample)
        requires
            phase.is_valid(),
            phase.period <= i64::MAX,
        ensures
            sample == self.value_at(phase),
            sample.is_well_formed(),
    {
        let ticks: i128 = phase.ticks as i128;
        let period: i128 = phase.period as i128;
        let numer: Option<i128> = match self {
            WaveShape::Saw => Some(2 * ticks - period),
            WaveShape::Square => if 2 * ticks < period {
                Some(period)
            } else {
                Some(-period)
            },
            WaveShape::Triangle => {
                let offset: i128 = 4 * ticks - 2 * period;
                if offset < 0 {
                    Some(-offset - period)
                } else {
                    Some(offset - period)
                }
            },
            WaveShape::Sine => if ticks == 0 || 2 * ticks == period {
                Some(0)
            } else if 4 * ticks == period {
                Some(period)
            } else if 4 * ticks == 3 * period {
                Some(-period)
            } else {
                None
            },
        };
        match numer {
            Some(numer) => Sample::Exact(Amplitude { numer: numer as i64, denom: phase.period }),
            None => Sample::SineOf(phase),
        }
    }

    /// The value of a wave of this shape and of frequency `freq`, in
    /// hundredths of a hertz, after `sample_clock` samples at `sample_rate`
    /// samples per second.
    pub fn generate_sample(
        &self,
        sample_clock: u32,
        freq: u32,
        sample_rate: u32,
    ) -> (sample: Sample)
        requires
            sample_rate > 0,
        ensures
            sample == self.sample_spec(sample_clock as nat, freq as nat, sample_rate as nat),
            sample.is_well_formed(),
    {
        proof {
            lemma_phase_valid(sample_clock as nat, freq as nat, sample_rate as nat);
        }
        self.at_phase(phase(sample_clock, freq, sample_rate))
    }
}

impl Default for WaveShape {
    /// The shape that sounds before any is chosen: the sine.
    fn default() -> (shape: WaveShape)
        ensures
            shape == WaveShape::Sine,
    {
        WaveShape::Sine
    }
}

} // verus!

//! The mixer: what one output slot holds for a set of held notes, and the
//! filling of a buffer slot by slot while the sample clock runs on.

use crate::clock::{lemma_position_step, position_after, SampleClock};
use crate::note::{lemma_rising_fits_table, strictly_rising, Note, NOTE_COUNT};
use crate::wave::{
    lemma_phase_valid, lemma_sample_in_range, period_spec, phase_spec, Amplitude, Phase, Sample,
    WaveShape,
};
use vstd::prelude::*;

verus! {

/// The numerator of the master gain, which is a fifth.
pub const GAIN_NUMER: u64 = 1;

/// The denominator of the master gain.
pub const GAIN_DENOM: u64 = 5;

/// The held notes and the selected shape as they stood when the copy was
/// taken. The notes stand lowest first and none stands twice.
#[derive(Debug)]
pub struct Snapshot {
    notes: Vec<Note>,
    shape: WaveShape,
}

/// What one output slot holds, as contracts see it.
pub enum Mixed {
    /// The slot's value is this fraction.
    Exact(Amplitude),
    /// The slot's value is the gain times the mean of the sines of these
    /// phases, one for each voice.
    Sines(Seq<Phase>),
}

/// What one output slot holds.
#[derive(Debug, Clone, PartialEq, Eq)]
pub enum Frame {
    /// The slot's value is this fraction.
    Exact(Amplitude),
    /// The slot's value is the gain times the mean of the sines of these
    /// phases, one for each voice.
    Sines(Vec<Phase>),
}

impl Mixed {
    /// A fraction lies within the gain of zero, and sines are taken of
    /// phases within their periods.
    pub open spec fn within_gain(self) -> bool {
        match self {
            Mixed::Exact(amplitude) => {
                &&& amplitude.denom > 0
                &&& -(GAIN_NUMER * amplitude.denom) <= GAIN_DENOM * amplitude.numer
                &&& GAIN_DENOM * amplitude.numer <= GAIN_NUMER * amplitude.denom
            },
            Mixed::Sines(phases) => forall|i: int|
                0 <= i < phases.len() ==> (#[trigger] phases[i]).is_valid(),
        }
    }
}

impl View for Frame {
    type V = Mixed;

    open spec fn view(&self) -> Mixed {
        match self {
            Frame::Exact(amplitude) => Mixed::Exact(*amplitude),
            Frame::Sines(phases) => Mixed::Sines(phases@),
        }
    }
}

/// The phase of each voice at a clock position.
pub open spec fn voice_phases(notes: Seq<Note>, position: nat, sample_rate: nat) -> Seq<Phase> {
    Seq::new(notes.len(), |i: int| phase_spec(position, notes[i].freq_spec(), sample_rate))
}

/// The value of each voice at a clock position.
pub open spec fn voice_samples(
    notes: Seq<Note>,
    shape: WaveShape,
    position: nat,
    sample_rate: nat,
) -> Seq<Sample> {
    Seq::new(
        notes.len(),
        |i: int| shape.sample_spec(position, notes[i].freq_spec(), sample_rate),
    )
}

/// Every sample is a fraction.
pub open spec fn all_exact(samples: Seq<Sample>) -> bool {
    forall|i: int| 0 <= i < samples.len() ==> samples[i] is Exact
}

/// The sum of the numerators of the samples that are fractions.
pub open spec fn numer_sum(samples: Seq<Sample>) -> int
    decreases samples.len(),
{
    if samples.len() == 0 {
        0
    } else {
        numer_sum(samples.drop_last()) + match samples.last() {
            Sample::Exact(amplitude) => amplitude.numer as int,
            Sample::SineOf(_) => 0,
        }
    }
}

/// What an output slot holds when `notes` sound with `shape` at a clock
/// position.
///
/// With no voice the slot is silent. Otherwise its value is the mean of the
/// voices' values times the gain: a fraction where every voice's value is
/// one, and else the sines that are left to take.
pub open spec fn mix_spec(
    notes: Seq<Note>,
    shape: WaveShape,
    position: nat,
    sample_rate: nat,
) -> Mixed {
    let samples = voice_samples(notes, shape, position, sample_rate);
    if notes.len() == 0 {
        Mixed::Exact(Amplitude { numer: 0, denom: 1 })
    } else if all_exact(samples) {
        Mixed::Exact(
            Amplitude {
                numer: (GAIN_NUMER * numer_sum(samples)) as i64,
                denom: (GAIN_DENOM * notes.len() * period_spec(sample_rate)) as u64,
            },
        )
    } else {
        Mixed::Sines(voice_phases(notes, position, sample_rate))
    }
}

/// The sum of the numerators lies within as many periods as there are
/// samples, where each fraction lies within one.
pub proof fn lemma_numer_sum_bound(samples: Seq<Sample>, period: nat)
    requires
        forall|i: int|
            0 <= i < samples.len() ==> (#[trigger] samples[i] matches Sample::Exact(amplitude)
                ==> -period <= amplitude.numer <= period),
    ensures
        -(samples.len() * period) <= numer_sum(samples) <= samples.len() * period,
    decreases samples.len(),
{
    if samples.len() > 0 {
        let front = samples.drop_last();
        assert forall|i: int| 0 <= i < front.len() implies (#[trigger] front[i] matches Sample::Exact(
            amplitude,
        ) ==> -period <= amplitude.numer <= period) by {
            assert(front[i] == samples[i]);
        }
        lemma_numer_sum_bound(front, period);
        assert(samples.len() * period == front.len() * period + period) by (nonlinear_arith)
            requires
                samples.len() == front.len() + 1,
        ;
        assert(samples.last() == samples[samples.len() - 1]);
    }
}

/// With one more sample taken in, the sum grows by that sample's numerator
/// if it has one, and the samples are all fractions if they were before and
/// the new one is one.
pub proof fn lemma_one_more_sample(samples: Seq<Sample>, taken: int)
    requires
        0 <= taken < samples.len(),
    ensures
        numer_sum(samples.take(taken + 1)) == numer_sum(samples.take(taken)) + match samples[taken] {
            Sample::Exact(amplitude) => amplitude.numer as int,
            Sample::SineOf(_) => 0,
        },
        all_exact(samples.take(taken + 1)) <==> all_exact(samples.take(taken))
            && samples[taken] is Exact,
{
    let before = samples.take(taken);
    let now = samples.take(taken + 1);
    assert(now.drop_last() =~= before);
    assert(now.last() == samples[taken]);
    if all_exact(before) && samples[taken] is Exact {
        assert forall|i: int| 0 <= i < now.len() implies now[i] is Exact by {
            if i < taken {
                assert(now[i] == before[i]);
            }
        }
    }
    if all_exact(now) {
        assert(now[taken] is Exact);
        assert forall|i: int| 0 <= i < before.len() implies before[i] is Exact by {
            assert(before[i] == now[i]);
        }
    }
}

/// With no voice the slot is silent, whatever the shape.
pub proof fn lemma_silence_without_voices(shape: WaveShape, position: nat, sample_rate: nat)
    ensures
        mix_spec(Seq::<Note>::empty(), shape, position, sample_rate) == Mixed::Exact(
            Amplitude { numer: 0, denom: 1 },
        ),
{
}

/// With any voices the slot's value lies within the gain of zero wherever
/// it is a fraction; where it is not, the shape is the sine and there is one
/// phase for each voice, each within its period.
pub proof fn lemma_mix_within_gain(
    notes: Seq<Note>,
    shape: WaveShape,
    position: nat,
    sample_rate: nat,
)
    requires
        0 < notes.len() <= NOTE_COUNT,
        position <= u32::MAX,
        0 < sample_rate <= u32::MAX,
    ensures
        mix_spec(notes, shape, position, sample_rate) matches Mixed::Exact(amplitude) ==> {
            &&& amplitude.numer == GAIN_NUMER * numer_sum(
                voice_samples(notes, shape, position, sample_rate),
            )
            &&& amplitude.denom == GAIN_DENOM * notes.len() * period_spec(sample_rate)
            &&& amplitude.denom > 0
            &&& -(GAIN_NUMER * amplitude.denom) <= GAIN_DENOM * amplitude.numer <= GAIN_NUMER
                * amplitude.denom
        },
        mix_spec(notes, shape, position, sample_rate) matches Mixed::Sines(phases) ==> {
            &&& shape == WaveShape::Sine
            &&& phases.len() == notes.len()
            &&& forall|i: int| 0 <= i < phases.len() ==> (#[trigger] phases[i]).is_valid()
        },
        shape != WaveShape::Sine ==> mix_spec(notes, shape, position, sample_rate) is Exact,
        mix_spec(notes, shape, position, sample_rate).within_gain(),
{
    let samples = voice_samples(notes, shape, position, sample_rate);
    let period = period_spec(sample_rate);
    assert forall|i: int| 0 <= i < samples.len() implies (#[trigger] samples[i] matches Sample::Exact(
        amplitude,
    ) ==> -period <= amplitude.numer <= period) by {
        lemma_sample_in_range(shape, position, notes[i].freq_spec(), sample_rate);
    }
    lemma_numer_sum_bound(samples, period);
    assert forall|i: int| 0 <= i < notes.len() implies (#[trigger] voice_phases(
        notes,
        position,
        sample_rate,
    )[i]).is_valid() by {
        lemma_phase_valid(position, notes[i].freq_spec(), sample_rate);
    }
    if shape != WaveShape::Sine {
        assert forall|i: int| 0 <= i < samples.len() implies samples[i] is Exact by {
            lemma_sample_in_range(shape, position, notes[i].freq_spec(), sample_rate);
        }
    }
    assert(notes.len() * period <= 30 * period) by (nonlinear_arith)
        requires
            notes.len() <= 30,
    ;
    assert(notes.len() * period > 0) by (nonlinear_arith)
        requires
            notes.len() > 0,
            period > 0,
    ;
    assert(GAIN_DENOM * notes.len() * period == 5 * (notes.len() * period)) by (nonlinear_arith);
}

impl Snapshot {
    #[verifier::type_invariant]
    spec fn in_order(self) -> bool {
        strictly_rising(self.notes@)
    }

    /// The notes of the snapshot, lowest first.
    pub closed spec fn notes_spec(self) -> Seq<Note> {
        self.notes@
    }

    /// The shape of the snapshot.
    pub closed spec fn shape_spec(self) -> WaveShape {
        self.shape
    }

    /// A snapshot of notes that stand lowest first, none twice.
    pub(crate) fn of_rising(notes: Vec<Note>, shape: WaveShape) -> (snapshot: Snapshot)
        requires
            strictly_rising(notes@),
        ensures
            snapshot.notes_spec() == notes@,
            snapshot.shape_spec() == shape,
    {
        Snapshot { notes, shape }
    }

    /// The notes of the snapshot, lowest first.
    pub fn notes(&self) -> (notes: &Vec<Note>)
        ensures
            notes@ == self.notes_spec(),
            strictly_rising(notes@),
            notes@.len() <= NOTE_COUNT,
    {
        proof {
            use_type_invariant(self);
            lemma_rising_fits_table(self.notes@);
        }
        &self.notes
    }

    /// The shape of the snapshot.
    pub fn shape(&self) -> (shape: WaveShape)
        ensures
            shape == self.shape_spec(),
    {
        self.shape
    }

    /// What the output slot at the clock's position holds.
    pub fn mix_at(&self, clock: &SampleClock) -> (frame: Frame)
        ensures
            frame@ == mix_spec(
                self.notes_spec(),
                self.shape_spec(),
                clock.position_spec(),
                clock.sample_rate_spec(),
            ),
            frame@.within_gain(),
    {
        proof {
            use_type_invariant(self);
            lemma_rising_fits_table(self.notes@);
        }
        let position = clock.position();
        let sample_rate = clock.sample_rate();
        let count = self.notes.len();
        proof {
            if count > 0 {
                lemma_mix_within_gain(
                    self.notes@,
                    self.shape,
                    position as nat,
                    sample_rate as nat,
                );
            }
        }
        if count == 0 {
            return Frame::Exact(Amplitude { numer: 0, denom: 1 });
        }
        let ghost samples = voice_samples(
            self.notes@,
            self.shape,
            position as nat,
            sample_rate as nat,
        );
        let ghost all_phases = voice_phases(self.notes@, position as nat, sample_rate as nat);
        let ghost period = period_spec(sample_rate as nat);
        let mut phases: Vec<Phase> = Vec::new();
        let mut sum: i64 = 0;
        let mut exact = true;
        let mut index: usize = 0;
        while index < count
            invariant
                count == self.notes@.len(),
                count <= NOTE_COUNT,
                sample_rate > 0,
                index <= count,
                samples == voice_samples(
                    self.notes@,
                    self.shape,
                    position as nat,
                    sample_rate as nat,
                ),
                all_phases == voice_phases(self.notes@, position as nat, sample_rate as nat),
                period == period_spec(sample_rate as nat),
                phases@ == all_phases.take(index as int),
                exact == all_exact(samples.take(index as int)),
                sum == numer_sum(samples.take(index as int)),
                -(index * period) <= sum <= index * period,
            decreases count - index,
        {
            let freq = self.notes[index].freq();
            let phase = crate::wave::phase(position, freq, sample_rate);
            let sample = self.shape.at_phase(phase);
            proof {
                lemma_phase_valid(position as nat, freq as nat, sample_rate as nat);
                assert(sample == samples[index as int]);
                assert(all_phases.take(index + 1) =~= all_phases.take(index as int).push(phase));
                lemma_one_more_sample(samples, index as int);
                assert((index + 1) * period == index * period + period) by (nonlinear_arith);
                assert(index * period <= 30 * period) by (nonlinear_arith)
                    requires
                        index <= 30,
                ;
            }
            match sample {
                Sample::Exact(amplitude) => {
                    sum = sum + amplitude.numer;
                },
                Sample::SineOf(_) => {
                    exact = false;
                },
            }
            phases.push(phase);
            index = index + 1;
        }
        proof {
            assert(samples.take(count as int) =~= samples);
            assert(all_phases.take(count as int) =~= all_phases);
            assert(count * period <= 30 * period) by (nonlinear_arith)
                requires
                    count <= 30,
            ;
            assert(GAIN_DENOM * count * period == 5 * (count * period)) by (nonlinear_arith);
        }
        if exact {
            let period: u64 = crate::wave::FREQ_UNITS_PER_HERTZ * (sample_rate as u64);
            let denom: u64 = GAIN_DENOM * (count as u64) * period;
            Frame::Exact(Amplitude { numer: (GAIN_NUMER as i64) * sum, denom })
        } else {
            Frame::Sines(phases)
        }
    }

    /// Fills `len` output slots, one for each clock position from the
    /// clock's own onwards, and leaves the clock at the position after the
    /// last of them.
    pub fn render(&self, clock: &mut SampleClock, len: usize) -> (frames: Vec<Frame>)
        ensures
            frames@.len() == len,
            forall|i: int|
                0 <= i < len ==> (#[trigger] frames@[i])@ == mix_spec(
                    self.notes_spec(),
                    self.shape_spec(),
                    position_after(
                        old(clock).position_spec(),
                        old(clock).sample_rate_spec(),
                        i as nat,
                    ),
                    old(clock).sample_rate_spec(),
                ),
            forall|i: int| 0 <= i < len ==> (#[trigger] frames@[i])@.within_gain(),
            final(clock).sample_rate_spec() == old(clock).sample_rate_spec(),
            final(clock).position_spec() == position_after(
                old(clock).position_spec(),
                old(clock).sample_rate_spec(),
                len as nat,
            ),
    {
        let start = clock.position();
        let sample_rate = clock.sample_rate();
        proof {
            vstd::arithmetic::div_mod::lemma_small_mod(start as nat, sample_rate as nat);
        }
        let mut frames: Vec<Frame> = Vec::new();
        let mut filled: usize = 0;
        while filled < len
            invariant
                filled <= len,
                sample_rate > 0,
                start == old(clock).position_spec(),
                sample_rate == old(clock).sample_rate_spec(),
                clock.sample_rate_spec() == sample_rate,
                clock.position_spec() == position_after(
                    start as nat,
                    sample_rate as nat,
                    filled as nat,
                ),
                frames@.len() == filled,
                forall|i: int|
                    0 <= i < filled ==> (#[trigger] frames@[i])@ == mix_spec(
                        self.notes_spec(),
                        self.shape_spec(),
                        position_after(start as nat, sample_rate as nat, i as nat),
                        sample_rate as nat,
                    ),
                forall|i: int| 0 <= i < filled ==> (#[trigger] frames@[i])@.within_gain(),
            decreases len - filled,
        {
            let frame = self.mix_at(clock);
            frames.push(frame);
            proof {
                lemma_position_step(start as nat, sample_rate as nat, filled as nat);
            }
            clock.advance();
            filled = filled + 1;
        }
        frames
    }
}

} // verus!

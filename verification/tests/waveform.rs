use stardust::wave::{phase, Amplitude, Phase, Sample, WaveShape, FREQ_UNITS_PER_HERTZ};

const SHAPES: [WaveShape; 4] =
    [WaveShape::Sine, WaveShape::Triangle, WaveShape::Saw, WaveShape::Square];

fn exact(numer: i64, denom: u64) -> Sample {
    Sample::Exact(Amplitude { numer, denom })
}

fn value(sample: Sample) -> f64 {
    match sample {
        Sample::Exact(amplitude) => amplitude.numer as f64 / amplitude.denom as f64,
        Sample::SineOf(phase) => {
            (std::f64::consts::TAU * phase.ticks as f64 / phase.period as f64).sin()
        }
    }
}

fn by_formula(shape: WaveShape, clock: u32, freq: u32, sample_rate: u32) -> f64 {
    let hertz = freq as f64 / 100.0;
    let turns = clock as f64 * hertz / sample_rate as f64;
    let phase = turns % 1.0;
    match shape {
        WaveShape::Sine => (turns * std::f64::consts::TAU).sin(),
        WaveShape::Saw => 2.0 * phase - 1.0,
        WaveShape::Square => {
            if phase < 0.5 {
                1.0
            } else {
                -1.0
            }
        }
        WaveShape::Triangle => 4.0 * (phase - 0.5).abs() - 1.0,
    }
}

#[test]
fn the_default_shape_is_the_sine() {
    assert_eq!(WaveShape::default(), WaveShape::Sine);
}

#[test]
fn phase_is_the_fractional_part_of_the_periods_passed() {
    assert_eq!(FREQ_UNITS_PER_HERTZ, 100);
    assert_eq!(phase(0, 26163, 48000), Phase { ticks: 0, period: 4_800_000 });
    assert_eq!(phase(1, 26163, 48000), Phase { ticks: 26163, period: 4_800_000 });
    assert_eq!(phase(100, 26163, 48000), Phase { ticks: 2_616_300, period: 4_800_000 });
    assert_eq!(phase(200, 26163, 48000), Phase { ticks: 432_600, period: 4_800_000 });
    assert_eq!(phase(47999, 44000, 48000), Phase { ticks: 4_756_000, period: 4_800_000 });
    assert_eq!(phase(5, 0, 10), Phase { ticks: 0, period: 1000 });
}

#[test]
fn phase_takes_the_largest_inputs() {
    let last = phase(u32::MAX, u32::MAX, u32::MAX);
    let period = 100 * u32::MAX as u64;
    assert_eq!(last.period, period);
    assert_eq!(last.ticks, (u32::MAX as u64 * u32::MAX as u64) % period);
    assert_eq!(phase(u32::MAX, u32::MAX, 1), Phase { ticks: 25, period: 100 });
}

#[test]
fn sawtooth_ramps_from_minus_one_to_one() {
    let saw = WaveShape::Saw;
    assert_eq!(saw.generate_sample(0, 100, 4), exact(-400, 400));
    assert_eq!(saw.generate_sample(1, 100, 4), exact(-200, 400));
    assert_eq!(saw.generate_sample(2, 100, 4), exact(0, 400));
    assert_eq!(saw.generate_sample(3, 100, 4), exact(200, 400));
    assert_eq!(saw.generate_sample(4, 100, 4), exact(-400, 400));
    assert_eq!(saw.generate_sample(100, 26163, 48000), exact(432_600, 4_800_000));
}

#[test]
fn square_is_one_then_minus_one() {
    let square = WaveShape::Square;
    assert_eq!(square.generate_sample(0, 100, 4), exact(400, 400));
    assert_eq!(square.generate_sample(1, 100, 4), exact(400, 400));
    assert_eq!(square.generate_sample(2, 100, 4), exact(-400, 400));
    assert_eq!(square.generate_sample(3, 100, 4), exact(-400, 400));
    assert_eq!(square.generate_sample(4, 100, 4), exact(400, 400));
}

#[test]
fn square_turns_exactly_at_the_half() {
    let square = WaveShape::Square;
    assert_eq!(square.at_phase(Phase { ticks: 0, period: 1000 }), exact(1000, 1000));
    assert_eq!(square.at_phase(Phase { ticks: 499, period: 1000 }), exact(1000, 1000));
    assert_eq!(square.at_phase(Phase { ticks: 500, period: 1000 }), exact(-1000, 1000));
    assert_eq!(square.at_phase(Phase { ticks: 999, period: 1000 }), exact(-1000, 1000));
    assert_eq!(square.at_phase(Phase { ticks: 1, period: 3 }), exact(3, 3));
    assert_eq!(square.at_phase(Phase { ticks: 2, period: 3 }), exact(-3, 3));
}

#[test]
fn square_is_plus_or_minus_one_for_every_phase() {
    let period = 700;
    for ticks in 0..period {
        let sample = WaveShape::Square.at_phase(Phase { ticks, period });
        if 2 * ticks < period {
            assert_eq!(value(sample), 1.0);
        } else {
            assert_eq!(value(sample), -1.0);
        }
    }
}

#[test]
fn triangle_falls_then_rises() {
    let triangle = WaveShape::Triangle;
    assert_eq!(triangle.generate_sample(0, 100, 4), exact(400, 400));
    assert_eq!(triangle.generate_sample(1, 100, 4), exact(0, 400));
    assert_eq!(triangle.generate_sample(2, 100, 4), exact(-400, 400));
    assert_eq!(triangle.generate_sample(3, 100, 4), exact(0, 400));
    assert_eq!(triangle.generate_sample(1, 100, 8), exact(400, 800));
    assert_eq!(triangle.generate_sample(7, 100, 8), exact(400, 800));
}

#[test]
fn sine_is_zero_at_clock_zero() {
    for freq in [1, 13081, 26163, 44000, 69846, u32::MAX] {
        for sample_rate in [1, 8000, 44100, 48000, 192000, u32::MAX] {
            let sample = WaveShape::Sine.generate_sample(0, freq, sample_rate);
            assert_eq!(sample, exact(0, 100 * sample_rate as u64));
            assert_eq!(value(sample), 0.0);
        }
    }
}

#[test]
fn sine_is_exact_at_the_quarter_turns() {
    let sine = WaveShape::Sine;
    assert_eq!(sine.generate_sample(0, 100, 4), exact(0, 400));
    assert_eq!(sine.generate_sample(1, 100, 4), exact(400, 400));
    assert_eq!(sine.generate_sample(2, 100, 4), exact(0, 400));
    assert_eq!(sine.generate_sample(3, 100, 4), exact(-400, 400));
}

#[test]
fn sine_elsewhere_is_the_sine_of_the_phase() {
    let sample = WaveShape::Sine.generate_sample(100, 26163, 48000);
    assert_eq!(sample, Sample::SineOf(Phase { ticks: 2_616_300, period: 4_800_000 }));
    let sample = WaveShape::Sine.generate_sample(1, 100, 3);
    assert_eq!(sample, Sample::SineOf(Phase { ticks: 100, period: 300 }));
    let sample = WaveShape::Sine.at_phase(Phase { ticks: 1, period: 12 });
    assert_eq!(sample, Sample::SineOf(Phase { ticks: 1, period: 12 }));
    assert!((value(sample) - 0.5).abs() < 1e-12);
}

#[test]
fn every_sample_lies_between_minus_one_and_one() {
    for shape in SHAPES {
        for freq in [1, 13081, 26163, 44000, 69846, 2_000_000, u32::MAX] {
            for sample_rate in [1, 7, 44100, 48000, u32::MAX] {
                for clock in [0, 1, 2, 3, 5, 1000, 44099, 47999, u32::MAX] {
                    match shape.generate_sample(clock, freq, sample_rate) {
                        Sample::Exact(amplitude) => {
                            assert_eq!(amplitude.denom, 100 * sample_rate as u64);
                            assert!(amplitude.numer.unsigned_abs() <= amplitude.denom);
                        }
                        Sample::SineOf(phase) => {
                            assert_eq!(shape, WaveShape::Sine);
                            assert!(phase.ticks < phase.period);
                        }
                    }
                    let sample = value(shape.generate_sample(clock, freq, sample_rate));
                    assert!((-1.0..=1.0).contains(&sample));
                }
            }
        }
    }
}

#[test]
fn samples_agree_with_the_formulas_in_floating_point() {
    for shape in SHAPES {
        for freq in [13081, 26163, 44000, 69846] {
            for clock in 0..2000 {
                let ours = value(shape.generate_sample(clock, freq, 48000));
                let turns = clock as u64 * freq as u64;
                let ticks = turns % 4_800_000;
                let near_a_jump = ticks < 10 || ticks > 4_799_990 || ticks.abs_diff(2_400_000) < 10;
                if near_a_jump && shape != WaveShape::Sine && shape != WaveShape::Triangle {
                    continue;
                }
                let theirs = by_formula(shape, clock, freq, 48000);
                assert!((ours - theirs).abs() < 1e-6);
            }
        }
    }
}

#[test]
fn generate_sample_is_the_shape_at_the_phase() {
    for shape in SHAPES {
        for clock in 0..500 {
            let at = phase(clock, 29366, 44100);
            assert_eq!(shape.generate_sample(clock, 29366, 44100), shape.at_phase(at));
        }
    }
}

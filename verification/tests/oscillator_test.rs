use synth::fixed::ONE;
use synth::oscillators::sawtooth_oscillator;
use synth::oscillators::sine_oscillator;
use synth::oscillators::square_oscillator;
use synth::oscillators::triangle_oscillator;

#[test]
fn sine_quarter_points() {
    assert_eq!(sine_oscillator(0), 0);
    assert_eq!(sine_oscillator(250_000), ONE);
    assert_eq!(sine_oscillator(500_000), 0);
    assert_eq!(sine_oscillator(750_000), -ONE);
    assert_eq!(sine_oscillator(1_000_000), 0);
}

#[test]
fn sine_between_quarters() {
    // 16 * 125_000 * 375_000 / 1_000_000
    assert_eq!(sine_oscillator(125_000), 750_000);
    // 16 * 300_000 * 200_000 / 1_000_000
    assert_eq!(sine_oscillator(300_000), 960_000);
}

#[test]
fn sine_periodic_examples() {
    assert_eq!(sine_oscillator(123_456), sine_oscillator(1_123_456));
    assert_eq!(sine_oscillator(-300_000), -960_000);
    assert_eq!(sine_oscillator(700_000), -960_000);
}

#[test]
fn sine_stays_in_range() {
    let mut t: i64 = -2_000_000;
    while t <= 2_000_000 {
        let v = sine_oscillator(t);
        assert!(-ONE <= v && v <= ONE);
        t += 37_891;
    }
}

#[test]
fn square_switches_at_half() {
    assert_eq!(square_oscillator(0), ONE);
    assert_eq!(square_oscillator(499_999), ONE);
    assert_eq!(square_oscillator(500_000), -ONE);
    assert_eq!(square_oscillator(999_999), -ONE);
    assert_eq!(square_oscillator(1_500_000), -ONE);
}

#[test]
fn square_negative_phase_convention() {
    // A negative phase reduces to a negative value, which lies below the
    // half-period threshold: the square reads high there, one period
    // before it reads low.  The dividend-sign convention is kept.
    assert_eq!(square_oscillator(-300_000), ONE);
    assert_eq!(square_oscillator(700_000), -ONE);
}

#[test]
fn triangle_ramp_points() {
    assert_eq!(triangle_oscillator(0), 0);
    assert_eq!(triangle_oscillator(100_000), 400_000);
    assert_eq!(triangle_oscillator(250_000), ONE);
    assert_eq!(triangle_oscillator(500_000), 0);
    assert_eq!(triangle_oscillator(750_000), -ONE);
    assert_eq!(triangle_oscillator(999_999), -4);
}

#[test]
fn triangle_periodic_example() {
    assert_eq!(triangle_oscillator(1_250_000), ONE);
    assert_eq!(triangle_oscillator(1_750_000), -ONE);
}

#[test]
fn sawtooth_ramp_points() {
    assert_eq!(sawtooth_oscillator(500_000), -ONE);
    assert_eq!(sawtooth_oscillator(750_000), -500_000);
    assert_eq!(sawtooth_oscillator(1_000_000), 0);
    assert_eq!(sawtooth_oscillator(1_499_999), 999_998);
}

#[test]
fn sawtooth_low_phase_convention() {
    // Below HALF the shifted phase reduces negative and the ramp dips
    // under -ONE: the reference convention, kept as it stands.
    assert_eq!(sawtooth_oscillator(0), -2 * ONE);
    assert_eq!(sawtooth_oscillator(499_999), -ONE - 2);
}

#[test]
fn sawtooth_periodic_example() {
    assert_eq!(sawtooth_oscillator(600_000), -800_000);
    assert_eq!(sawtooth_oscillator(1_600_000), -800_000);
}

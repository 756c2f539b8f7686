use rustsy::UNIT;
use rustsy::signal::Signal;
use rustsy::wave::WaveGen;
use rustsy::wave::WaveShape;
use rustsy::wave::wave_shape_of;

const FREQ_A: u32 = 440 * 65536;

fn pulls(s: &mut Signal, n: usize) -> Vec<i64> {
    let mut out = Vec::new();
    for _ in 0..n {
        out.push(s.next().unwrap());
    }
    out
}

#[test]
fn square_is_low_then_high() {
    let g = WaveGen::new(WaveShape::Square);
    let mut s = g.iter_freq(FREQ_A);
    // At 440 Hz the phase stays in the first half cycle for 54 samples.
    let first = pulls(&mut s, 60);
    for i in 0..54 {
        assert_eq!(first[i], -UNIT);
    }
    assert_eq!(first[54], UNIT);
}

#[test]
fn saw_falls_linearly() {
    let g = WaveGen::new(WaveShape::Saw);
    let mut s = g.iter_freq(FREQ_A);
    let got = pulls(&mut s, 5);
    assert_eq!(got, vec![64335, 63134, 61932, 60731, 59529]);
}

#[test]
fn tri_falls_then_rises() {
    let g = WaveGen::new(WaveShape::Tri);
    let mut s = g.iter_freq(FREQ_A);
    let got = pulls(&mut s, 5);
    assert_eq!(got, vec![63134, 60731, 58328, 55925, 53522]);
}

#[test]
fn waveform_signals_never_exhaust() {
    let g = WaveGen::new(WaveShape::Saw);
    let mut s = g.iter_freq(FREQ_A);
    for _ in 0..10_000 {
        let v = s.next().unwrap();
        assert!(-UNIT <= v && v <= UNIT);
    }
}

/// One cycle of sine sample values, as the surrounding program would
/// precompute it.
fn sine_table(len: usize) -> Vec<i64> {
    let mut t = Vec::new();
    for i in 0..len {
        let x = 2.0 * std::f64::consts::PI * (i as f64) / (len as f64);
        t.push((x.sin() * 65535.0).round() as i64);
    }
    t
}

#[test]
fn sine_matches_the_mathematical_sine() {
    let g = WaveGen::with_table(WaveShape::Sine, sine_table(4096));
    let mut s = g.iter_freq(FREQ_A);
    for n in 1..100u64 {
        let got = s.next().unwrap() as f64 / 65536.0;
        let want = (2.0 * std::f64::consts::PI * 440.0 * (n as f64) / 48000.0).sin();
        assert!(
            (got - want).abs() < 0.01,
            "sample {}: got {} want {}",
            n,
            got,
            want
        );
    }
}

#[test]
fn sine_without_a_table_is_silent() {
    let g = WaveGen::new(WaveShape::Sine);
    let mut s = g.iter_freq(FREQ_A);
    for _ in 0..100 {
        assert_eq!(s.next(), Some(0));
    }
}

#[test]
fn wave_names() {
    assert_eq!(wave_shape_of(&"sin".to_owned()), Some(WaveShape::Sine));
    assert_eq!(wave_shape_of(&"sine".to_owned()), Some(WaveShape::Sine));
    assert_eq!(wave_shape_of(&"square".to_owned()), Some(WaveShape::Square));
    assert_eq!(wave_shape_of(&"saw".to_owned()), Some(WaveShape::Saw));
    assert_eq!(wave_shape_of(&"sawtooth".to_owned()), Some(WaveShape::Saw));
    assert_eq!(wave_shape_of(&"tri".to_owned()), Some(WaveShape::Tri));
    assert_eq!(wave_shape_of(&"triangle".to_owned()), Some(WaveShape::Tri));
    assert_eq!(wave_shape_of(&"noise".to_owned()), None);
}

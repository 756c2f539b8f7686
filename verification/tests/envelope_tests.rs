use rustsy::UNIT;
use rustsy::envelope::ADSR;
use rustsy::envelope::Envelope;

fn pull(e: &mut Envelope) -> Option<i64> {
    e.next()
}

#[test]
fn adsr_landmarks() {
    // attack 4, decay 4, sustain 0.5, release 4 (times in samples).
    let adsr = ADSR::new(4, 4, UNIT / 2, 4);
    let mut e = Envelope::new(&adsr);
    // Attack ramp 0 -> 1: at t = 0 the output is exactly 0.
    assert_eq!(pull(&mut e), Some(0));
    assert_eq!(pull(&mut e), Some(16384));
    assert_eq!(pull(&mut e), Some(32768));
    assert_eq!(pull(&mut e), Some(49152));
    // At t = attack the output is exactly 1 (the attack/decay boundary).
    assert_eq!(pull(&mut e), Some(65536));
    // Decay ramp 1 -> sustain.
    assert_eq!(pull(&mut e), Some(57344));
    assert_eq!(pull(&mut e), Some(49152));
    assert_eq!(pull(&mut e), Some(40960));
    // At t = attack + decay the output is exactly the sustain level.
    assert_eq!(pull(&mut e), Some(32768));
    assert_eq!(pull(&mut e), Some(32768));
}

#[test]
fn release_ramp_from_sustain() {
    let adsr = ADSR::new(4, 4, UNIT / 2, 4);
    let mut e = Envelope::new(&adsr);
    for _ in 0..10 {
        assert!(pull(&mut e).is_some());
    }
    // Release at t = 10, captured level 32768.
    e.release();
    // At t = rt the output is the captured level.
    assert_eq!(pull(&mut e), Some(32768));
    assert_eq!(pull(&mut e), Some(24576));
    assert_eq!(pull(&mut e), Some(16384));
    assert_eq!(pull(&mut e), Some(8192));
    // Once the release time has elapsed the envelope is exhausted, and
    // stays exhausted.
    assert_eq!(pull(&mut e), None);
    assert_eq!(pull(&mut e), None);
}

#[test]
fn early_release_starts_from_current_level() {
    // Release during the attack: the ramp starts from the level the
    // envelope really had, not from the nominal sustain level.
    let adsr = ADSR::new(10, 4, UNIT / 2, 4);
    let mut e = Envelope::new(&adsr);
    assert_eq!(pull(&mut e), Some(0));
    assert_eq!(pull(&mut e), Some(6553));
    assert_eq!(pull(&mut e), Some(13107));
    e.release();
    // Ramp starts at the captured level 13107, not at 32768.
    assert_eq!(pull(&mut e), Some(13107));
    assert_eq!(pull(&mut e), Some(9830));
    assert_eq!(pull(&mut e), Some(6553));
    assert_eq!(pull(&mut e), Some(3276));
    assert_eq!(pull(&mut e), None);
}

#[test]
fn release_is_idempotent() {
    let adsr = ADSR::new(10, 4, UNIT / 2, 4);
    let mut e = Envelope::new(&adsr);
    for _ in 0..3 {
        pull(&mut e);
    }
    e.release();
    assert_eq!(pull(&mut e), Some(13107));
    // A second release must not reset the release time: the ramp goes on
    // from where it was.
    e.release();
    assert_eq!(pull(&mut e), Some(9830));
}

#[test]
fn zero_attack_jumps_to_full() {
    let adsr = ADSR::new(0, 4, UNIT / 2, 4);
    let mut e = Envelope::new(&adsr);
    assert_eq!(pull(&mut e), Some(65536));
}

#[test]
fn zero_attack_and_decay_jumps_to_sustain() {
    let adsr = ADSR::new(0, 0, UNIT / 2, 4);
    let mut e = Envelope::new(&adsr);
    assert_eq!(pull(&mut e), Some(32768));
}

#[test]
fn zero_release_ends_immediately() {
    let adsr = ADSR::new(4, 4, UNIT / 2, 0);
    let mut e = Envelope::new(&adsr);
    pull(&mut e);
    e.release();
    assert_eq!(pull(&mut e), None);
}

use rustsy::UNIT;
use rustsy::envelope::ADSR;
use rustsy::envelope::EnvelopedVoice;
use rustsy::mixer::DuplicateKey;
use rustsy::sampler::Loop;
use rustsy::signal::Voice;
use rustsy::mixer::Mixer;
use rustsy::signal::Note;
use rustsy::signal::Signal;

/// A note that emits full amplitude forever: a looped one-sample buffer.
fn unit_note() -> Note {
    Note::raw(Signal::samples(vec![UNIT], true))
}

#[test]
fn empty_mixer_is_silent_indefinitely() {
    let mut m = Mixer::new();
    for _ in 0..10_000 {
        assert_eq!(m.next(), Some(0));
    }
}

#[test]
fn duplicate_key_is_rejected() {
    let mut m = Mixer::new();
    assert_eq!(m.add_key(60, unit_note()), Ok(()));
    // Adding a second note under a held key is rejected, not silently
    // overwritten.
    assert_eq!(m.add_key(60, unit_note()), Err(DuplicateKey));
    assert_eq!(m.held.len(), 1);
    // A fresh key succeeds, and both notes are retrievable.
    assert_eq!(m.add_key(61, unit_note()), Ok(()));
    assert!(m.get_key_mut(60).is_some());
    assert!(m.get_key_mut(61).is_some());
    assert!(m.get_key_mut(62).is_none());
}

#[test]
fn agc_gain_below_threshold() {
    // With up to 8 notes the gain is the base gain: each unit note
    // contributes exactly the base gain to the output.
    let mut m = Mixer::new();
    for k in 0..4 {
        assert_eq!(m.add_key(k, unit_note()), Ok(()));
    }
    assert_eq!(m.next(), Some(4 * 6554));
}

#[test]
fn agc_gain_at_double_threshold() {
    // With 16 notes the gain is half the base gain.
    let mut m = Mixer::new();
    for k in 0..16 {
        assert_eq!(m.add_key(k, unit_note()), Ok(()));
    }
    // The gain is recomputed on every membership change: with 16 notes
    // held it is already half the base gain.
    assert_eq!(m.gain, 3277);
    assert_eq!(m.next(), Some(16 * 3277));
    assert_eq!(m.gain, 3277);
}

#[test]
fn exhausted_note_is_removed() {
    // A finite three-sample note is gone after its third pull, and later
    // pulls exclude its contribution.
    let mut m = Mixer::new();
    let finite = Note::raw(Signal::samples(vec![UNIT, UNIT, UNIT], false));
    assert_eq!(m.add_key(1, finite), Ok(()));
    assert_eq!(m.next(), Some(6554));
    assert_eq!(m.next(), Some(6554));
    assert_eq!(m.next(), Some(6554));
    assert_eq!(m.next(), Some(0));
    assert!(m.get_key_mut(1).is_none());
    assert_eq!(m.held.len(), 0);
    assert_eq!(m.next(), Some(0));
}

#[test]
fn remove_key_drops_the_note() {
    let mut m = Mixer::new();
    assert_eq!(m.add_key(3, unit_note()), Ok(()));
    assert_eq!(m.add_key(4, unit_note()), Ok(()));
    m.remove_key(3);
    assert!(m.get_key_mut(3).is_none());
    assert!(m.get_key_mut(4).is_some());
    assert_eq!(m.next(), Some(6554));
    // Removing an absent key changes nothing.
    m.remove_key(99);
    assert_eq!(m.held.len(), 1);
}

#[test]
fn clear_empties_the_mixer() {
    let mut m = Mixer::new();
    for k in 0..3 {
        assert_eq!(m.add_key(k, unit_note()), Ok(()));
    }
    m.clear();
    assert_eq!(m.held.len(), 0);
    assert_eq!(m.next(), Some(0));
}

#[test]
fn release_key_triggers_the_fade() {
    let voice = Voice::Sample(Loop::new(&vec![UNIT]));
    let ev = EnvelopedVoice::new(voice, ADSR::new(0, 0, UNIT, 2));
    let mut m = Mixer::new();
    assert_eq!(m.add_key(7, ev.iter_freq(440 * (UNIT as u32))), Ok(()));
    // Sustain at full level: the output is one note at base gain.
    assert_eq!(m.next(), Some(6554));
    assert!(m.release_key(7));
    assert!(!m.release_key(8));
    // Release time 2: the note fades and is then removed.
    assert_eq!(m.next(), Some(6554));
    assert_eq!(m.next(), Some(3277));
    assert_eq!(m.next(), Some(0));
    assert!(m.get_key_mut(7).is_none());
}

#[test]
fn fill_produces_exactly_the_requested_samples() {
    let mut m = Mixer::new();
    let out = m.fill(256);
    assert_eq!(out.len(), 256);
    for v in out {
        assert_eq!(v, 0);
    }
}

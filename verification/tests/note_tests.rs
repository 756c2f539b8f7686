use rustsy::UNIT;
use rustsy::envelope::ADSR;
use rustsy::envelope::EnvelopedVoice;
use rustsy::sampler::Loop;
use rustsy::signal::Note;
use rustsy::signal::Signal;
use rustsy::signal::Voice;

#[test]
fn looped_playback_wraps() {
    let l = Loop::new(&vec![100, 200, 300]);
    let mut s = l.iter_freq(440 * (UNIT as u32));
    for _ in 0..3 {
        assert_eq!(s.next(), Some(100));
        assert_eq!(s.next(), Some(200));
        assert_eq!(s.next(), Some(300));
    }
}

#[test]
fn empty_looped_buffer_is_silent() {
    let l = Loop::new(&vec![]);
    let mut s = l.iter_freq(440 * (UNIT as u32));
    for _ in 0..100 {
        assert_eq!(s.next(), Some(0));
    }
}

#[test]
fn one_shot_buffer_exhausts() {
    let mut s = Signal::samples(vec![7, 8], false);
    assert_eq!(s.next(), Some(7));
    assert_eq!(s.next(), Some(8));
    assert_eq!(s.next(), None);
    assert_eq!(s.next(), None);
}

#[test]
fn enveloped_note_scales_the_signal() {
    // A constant full-amplitude signal under an envelope: the note's
    // samples are exactly the envelope levels.
    let voice = Voice::Sample(Loop::new(&vec![UNIT]));
    let ev = EnvelopedVoice::new(voice, ADSR::new(4, 4, UNIT / 2, 4));
    let mut n = ev.iter_freq(261 * (UNIT as u32));
    assert_eq!(n.next(), Some(0));
    assert_eq!(n.next(), Some(16384));
    assert_eq!(n.next(), Some(32768));
    assert_eq!(n.next(), Some(49152));
    assert_eq!(n.next(), Some(65536));
}

#[test]
fn enveloped_note_ends_with_its_envelope() {
    let voice = Voice::Sample(Loop::new(&vec![UNIT]));
    let ev = EnvelopedVoice::new(voice, ADSR::new(0, 0, UNIT, 2));
    let mut n = ev.iter_freq(261 * (UNIT as u32));
    assert_eq!(n.next(), Some(UNIT));
    n.release();
    assert_eq!(n.next(), Some(UNIT));
    assert_eq!(n.next(), Some(UNIT / 2));
    assert_eq!(n.next(), None);
    assert_eq!(n.next(), None);
}

#[test]
fn enveloped_note_ends_with_its_signal() {
    // The inner signal is finite: the note ends when it does, envelope
    // or not.
    let finite = Signal::samples(vec![UNIT, UNIT], false);
    let mut n = Note {
        signal: finite,
        env: Some(rustsy::envelope::Envelope::new(&ADSR::new(0, 0, UNIT, 2))),
    };
    assert_eq!(n.next(), Some(UNIT));
    assert_eq!(n.next(), Some(UNIT));
    assert_eq!(n.next(), None);
}

#[test]
fn half_level_halves_the_sample() {
    // Envelope level one half against a half-amplitude signal: the
    // product scales down to a quarter.
    let voice = Voice::Sample(Loop::new(&vec![UNIT / 2]));
    let ev = EnvelopedVoice::new(voice, ADSR::new(0, 0, UNIT / 2, 2));
    let mut n = ev.iter_freq(261 * (UNIT as u32));
    assert_eq!(n.next(), Some(UNIT / 4));
}

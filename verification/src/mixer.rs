//! The mixer: the set of active notes, summed into one output stream.
//!
//! The mixer owns the currently-held (key, note) associations. Each pull
//! advances every active note by one sample, sums their samples, removes
//! the notes that report exhaustion, and scales the sum by the current
//! gain. The gain compensates for polyphony: it stays at a base value up
//! to [`AGC_VOICES`] simultaneous notes and scales down proportionally
//! above that, which also bounds the output amplitude however many notes
//! sound at once. The output stream itself never ends: with no active
//! notes it produces silence, not exhaustion.

use vstd::prelude::*;
use crate::UNIT;
use crate::div_trunc;
use crate::signal::Note;
use vstd::arithmetic::div_mod::lemma_div_by_multiple;
use vstd::arithmetic::div_mod::lemma_div_of0;
use vstd::arithmetic::div_mod::lemma_div_pos_is_pos;
use vstd::arithmetic::div_mod::lemma_fundamental_div_mod;
use vstd::arithmetic::div_mod::lemma_mod_bound;

verus! {

/// Max simultaneous notes before gain compensation kicks in.
pub const AGC_VOICES: usize = 8;

/// Mixer gain before gain compensation kicks in, a fixed-point fraction
/// of [`UNIT`] (about a tenth).
pub const LINEAR_GAIN: i64 = 6554;

/// The gain for `n` active notes: the base gain up to [`AGC_VOICES`]
/// notes, and `base * AGC_VOICES / n` above that.
pub open spec fn gain_spec(n: int) -> int {
    if n <= AGC_VOICES {
        LINEAR_GAIN as int
    } else {
        LINEAR_GAIN * AGC_VOICES / n
    }
}

/// No key occurs twice in a held-note sequence.
pub open spec fn keys_unique(s: Seq<(u32, Note)>) -> bool {
    forall|i: int, j: int| 0 <= i < j < s.len() ==> (#[trigger] s[i]).0 != (#[trigger] s[j]).0
}

/// Some entry of the sequence holds the key.
pub open spec fn has_key(s: Seq<(u32, Note)>, key: u32) -> bool {
    exists|i: int| 0 <= i < s.len() && (#[trigger] s[i]).0 == key
}

/// Every note in the sequence is well formed.
pub open spec fn notes_wf(s: Seq<(u32, Note)>) -> bool {
    forall|i: int| 0 <= i < s.len() ==> (#[trigger] s[i]).1.wf()
}

/// The notes that survive one mixing sweep, each advanced by one sample,
/// in their original order: the notes that report exhaustion drop out.
pub open spec fn survivors(s: Seq<(u32, Note)>) -> Seq<(u32, Note)>
    decreases s.len(),
{
    if s.len() == 0 {
        Seq::empty()
    } else {
        let e = s.last();
        survivors(s.drop_last()) + if e.1.spec_exhausted() {
            Seq::empty()
        } else {
            seq![(e.0, e.1.spec_adv())]
        }
    }
}

/// The sum of the samples that one mixing sweep collects: each live note
/// contributes its next sample, exhausted notes contribute nothing.
pub open spec fn mix_sum(s: Seq<(u32, Note)>) -> int
    decreases s.len(),
{
    if s.len() == 0 {
        0
    } else {
        mix_sum(s.drop_last()) + if s.last().1.spec_exhausted() {
            0
        } else {
            s.last().1.spec_out()
        }
    }
}

/// A sample mixer: adds the samples of the held per-key streams and
/// scales the sum to get output samples. The output stream is unbounded:
/// it yields silence, not exhaustion, when no streams are held.
#[derive(Debug)]
pub struct Mixer {
    /// Held key indexes and their notes.
    pub held: Vec<(u32, Note)>,
    /// Current mixer gain value, a fixed-point fraction of [`UNIT`].
    pub gain: i64,
}

impl Mixer {
    /// Keys are unique, notes are well formed, and the stored gain always
    /// matches the number of held notes: it is recomputed on every
    /// membership change, never left stale.
    pub open spec fn wf(self) -> bool {
        &&& keys_unique(self.held@)
        &&& notes_wf(self.held@)
        &&& self.gain == gain_spec(self.held@.len() as int)
    }

    /// Make an empty mixer at the base gain.
    pub fn new() -> (r: Mixer)
        ensures
            r.held@.len() == 0,
            r.gain == LINEAR_GAIN,
            r.wf(),
    {
        Mixer { held: Vec::new(), gain: LINEAR_GAIN }
    }

    /// Recompute the gain from the number of held notes.
    fn agc(&mut self)
        ensures
            final(self).held == old(self).held,
            final(self).gain == gain_spec(old(self).held@.len() as int),
    {
        let n = self.held.len();
        if n <= AGC_VOICES {
            self.gain = LINEAR_GAIN;
        } else {
            proof {
                lemma_div_pos_is_pos((LINEAR_GAIN * AGC_VOICES) as int, n as int);
                vstd::arithmetic::div_mod::lemma_div_nonincreasing(
                    (LINEAR_GAIN * AGC_VOICES) as int, n as int);
            }
            self.gain = ((LINEAR_GAIN as u64) * (AGC_VOICES as u64) / (n as u64)) as i64;
        }
    }

    /// Find the position of a key among the held notes.
    fn find_key(&self, key: u32) -> (r: Option<usize>)
        ensures
            match r {
                Some(i) => i < self.held@.len() && self.held@[i as int].0 == key,
                None => !has_key(self.held@, key),
            },
    {
        let mut i: usize = 0;
        while i < self.held.len()
            invariant
                i <= self.held@.len(),
                forall|j: int| 0 <= j < i ==> (#[trigger] self.held@[j]).0 != key,
            decreases self.held@.len() - i,
        {
            if self.held[i].0 == key {
                return Some(i);
            }
            i = i + 1;
        }
        None
    }

    /// Add a note under a key. A key may be held at most once: adding
    /// under a key that is already present is rejected and changes
    /// nothing; adding under a fresh key inserts the note and recomputes
    /// the gain.
    pub fn add_key(&mut self, key: u32, note: Note) -> (r: Result<(), DuplicateKey>)
        requires
            old(self).wf(),
            note.wf(),
        ensures
            final(self).wf(),
            match r {
                Ok(_) => !has_key(old(self).held@, key)
                    && final(self).held@ == old(self).held@.push((key, note)),
                Err(_) => has_key(old(self).held@, key) && *final(self) == *old(self),
            },
    {
        match self.find_key(key) {
            Some(_) => Err(DuplicateKey),
            None => {
                self.held.push((key, note));
                self.agc();
                Ok(())
            },
        }
    }

    /// Remove the note under a key, if one is held, and recompute the
    /// gain; removing an absent key changes nothing.
    pub fn remove_key(&mut self, key: u32)
        requires
            old(self).wf(),
        ensures
            final(self).wf(),
            !has_key(final(self).held@, key),
            has_key(old(self).held@, key) ==> exists|i: int|
                0 <= i < old(self).held@.len() && (#[trigger] old(self).held@[i]).0 == key
                    && final(self).held@ == old(self).held@.remove(i),
            !has_key(old(self).held@, key) ==> final(self).held@ == old(self).held@,
    {
        match self.find_key(key) {
            Some(i) => {
                let _ = self.held.remove(i);
                self.agc();
                proof {
                    let s = old(self).held@;
                    assert forall|j: int| 0 <= j < self.held@.len()
                        implies (#[trigger] self.held@[j]).0 != key by {
                        if j < i {
                            assert(self.held@[j] == s[j]);
                        } else {
                            assert(self.held@[j] == s[j + 1]);
                        }
                    }
                }
            },
            None => {
                self.agc();
            },
        }
    }

    /// Borrow the note under a key mutably, to trigger its release; the
    /// mixer's membership and gain are unchanged, whatever the caller
    /// writes through the borrow.
    pub fn get_key_mut(&mut self, key: u32) -> (r: Option<&mut Note>)
        requires
            old(self).wf(),
        ensures
            match r {
                Some(m) => has_key(old(self).held@, key) && exists|i: int|
                    0 <= i < old(self).held@.len()
                        && (#[trigger] old(self).held@[i]).0 == key
                        && *m == old(self).held@[i].1
                        && final(self).held@ == old(self).held@.update(i, (key, *final(m)))
                        && final(self).gain == old(self).gain,
                None => !has_key(old(self).held@, key) && *final(self) == *old(self),
            },
    {
        match self.find_key(key) {
            Some(i) => Some(&mut self.held[i].1),
            None => None,
        }
    }

    /// Trigger the release of the note under a key, if one is held;
    /// returns whether the key was held. Membership does not change: the
    /// note fades out and is removed once its envelope has elapsed.
    pub fn release_key(&mut self, key: u32) -> (r: bool)
        requires
            old(self).wf(),
        ensures
            final(self).wf(),
            r == has_key(old(self).held@, key),
            r ==> exists|i: int|
                0 <= i < old(self).held@.len() && (#[trigger] old(self).held@[i]).0 == key
                    && final(self).held@ == old(self).held@.update(
                        i,
                        (key, {
                            let n = old(self).held@[i].1;
                            Note {
                                env: match n.env {
                                    Some(e) => Some(
                                        match e.release_time {
                                            None => crate::envelope::Envelope {
                                                release_time: Some(e.t),
                                                ..e
                                            },
                                            Some(_) => e,
                                        },
                                    ),
                                    None => n.env,
                                },
                                ..n
                            }
                        }),
                    ),
            !r ==> *final(self) == *old(self),
    {
        match self.find_key(key) {
            Some(i) => {
                let note = &mut self.held[i].1;
                note.release();
                true
            },
            None => false,
        }
    }

    /// Remove all streams from the mixer and reset the gain.
    pub fn clear(&mut self)
        ensures
            final(self).held@.len() == 0,
            final(self).gain == LINEAR_GAIN,
            final(self).wf(),
    {
        self.held.clear();
        self.gain = LINEAR_GAIN;
    }
}

/// The held notes after `k` whole mixing sweeps.
pub open spec fn sweep_n(s: Seq<(u32, Note)>, k: nat) -> Seq<(u32, Note)>
    decreases k,
{
    if k == 0 {
        s
    } else {
        survivors(sweep_n(s, (k - 1) as nat))
    }
}

/// What one pull of the mixer emits for a held-note sequence: the sum of
/// the live notes' samples, scaled by the gain for the number of notes
/// that survive the sweep (exhausted notes are removed first, then the
/// gain is recomputed).
pub open spec fn mixer_out(s: Seq<(u32, Note)>) -> int {
    div_trunc(mix_sum(s) * gain_spec(survivors(s).len() as int), UNIT as int)
}

/// Gain compensation bounds the scaled sum however many notes sound at
/// once: below the threshold the sum itself is small, above it the gain
/// shrinks in proportion.
pub proof fn lemma_agc_bound(m: int, sum: int)
    requires
        0 <= m,
        -m * UNIT <= sum <= m * UNIT,
    ensures
        -(AGC_VOICES * LINEAR_GAIN * UNIT) <= sum * gain_spec(m)
            <= AGC_VOICES * LINEAR_GAIN * UNIT,
{
    let g = gain_spec(m);
    let u = UNIT as int;
    let lg = LINEAR_GAIN as int;
    let a = AGC_VOICES as int;
    if m <= AGC_VOICES {
        assert(-(a * lg * u) <= sum * g <= a * lg * u) by (nonlinear_arith)
            requires
                -m * u <= sum <= m * u,
                0 <= m <= a,
                g == lg,
                u == UNIT as int && lg == LINEAR_GAIN as int && a == AGC_VOICES as int,
        ;
    } else {
        lemma_div_pos_is_pos(lg * a, m);
        lemma_fundamental_div_mod(lg * a, m);
        lemma_mod_bound(lg * a, m);
        assert(m * g <= lg * a);
        assert(-(a * lg * u) <= sum * g <= a * lg * u) by (nonlinear_arith)
            requires
                -m * u <= sum <= m * u,
                0 <= g,
                m * g <= lg * a,
                0 < m,
                u == UNIT as int && lg == LINEAR_GAIN as int && a == AGC_VOICES as int,
        ;
    }
}

impl Mixer {
    /// Pull the next mixed sample. Every held note advances by one
    /// sample; the notes that report exhaustion are removed, the gain is
    /// recomputed for the notes that remain, and the sum of the live
    /// notes' samples is scaled by that gain. The output stream is
    /// infinite: the result is always a sample, silence when nothing is
    /// held, and its amplitude is bounded whatever the polyphony.
    pub fn next(&mut self) -> (r: Option<i64>)
        requires
            old(self).wf(),
        ensures
            final(self).wf(),
            final(self).held@ == survivors(old(self).held@),
            r matches Some(v) && v == mixer_out(old(self).held@)
                && -(AGC_VOICES * LINEAR_GAIN) <= v <= AGC_VOICES * LINEAR_GAIN,
    {
        let ghost orig = self.held@;
        let mut work: Vec<(u32, Note)> = Vec::new();
        core::mem::swap(&mut self.held, &mut work);
        let total = work.len();
        let mut sum: i128 = 0;
        let ghost mut j: int = 0;
        proof {
            assert(orig.subrange(0, 0) =~= Seq::<(u32, Note)>::empty());
            assert(work@ =~= orig.subrange(0, orig.len() as int));
        }
        while work.len() > 0
            invariant
                keys_unique(orig),
                notes_wf(orig),
                0 <= j <= orig.len(),
                orig.len() == total,
                self.held@.len() <= j,
                work@ == orig.subrange(j, orig.len() as int),
                self.held@ == survivors(orig.subrange(0, j)),
                sum == mix_sum(orig.subrange(0, j)),
                -(self.held@.len() as int) * UNIT <= sum
                    <= (self.held@.len() as int) * UNIT,
                notes_wf(self.held@),
                keys_unique(self.held@),
                forall|k: u32| has_key(self.held@, k) ==> has_key(orig.subrange(0, j), k),
            decreases work@.len(),
        {
            let (k, mut note) = work.remove(0);
            proof {
                assert(orig.subrange(j, orig.len() as int)[0] == orig[j]);
                assert((k, note) == orig[j]);
                assert(notes_wf(orig) ==> orig[j].1.wf());
            }
            let pulled = note.next();
            proof {
                assert(orig.subrange(0, j + 1).drop_last() =~= orig.subrange(0, j));
                assert(orig.subrange(0, j + 1).last() == orig[j]);
                assert(orig.subrange(j, orig.len() as int).remove(0)
                    =~= orig.subrange(j + 1, orig.len() as int));
            }
            match pulled {
                Some(v) => {
                    sum = sum + (v as i128);
                    self.held.push((k, note));
                    proof {
                        assert(self.held@ =~= survivors(orig.subrange(0, j + 1)));
                        assert forall|kk: u32| has_key(self.held@, kk)
                            implies has_key(orig.subrange(0, j + 1), kk) by {
                            let s = self.held@;
                            let i = choose|i: int| 0 <= i < s.len() && (#[trigger] s[i]).0 == kk;
                            if i < s.len() - 1 {
                                assert(has_key(orig.subrange(0, j), kk));
                                let i2 = choose|i2: int| 0 <= i2 < j
                                    && (#[trigger] orig.subrange(0, j)[i2]).0 == kk;
                                assert(orig.subrange(0, j + 1)[i2].0 == kk);
                            } else {
                                assert(orig.subrange(0, j + 1)[j].0 == kk);
                            }
                        }
                        assert(keys_unique(self.held@)) by {
                            let s = self.held@;
                            assert forall|x: int, y: int| 0 <= x < y < s.len()
                                implies (#[trigger] s[x]).0 != (#[trigger] s[y]).0 by {
                                if y == s.len() - 1 {
                                    if s[x].0 == s[y].0 {
                                        assert(has_key(s.drop_last(), s[y].0)) by {
                                            assert(s.drop_last()[x].0 == s[x].0);
                                        }
                                        assert(has_key(orig.subrange(0, j), s[y].0));
                                        let i2 = choose|i2: int| 0 <= i2 < j
                                            && (#[trigger] orig.subrange(0, j)[i2]).0 == s[y].0;
                                        assert(orig[i2].0 == orig[j].0);
                                        assert(false);
                                    }
                                }
                            }
                        }
                    }
                },
                None => {
                    proof {
                        assert(self.held@ =~= survivors(orig.subrange(0, j + 1)));
                    }
                },
            }
            proof {
                j = j + 1;
            }
        }
        proof {
            assert(orig.subrange(0, orig.len() as int) =~= orig);
            assert(orig.subrange(j, orig.len() as int).len() == 0);
            assert(j == orig.len());
        }
        self.agc();
        let g = self.gain;
        proof {
            lemma_agc_bound(self.held@.len() as int, sum as int);
        }
        let prod: i128 = sum * (g as i128);
        let out: i128 = if prod >= 0 {
            prod / (UNIT as i128)
        } else {
            -((-prod) / (UNIT as i128))
        };
        proof {
            let bound = AGC_VOICES * LINEAR_GAIN * UNIT;
            if prod >= 0 {
                crate::lemma_div_range(prod as int, (AGC_VOICES * LINEAR_GAIN) as int, UNIT as int);
            } else {
                crate::lemma_div_range(-(prod as int), (AGC_VOICES * LINEAR_GAIN) as int, UNIT as int);
            }
        }
        Some(out as i64)
    }

    /// Produce exactly `n` mixed samples: what one audio callback needs
    /// to fill its buffer. The mixer's stream never terminates, so the
    /// whole buffer is always filled, each sample being one sweep's
    /// output over the state the sweeps before it left behind.
    pub fn fill(&mut self, n: usize) -> (out: Vec<i64>)
        requires
            old(self).wf(),
        ensures
            final(self).wf(),
            final(self).held@ == sweep_n(old(self).held@, n as nat),
            out@.len() == n,
            forall|i: int| 0 <= i < n ==> #[trigger] out@[i]
                == mixer_out(sweep_n(old(self).held@, i as nat)),
            forall|i: int| 0 <= i < n ==> -(AGC_VOICES * LINEAR_GAIN)
                <= #[trigger] out@[i] <= AGC_VOICES * LINEAR_GAIN,
    {
        let ghost orig = self.held@;
        let mut out: Vec<i64> = Vec::new();
        let mut i: usize = 0;
        while i < n
            invariant
                i <= n,
                out@.len() == i,
                self.wf(),
                self.held@ == sweep_n(orig, i as nat),
                forall|x: int| 0 <= x < i ==> #[trigger] out@[x]
                    == mixer_out(sweep_n(orig, x as nat)),
                forall|x: int| 0 <= x < i ==> -(AGC_VOICES * LINEAR_GAIN)
                    <= #[trigger] out@[x] <= AGC_VOICES * LINEAR_GAIN,
            decreases n - i,
        {
            let v = match self.next() {
                Some(v) => v,
                None => 0,
            };
            out.push(v);
            i = i + 1;
        }
        out
    }
}

/// A mixer holding no notes emits exact silence: the swept sum is zero,
/// the output sample is zero, and the active set stays empty, so every
/// later pull is silent too — the stream never ends.
pub proof fn lemma_empty_mixer_silent(s: Seq<(u32, Note)>)
    requires
        s.len() == 0,
    ensures
        mixer_out(s) == 0,
        survivors(s).len() == 0,
{
    lemma_div_of0(UNIT as int);
    assert(mix_sum(s) == 0);
    assert(0 * gain_spec(survivors(s).len() as int) == 0) by (nonlinear_arith);
}

/// The gain policy: up to the voice threshold the gain is exactly the
/// base gain; beyond it, it scales down as `threshold / count`, so at
/// twice the threshold it is exactly half the base gain.
pub proof fn lemma_gain_policy(n: int)
    requires
        0 <= n,
    ensures
        n <= AGC_VOICES ==> gain_spec(n) == LINEAR_GAIN,
        AGC_VOICES < n ==> gain_spec(n) == LINEAR_GAIN * AGC_VOICES / n,
        gain_spec(2 * AGC_VOICES) == LINEAR_GAIN / 2,
        0 <= gain_spec(n) <= LINEAR_GAIN,
{
    if n > AGC_VOICES {
        lemma_div_pos_is_pos(LINEAR_GAIN * AGC_VOICES, n);
        crate::lemma_div_range(LINEAR_GAIN * AGC_VOICES, LINEAR_GAIN as int, n);
        assert(LINEAR_GAIN * AGC_VOICES <= LINEAR_GAIN * n) by (nonlinear_arith)
            requires n > AGC_VOICES as int,;
    }
}

/// Mixing notes that all emit the same live sample `v` sums to exactly
/// `count * v`, and every one of them survives the sweep.
pub proof fn lemma_mix_sum_constant(s: Seq<(u32, Note)>, v: int)
    requires
        forall|i: int| 0 <= i < s.len() ==> !(#[trigger] s[i]).1.spec_exhausted()
            && s[i].1.spec_out() == v,
    ensures
        mix_sum(s) == s.len() * v,
        survivors(s).len() == s.len(),
    decreases s.len(),
{
    if s.len() == 0 {
        assert(0 * v == 0) by (nonlinear_arith);
    } else {
        lemma_mix_sum_constant(s.drop_last(), v);
        assert((s.len() - 1) * v + v == s.len() * v) by (nonlinear_arith);
    }
}

/// Mixing `n` unit-amplitude notes gives an output of exactly `n` times
/// the gain for `n` notes: the gain scaling is observable, undamped, in
/// the output sample.
pub proof fn lemma_unit_notes_output(s: Seq<(u32, Note)>)
    requires
        forall|i: int| 0 <= i < s.len() ==> !(#[trigger] s[i]).1.spec_exhausted()
            && s[i].1.spec_out() == UNIT,
    ensures
        mixer_out(s) == s.len() * gain_spec(s.len() as int),
{
    let n = s.len() as int;
    let g = gain_spec(n);
    lemma_mix_sum_constant(s, UNIT as int);
    lemma_gain_policy(n);
    assert(n * UNIT * g == (n * g) * UNIT) by (nonlinear_arith);
    assert(0 <= n * g) by (nonlinear_arith)
        requires 0 <= n && 0 <= g,;
    lemma_div_by_multiple(n * g, UNIT as int);
}

impl Default for Mixer {
    /// An empty mixer at the base gain.
    fn default() -> (r: Mixer)
        ensures
            r.held@.len() == 0,
            r.gain == LINEAR_GAIN,
            r.wf(),
    {
        Mixer::new()
    }
}

/// The error returned when a note is added under a key that is already
/// held: a key may be held at most once.
#[derive(Debug, Clone, Copy, PartialEq, Eq, Structural)]
pub struct DuplicateKey;

} // verus!

//! The attack-decay-sustain-release (ADSR) envelope state machine.
//!
//! An envelope shapes the loudness of one note over its life: the level
//! ramps linearly from `0` to [`UNIT`] over the attack time, decays
//! linearly to the sustain level, holds there while the key stays down,
//! and after release ramps linearly from the level it last had down to
//! silence. All times are counted in samples; all levels are fixed-point
//! fractions of [`UNIT`].

use vstd::prelude::*;
use crate::UNIT;
use crate::lemma_div_range;
use vstd::arithmetic::div_mod::lemma_div_by_multiple;
use vstd::arithmetic::div_mod::lemma_div_of0;

verus! {

/// Attack-Decay-Sustain-Release envelope parameters.
///
/// `attack`, `decay` and `release` are durations in samples; `sustain` is a
/// level between `0` and [`UNIT`]. The parameters are immutable: every note
/// played with the same patch copies the same values.
#[derive(Clone, Copy, Debug, PartialEq, Eq, Structural)]
pub struct ADSR {
    /// Attack time in samples.
    pub attack: u32,
    /// Decay time in samples.
    pub decay: u32,
    /// Sustain level, a fixed-point fraction of [`UNIT`].
    pub sustain: i64,
    /// Release time in samples.
    pub release: u32,
}

impl ADSR {
    /// The sustain level is a fraction of full amplitude.
    pub open spec fn wf(self) -> bool {
        0 <= self.sustain <= UNIT
    }

    /// Make a new ADSR envelope. `attack`, `decay` and `release` are times
    /// in samples, `sustain` is a level between `0` and [`UNIT`].
    pub fn new(attack: u32, decay: u32, sustain: i64, release: u32) -> (r: ADSR)
        requires
            0 <= sustain <= UNIT,
        ensures
            r == (ADSR { attack, decay, sustain, release }),
            r.wf(),
    {
        ADSR { attack, decay, sustain, release }
    }
}

/// The envelope level before release at time `t` (in samples since note-on):
/// a linear ramp `0 -> UNIT` during the attack, a linear ramp
/// `UNIT -> sustain` during the decay, and the sustain level thereafter.
/// A zero-length attack or decay is skipped over entirely.
pub open spec fn pre_level(a: ADSR, t: int) -> int {
    if t >= a.attack + a.decay {
        a.sustain as int
    } else if t >= a.attack {
        UNIT - (UNIT - a.sustain) * (t - a.attack) / (a.decay as int)
    } else {
        UNIT * t / (a.attack as int)
    }
}

/// The envelope level `dt` samples after a release that captured level
/// `sus`: a linear ramp from `sus` down to `0` over `release` samples.
pub open spec fn rel_level(sus: int, release: int, dt: int) -> int {
    sus * (release - dt) / release
}

/// Advance a tick counter by one sample, stopping at the largest
/// representable time.
pub open spec fn sat_inc(t: u64) -> u64 {
    if t == u64::MAX {
        t
    } else {
        (t + 1) as u64
    }
}

/// Per-note envelope state: the elapsed time since note-on, the time at
/// which the key was released (if it has been), and the last level emitted
/// before release, which the release ramp starts from.
#[derive(Clone, Copy, Debug)]
pub struct Envelope {
    /// Time in samples since the start of the envelope.
    pub t: u64,
    /// Time in samples at which note release happened.
    pub release_time: Option<u64>,
    /// Last level output pre-release, treated as the sustain level during
    /// release.
    pub sus: i64,
    /// ADSR envelope parameters.
    pub env: ADSR,
}

impl Envelope {
    /// The captured level is a valid amplitude fraction, and a recorded
    /// release cannot lie in the future.
    pub open spec fn wf(self) -> bool {
        &&& self.env.wf()
        &&& 0 <= self.sus <= UNIT
        &&& match self.release_time {
            Some(rt) => rt <= self.t,
            None => true,
        }
    }

    /// The envelope has fully elapsed: the key was released and the whole
    /// release ramp has gone by.
    pub open spec fn spec_terminated(self) -> bool {
        match self.release_time {
            Some(rt) => self.t >= rt + self.env.release,
            None => false,
        }
    }

    /// The level the envelope emits at its current time, when it has not
    /// terminated.
    pub open spec fn spec_level(self) -> int {
        match self.release_time {
            Some(rt) => rel_level(self.sus as int, self.env.release as int, self.t - rt),
            None => pre_level(self.env, self.t as int),
        }
    }

    /// The state after one pull: time advances by one sample, and before
    /// release the just-computed level is remembered, so that a release
    /// always ramps down from the level the note really had.
    pub open spec fn spec_adv(self) -> Envelope {
        Envelope {
            t: sat_inc(self.t),
            sus: if self.release_time is None {
                pre_level(self.env, self.t as int) as i64
            } else {
                self.sus
            },
            ..self
        }
    }

    /// Make a new envelope at time zero for the given parameters.
    pub fn new(env: &ADSR) -> (r: Envelope)
        requires
            env.wf(),
        ensures
            r == (Envelope { t: 0u64, release_time: None::<u64>, sus: env.sustain, env: *env }),
            r.wf(),
    {
        Envelope { t: 0, release_time: None, sus: env.sustain, env: *env }
    }

    /// Enter the release phase: record the current time and keep the last
    /// pre-release level as the starting point of the release ramp.
    /// A second call changes nothing, so releasing is idempotent.
    pub fn release(&mut self)
        ensures
            *final(self) == (match old(self).release_time {
                None => Envelope { release_time: Some(old(self).t), ..*old(self) },
                Some(_) => *old(self),
            }),
            old(self).wf() ==> final(self).wf(),
    {
        if self.release_time.is_none() {
            self.release_time = Some(self.t);
        }
    }

    /// Return the envelope level at the current time and advance the clock
    /// by one sample; `None` once the release ramp has fully elapsed, and
    /// then forever after.
    pub fn next(&mut self) -> (r: Option<i64>)
        requires
            old(self).wf(),
        ensures
            *final(self) == old(self).spec_adv(),
            final(self).wf(),
            match r {
                Some(v) => !old(self).spec_terminated() && v == old(self).spec_level()
                    && 0 <= v <= UNIT,
                None => old(self).spec_terminated(),
            },
    {
        // Read the clock, then bump it.
        let t = self.t;
        if t < u64::MAX {
            self.t = t + 1;
        }

        match self.release_time {
            Some(rt) => {
                // Release ramp from the captured level down to zero.
                let rl = self.env.release;
                let dt = t - rt;
                if dt >= rl as u64 {
                    return None;
                }
                let remaining = (rl as u64 - dt) as i64;
                proof {
                    assert(self.sus * remaining <= UNIT * (rl as int)) by (nonlinear_arith)
                        requires
                            0 <= self.sus <= UNIT,
                            0 <= remaining <= rl as int,
                    ;
                    assert(0 <= self.sus * remaining) by (nonlinear_arith)
                        requires
                            0 <= self.sus,
                            0 <= remaining,
                    ;
                    lemma_div_range(self.sus * remaining, UNIT as int, rl as int);
                }
                Some((self.sus * remaining) / (rl as i64))
            },
            None => {
                let ta = self.env.attack as u64;
                let td = self.env.decay as u64;
                let sus = self.env.sustain;
                let e: i64;
                if t >= ta + td {
                    // Sustain phase.
                    e = sus;
                } else if t >= ta {
                    // Decay phase: here `t < ta + td`, so `td > 0`.
                    let dt = (t - ta) as i64;
                    proof {
                        assert((UNIT - sus) * dt <= UNIT * (td as int)) by (nonlinear_arith)
                            requires
                                0 <= UNIT - sus <= UNIT,
                                0 <= dt <= td as int,
                        ;
                        assert(0 <= (UNIT - sus) * dt) by (nonlinear_arith)
                            requires
                                0 <= UNIT - sus,
                                0 <= dt,
                        ;
                        lemma_div_range((UNIT - sus) * dt, UNIT as int, td as int);
                    }
                    e = UNIT - ((UNIT - sus) * dt) / (td as i64);
                } else {
                    // Attack phase: here `t < ta`, so `ta > 0`.
                    proof {
                        assert(UNIT * (t as int) <= UNIT * (ta as int)) by (nonlinear_arith)
                            requires
                                0 <= t as int <= ta as int,
                        ;
                        assert(0 <= UNIT * (t as int)) by (nonlinear_arith)
                            requires
                                0 <= t as int,
                        ;
                        lemma_div_range(UNIT * (t as int), UNIT as int, ta as int);
                    }
                    e = (UNIT * (t as i64)) / (ta as i64);
                }
                // Remember the returned level in case a release comes next.
                self.sus = e;
                Some(e)
            },
        }
    }

}

/// A voice wrapped together with envelope parameters: for each requested
/// frequency it produces a whole note, the voice's signal shaped by a
/// fresh envelope.
#[derive(Debug)]
pub struct EnvelopedVoice {
    /// The underlying voice.
    pub voice: crate::signal::Voice,
    /// The envelope parameters every note of this voice starts with.
    pub adsr: ADSR,
}

impl EnvelopedVoice {
    /// The wrapped voice and parameters are each well formed.
    pub open spec fn wf(self) -> bool {
        self.voice.wf() && self.adsr.wf()
    }

    /// Wrap a voice with envelope parameters.
    pub fn new(voice: crate::signal::Voice, adsr: ADSR) -> (r: EnvelopedVoice)
        requires
            voice.wf(),
            adsr.wf(),
        ensures
            r.voice == voice,
            r.adsr == adsr,
            r.wf(),
    {
        EnvelopedVoice { voice, adsr }
    }

    /// Produce a note for the given fixed-point frequency: a fresh signal
    /// of the wrapped voice, shaped by a fresh envelope at time zero.
    pub fn iter_freq(&self, freq: u32) -> (r: crate::signal::Note)
        requires
            self.wf(),
        ensures
            self.voice.fresh_signal(freq, r.signal),
            r.env == Some(Envelope {
                t: 0u64,
                release_time: None::<u64>,
                sus: self.adsr.sustain,
                env: self.adsr,
            }),
            r.wf(),
    {
        crate::signal::Note::new(&self.voice, &self.adsr, freq)
    }
}

/// The envelope hits its landmarks exactly: at note-on it is silent, at
/// the attack/decay boundary it is at full amplitude, and at the end of
/// the decay it sits at the sustain level.
pub proof fn lemma_adsr_boundaries(a: ADSR)
    requires
        a.wf(),
        a.attack > 0,
        a.decay > 0,
    ensures
        pre_level(a, 0) == 0,
        pre_level(a, a.attack as int) == UNIT,
        pre_level(a, a.attack + a.decay) == a.sustain,
{
    lemma_div_of0(a.attack as int);
    assert(UNIT * 0 == 0) by (nonlinear_arith);
    lemma_div_of0(a.decay as int);
    assert((UNIT - a.sustain) * 0 == 0) by (nonlinear_arith);
}

/// The release ramp starts exactly at the level captured when release
/// was triggered, falls linearly, and the envelope is terminated exactly
/// once the whole release time has elapsed — and then forever, since its
/// clock never runs backwards.
pub proof fn lemma_release_ramp(e: Envelope)
    requires
        e.wf(),
        e.release_time is Some,
        e.env.release > 0,
    ensures
        e.t == e.release_time.unwrap() ==> !e.spec_terminated() && e.spec_level() == e.sus,
        e.spec_terminated() <==> e.t >= e.release_time.unwrap() + e.env.release,
{
    let rt = e.release_time.unwrap();
    if e.t == rt {
        lemma_div_by_multiple(e.sus as int, e.env.release as int);
    }
}

/// Early release: an envelope released before reaching sustain fades
/// from the level it really had — the captured level `sus` — and the
/// nominal sustain parameter plays no part in the ramp.
pub proof fn lemma_early_release(e: Envelope)
    requires
        e.wf(),
        e.release_time is None,
        e.env.release > 0,
    ensures
        ({
            let r = Envelope { release_time: Some(e.t), ..e };
            &&& !r.spec_terminated()
            &&& r.spec_level() == e.sus
        }),
{
    let r = Envelope { release_time: Some(e.t), ..e };
    lemma_div_by_multiple(e.sus as int, e.env.release as int);
    assert(r.spec_level() == rel_level(e.sus as int, e.env.release as int, 0));
}

/// The pre-release level always lies between silence and full amplitude.
pub proof fn lemma_pre_level_in_range(a: ADSR, t: int)
    requires
        a.wf(),
        0 <= t,
    ensures
        0 <= pre_level(a, t) <= UNIT,
{
    if t >= a.attack + a.decay {
        // Sustain level, in range by well-formedness.
    } else if t >= a.attack {
        let d = a.decay as int;
        let dt = t - a.attack;
        let drop = UNIT - a.sustain;
        assert(0 <= dt < d);
        assert(drop * dt <= drop * d) by (nonlinear_arith)
            requires 0 <= drop && 0 <= dt <= d;
        assert(0 <= drop * dt) by (nonlinear_arith)
            requires 0 <= drop && 0 <= dt;
        assert(drop * dt <= UNIT * d) by (nonlinear_arith)
            requires drop <= UNIT && dt <= d && 0 <= drop && 0 <= dt;
        lemma_div_range(drop * dt, UNIT as int, d);
    } else {
        let at = a.attack as int;
        assert(0 < at);
        assert(UNIT * t <= UNIT * at) by (nonlinear_arith)
            requires t <= at;
        lemma_div_range(UNIT * t, UNIT as int, at);
    }
}

} // verus!

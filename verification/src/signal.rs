//! Signals, voices and notes.
//!
//! A signal is a pull-based stream of samples: each pull either yields the
//! next sample or reports that the stream is exhausted, a terminal
//! condition distinct from emitting silence. A voice turns a target
//! frequency into a fresh signal. A note binds one signal to one envelope
//! for one held key.

use vstd::prelude::*;
use crate::UNIT;
use crate::copy_samples;
use crate::envelope::Envelope;
use crate::lemma_mul_q_range;
use crate::mul_q;
use crate::sampler::Loop;
use crate::scale_q;
use crate::wave::CYCLE;
use crate::wave::MAX_STEP;
use crate::wave::WaveGen;
use crate::wave::WaveShape;
use crate::wave::buf_ok;
use crate::wave::freq_step;
use crate::wave::lemma_index_in_table;
use crate::wave::lemma_wave_val_in_range;
use crate::wave::wave_val;

verus! {

/// A pull-based stream of samples.
///
/// `Samples` plays a buffer, once or in a loop; `Wave` runs a waveform
/// phase accumulator. A looped `Samples` and a `Wave` never exhaust; a
/// one-shot `Samples` exhausts when the buffer runs out.
#[derive(Debug)]
pub enum Signal {
    /// Sample-buffer playback, looped or one-shot.
    Samples {
        /// The backing buffer of normalized samples.
        buf: Vec<i64>,
        /// The playback index.
        pos: usize,
        /// Whether playback wraps at the end of the buffer.
        looped: bool,
    },
    /// A waveform phase accumulator.
    Wave {
        /// Which shape the waveform has.
        shape: WaveShape,
        /// One cycle of sample values for the sine shape.
        table: Vec<i64>,
        /// The current phase, in `[0, CYCLE)`.
        phase: u64,
        /// The phase advance per sample.
        step: u64,
    },
}

impl Signal {
    /// Buffers hold valid amplitudes, indices stay in range and the phase
    /// accumulator stays inside one cycle.
    pub open spec fn wf(self) -> bool {
        match self {
            Signal::Samples { buf, pos, looped } => {
                &&& buf_ok(buf@)
                &&& pos <= buf@.len()
                &&& (looped && buf@.len() > 0 ==> pos < buf@.len())
                &&& (looped && buf@.len() == 0 ==> pos == 0)
            },
            Signal::Wave { shape, table, phase, step } => {
                &&& buf_ok(table@)
                &&& table@.len() <= UNIT
                &&& phase < CYCLE
                &&& step <= MAX_STEP
            },
        }
    }

    /// The stream has ended: only a one-shot buffer that has been played
    /// to its end is ever exhausted.
    pub open spec fn spec_exhausted(self) -> bool {
        match self {
            Signal::Samples { buf, pos, looped } => !looped && pos >= buf@.len(),
            Signal::Wave { .. } => false,
        }
    }

    /// The sample the next pull yields, when the stream is not exhausted.
    /// An empty looped buffer plays silence; a waveform is evaluated at
    /// its advanced phase.
    pub open spec fn spec_out(self) -> int {
        match self {
            Signal::Samples { buf, pos, looped } => {
                if looped && buf@.len() == 0 {
                    0
                } else {
                    buf@[pos as int] as int
                }
            },
            Signal::Wave { shape, table, phase, step } => {
                wave_val(shape, table@, ((phase + step) % (CYCLE as int)))
            },
        }
    }

    /// The state after one pull: the playback index advances (wrapping if
    /// looped), or the phase accumulator advances by one step modulo one
    /// cycle. An exhausted stream stays as it is.
    pub open spec fn spec_adv(self) -> Signal {
        match self {
            Signal::Samples { buf, pos, looped } => {
                if looped {
                    if buf@.len() == 0 {
                        self
                    } else {
                        Signal::Samples {
                            buf,
                            pos: (((pos as int + 1) % (buf@.len() as int)) as usize),
                            looped,
                        }
                    }
                } else {
                    if pos >= buf@.len() {
                        self
                    } else {
                        Signal::Samples { buf, pos: (pos + 1) as usize, looped }
                    }
                }
            },
            Signal::Wave { shape, table, phase, step } => {
                Signal::Wave {
                    shape,
                    table,
                    phase: ((phase + step) % (CYCLE as int)) as u64,
                    step,
                }
            },
        }
    }

    /// Make a sample-playback signal over the given buffer, looped or
    /// one-shot.
    pub fn samples(buf: Vec<i64>, looped: bool) -> (s: Signal)
        requires
            buf_ok(buf@),
        ensures
            s == (Signal::Samples { buf, pos: 0usize, looped }),
            s.wf(),
    {
        Signal::Samples { buf, pos: 0, looped }
    }

    /// Pull the next sample, or report that the stream is exhausted; an
    /// exhausted stream stays exhausted forever.
    pub fn next(&mut self) -> (r: Option<i64>)
        requires
            old(self).wf(),
        ensures
            *final(self) == old(self).spec_adv(),
            final(self).wf(),
            match r {
                Some(v) => !old(self).spec_exhausted() && v == old(self).spec_out()
                    && -UNIT <= v <= UNIT,
                None => old(self).spec_exhausted(),
            },
    {
        match self {
            Signal::Samples { buf, pos, looped } => {
                if *looped {
                    if buf.len() == 0 {
                        Some(0)
                    } else {
                        let s = buf[*pos];
                        *pos = (*pos + 1) % buf.len();
                        Some(s)
                    }
                } else {
                    if *pos >= buf.len() {
                        None
                    } else {
                        let s = buf[*pos];
                        *pos = *pos + 1;
                        Some(s)
                    }
                }
            },
            Signal::Wave { shape, table, phase, step } => {
                let p = (*phase + *step) % CYCLE;
                *phase = p;
                let v: i64;
                proof {
                    lemma_wave_val_in_range(*shape, table@, p as int);
                }
                match shape {
                    WaveShape::Square => {
                        v = if p < crate::wave::HALF_CYCLE { -UNIT } else { UNIT };
                    },
                    WaveShape::Saw => {
                        v = UNIT - (2 * UNIT * (p as i64)) / (CYCLE as i64);
                    },
                    WaveShape::Tri => {
                        if p < crate::wave::HALF_CYCLE {
                            v = UNIT - (4 * UNIT * (p as i64)) / (CYCLE as i64);
                        } else {
                            v = (4 * UNIT * (p as i64)) / (CYCLE as i64) - 3 * UNIT;
                        }
                    },
                    WaveShape::Sine => {
                        if table.len() == 0 {
                            v = 0;
                        } else {
                            proof {
                                lemma_index_in_table(table@.len() as int, p as int);
                                assert(p * (table@.len() as int)
                                    <= 0x1_0000_0000 * 0x1_0000) by (nonlinear_arith)
                                    requires p < 0x1_0000_0000 && table@.len() <= 0x1_0000;
                            }
                            let idx = (p * (table.len() as u64) / CYCLE) as usize;
                            v = table[idx];
                        }
                    },
                }
                Some(v)
            },
        }
    }
}

/// A note: the binding of one signal with one envelope, for one held key.
/// A note without an envelope plays its raw signal.
#[derive(Debug)]
pub struct Note {
    /// The sample stream of the note.
    pub signal: Signal,
    /// The envelope shaping the stream, if the note has one.
    pub env: Option<Envelope>,
}

impl Note {
    /// The signal and the envelope are each well formed.
    pub open spec fn wf(self) -> bool {
        &&& self.signal.wf()
        &&& match self.env {
            Some(e) => e.wf(),
            None => true,
        }
    }

    /// The note has ended: its envelope has fully elapsed or its signal
    /// has exhausted.
    pub open spec fn spec_exhausted(self) -> bool {
        ||| match self.env {
            Some(e) => e.spec_terminated(),
            None => false,
        }
        ||| self.signal.spec_exhausted()
    }

    /// The sample the next pull yields when the note has not ended: the
    /// signal's sample scaled by the envelope level.
    pub open spec fn spec_out(self) -> int {
        match self.env {
            Some(e) => mul_q(e.spec_level(), self.signal.spec_out()),
            None => self.signal.spec_out(),
        }
    }

    /// The state after one pull. The envelope advances first; the signal
    /// advances only if the envelope had not already terminated, so that
    /// termination short-circuits and the signal is not advanced past it.
    pub open spec fn spec_adv(self) -> Note {
        match self.env {
            Some(e) => Note {
                signal: if e.spec_terminated() {
                    self.signal
                } else {
                    self.signal.spec_adv()
                },
                env: Some(e.spec_adv()),
            },
            None => Note { signal: self.signal.spec_adv(), env: self.env },
        }
    }

    /// Bind a raw signal into a note with no envelope.
    pub fn raw(signal: Signal) -> (r: Note)
        requires
            signal.wf(),
        ensures
            r == (Note { signal, env: None::<Envelope> }),
            r.wf(),
    {
        Note { signal, env: None }
    }

    /// Make a note for a held key: the voice's signal at the given
    /// frequency, shaped by a fresh envelope with the given parameters.
    pub fn new(voice: &Voice, adsr: &crate::envelope::ADSR, freq: u32) -> (r: Note)
        requires
            voice.wf(),
            adsr.wf(),
        ensures
            voice.fresh_signal(freq, r.signal),
            r.env == Some(Envelope {
                t: 0u64,
                release_time: None::<u64>,
                sus: adsr.sustain,
                env: *adsr,
            }),
            r.wf(),
    {
        Note { signal: voice.iter_freq(freq), env: Some(Envelope::new(adsr)) }
    }

    /// Trigger the envelope's release, if the note has an envelope; a
    /// second trigger changes nothing. A note without an envelope is
    /// unaffected: a raw voice is stopped by removing it instead.
    pub fn release(&mut self)
        ensures
            match old(self).env {
                Some(e) => *final(self) == (Note {
                    env: Some(match e.release_time {
                        None => Envelope { release_time: Some(e.t), ..e },
                        Some(_) => e,
                    }),
                    ..*old(self)
                }),
                None => *final(self) == *old(self),
            },
            old(self).wf() ==> final(self).wf(),
    {
        match &mut self.env {
            Some(e) => e.release(),
            None => {},
        }
    }

    /// Pull the next sample of the note, or report that it has ended.
    pub fn next(&mut self) -> (r: Option<i64>)
        requires
            old(self).wf(),
        ensures
            *final(self) == old(self).spec_adv(),
            final(self).wf(),
            match r {
                Some(v) => !old(self).spec_exhausted() && v == old(self).spec_out()
                    && -UNIT <= v <= UNIT,
                None => old(self).spec_exhausted(),
            },
    {
        match &mut self.env {
            Some(env) => {
                let e = match env.next() {
                    Some(e) => e,
                    None => {
                        return None;
                    },
                };
                let s = match self.signal.next() {
                    Some(s) => s,
                    None => {
                        return None;
                    },
                };
                proof {
                    lemma_mul_q_range(e as int, s as int);
                }
                Some(scale_q(e, s))
            },
            None => self.signal.next(),
        }
    }
}

impl WaveGen {
    /// Produce a fresh waveform signal for the given fixed-point
    /// frequency, at phase zero.
    pub fn iter_freq(&self, freq: u32) -> (s: Signal)
        requires
            self.wf(),
        ensures
            Voice::Wave(*self).fresh_signal(freq, s),
            s.wf(),
    {
        Signal::Wave {
            shape: self.shape,
            table: copy_samples(&self.table),
            phase: 0,
            step: freq_step(freq),
        }
    }
}

/// A voice: a capability that turns a target frequency into a fresh
/// sample-producing signal. The variants are the waveform generator and
/// looped sample playback; an enveloped voice wraps one of these together
/// with envelope parameters and produces whole notes.
#[derive(Debug)]
pub enum Voice {
    /// A synthetic waveform generator.
    Wave(WaveGen),
    /// Looped playback of a fixed sample buffer.
    Sample(Loop),
}

impl Voice {
    /// The wrapped generator is well formed.
    pub open spec fn wf(self) -> bool {
        match self {
            Voice::Wave(g) => g.wf(),
            Voice::Sample(l) => l.wf(),
        }
    }

    /// What a fresh signal of this voice looks like, for a fixed-point
    /// frequency of `freq / UNIT` hertz: a waveform accumulator at phase
    /// zero with the step matching the frequency, or looped playback of
    /// the voice's buffer from its start.
    pub open spec fn fresh_signal(self, freq: u32, s: Signal) -> bool {
        match (self, s) {
            (Voice::Wave(g), Signal::Wave { shape, table, phase, step }) => {
                &&& shape == g.shape
                &&& table@ == g.table@
                &&& phase == 0
                &&& step == crate::wave::step_of(freq as int)
            },
            (Voice::Sample(l), Signal::Samples { buf, pos, looped }) => {
                &&& buf@ == l.sound@
                &&& pos == 0
                &&& looped == true
            },
            _ => false,
        }
    }

    /// Produce a fresh signal for the given fixed-point frequency.
    pub fn iter_freq(&self, freq: u32) -> (s: Signal)
        requires
            self.wf(),
        ensures
            self.fresh_signal(freq, s),
            s.wf(),
    {
        match self {
            Voice::Wave(g) => Signal::Wave {
                shape: g.shape,
                table: copy_samples(&g.table),
                phase: 0,
                step: freq_step(freq),
            },
            Voice::Sample(l) => Signal::Samples {
                buf: copy_samples(&l.sound),
                pos: 0,
                looped: true,
            },
        }
    }
}

} // verus!

//! The looped-sample playback voice.
//!
//! A `Loop` wraps a fixed buffer of normalized samples, loaded from
//! outside, and plays it end over end: each pull returns the sample under
//! the playback index and advances the index, wrapping at the end of the
//! buffer. The resulting signal never exhausts.

use vstd::prelude::*;
use crate::copy_samples;
use crate::signal::Signal;
use crate::wave::buf_ok;

verus! {

/// A voice that plays a fixed sample buffer in a loop.
#[derive(Debug)]
pub struct Loop {
    /// The backing buffer of normalized samples.
    pub sound: Vec<i64>,
}

impl Loop {
    /// The backing buffer holds only valid amplitudes.
    pub open spec fn wf(self) -> bool {
        buf_ok(self.sound@)
    }

    /// Make a looped-playback voice over a copy of the given buffer.
    pub fn new(sound: &Vec<i64>) -> (r: Loop)
        requires
            buf_ok(sound@),
        ensures
            r.sound@ == sound@,
            r.wf(),
    {
        Loop { sound: copy_samples(sound) }
    }

    /// Produce a fresh signal that plays the buffer in a loop from its
    /// start. Looped playback ignores the requested frequency: the buffer
    /// plays at its native rate.
    pub fn iter_freq(&self, freq: u32) -> (s: Signal)
        requires
            self.wf(),
        ensures
            s matches Signal::Samples { buf, pos, looped } && buf@ == self.sound@
                && pos == 0 && looped == true,
            s.wf(),
    {
        let _ = freq;
        Signal::Samples { buf: copy_samples(&self.sound), pos: 0, looped: true }
    }
}

} // verus!

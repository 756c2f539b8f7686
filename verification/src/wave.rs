//! Synthetic waveform generators.
//!
//! A waveform voice is a phase accumulator: the phase runs through one
//! cycle as the counter runs from `0` to [`CYCLE`], advancing by a fixed
//! step per sample, and the output is a shape function of the phase.
//! Square, sawtooth and triangle shapes are exact piecewise-linear
//! functions of the phase. The sine shape reads a table of one cycle of
//! sample values supplied from outside, where the trigonometry happens.

use vstd::prelude::*;
use crate::SAMPLE_RATE;
use crate::UNIT;
use crate::lemma_div_range;
use crate::str_is;
use vstd::arithmetic::div_mod::lemma_multiply_divide_lt;

verus! {

/// Phase units per waveform cycle: the phase accumulator counts modulo
/// this value.
pub const CYCLE: u64 = 0x1_0000_0000;

/// Phase units per half cycle.
pub const HALF_CYCLE: u64 = 0x8000_0000;

/// The largest phase step a voice can be built with: it corresponds to the
/// largest representable frequency, and keeps the accumulator far from
/// overflow.
pub const MAX_STEP: u64 = 0x2_0000_0000;

/// The available waveform shapes.
#[derive(Debug, Clone, Copy, PartialEq, Eq, Structural)]
pub enum WaveShape {
    Sine,
    Square,
    Saw,
    Tri,
}

/// A sample buffer holds only valid amplitudes.
pub open spec fn buf_ok(buf: Seq<i64>) -> bool {
    forall|i: int| 0 <= i < buf.len() ==> -UNIT <= #[trigger] buf[i] <= UNIT
}

/// The phase step that advances the accumulator by `freq / UNIT` cycles
/// per `SAMPLE_RATE` samples: `freq` is a frequency in fixed-point hertz.
pub open spec fn step_of(freq: int) -> int {
    freq * (CYCLE / UNIT as u64) / (SAMPLE_RATE as int)
}

/// The sample a waveform emits at phase `p` of its cycle.
///
/// Shapes follow the classical definitions on the phase interval: the
/// square is low for the first half cycle and high for the second; the
/// sawtooth falls linearly from `UNIT` to `-UNIT` over the cycle; the
/// triangle falls over the first half cycle and rises back over the
/// second. The sine is read from the table, one cycle long, and an empty
/// table reads as silence.
pub open spec fn wave_val(shape: WaveShape, table: Seq<i64>, p: int) -> int {
    match shape {
        WaveShape::Square => if p < HALF_CYCLE { -UNIT as int } else { UNIT as int },
        WaveShape::Saw => UNIT - 2 * UNIT * p / (CYCLE as int),
        WaveShape::Tri => if p < HALF_CYCLE {
            UNIT - 4 * UNIT * p / (CYCLE as int)
        } else {
            4 * UNIT * p / (CYCLE as int) - 3 * UNIT
        },
        WaveShape::Sine => if table.len() == 0 {
            0
        } else {
            table[p * table.len() / (CYCLE as int)] as int
        },
    }
}

/// Every waveform sample is a valid amplitude.
pub proof fn lemma_wave_val_in_range(shape: WaveShape, table: Seq<i64>, p: int)
    requires
        buf_ok(table),
        table.len() <= UNIT,
        0 <= p < CYCLE,
    ensures
        -UNIT <= wave_val(shape, table, p) <= UNIT,
{
    let c = CYCLE as int;
    match shape {
        WaveShape::Square => {},
        WaveShape::Saw => {
            assert(2 * UNIT * p <= 2 * UNIT * c) by (nonlinear_arith)
                requires 0 <= p <= c;
            assert(0 <= 2 * UNIT * p) by (nonlinear_arith)
                requires 0 <= p;
            lemma_div_range(2 * UNIT * p, 2 * UNIT as int, c);
        },
        WaveShape::Tri => {
            assert(4 * UNIT * p <= 4 * UNIT * c) by (nonlinear_arith)
                requires 0 <= p <= c;
            assert(0 <= 4 * UNIT * p) by (nonlinear_arith)
                requires 0 <= p;
            lemma_div_range(4 * UNIT * p, 4 * UNIT as int, c);
            if p < HALF_CYCLE {
                assert(4 * UNIT * p <= 2 * UNIT * c) by (nonlinear_arith)
                    requires 0 <= p && 2 * p <= c;
                lemma_div_range(4 * UNIT * p, 2 * UNIT as int, c);
            } else {
                assert(2 * UNIT * c <= 4 * UNIT * p) by (nonlinear_arith)
                    requires c <= 2 * p;
                vstd::arithmetic::div_mod::lemma_div_is_ordered(
                    2 * UNIT * c, 4 * UNIT * p, c);
                vstd::arithmetic::div_mod::lemma_div_multiples_vanish(
                    2 * UNIT as int, c);
                assert(c * (2 * UNIT as int) == 2 * UNIT * c) by (nonlinear_arith);
            }
        },
        WaveShape::Sine => {
            if table.len() > 0 {
                lemma_index_in_table(table.len() as int, p);
            }
        },
    }
}

/// A phase inside the cycle indexes inside a table of one cycle.
pub proof fn lemma_index_in_table(len: int, p: int)
    requires
        0 < len,
        0 <= p < CYCLE,
    ensures
        0 <= p * len / (CYCLE as int) < len,
{
    let c = CYCLE as int;
    assert(p * len < c * len) by (nonlinear_arith)
        requires 0 <= p < c && 0 < len;
    assert(0 <= p * len) by (nonlinear_arith)
        requires 0 <= p && 0 < len;
    lemma_multiply_divide_lt(p * len, c, len);
    vstd::arithmetic::div_mod::lemma_div_pos_is_pos(p * len, c);
}

/// A voice that generates one of the synthetic waveform shapes.
///
/// For the sine shape, `table` holds one cycle of precomputed sample
/// values; the other shapes ignore it. An empty table makes a silent
/// sine voice.
#[derive(Debug)]
pub struct WaveGen {
    /// Which shape this voice generates.
    pub shape: WaveShape,
    /// One cycle of sample values for the sine shape.
    pub table: Vec<i64>,
}

impl WaveGen {
    /// The table holds valid amplitudes and at most one entry per
    /// fixed-point unit, which keeps phase-times-length arithmetic small.
    pub open spec fn wf(self) -> bool {
        buf_ok(self.table@) && self.table@.len() <= UNIT
    }

    /// Make a new waveform voice of the given shape, with no sine table:
    /// a sine voice made this way is silent until a table is supplied.
    pub fn new(shape: WaveShape) -> (r: WaveGen)
        ensures
            r.shape == shape,
            r.table@.len() == 0,
            r.wf(),
    {
        WaveGen { shape, table: Vec::new() }
    }

    /// Make a new waveform voice of the given shape with one cycle of
    /// precomputed sample values for the sine shape.
    pub fn with_table(shape: WaveShape, table: Vec<i64>) -> (r: WaveGen)
        requires
            buf_ok(table@),
            table@.len() <= UNIT,
        ensures
            r.shape == shape,
            r.table == table,
            r.wf(),
    {
        WaveGen { shape, table }
    }
}

/// The shape a waveform name on the command line denotes.
pub open spec fn shape_of_name(s: Seq<char>) -> Option<WaveShape> {
    if s == "sin"@ || s == "sine"@ {
        Some(WaveShape::Sine)
    } else if s == "square"@ {
        Some(WaveShape::Square)
    } else if s == "saw"@ || s == "sawtooth"@ {
        Some(WaveShape::Saw)
    } else if s == "tri"@ || s == "triangle"@ {
        Some(WaveShape::Tri)
    } else {
        None
    }
}

/// Look a waveform up by its command-line name; `None` for a name that
/// denotes no shape.
pub fn wave_shape_of(name: &String) -> (r: Option<WaveShape>)
    ensures
        r == shape_of_name(name@),
{
    if str_is(name, "sin") || str_is(name, "sine") {
        Some(WaveShape::Sine)
    } else if str_is(name, "square") {
        Some(WaveShape::Square)
    } else if str_is(name, "saw") || str_is(name, "sawtooth") {
        Some(WaveShape::Saw)
    } else if str_is(name, "tri") || str_is(name, "triangle") {
        Some(WaveShape::Tri)
    } else {
        None
    }
}

/// Compute the phase step for a fixed-point frequency: `freq / UNIT` hertz
/// becomes `step_of(freq)` phase units per sample.
pub fn freq_step(freq: u32) -> (r: u64)
    ensures
        r == step_of(freq as int),
        r <= MAX_STEP,
{
    proof {
        assert((freq as int) * ((CYCLE / UNIT as u64) as int)
            <= MAX_STEP * (SAMPLE_RATE as int)) by (nonlinear_arith)
            requires 0 <= (freq as int) && (freq as int) < 0x1_0000_0000;
        assert(0 <= (freq as int) * ((CYCLE / UNIT as u64) as int)) by (nonlinear_arith)
            requires 0 <= (freq as int);
        lemma_div_range(
            (freq as int) * ((CYCLE / UNIT as u64) as int),
            MAX_STEP as int,
            SAMPLE_RATE as int,
        );
    }
    (freq as u64) * (CYCLE / UNIT as u64) / (SAMPLE_RATE as u64)
}

} // verus!

//! A scripted line: a stand-in for the pin and the clock that plays back the
//! edges of a sensor response.
//!
//! After the host releases the line the script starts over. Each sample then
//! lands exactly on the next edge of the script: the clock moves on by the
//! width of the line state that ends there, and the level is the one the line
//! has after that edge. The line idles high, so the first edge falls.

use vstd::prelude::*;
use vstd::arithmetic::power2::{pow2, lemma_pow2_pos, lemma_pow2_unfold, lemma2_to64_rest};
use crate::frame::Frame;
use crate::reading::DhtError;
use crate::transceiver::{edge_budget, Sample, ONE_THRESHOLD};

verus! {

/// Width of the idle state before the sensor answers, in a synthetic script.
pub const SCRIPT_RESPONSE: u32 = 30;

/// Width of each half of the acknowledgement, in a synthetic script.
pub const SCRIPT_ACK: u32 = 80;

/// Width of the low state that opens each bit, in a synthetic script.
pub const SCRIPT_BIT_LOW: u32 = 50;

/// Width of the high pulse of a zero, in a synthetic script.
pub const SCRIPT_ZERO: u32 = 28;

/// Width of the high pulse of a one, in a synthetic script.
pub const SCRIPT_ONE: u32 = 70;

/// What the host last did to the line.
#[derive(Clone, Copy, Debug, PartialEq, Eq, Structural)]
pub enum LineMode {
    /// Released to input; the pull-up holds the line high unless the sensor
    /// pulls it low.
    Released,
    /// Driven low by the host.
    DrivenLow,
}

/// The state of a scripted line as plain values.
pub struct LineState {
    /// The monotonic clock, in microseconds.
    pub clock: u64,
    /// The last command of the host.
    pub mode: LineMode,
    /// Widths in microseconds of the successive line states of the sensor
    /// response, the first being the idle state after the release.
    pub widths: Seq<u32>,
    /// Number of edges of the script that have been played.
    pub cursor: nat,
}

/// The clock after `micros` more microseconds; it stops at its largest value.
pub open spec fn clock_after(clock: u64, micros: u64) -> u64 {
    if clock + micros <= u64::MAX {
        (clock + micros) as u64
    } else {
        u64::MAX
    }
}

impl LineState {
    /// The level of the line: low while the host drives it, else high after
    /// an even number of edges and low after an odd number.
    pub open spec fn level(self) -> bool {
        self.mode == LineMode::Released && self.cursor % 2 == 0
    }

    /// The line after the next edge of the script has been played, or the
    /// line itself if the script has run out.
    pub open spec fn after_next(self) -> LineState {
        if self.cursor < self.widths.len() {
            LineState {
                clock: clock_after(self.clock, self.widths[self.cursor as int] as u64),
                cursor: self.cursor + 1,
                ..self
            }
        } else {
            self
        }
    }

    /// The sample that the next edge of the script gives, if there is one.
    pub open spec fn next_sample(self) -> Option<Sample> {
        if self.cursor < self.widths.len() {
            Some(
                Sample {
                    at: clock_after(self.clock, self.widths[self.cursor as int] as u64),
                    high: self.mode == LineMode::Released && self.cursor % 2 == 1,
                },
            )
        } else {
            None
        }
    }
}

/// Sum of the first `count` widths of a script: the time from the release to
/// the edge with number `count - 1`.
pub open spec fn span(widths: Seq<u32>, count: nat) -> nat
    decreases count,
{
    if count == 0 {
        0
    } else {
        span(widths, (count - 1) as nat) + widths[count - 1] as nat
    }
}

/// Number of edges of a script that a transaction plays when the edges before
/// `from` came in time: it stops after the first late edge, at the end of the
/// script, or after the last of the 83 edges.
pub open spec fn edges_played(widths: Seq<u32>, from: nat) -> nat
    decreases 83 - from,
{
    if from >= 83 || from >= widths.len() {
        from
    } else if widths[from as int] > edge_budget(from as u8) {
        from + 1
    } else {
        edges_played(widths, from + 1)
    }
}

/// Whether the first `count` edges of a script exist and each comes within
/// the budget of its phase.
pub open spec fn edges_in_time(widths: Seq<u32>, count: int) -> bool {
    forall|k: int|
        0 <= k < count ==> k < widths.len() && #[trigger] widths[k] <= edge_budget(k as u8)
}

/// The number that the first `bits` bits of a script spell, first bit most
/// significant. The high pulse of bit `i` is the line state with number
/// `2 * i + 4`; it is a one if it is wider than the threshold.
pub open spec fn received_word(widths: Seq<u32>, bits: nat) -> nat
    decreases bits,
{
    if bits == 0 {
        0
    } else {
        2 * received_word(widths, (bits - 1) as nat) + if widths[2 * bits as int + 2] > ONE_THRESHOLD {
            1nat
        } else {
            0nat
        }
    }
}

/// What one transaction over a script gives: the frame that the forty pulse
/// widths spell if all 83 edges come in time, else a timeout.
pub open spec fn capture(widths: Seq<u32>) -> Result<Frame, DhtError> {
    if edges_in_time(widths, 83) {
        Ok(Frame::of_word(received_word(widths, 40) as int))
    } else {
        Err(DhtError::Timeout)
    }
}

/// The synthetic script of a frame: the acknowledgement, then for each bit
/// the opening low state and a high pulse of the width that stands for it.
pub open spec fn frame_script(frame: Frame) -> Seq<u32> {
    Seq::new(
        83,
        |k: int|
            if k == 0 {
                SCRIPT_RESPONSE
            } else if k < 3 {
                SCRIPT_ACK
            } else if k % 2 == 1 {
                SCRIPT_BIT_LOW
            } else if frame.bit((k - 4) / 2) {
                SCRIPT_ONE
            } else {
                SCRIPT_ZERO
            },
    )
}

/// Builds the synthetic script of a frame.
pub fn script_for(frame: Frame) -> (widths: Vec<u32>)
    ensures
        widths@ == frame_script(frame),
{
    let word = frame.to_word();
    let mut widths: Vec<u32> = Vec::new();
    widths.push(SCRIPT_RESPONSE);
    widths.push(SCRIPT_ACK);
    widths.push(SCRIPT_ACK);
    let mut divisor: u64 = 0x80_0000_0000;
    let mut index: usize = 0;
    proof {
        lemma2_to64_rest();
    }
    while index < 40
        invariant
            index <= 40,
            word == frame.word(),
            widths.len() == 3 + 2 * index,
            index < 40 ==> divisor == pow2((39 - index) as nat),
            forall|k: int| 0 <= k < widths.len() ==> widths[k] == frame_script(frame)[k],
        decreases 40 - index,
    {
        widths.push(SCRIPT_BIT_LOW);
        proof {
            lemma_pow2_pos((39 - index) as nat);
        }
        if word / divisor % 2 == 1 {
            widths.push(SCRIPT_ONE);
        } else {
            widths.push(SCRIPT_ZERO);
        }
        proof {
            if index < 39 {
                lemma_pow2_unfold((39 - index) as nat);
            }
        }
        divisor = divisor / 2;
        index = index + 1;
    }
    assert(widths@ =~= frame_script(frame));
    widths
}

/// A stand-in for pin and clock that plays back a script of pulse widths.
pub struct ScriptedLine {
    clock: u64,
    mode: LineMode,
    widths: Vec<u32>,
    cursor: usize,
}

impl View for ScriptedLine {
    type V = LineState;

    closed spec fn view(&self) -> LineState {
        LineState {
            clock: self.clock,
            mode: self.mode,
            widths: self.widths@,
            cursor: self.cursor as nat,
        }
    }
}

impl ScriptedLine {
    /// A released line whose clock reads `clock` and whose sensor will answer
    /// a release with the given pulse widths.
    pub fn new(clock: u64, widths: Vec<u32>) -> (line: ScriptedLine)
        ensures
            line@ == (LineState { clock, mode: LineMode::Released, widths: widths@, cursor: 0 }),
    {
        ScriptedLine { clock, mode: LineMode::Released, widths, cursor: 0 }
    }

    /// A released line whose sensor will answer a release with the synthetic
    /// script of `frame`.
    pub fn for_frame(clock: u64, frame: Frame) -> (line: ScriptedLine)
        ensures
            line@ == (LineState {
                clock,
                mode: LineMode::Released,
                widths: frame_script(frame),
                cursor: 0,
            }),
    {
        ScriptedLine::new(clock, script_for(frame))
    }

    /// The clock, in microseconds.
    pub fn now(&self) -> (clock: u64)
        ensures
            clock == self@.clock,
    {
        self.clock
    }

    /// The last command of the host.
    pub fn mode(&self) -> (mode: LineMode)
        ensures
            mode == self@.mode,
    {
        self.mode
    }

    /// Whether the host has released the line.
    pub fn is_released(&self) -> (released: bool)
        ensures
            released == (self@.mode == LineMode::Released),
    {
        self.mode == LineMode::Released
    }

    /// Drives the line low.
    pub fn drive_low(&mut self)
        ensures
            final(self)@ == (LineState { mode: LineMode::DrivenLow, ..old(self)@ }),
    {
        self.mode = LineMode::DrivenLow;
    }

    /// Releases the line; the script of the sensor starts over.
    pub fn release(&mut self)
        ensures
            final(self)@ == (LineState { mode: LineMode::Released, cursor: 0, ..old(self)@ }),
    {
        self.mode = LineMode::Released;
        self.cursor = 0;
    }

    /// Lets `micros` microseconds pass without a sample.
    pub fn sleep(&mut self, micros: u64)
        ensures
            final(self)@ == (LineState {
                clock: clock_after(old(self)@.clock, micros),
                ..old(self)@
            }),
    {
        self.clock = if micros <= u64::MAX - self.clock {
            self.clock + micros
        } else {
            u64::MAX
        };
    }

    /// The line as it is now, without moving on in the script.
    pub fn observe(&self) -> (sample: Sample)
        ensures
            sample == (Sample { at: self@.clock, high: self@.level() }),
    {
        Sample { at: self.clock, high: self.mode == LineMode::Released && self.cursor % 2 == 0 }
    }

    /// Moves on to the next edge of the script and samples the line there;
    /// `None`, and nothing changes, when the script has run out.
    pub fn next_sample(&mut self) -> (sample: Option<Sample>)
        ensures
            sample == old(self)@.next_sample(),
            final(self)@ == old(self)@.after_next(),
    {
        if self.cursor < self.widths.len() {
            let width = self.widths[self.cursor] as u64;
            let at = if width <= u64::MAX - self.clock {
                self.clock + width
            } else {
                u64::MAX
            };
            let high = self.mode == LineMode::Released && self.cursor % 2 == 1;
            self.clock = at;
            self.cursor = self.cursor + 1;
            Some(Sample { at, high })
        } else {
            None
        }
    }
}

} // verus!

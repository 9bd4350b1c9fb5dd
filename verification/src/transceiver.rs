//! The bit-level transceiver: one wire transaction, decided sample by sample.
//!
//! The transceiver never touches the line. It is told what the line looked
//! like at a given time and answers with what the host has to do next. After
//! the host has released the line the sensor produces 83 edges: three for its
//! acknowledgement, then a rising and a falling edge for each of the forty
//! bits. Edges are numbered from 0 in that order.

use vstd::prelude::*;
use vstd::arithmetic::power2::{
    lemma2_to64, lemma2_to64_rest, lemma_pow2_strictly_increases, lemma_pow2_unfold, pow2,
};
use crate::frame::Frame;
use crate::reading::SensorKind;

verus! {

/// Budget for the sensor to answer after the host released the line, in
/// microseconds.
pub const RESPONSE_BUDGET: u64 = 40;

/// Budget for every later edge, in microseconds.
pub const EDGE_BUDGET: u64 = 100;

/// A high pulse wider than this many microseconds is a one.
pub const ONE_THRESHOLD: u64 = 40;

/// Number of the last edge of a transaction.
pub const LAST_EDGE: u8 = 82;

/// One observation of the line: its level, and the monotonic clock at that
/// moment in microseconds.
#[derive(Clone, Copy, Debug, PartialEq, Eq, Structural)]
pub struct Sample {
    pub at: u64,
    pub high: bool,
}

/// Where a transaction stands.
#[derive(Clone, Copy, Debug, PartialEq, Eq, Structural)]
pub enum Phase {
    /// Nothing has been started yet.
    Idle,
    /// The host holds the line low.
    StartPulse,
    /// The line is released and the acknowledgement of the sensor is awaited.
    AwaitAck,
    /// The bit with this number, 0 to 39, is being received.
    ReadingBit(u8),
    /// All forty bits were received.
    Done,
    /// An edge was missed.
    Failed,
}

/// What the host has to do before it hands over the next sample.
#[derive(Clone, Copy, Debug, PartialEq, Eq, Structural)]
pub enum CoreAction {
    /// Drive the line low and keep it low for this many microseconds.
    DriveLow { micros: u64 },
    /// Release the line to input with pull-up.
    Release,
    /// Touch nothing.
    Sample,
    /// The transaction is complete and gave this frame.
    Done(Frame),
    /// The transaction failed on a missed edge.
    Failed,
}

/// Coarse position of the transceiver.
#[derive(Clone, Copy, Debug, PartialEq, Eq, Structural)]
pub enum Stage {
    Idle,
    StartPulse,
    Listening,
    Done,
    Failed,
}

/// The state of the transceiver as plain values.
#[derive(Clone, Copy, Debug, PartialEq, Eq, Structural)]
pub struct CoreState {
    pub kind: SensorKind,
    pub stage: Stage,
    /// Number of the edge that is awaited while listening.
    pub edge: u8,
    /// Clock value at which the current wait began.
    pub since: u64,
    /// The bits received so far, first bit most significant.
    pub word: u64,
}

/// Microseconds from `since` to `at`, zero if the clock went backwards.
pub open spec fn elapsed_spec(since: u64, at: u64) -> u64 {
    if at >= since {
        (at - since) as u64
    } else {
        0
    }
}

/// Level that ends the wait for the edge with this number: edges with an odd
/// number rise, the others fall.
pub open spec fn target_level(edge: u8) -> bool {
    edge % 2 == 1
}

/// Microseconds within which the edge with this number has to arrive.
pub open spec fn edge_budget(edge: u8) -> u64 {
    if edge == 0 {
        RESPONSE_BUDGET
    } else {
        EDGE_BUDGET
    }
}

/// Whether the edge with this number ends the high pulse of a bit.
pub open spec fn ends_bit(edge: u8) -> bool {
    edge >= 4 && edge % 2 == 0
}

/// Number of bits that are complete when the edge with this number is awaited.
pub open spec fn bits_before(edge: u8) -> nat {
    if edge < 3 {
        0
    } else {
        ((edge - 3) / 2) as nat
    }
}

impl CoreState {
    /// The state before the first transaction.
    pub open spec fn idle(kind: SensorKind) -> CoreState {
        CoreState { kind, stage: Stage::Idle, edge: 0, since: 0, word: 0 }
    }

    /// The invariant of the state: while listening the edge number is in range
    /// and the word holds no more bits than were received.
    pub open spec fn wf(self) -> bool {
        &&& self.stage == Stage::Listening ==> self.edge <= LAST_EDGE && self.word < pow2(
            bits_before(self.edge),
        )
        &&& self.stage == Stage::Done ==> self.word < pow2(40)
    }

    /// Whether a transaction is under way.
    pub open spec fn busy(self) -> bool {
        self.stage == Stage::StartPulse || self.stage == Stage::Listening
    }

    /// Whether the host is holding the line low on behalf of this state.
    pub open spec fn drives_line(self) -> bool {
        self.stage == Stage::StartPulse
    }

    /// The position in the terms of the protocol.
    pub open spec fn phase(self) -> Phase {
        match self.stage {
            Stage::Idle => Phase::Idle,
            Stage::StartPulse => Phase::StartPulse,
            Stage::Listening => if self.edge < 3 {
                Phase::AwaitAck
            } else {
                Phase::ReadingBit(((self.edge - 3) / 2) as u8)
            },
            Stage::Done => Phase::Done,
            Stage::Failed => Phase::Failed,
        }
    }

    /// Opening a transaction at time `now`: the host is to hold the line low
    /// for the start pulse of the sensor kind.
    pub open spec fn start(self, now: u64) -> (CoreState, CoreAction) {
        (
            CoreState { kind: self.kind, stage: Stage::StartPulse, edge: 0, since: now, word: 0 },
            CoreAction::DriveLow { micros: self.kind.start_low_spec() },
        )
    }

    /// The effect of one sample.
    ///
    /// During the start pulse the line is released once the pulse has lasted
    /// long enough. While listening, a sample later than the budget of the
    /// awaited edge fails the transaction, whatever its level; a sample in time
    /// and at the target level completes the edge, and the falling edge of a
    /// bit shifts a one into the word if the pulse was wider than the
    /// threshold, else a zero. A sample handed to a transceiver at rest opens
    /// a transaction.
    pub open spec fn step(self, sample: Sample) -> (CoreState, CoreAction) {
        let waited = elapsed_spec(self.since, sample.at);
        match self.stage {
            Stage::StartPulse => if waited >= self.kind.start_low_spec() {
                (
                    CoreState { stage: Stage::Listening, edge: 0, since: sample.at, word: 0, ..self },
                    CoreAction::Release,
                )
            } else {
                (self, CoreAction::DriveLow { micros: (self.kind.start_low_spec() - waited) as u64 })
            },
            Stage::Listening => if waited > edge_budget(self.edge) {
                (CoreState { stage: Stage::Failed, ..self }, CoreAction::Failed)
            } else if sample.high != target_level(self.edge) {
                (self, CoreAction::Sample)
            } else {
                let word = if ends_bit(self.edge) {
                    (2 * self.word + if waited > ONE_THRESHOLD {
                        1int
                    } else {
                        0int
                    }) as u64
                } else {
                    self.word
                };
                if self.edge == LAST_EDGE {
                    (
                        CoreState { stage: Stage::Done, word, ..self },
                        CoreAction::Done(Frame::of_word(word as int)),
                    )
                } else {
                    (
                        CoreState { edge: (self.edge + 1) as u8, since: sample.at, word, ..self },
                        CoreAction::Sample,
                    )
                }
            },
            _ => self.start(sample.at),
        }
    }

    /// Giving up on a line that has gone silent: a transaction that is
    /// listening fails, any other state stays as it is.
    pub open spec fn give_up(self) -> CoreState {
        if self.stage == Stage::Listening {
            CoreState { stage: Stage::Failed, ..self }
        } else {
            self
        }
    }
}

/// Every step keeps the invariant of the state.
pub proof fn lemma_step_keeps_wf(state: CoreState, sample: Sample)
    requires
        state.wf(),
    ensures
        state.step(sample).0.wf(),
        state.start(sample.at).0.wf(),
        state.give_up().wf(),
        state.stage == Stage::Listening && ends_bit(state.edge) ==> 2 * state.word + 1
            < 0x100_0000_0000,
{
    lemma2_to64();
    lemma2_to64_rest();
    if state.stage == Stage::Listening {
        let n = bits_before(state.edge);
        if ends_bit(state.edge) {
            assert(n <= 39);
            if n < 39 {
                lemma_pow2_strictly_increases(n, 39);
            }
            lemma_pow2_unfold(n + 1);
            assert(bits_before((state.edge + 1) as u8) == n + 1 || state.edge == LAST_EDGE);
        } else {
            assert(bits_before((state.edge + 1) as u8) == n);
        }
    }
}

/// Microseconds from `since` to `at`, zero if the clock went backwards.
pub fn elapsed(since: u64, at: u64) -> (micros: u64)
    ensures
        micros == elapsed_spec(since, at),
{
    if at >= since {
        at - since
    } else {
        0
    }
}

/// The bit-level transceiver of one sensor.
pub struct DhtCore {
    state: CoreState,
}

impl View for DhtCore {
    type V = CoreState;

    closed spec fn view(&self) -> CoreState {
        self.state
    }
}

impl DhtCore {
    #[verifier::type_invariant]
    spec fn well_formed(self) -> bool {
        self.state.wf()
    }

    /// A transceiver at rest for a sensor of the given kind.
    pub fn new(kind: SensorKind) -> (core: DhtCore)
        ensures
            core@ == CoreState::idle(kind),
            core@.wf(),
    {
        proof {
            lemma2_to64();
        }
        DhtCore { state: CoreState { kind, stage: Stage::Idle, edge: 0, since: 0, word: 0 } }
    }

    /// The state as plain values.
    pub fn state(&self) -> (state: CoreState)
        ensures
            state == self@,
            state.wf(),
    {
        proof {
            use_type_invariant(self);
        }
        self.state
    }

    /// The position in the terms of the protocol.
    pub fn phase(&self) -> (phase: Phase)
        ensures
            phase == self@.phase(),
    {
        match self.state.stage {
            Stage::Idle => Phase::Idle,
            Stage::StartPulse => Phase::StartPulse,
            Stage::Listening => if self.state.edge < 3 {
                Phase::AwaitAck
            } else {
                Phase::ReadingBit((self.state.edge - 3) / 2)
            },
            Stage::Done => Phase::Done,
            Stage::Failed => Phase::Failed,
        }
    }

    /// Opens a transaction at time `now`.
    pub fn start(&mut self, now: u64) -> (action: CoreAction)
        ensures
            (final(self)@, action) == old(self)@.start(now),
            final(self)@.wf(),
    {
        let kind = self.state.kind;
        proof {
            lemma2_to64();
        }
        self.state = CoreState { kind, stage: Stage::StartPulse, edge: 0, since: now, word: 0 };
        CoreAction::DriveLow { micros: kind.start_low() }
    }

    /// Takes one sample of the line and says what the host has to do next.
    pub fn step(&mut self, sample: Sample) -> (action: CoreAction)
        ensures
            (final(self)@, action) == old(self)@.step(sample),
            final(self)@.wf(),
    {
        proof {
            use_type_invariant(&*self);
            lemma_step_keeps_wf(self.state, sample);
        }
        let state = self.state;
        let waited = elapsed(state.since, sample.at);
        match state.stage {
            Stage::StartPulse => {
                let hold = state.kind.start_low();
                if waited >= hold {
                    self.state = CoreState {
                        kind: state.kind,
                        stage: Stage::Listening,
                        edge: 0,
                        since: sample.at,
                        word: 0,
                    };
                    CoreAction::Release
                } else {
                    CoreAction::DriveLow { micros: hold - waited }
                }
            },
            Stage::Listening => {
                let budget = if state.edge == 0 {
                    RESPONSE_BUDGET
                } else {
                    EDGE_BUDGET
                };
                if waited > budget {
                    self.state = CoreState {
                        kind: state.kind,
                        stage: Stage::Failed,
                        edge: state.edge,
                        since: state.since,
                        word: state.word,
                    };
                    CoreAction::Failed
                } else if sample.high != (state.edge % 2 == 1) {
                    CoreAction::Sample
                } else {
                    let word = if state.edge >= 4 && state.edge % 2 == 0 {
                        if waited > ONE_THRESHOLD {
                            2 * state.word + 1
                        } else {
                            2 * state.word
                        }
                    } else {
                        state.word
                    };
                    if state.edge == LAST_EDGE {
                        self.state = CoreState {
                            kind: state.kind,
                            stage: Stage::Done,
                            edge: state.edge,
                            since: state.since,
                            word,
                        };
                        CoreAction::Done(Frame::from_word(word))
                    } else {
                        self.state = CoreState {
                            kind: state.kind,
                            stage: Stage::Listening,
                            edge: state.edge + 1,
                            since: sample.at,
                            word,
                        };
                        CoreAction::Sample
                    }
                }
            },
            _ => self.start(sample.at),
        }
    }

    /// Puts the transceiver back to rest.
    pub fn reset(&mut self)
        ensures
            final(self)@ == CoreState::idle(old(self)@.kind),
            final(self)@.wf(),
    {
        let kind = self.state.kind;
        proof {
            lemma2_to64();
        }
        self.state = CoreState { kind, stage: Stage::Idle, edge: 0, since: 0, word: 0 };
    }

    /// Fails a transaction that is listening to a line that has gone silent.
    pub fn give_up(&mut self)
        ensures
            final(self)@ == old(self)@.give_up(),
            final(self)@.wf(),
    {
        proof {
            use_type_invariant(&*self);
            lemma_step_keeps_wf(self.state, Sample { at: 0, high: false });
        }
        let state = self.state;
        if state.stage == Stage::Listening {
            self.state = CoreState {
                kind: state.kind,
                stage: Stage::Failed,
                edge: state.edge,
                since: state.since,
                word: state.word,
            };
        }
    }
}

} // verus!

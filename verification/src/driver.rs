//! The sensor facade: rate limit, one transaction, validation and decoding.
//!
//! The driver owns no pin and no clock. The host runs the loop: it asks the
//! driver to begin a read, performs the action it gets back, samples the line
//! and the clock, and hands the sample to the driver, until the driver
//! finishes the read.

use vstd::prelude::*;
use vstd::pervasive::unreached;
use crate::reading::{decode, decode_spec, DhtError, SensorKind, SensorReading};
use crate::frame::Frame;
use crate::line::{
    capture, edges_in_time, edges_played, received_word, span, LineMode, LineState, ScriptedLine,
};
use crate::transceiver::{
    bits_before, edge_budget, elapsed, elapsed_spec, ends_bit, lemma_step_keeps_wf, target_level,
    CoreAction, CoreState, DhtCore, Phase, Sample, Stage, ONE_THRESHOLD,
};

verus! {

/// What a read does when it comes before the minimum interval has passed.
#[derive(Clone, Copy, Debug, PartialEq, Eq, Structural)]
pub enum Profile {
    /// Wait for the rest of the interval, then read.
    Blocking,
    /// Fail at once.
    FailFast,
}

/// What the host has to do before it calls the driver again.
#[derive(Clone, Copy, Debug, PartialEq, Eq)]
pub enum Action {
    /// Touch nothing for this many microseconds, then begin again.
    Wait { micros: u64 },
    /// Drive the line low and keep it low for this many microseconds, then
    /// hand over a sample.
    DriveLow { micros: u64 },
    /// Release the line to input with pull-up, then hand over a sample.
    Release,
    /// Hand over a sample.
    Sample,
    /// The read is over, with this result.
    Finish(Result<SensorReading, DhtError>),
}

/// Largest clock value at which a read over a scripted line may begin, so
/// that the clock cannot reach its end before the read is over.
pub const CLOCK_LIMIT: u64 = 0x4000_0000_0000_0000;

/// The state of the driver as plain values.
pub struct DriverState {
    pub profile: Profile,
    pub core: CoreState,
    /// Clock value at the end of the most recent successful read.
    pub last_read_at: Option<u64>,
}

impl DriverState {
    /// The state of a new driver: at rest, and never read.
    pub open spec fn fresh(kind: SensorKind, profile: Profile) -> DriverState {
        DriverState { profile, core: CoreState::idle(kind), last_read_at: None }
    }

    /// The sensor kind the driver was made for.
    pub open spec fn kind(self) -> SensorKind {
        self.core.kind
    }

    /// The invariant of the state, which is that of the transceiver.
    pub open spec fn wf(self) -> bool {
        self.core.wf()
    }

    /// Whether a read is under way.
    pub open spec fn busy(self) -> bool {
        self.core.busy()
    }

    /// Whether the host is holding the line low on behalf of the driver.
    pub open spec fn drives_line(self) -> bool {
        self.core.drives_line()
    }

    /// Whether a read that begins at time `now` comes too soon after the last
    /// successful one.
    pub open spec fn too_soon(self, now: u64) -> bool {
        self.last_read_at matches Some(last) && elapsed_spec(last, now)
            < self.kind().min_interval_spec()
    }

    /// Microseconds that are left of the minimum interval at time `now`.
    pub open spec fn remaining(self, now: u64) -> u64 {
        match self.last_read_at {
            Some(last) => if elapsed_spec(last, now) < self.kind().min_interval_spec() {
                (self.kind().min_interval_spec() - elapsed_spec(last, now)) as u64
            } else {
                0
            },
            None => 0,
        }
    }

    /// Whether a read that is asked for at time `now` is held back: the
    /// driver is at rest and the read comes too soon.
    pub open spec fn holds_back(self, now: u64) -> bool {
        !self.busy() && self.too_soon(now)
    }

    /// Beginning a read at time `now`. A read that is held back fails at once
    /// or waits, by the profile, and nothing changes. Otherwise the start
    /// pulse begins; a read that was under way is dropped for the new one.
    pub open spec fn begin(self, now: u64) -> (DriverState, Action) {
        if self.holds_back(now) {
            match self.profile {
                Profile::FailFast => (self, Action::Finish(Err(DhtError::TooSoon))),
                Profile::Blocking => (self, Action::Wait { micros: self.remaining(now) }),
            }
        } else {
            (
                DriverState { core: self.core.start(now).0, ..self },
                Action::DriveLow { micros: self.kind().start_low_spec() },
            )
        }
    }

    /// How a finished or failed transaction ends the read at time `now`.
    pub open spec fn conclude(self, outcome: CoreAction, now: u64) -> (DriverState, Action) {
        let rest = DriverState { core: CoreState::idle(self.kind()), ..self };
        match outcome {
            CoreAction::Done(frame) => match decode_spec(self.kind(), frame) {
                Ok(reading) => (
                    DriverState { last_read_at: Some(now), ..rest },
                    Action::Finish(Ok(reading)),
                ),
                Err(error) => (rest, Action::Finish(Err(error))),
            },
            _ => (rest, Action::Finish(Err(DhtError::Timeout))),
        }
    }

    /// The effect of one sample: at rest it begins a read; during a read the
    /// transceiver decides, and a complete frame is validated and decoded.
    pub open spec fn step(self, sample: Sample) -> (DriverState, Action) {
        if !self.core.busy() {
            self.begin(sample.at)
        } else {
            let (core, action) = self.core.step(sample);
            match action {
                CoreAction::DriveLow { micros } => (
                    DriverState { core, ..self },
                    Action::DriveLow { micros },
                ),
                CoreAction::Release => (DriverState { core, ..self }, Action::Release),
                CoreAction::Sample => (DriverState { core, ..self }, Action::Sample),
                _ => self.conclude(action, sample.at),
            }
        }
    }

    /// Whether a read that is asked for at time `now` is refused: it is held
    /// back and the profile is to fail fast.
    pub open spec fn refuses(self, now: u64) -> bool {
        self.profile == Profile::FailFast && self.holds_back(now)
    }

    /// Clock value at which the start pulse of a read begins that is asked
    /// for at time `now`: the end of the minimum interval if the read is held
    /// back, else `now`.
    pub open spec fn pulse_at(self, now: u64) -> int {
        match self.last_read_at {
            Some(last) if self.holds_back(now) => last + self.kind().min_interval_spec(),
            _ => now as int,
        }
    }

    /// What a read over a script of pulse widths gives once it is admitted:
    /// the decoded frame if the script carries one, else the error.
    pub open spec fn outcome(self, widths: Seq<u32>) -> Result<SensorReading, DhtError> {
        match capture(widths) {
            Ok(frame) => decode_spec(self.kind(), frame),
            Err(error) => Err(error),
        }
    }

    /// Whether the driver listens in step with a scripted line: the line is
    /// released, the driver awaits the edge that the script plays next, all
    /// earlier edges came in time, the word holds the bits that they spelled,
    /// and the clock is far from its end.
    pub open spec fn in_step(self, line: LineState) -> bool {
        &&& self.wf()
        &&& self.core.stage == Stage::Listening
        &&& self.core.edge == line.cursor
        &&& self.core.since == line.clock
        &&& self.core.word == received_word(line.widths, bits_before(line.cursor as u8))
        &&& line.cursor <= 82
        &&& line.mode == LineMode::Released
        &&& edges_in_time(line.widths, line.cursor as int)
        &&& line.clock <= CLOCK_LIMIT + 2_018_000 + line.cursor * 0x1_0000_0000
    }

    /// The state in which a read ends at time `now` with the given result.
    pub open spec fn finished(self, result: Result<SensorReading, DhtError>, now: u64) -> DriverState {
        DriverState {
            core: CoreState::idle(self.kind()),
            last_read_at: if result is Ok {
                Some(now)
            } else {
                self.last_read_at
            },
            ..self
        }
    }

    /// The effect of a log of samples, taken in order: the samples are handed
    /// over one by one until one of them ends a read. Gives the state after
    /// the last sample that was used and the result of the read, if one ended.
    pub open spec fn run(self, samples: Seq<Sample>) -> (
        DriverState,
        Option<Result<SensorReading, DhtError>>,
    )
        decreases samples.len(),
    {
        if samples.len() == 0 {
            (self, None)
        } else {
            let (next, action) = self.step(samples[0]);
            match action {
                Action::Finish(result) => (next, Some(result)),
                _ => next.run(samples.skip(1)),
            }
        }
    }

    /// Giving up on a line that has gone silent: a read that is listening
    /// fails with a timeout, anything else stays as it is.
    pub open spec fn give_up(self) -> (DriverState, Option<Action>) {
        if self.core.stage == Stage::Listening {
            (
                DriverState { core: CoreState::idle(self.kind()), ..self },
                Some(Action::Finish(Err(DhtError::Timeout))),
            )
        } else {
            (self, None)
        }
    }
}

/// One step of a driver that listens in step with a script: the sample on the
/// next edge fails the read if the edge is late, ends it with the outcome of
/// the script if it was the last edge, and else moves on to the next edge.
pub proof fn lemma_follow_script(driver: DriverState, widths: Seq<u32>, cursor: int, sample: Sample)
    requires
        driver.wf(),
        driver.core.stage == Stage::Listening,
        driver.core.edge == cursor,
        driver.core.word == received_word(widths, bits_before(cursor as u8)),
        0 <= cursor < widths.len(),
        edges_in_time(widths, cursor),
        sample.at == driver.core.since + widths[cursor],
        sample.high == (cursor % 2 == 1),
    ensures
        widths[cursor] > edge_budget(cursor as u8) ==> !edges_in_time(widths, 83) && driver.step(
            sample,
        ) == driver.conclude(CoreAction::Failed, sample.at),
        widths[cursor] <= edge_budget(cursor as u8) && cursor == 82 ==> edges_in_time(widths, 83)
            && driver.step(sample) == driver.conclude(
            CoreAction::Done(Frame::of_word(received_word(widths, 40) as int)),
            sample.at,
        ),
        widths[cursor] <= edge_budget(cursor as u8) && cursor < 82 ==> edges_in_time(
            widths,
            cursor + 1,
        ) && driver.step(sample) == (
            DriverState {
                core: CoreState {
                    edge: (cursor + 1) as u8,
                    since: sample.at,
                    word: received_word(widths, bits_before((cursor + 1) as u8)) as u64,
                    ..driver.core
                },
                ..driver
            },
            Action::Sample,
        ) && driver.step(sample).0.core.word == received_word(
            widths,
            bits_before((cursor + 1) as u8),
        ),
        widths[cursor] > edge_budget(cursor as u8) || cursor == 82 ==> driver.step(sample).1
            == Action::Finish(driver.outcome(widths)),
{
    let core = driver.core;
    let bits = bits_before(cursor as u8);
    lemma_step_keeps_wf(core, sample);
    assert(elapsed_spec(core.since, sample.at) == widths[cursor]);
    assert(sample.high == target_level(cursor as u8));
    if widths[cursor] > edge_budget(cursor as u8) {
        assert(!edges_in_time(widths, 83));
    } else {
        if ends_bit(cursor as u8) {
            assert(cursor == 2 * (bits + 1) + 2);
            assert(bits_before((cursor + 1) as u8) == bits + 1 || cursor == 82);
            assert(received_word(widths, bits + 1) == 2 * received_word(widths, bits)
                + if widths[cursor] > ONE_THRESHOLD {
                1nat
            } else {
                0nat
            });
        } else {
            assert(bits_before((cursor + 1) as u8) == bits);
        }
        assert(edges_in_time(widths, cursor + 1));
        if cursor == 82 {
            assert(bits == 39);
        }
    }
}

/// The driver of one sensor.
pub struct Dht11 {
    profile: Profile,
    core: DhtCore,
    last_read_at: Option<u64>,
}

impl View for Dht11 {
    type V = DriverState;

    closed spec fn view(&self) -> DriverState {
        DriverState {
            profile: self.profile,
            core: self.core@,
            last_read_at: self.last_read_at,
        }
    }
}

impl Dht11 {
    /// A driver at rest for a sensor of the given kind, with the given
    /// behaviour for reads that come too soon.
    pub fn new(kind: SensorKind, profile: Profile) -> (driver: Dht11)
        ensures
            driver@ == DriverState::fresh(kind, profile),
            driver@.wf(),
    {
        Dht11 { profile, core: DhtCore::new(kind), last_read_at: None }
    }

    /// The sensor kind the driver was made for.
    pub fn kind(&self) -> (kind: SensorKind)
        ensures
            kind == self@.kind(),
    {
        self.core.state().kind
    }

    /// The profile the driver was made with.
    pub fn profile(&self) -> (profile: Profile)
        ensures
            profile == self@.profile,
    {
        self.profile
    }

    /// Clock value at the end of the most recent successful read.
    pub fn last_read_at(&self) -> (last: Option<u64>)
        ensures
            last == self@.last_read_at,
    {
        self.last_read_at
    }

    /// Where the current transaction stands.
    pub fn phase(&self) -> (phase: Phase)
        ensures
            phase == self@.core.phase(),
    {
        self.core.phase()
    }

    /// Begins a read at time `now`.
    pub fn begin(&mut self, now: u64) -> (action: Action)
        ensures
            (final(self)@, action) == old(self)@.begin(now),
            final(self)@.wf(),
    {
        let state = self.core.state();
        let kind = state.kind;
        let busy = state.stage == Stage::StartPulse || state.stage == Stage::Listening;
        let min_interval = kind.min_interval();
        match self.last_read_at {
            Some(last) => {
                let since_last = elapsed(last, now);
                if !busy && since_last < min_interval {
                    return match self.profile {
                        Profile::FailFast => Action::Finish(Err(DhtError::TooSoon)),
                        Profile::Blocking => Action::Wait { micros: min_interval - since_last },
                    };
                }
            },
            None => {},
        }
        self.core.start(now);
        Action::DriveLow { micros: kind.start_low() }
    }

    /// Takes one sample of the line and says what the host has to do next.
    pub fn step(&mut self, sample: Sample) -> (action: Action)
        ensures
            (final(self)@, action) == old(self)@.step(sample),
            final(self)@.wf(),
    {
        let kind = self.core.state().kind;
        let stage = self.core.state().stage;
        if !(stage == Stage::StartPulse || stage == Stage::Listening) {
            return self.begin(sample.at);
        }
        match self.core.step(sample) {
            CoreAction::DriveLow { micros } => Action::DriveLow { micros },
            CoreAction::Release => Action::Release,
            CoreAction::Sample => Action::Sample,
            CoreAction::Done(frame) => {
                self.core.reset();
                let result = decode(kind, frame);
                if result.is_ok() {
                    self.last_read_at = Some(sample.at);
                }
                Action::Finish(result)
            },
            CoreAction::Failed => {
                self.core.reset();
                Action::Finish(Err(DhtError::Timeout))
            },
        }
    }

    /// Gives up on a line that has gone silent. A read that is listening ends
    /// with a timeout; in any other state nothing happens.
    pub fn give_up(&mut self) -> (action: Option<Action>)
        ensures
            (final(self)@, action) == old(self)@.give_up(),
            final(self)@.wf(),
    {
        if self.core.state().stage == Stage::Listening {
            self.core.reset();
            Some(Action::Finish(Err(DhtError::Timeout)))
        } else {
            None
        }
    }

    /// Hands a log of samples to the driver, in order, until one of them ends
    /// a read. Gives the result of that read, or `None` if the log ran out
    /// first; the driver then stays where the log left it.
    pub fn replay(&mut self, samples: &Vec<Sample>) -> (result: Option<
        Result<SensorReading, DhtError>,
    >)
        ensures
            (final(self)@, result) == old(self)@.run(samples@),
            final(self)@.wf(),
    {
        let ghost start = self@;
        let mut index: usize = 0;
        let state = self.core.state();
        assert(samples@.skip(0) == samples@);
        while index < samples.len()
            invariant
                index <= samples.len(),
                self@.wf(),
                start == old(self)@,
                start.run(samples@) == self@.run(samples@.skip(index as int)),
            decreases samples.len() - index,
        {
            let ghost before = self@;
            let ghost rest = samples@.skip(index as int);
            assert(rest[0] == samples@[index as int]);
            assert(rest.skip(1) == samples@.skip(index as int + 1));
            match self.step(samples[index]) {
                Action::Finish(result) => {
                    assert(before.run(rest) == (self@, Some(result)));
                    return Some(result);
                },
                _ => {
                    assert(before.run(rest) == self@.run(rest.skip(1)));
                },
            }
            index = index + 1;
        }
        assert(samples@.skip(index as int).len() == 0);
        None
    }

    /// Performs one read over a scripted line.
    ///
    /// A read that is refused touches neither the line nor the driver.
    /// Otherwise the driver waits, if it has to, until the minimum interval
    /// has passed, holds the line low for the start pulse, releases it, and
    /// follows the script edge by edge. The result is the decoded frame of
    /// the script, or the timeout or checksum error that the script leads to.
    /// In every case the line ends up released and the driver at rest.
    ///
    /// The clock of the line, and the time of the last successful read, must
    /// be no later than `CLOCK_LIMIT`, so that the clock cannot run out while
    /// the read waits.
    pub fn read(&mut self, line: &mut ScriptedLine) -> (result: Result<SensorReading, DhtError>)
        requires
            old(line)@.clock <= CLOCK_LIMIT,
            old(self)@.last_read_at matches Some(last) ==> last <= CLOCK_LIMIT,
        ensures
            old(self)@.refuses(old(line)@.clock) ==> result == Err::<SensorReading, DhtError>(
                DhtError::TooSoon,
            ) && final(self)@ == old(self)@ && final(line)@ == old(line)@,
            !old(self)@.refuses(old(line)@.clock) ==> {
                let released_at = old(self)@.pulse_at(old(line)@.clock) + old(
                    self,
                )@.kind().start_low_spec();
                let played = edges_played(old(line)@.widths, 0);
                &&& result == old(self)@.outcome(old(line)@.widths)
                &&& final(line)@ == (LineState {
                    clock: (released_at + span(old(line)@.widths, played)) as u64,
                    mode: LineMode::Released,
                    widths: old(line)@.widths,
                    cursor: played,
                })
                &&& final(self)@ == old(self)@.finished(result, final(line)@.clock)
            },
    {
        let ghost driver0 = self@;
        let ghost line0 = line@;
        let ghost pulse_at = driver0.pulse_at(line0.clock);
        let mut action = self.begin(line.now());
        loop
            invariant
                line@ == (LineState { clock: line@.clock, ..line0 }),
                line0.clock <= CLOCK_LIMIT,
                driver0.last_read_at matches Some(last) ==> last <= CLOCK_LIMIT,
                line0.clock <= line@.clock,
                action is Wait || action is Finish ==> self@ == driver0 && action
                    == driver0.begin(line@.clock).1,
                action is Wait ==> driver0.last_read_at is Some && pulse_at
                    == driver0.last_read_at->0 + driver0.kind().min_interval_spec()
                    && line@.clock < pulse_at,
                action is DriveLow ==> (self@, action) == driver0.begin(line@.clock)
                    && !driver0.holds_back(line@.clock) && line@.clock == pulse_at,
                !(action is Release) && !(action is Sample),
                action is Finish ==> driver0.refuses(line0.clock) && line@ == line0,
                driver0.refuses(line0.clock) ==> action is Finish,
            ensures
                !(action is Wait),
            decreases pulse_at - line@.clock,
        {
            match action {
                Action::Wait { micros } => {
                    line.sleep(micros);
                    action = self.begin(line.now());
                },
                _ => {
                    break ;
                },
            }
        }
        let hold = match action {
            Action::DriveLow { micros } => micros,
            Action::Finish(result) => {
                return result;
            },
            _ => unreached(),
        };
        line.drive_low();
        line.sleep(hold);
        match self.step(line.observe()) {
            Action::Release => line.release(),
            _ => unreached(),
        }
        let ghost released_at = pulse_at + driver0.kind().start_low_spec();
        let mut result: Option<Result<SensorReading, DhtError>> = None;
        while result.is_none()
            invariant
                !driver0.refuses(line0.clock),
                line@.widths == line0.widths,
                line@.mode == LineMode::Released,
                line@.cursor <= line@.widths.len(),
                line@.cursor <= 83,
                line@.clock == released_at + span(line0.widths, line@.cursor),
                released_at <= CLOCK_LIMIT + 2_018_000,
                self@.profile == driver0.profile,
                self@.kind() == driver0.kind(),
                result is None ==> self@.in_step(line@) && self@.last_read_at
                    == driver0.last_read_at && edges_played(line0.widths, line@.cursor)
                    == edges_played(line0.widths, 0),
                result matches Some(r) ==> r == driver0.outcome(line0.widths) && self@
                    == driver0.finished(r, line@.clock) && line@.cursor == edges_played(
                    line0.widths,
                    0,
                ),
            decreases line@.widths.len() - line@.cursor + if result is None {
                1int
            } else {
                0int
            },
        {
            result = self.follow(line);
        }
        match result {
            Some(result) => result,
            None => unreached(),
        }
    }

    /// Follows the script of a line by one edge. Gives the result of the read
    /// if that edge ends it, and `None` if the read goes on.
    fn follow(&mut self, line: &mut ScriptedLine) -> (result: Option<
        Result<SensorReading, DhtError>,
    >)
        requires
            old(self)@.in_step(old(line)@),
        ensures
            final(line)@ == old(line)@.after_next(),
            final(line)@.clock == old(line)@.clock + (if old(line)@.cursor < old(
                line,
            )@.widths.len() {
                old(line)@.widths[old(line)@.cursor as int] as int
            } else {
                0
            }),
            final(self)@.profile == old(self)@.profile,
            final(self)@.kind() == old(self)@.kind(),
            result is None ==> final(self)@.in_step(final(line)@) && final(line)@.cursor == old(
                line,
            )@.cursor + 1 && final(self)@.last_read_at == old(self)@.last_read_at
                && edges_played(old(line)@.widths, old(line)@.cursor) == edges_played(
                old(line)@.widths,
                old(line)@.cursor + 1,
            ),
            result matches Some(r) ==> r == old(self)@.outcome(old(line)@.widths) && final(self)@
                == old(self)@.finished(r, final(line)@.clock) && final(line)@.cursor
                == edges_played(old(line)@.widths, old(line)@.cursor),
    {
        let ghost cursor = line@.cursor as int;
        let ghost widths = line@.widths;
        match line.next_sample() {
            None => {
                self.give_up();
                assert(!edges_in_time(widths, 83));
                Some(Err(DhtError::Timeout))
            },
            Some(sample) => {
                proof {
                    lemma_follow_script(self@, widths, cursor, sample);
                    assert(edges_played(widths, 83) == 83);
                    assert(cursor == 82 && widths[cursor] <= edge_budget(cursor as u8)
                        ==> edges_played(widths, 82) == 83);
                }
                match self.step(sample) {
                    Action::Finish(finished) => Some(finished),
                    _ => None,
                }
            },
        }
    }
}

} // verus!

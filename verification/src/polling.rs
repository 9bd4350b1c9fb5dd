//! Polling: what a host sees of a sensor response when it samples the line at
//! intervals, and how wide the intervals may be for the driver to decode the
//! response right.

use vstd::prelude::*;
use crate::driver::{Action, DriverState};
use crate::frame::Frame;
use crate::laws::lemma_frame_script_round_trip;
use crate::line::{capture, edges_in_time, frame_script, received_word, span};
use crate::reading::{decode_spec, DhtError, SensorReading};
use crate::transceiver::{
    bits_before, edge_budget, elapsed_spec, ends_bit, lemma_step_keeps_wf, target_level,
    CoreAction, CoreState, Sample, Stage, ONE_THRESHOLD,
};

verus! {

/// The largest number up to `count` of leading edges of a script that have
/// all happened `offset` microseconds after the release.
pub open spec fn edges_by(widths: Seq<u32>, offset: int, count: nat) -> nat
    decreases count,
{
    if count == 0 {
        0
    } else if span(widths, count) <= offset {
        count
    } else {
        edges_by(widths, offset, (count - 1) as nat)
    }
}

/// The level of a released line `offset` microseconds after the release:
/// high after an even number of edges, low after an odd number.
pub open spec fn level_at(widths: Seq<u32>, offset: int) -> bool {
    edges_by(widths, offset, widths.len()) % 2 == 0
}

/// Whether a log of samples is what a host sees of a script that it polls
/// from the release on: the first sample comes no later than `gap`
/// microseconds after the release, each later one no later than `gap`
/// microseconds after the one before, each shows the level of the line at
/// its time, and the last one comes after the last edge.
pub open spec fn polls(samples: Seq<Sample>, released_at: u64, widths: Seq<u32>, gap: nat) -> bool {
    &&& samples.len() > 0
    &&& released_at <= samples[0].at <= released_at + gap
    &&& forall|i: int, j: int|
        0 <= i && j == i + 1 && j < samples.len() ==> (#[trigger] samples[i]).at
            <= (#[trigger] samples[j]).at <= samples[i].at + gap
    &&& forall|i: int|
        0 <= i < samples.len() ==> (#[trigger] samples[i]).high == level_at(
            widths,
            samples[i].at - released_at,
        )
    &&& samples.last().at >= released_at + span(widths, 83)
}

/// Whether the first `count` line states of a script leave room for polling
/// at intervals of up to `gap` microseconds: none of them is shorter than the
/// interval, the edge that ends it is still in time when it is seen an
/// interval late, and the high pulse of a bit is clear of the threshold by
/// the interval.
pub open spec fn tolerates_upto(widths: Seq<u32>, gap: nat, count: int) -> bool {
    &&& widths.len() == 83
    &&& gap >= 1
    &&& forall|k: int|
        0 <= k < count ==> {
            &&& gap <= #[trigger] widths[k]
            &&& widths[k] + gap <= edge_budget(k as u8) + 1
            &&& ends_bit(k as u8) ==> widths[k] + gap <= ONE_THRESHOLD + 1 || widths[k]
                >= ONE_THRESHOLD + gap
        }
}

/// Whether a whole script leaves room for polling at intervals of up to
/// `gap` microseconds.
pub open spec fn tolerates(widths: Seq<u32>, gap: nat) -> bool {
    tolerates_upto(widths, gap, 83)
}

/// Whether the edge with number `late` of a script is late for a host that
/// polls at intervals of up to `gap` microseconds: its line state outlasts
/// the budget by the interval, while the line states before it leave room
/// for the polling.
pub open spec fn late_at(widths: Seq<u32>, gap: nat, late: int) -> bool {
    &&& 0 <= late < 83
    &&& tolerates_upto(widths, gap, late)
    &&& widths[late] >= edge_budget(late as u8) + gap
}

/// The time up to an edge does not shrink with the number of the edge.
pub proof fn lemma_span_grows(widths: Seq<u32>, low: nat, high: nat)
    requires
        low <= high,
    ensures
        span(widths, low) <= span(widths, high),
    decreases high - low,
{
    if low < high {
        lemma_span_grows(widths, low, (high - 1) as nat);
    }
}

/// Between the edge with number `seen - 1` and the next one, `seen` edges
/// have happened.
proof fn lemma_edges_by(widths: Seq<u32>, offset: int, seen: nat, count: nat)
    requires
        seen <= count,
        span(widths, seen) <= offset,
        seen < count ==> offset < span(widths, seen + 1),
    ensures
        edges_by(widths, offset, count) == seen,
    decreases count - seen,
{
    if seen < count {
        lemma_span_grows(widths, seen + 1, count);
        lemma_edges_by(widths, offset, seen, (count - 1) as nat);
    } else if count > 0 {
    } else {
        assert(span(widths, 0) == 0);
    }
}

/// The samples of a log come in the order of their times.
proof fn lemma_samples_in_order(
    samples: Seq<Sample>,
    released_at: u64,
    widths: Seq<u32>,
    gap: nat,
    first: int,
    second: int,
)
    requires
        polls(samples, released_at, widths, gap),
        0 <= first <= second < samples.len(),
    ensures
        samples[first].at <= samples[second].at,
    decreases second - first,
{
    if first < second {
        lemma_samples_in_order(samples, released_at, widths, gap, first, second - 1);
        assert(samples[second - 1].at <= samples[second].at);
    }
}

/// A driver that listens to a polled script goes on to the result of the
/// script, from any sample of the log at which it is in step with the line.
proof fn lemma_polling_follows(
    driver: DriverState,
    released_at: u64,
    widths: Seq<u32>,
    samples: Seq<Sample>,
    gap: nat,
    late: int,
    index: int,
)
    requires
        late == 83 && tolerates(widths, gap) || late_at(widths, gap, late),
        polls(samples, released_at, widths, gap),
        0 <= index < samples.len(),
        driver.wf(),
        driver.core.stage == Stage::Listening,
        driver.core.edge <= 82,
        driver.core.edge <= late,
        driver.core.word == received_word(widths, bits_before(driver.core.edge)),
        released_at + span(widths, driver.core.edge as nat) <= driver.core.since <= released_at
            + span(widths, driver.core.edge as nat) + gap - 1,
        driver.core.since <= samples[index].at <= released_at + span(
            widths,
            (driver.core.edge + 1) as nat,
        ) + gap - 1,
        driver.core.edge < 82 && driver.core.edge < late ==> samples[index].at < released_at
            + span(widths, (driver.core.edge + 2) as nat),
    ensures
        driver.run(samples.skip(index)).1 == Some(driver.outcome(widths)),
        !driver.run(samples.skip(index)).0.busy(),
    decreases samples.len() - index,
{
    let core = driver.core;
    let edge = core.edge as int;
    let sample = samples[index];
    let offset = sample.at - released_at;
    let rest = samples.skip(index);
    let waited = elapsed_spec(core.since, sample.at);
    assert(rest[0] == sample);
    assert(rest.skip(1) == samples.skip(index + 1));
    assert(span(widths, (edge + 1) as nat) == span(widths, edge as nat) + widths[edge]);
    assert(widths[edge] >= gap);
    lemma_step_keeps_wf(core, sample);
    lemma_span_grows(widths, (edge + 1) as nat, 83);
    lemma_samples_in_order(samples, released_at, widths, gap, index, samples.len() - 1);
    if late == 83 {
        assert forall|k: int| 0 <= k < 83 implies k < widths.len() && #[trigger] widths[k]
            <= edge_budget(k as u8) by {}
        assert(edges_in_time(widths, 83));
    } else {
        assert(!edges_in_time(widths, 83));
    }
    if waited > edge_budget(core.edge) {
        // too late, whatever the level: only the late edge can be
        assert(edge == late);
        assert(driver.step(sample) == driver.conclude(CoreAction::Failed, sample.at));
    } else if offset < span(widths, (edge + 1) as nat) {
        // the awaited edge has not happened yet
        lemma_edges_by(widths, offset, edge as nat, 83);
        assert(sample.high != target_level(core.edge));
        assert(driver.step(sample) == (driver, Action::Sample));
        assert(index + 1 < samples.len());
        let next = samples[index + 1];
        assert(sample.at <= next.at <= sample.at + gap);
        if edge < 82 {
            assert(span(widths, (edge + 2) as nat) == span(widths, (edge + 1) as nat)
                + widths[edge + 1]);
            if edge < late {
                assert(widths[edge + 1] >= gap);
            }
        }
        lemma_polling_follows(driver, released_at, widths, samples, gap, late, index + 1);
    } else {
        // the awaited edge has happened in time, and the next one has not
        assert(widths[edge] - gap + 1 <= waited);
        assert(edge < late);
        if edge < 82 {
            lemma_edges_by(widths, offset, (edge + 1) as nat, 83);
        } else {
            assert(edges_by(widths, offset, 83) == 83);
        }
        assert(sample.high == target_level(core.edge));
        assert(waited <= widths[edge] + gap - 1);
        let bits = bits_before(core.edge);
        if ends_bit(core.edge) {
            assert(waited > ONE_THRESHOLD <==> widths[edge] > ONE_THRESHOLD);
            assert(edge == 2 * (bits + 1) + 2);
            assert(received_word(widths, bits + 1) == 2 * received_word(widths, bits)
                + if widths[edge] > ONE_THRESHOLD {
                1nat
            } else {
                0nat
            });
        }
        if edge == 82 {
            assert(bits == 39);
            assert(driver.step(sample) == driver.conclude(
                CoreAction::Done(Frame::of_word(received_word(widths, 40) as int)),
                sample.at,
            ));
        } else {
            let next_core = CoreState {
                edge: (edge + 1) as u8,
                since: sample.at,
                word: received_word(widths, bits_before((edge + 1) as u8)) as u64,
                ..core
            };
            let next_driver = DriverState { core: next_core, ..driver };
            assert(bits_before((edge + 1) as u8) == if ends_bit(core.edge) {
                bits + 1
            } else {
                bits
            });
            assert(driver.step(sample) == (next_driver, Action::Sample));
            assert(span(widths, (edge + 2) as nat) == span(widths, (edge + 1) as nat)
                + widths[edge + 1]);
            assert(widths[edge + 1] >= gap);
            lemma_span_grows(widths, (edge + 2) as nat, 83);
            assert(index + 1 < samples.len());
            let next = samples[index + 1];
            assert(sample.at <= next.at <= sample.at + gap);
            if edge + 1 < 82 && edge + 1 < late {
                assert(span(widths, (edge + 3) as nat) == span(widths, (edge + 2) as nat)
                    + widths[edge + 2]);
                assert(widths[edge + 2] >= gap);
            }
            lemma_polling_follows(next_driver, released_at, widths, samples, gap, late, index + 1);
        }
    }
}

/// Tolerance of polling. A driver that has just released the line and is
/// then handed the samples of a host that polls a script which leaves room for
/// the polling interval, ends the read with the frame that the script spells,
/// decoded; no edge is missed and no bit is misread.
pub proof fn lemma_polling_decodes(
    driver: DriverState,
    released_at: u64,
    widths: Seq<u32>,
    samples: Seq<Sample>,
    gap: nat,
)
    requires
        driver.wf(),
        driver.core.stage == Stage::Listening,
        driver.core.edge == 0,
        driver.core.word == 0,
        driver.core.since == released_at,
        tolerates(widths, gap),
        polls(samples, released_at, widths, gap),
    ensures
        capture(widths) == Ok::<Frame, DhtError>(Frame::of_word(received_word(widths, 40) as int)),
        driver.run(samples).1 == Some(
            decode_spec(driver.kind(), Frame::of_word(received_word(widths, 40) as int)),
        ),
        !driver.run(samples).0.busy(),
{
    assert forall|k: int| 0 <= k < 83 implies k < widths.len() && #[trigger] widths[k]
        <= edge_budget(k as u8) by {}
    assert(span(widths, 1) == span(widths, 0) + widths[0]);
    assert(span(widths, 2) == span(widths, 1) + widths[1]);
    assert(widths[0] >= gap && widths[1] >= gap);
    assert(samples.skip(0) == samples);
    lemma_polling_follows(driver, released_at, widths, samples, gap, 83, 0);
}

/// Timeout under polling. If one edge of a script is late for a host that
/// polls it, the read of a driver that has just released the line and is
/// handed the samples of that host times out.
pub proof fn lemma_polling_times_out(
    driver: DriverState,
    released_at: u64,
    widths: Seq<u32>,
    samples: Seq<Sample>,
    gap: nat,
    late: int,
)
    requires
        driver.wf(),
        driver.core.stage == Stage::Listening,
        driver.core.edge == 0,
        driver.core.word == 0,
        driver.core.since == released_at,
        late_at(widths, gap, late),
        polls(samples, released_at, widths, gap),
    ensures
        driver.run(samples).1 == Some(Err::<SensorReading, DhtError>(DhtError::Timeout)),
        !driver.run(samples).0.busy(),
{
    assert(span(widths, 1) == span(widths, 0) + widths[0]);
    assert(span(widths, 2) == span(widths, 1) + widths[1]);
    assert(widths[0] >= gap);
    if late > 0 {
        assert(widths[1] >= gap);
    }
    assert(!edges_in_time(widths, 83));
    assert(samples.skip(0) == samples);
    lemma_polling_follows(driver, released_at, widths, samples, gap, late, 0);
}

/// Tolerance of polling for the nominal widths. Pulses of 28 microseconds for
/// the zeros and 70 microseconds for the ones of a frame are decoded to that
/// frame by a host that polls every 11 microseconds or faster.
pub proof fn lemma_polling_decodes_frame(
    driver: DriverState,
    released_at: u64,
    frame: Frame,
    samples: Seq<Sample>,
    gap: nat,
)
    requires
        driver.wf(),
        driver.core.stage == Stage::Listening,
        driver.core.edge == 0,
        driver.core.word == 0,
        driver.core.since == released_at,
        1 <= gap <= 11,
        polls(samples, released_at, frame_script(frame), gap),
    ensures
        tolerates(frame_script(frame), gap),
        driver.run(samples).1 == Some(decode_spec(driver.kind(), frame)),
{
    let script = frame_script(frame);
    assert forall|k: int| 0 <= k < 83 implies {
        &&& gap <= #[trigger] script[k]
        &&& script[k] + gap <= edge_budget(k as u8) + 1
        &&& ends_bit(k as u8) ==> script[k] + gap <= ONE_THRESHOLD + 1 || script[k]
            >= ONE_THRESHOLD + gap
    } by {}
    lemma_frame_script_round_trip(frame);
    lemma_polling_decodes(driver, released_at, script, samples, gap);
}

} // verus!

//! What holds of the driver on every input.

use vstd::prelude::*;
use vstd::arithmetic::div_mod::lemma_div_denominator;
use vstd::arithmetic::power2::{pow2, lemma_pow2_pos, lemma_pow2_unfold, lemma2_to64};
use crate::driver::{Action, DriverState, Profile};
use crate::frame::Frame;
use crate::line::{
    capture, edges_in_time, edges_played, frame_script, received_word, span, LineMode,
};
use crate::reading::{canonical, decode_spec, DhtError, SensorKind, SensorReading};
use crate::transceiver::{edge_budget, Sample};

verus! {

/// The mode of the line after the host has performed an action.
pub open spec fn line_after(mode: LineMode, action: Action) -> LineMode {
    match action {
        Action::DriveLow { .. } => LineMode::DrivenLow,
        Action::Release => LineMode::Released,
        _ => mode,
    }
}

/// Whether the line is driven low exactly when the driver is in its start
/// pulse.
pub open spec fn line_agrees(driver: DriverState, mode: LineMode) -> bool {
    driver.drives_line() <==> mode == LineMode::DrivenLow
}

/// Line quiescence, step by step. If the line is low exactly when the driver
/// is in its start pulse, it stays so after every call and the action that
/// the call asks for; and whenever a call finishes a read, the driver is at
/// rest and the line is released.
pub proof fn lemma_line_quiescence(driver: DriverState, mode: LineMode, sample: Sample)
    requires
        line_agrees(driver, mode),
    ensures
        line_agrees(driver.begin(sample.at).0, line_after(mode, driver.begin(sample.at).1)),
        line_agrees(driver.step(sample).0, line_after(mode, driver.step(sample).1)),
        driver.give_up().1 matches Some(action) ==> line_agrees(
            driver.give_up().0,
            line_after(mode, action),
        ),
        driver.begin(sample.at).1 is Finish ==> !driver.begin(sample.at).0.busy() && line_after(
            mode,
            driver.begin(sample.at).1,
        ) == LineMode::Released,
        driver.step(sample).1 is Finish ==> !driver.step(sample).0.busy() && line_after(
            mode,
            driver.step(sample).1,
        ) == LineMode::Released,
        driver.give_up().1 is Some ==> !driver.give_up().0.busy() && mode == LineMode::Released,
{
}

/// Checksum law. A read over a script gives a reading only if the script
/// carries a frame whose first four octets add up, modulo 256, to the fifth.
pub proof fn lemma_accepted_reading_has_valid_checksum(driver: DriverState, widths: Seq<u32>)
    requires
        driver.outcome(widths) is Ok,
    ensures
        capture(widths) is Ok,
        ({
            let frame = capture(widths)->Ok_0;
            (frame.h_int + frame.h_frac + frame.t_int + frame.t_frac) % 256 == frame.checksum
        }),
        driver.outcome(widths) == decode_spec(driver.kind(), capture(widths)->Ok_0),
{
}

/// Rate-limit law, failing fast. A read that begins less than the minimum
/// interval after the last successful one is refused with `TooSoon`, asks for
/// no action on the line, and leaves the driver as it was.
pub proof fn lemma_too_soon_fails_fast(driver: DriverState, now: u64)
    requires
        driver.profile == Profile::FailFast,
        !driver.busy(),
        driver.last_read_at matches Some(last) && now < last + driver.kind().min_interval_spec(),
    ensures
        driver.begin(now) == (driver, Action::Finish(Err(DhtError::TooSoon))),
        forall|high: bool| #[trigger] driver.step(Sample { at: now, high }) == driver.begin(now),
        driver.refuses(now),
{
}

/// Rate-limit law, blocking. A read that begins too soon only waits, and it
/// touches the line at no time before the minimum interval has passed: the
/// start pulse is asked for only at a clock value that is at least the
/// minimum interval after the last successful read.
pub proof fn lemma_too_soon_blocks(driver: DriverState, now: u64)
    requires
        driver.profile == Profile::Blocking,
        !driver.busy(),
        driver.last_read_at is Some,
        driver.last_read_at->0 <= now,
    ensures
        now < driver.last_read_at->0 + driver.kind().min_interval_spec() ==> driver.begin(now) == (
            driver,
            Action::Wait {
                micros: (driver.last_read_at->0 + driver.kind().min_interval_spec() - now) as u64,
            },
        ),
        !(driver.begin(now).1 is Wait) ==> now >= driver.last_read_at->0
            + driver.kind().min_interval_spec(),
        driver.pulse_at(now) >= driver.last_read_at->0 + driver.kind().min_interval_spec(),
        !driver.refuses(now),
{
}

/// The bits that the synthetic script of a frame spells are the leading bits
/// of the frame.
proof fn lemma_script_spells_prefix(frame: Frame, bits: nat)
    requires
        bits <= 40,
    ensures
        received_word(frame_script(frame), bits) == frame.word() / (pow2((40 - bits) as nat) as int),
    decreases bits,
{
    let word = frame.word();
    frame.lemma_word_round_trip();
    lemma2_to64();
    if bits == 0 {
        vstd::arithmetic::power2::lemma2_to64_rest();
        assert(word / (pow2(40) as int) == 0);
    } else {
        lemma_script_spells_prefix(frame, (bits - 1) as nat);
        let low = pow2((40 - bits) as nat) as int;
        lemma_pow2_pos((40 - bits) as nat);
        lemma_pow2_unfold((41 - bits) as nat);
        lemma_div_denominator(word, low, 2);
        assert(frame_script(frame)[2 * bits as int + 2] > crate::transceiver::ONE_THRESHOLD
            <==> frame.bit(bits - 1));
        assert(frame.bit(bits - 1) <==> (word / low) % 2 == 1);
    }
}

/// Decoding round trip on the wire. Pulses of 28 microseconds for the zeros
/// and 70 microseconds for the ones of any frame come back as that frame.
pub proof fn lemma_frame_script_round_trip(frame: Frame)
    ensures
        edges_in_time(frame_script(frame), 83),
        capture(frame_script(frame)) == Ok::<Frame, DhtError>(frame),
{
    let script = frame_script(frame);
    assert forall|k: int| 0 <= k < 83 implies k < script.len() && #[trigger] script[k]
        <= edge_budget(k as u8) by {}
    lemma_script_spells_prefix(frame, 40);
    lemma2_to64();
    frame.lemma_word_round_trip();
    assert(pow2((40 - 40) as nat) == 1);
    assert(received_word(script, 40) == frame.word());
    assert(edges_in_time(script, 83));
}

/// Decoding round trip of a reading. A read over the synthetic script of a
/// frame with a valid checksum gives the reading of that frame; and if the
/// frame is the canonical one for its reading, the four data octets of the
/// reading are those of the frame.
pub proof fn lemma_reading_round_trip(driver: DriverState, frame: Frame)
    requires
        frame.checksum_ok(),
    ensures
        driver.outcome(frame_script(frame)) == decode_spec(driver.kind(), frame),
        decode_spec(driver.kind(), frame) is Ok,
        ({
            let reading = decode_spec(driver.kind(), frame)->Ok_0;
            &&& reading.representable(driver.kind())
            &&& canonical(driver.kind(), frame) ==> reading.data_octets(driver.kind()) == (
                frame.h_int as int,
                frame.h_frac as int,
                frame.t_int as int,
                frame.t_frac as int,
            )
            &&& driver.kind() == SensorKind::Dht11 ==> reading.humidity == frame.h_int
                && reading.temperature == frame.t_int
        }),
{
    lemma_frame_script_round_trip(frame);
}

/// Every reading that a sensor kind can express is what its own frame
/// decodes to.
pub proof fn lemma_octets_of_reading_decode(kind: SensorKind, reading: SensorReading, frame: Frame)
    requires
        reading.representable(kind),
        frame.checksum_ok(),
        (frame.h_int as int, frame.h_frac as int, frame.t_int as int, frame.t_frac as int)
            == reading.data_octets(kind),
    ensures
        decode_spec(kind, frame) == Ok::<SensorReading, DhtError>(reading),
        canonical(kind, frame),
{
}

/// Timeout law. If any one of the 83 edges of a script is missing or comes
/// later than the budget of its phase, the read times out.
pub proof fn lemma_late_edge_times_out(driver: DriverState, widths: Seq<u32>, edge: int)
    requires
        0 <= edge < 83,
        edge >= widths.len() || widths[edge] > edge_budget(edge as u8),
    ensures
        capture(widths) == Err::<Frame, DhtError>(DhtError::Timeout),
        driver.outcome(widths) == Err::<SensorReading, DhtError>(DhtError::Timeout),
{
}

/// Timeout law, sample by sample. A sample that comes later than the budget
/// of the awaited edge ends the read with a timeout, whatever its level, and
/// leaves the driver at rest.
pub proof fn lemma_late_sample_times_out(driver: DriverState, sample: Sample)
    requires
        driver.core.stage == crate::transceiver::Stage::Listening,
        sample.at > driver.core.since + edge_budget(driver.core.edge),
    ensures
        driver.step(sample).1 == Action::Finish(Err(DhtError::Timeout)),
        !driver.step(sample).0.busy(),
        driver.step(sample).0.last_read_at == driver.last_read_at,
{
}

/// The number of edges that a transaction plays lies between where it
/// stands and 83.
pub proof fn lemma_edges_played_bounded(widths: Seq<u32>, from: nat)
    requires
        from <= 83,
    ensures
        from <= edges_played(widths, from) <= 83,
    decreases 83 - from,
{
    if from < 83 && from < widths.len() && widths[from as int] <= edge_budget(from as u8) {
        lemma_edges_played_bounded(widths, from + 1);
    }
}

/// The edges of a script take no longer than their number times the largest
/// width.
pub proof fn lemma_span_bounded(widths: Seq<u32>, count: nat)
    ensures
        span(widths, count) <= count * 0xffff_ffff,
    decreases count,
{
    if count > 0 {
        lemma_span_bounded(widths, (count - 1) as nat);
    }
}

/// A read over a scripted line moves the clock on by a bounded time.
pub proof fn lemma_read_time_bounded(widths: Seq<u32>)
    ensures
        edges_played(widths, 0) <= 83,
        span(widths, edges_played(widths, 0)) <= 83 * 0xffff_ffff,
{
    lemma_edges_played_bounded(widths, 0);
    lemma_span_bounded(widths, edges_played(widths, 0));
}

} // verus!

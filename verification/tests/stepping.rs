use dht_sensor::driver::{Action, Dht11, Profile};
use dht_sensor::frame::Frame;
use dht_sensor::reading::{DhtError, SensorKind, SensorReading};
use dht_sensor::transceiver::{elapsed, CoreAction, DhtCore, Phase, Sample, Stage};

fn sample(at: u64, high: bool) -> Sample {
    Sample { at, high }
}

/// Feeds the edges of a frame to a core that has just released the line at
/// time `at`. Returns the last action and the time of the last edge.
fn feed_frame(core: &mut DhtCore, mut at: u64, octets: [u8; 5], one: u64, zero: u64) -> (CoreAction, u64) {
    at += 30;
    assert_eq!(core.step(sample(at, false)), CoreAction::Sample);
    at += 80;
    assert_eq!(core.step(sample(at, true)), CoreAction::Sample);
    at += 80;
    assert_eq!(core.step(sample(at, false)), CoreAction::Sample);
    let mut last = CoreAction::Sample;
    for bit in 0..40 {
        assert_eq!(core.phase(), Phase::ReadingBit(bit as u8));
        at += 50;
        assert_eq!(core.step(sample(at, true)), CoreAction::Sample);
        let is_one = (octets[bit / 8] >> (7 - bit % 8)) & 1 == 1;
        at += if is_one { one } else { zero };
        last = core.step(sample(at, false));
        if bit < 39 {
            assert_eq!(last, CoreAction::Sample);
        }
    }
    (last, at)
}

#[test]
fn core_walks_through_the_phases() {
    let mut core = DhtCore::new(SensorKind::Dht11);
    assert_eq!(core.phase(), Phase::Idle);
    assert_eq!(core.start(100), CoreAction::DriveLow { micros: 18_000 });
    assert_eq!(core.phase(), Phase::StartPulse);
    // woken too early: hold the line for the rest
    assert_eq!(core.step(sample(10_100, false)), CoreAction::DriveLow { micros: 8_000 });
    assert_eq!(core.phase(), Phase::StartPulse);
    assert_eq!(core.step(sample(18_100, false)), CoreAction::Release);
    assert_eq!(core.phase(), Phase::AwaitAck);
    let octets = [0x32, 0x00, 0x17, 0x00, 0x49];
    let (last, _) = feed_frame(&mut core, 18_100, octets, 70, 28);
    assert_eq!(last, CoreAction::Done(Frame::from_octets(octets)));
    assert_eq!(core.phase(), Phase::Done);
    assert_eq!(core.state().stage, Stage::Done);
    core.reset();
    assert_eq!(core.phase(), Phase::Idle);
}

#[test]
fn dht22_start_pulse_is_one_millisecond() {
    let mut core = DhtCore::new(SensorKind::Dht22);
    assert_eq!(core.start(0), CoreAction::DriveLow { micros: 1_000 });
    assert_eq!(core.step(sample(999, false)), CoreAction::DriveLow { micros: 1 });
    assert_eq!(core.step(sample(1_000, false)), CoreAction::Release);
}

#[test]
fn pulse_width_threshold_is_forty_microseconds() {
    // forty microseconds are still a zero, forty-one are a one
    let mut core = DhtCore::new(SensorKind::Dht11);
    core.start(0);
    core.step(sample(18_000, false));
    let (last, _) = feed_frame(&mut core, 18_000, [0xFF, 0xFF, 0xFF, 0xFF, 0xFF], 40, 40);
    assert_eq!(last, CoreAction::Done(Frame::from_octets([0, 0, 0, 0, 0])));
    let mut core = DhtCore::new(SensorKind::Dht11);
    core.start(0);
    core.step(sample(18_000, false));
    let (last, _) = feed_frame(&mut core, 18_000, [0xA5, 0x01, 0x80, 0x7E, 0xFF], 41, 40);
    assert_eq!(last, CoreAction::Done(Frame::from_octets([0xA5, 0x01, 0x80, 0x7E, 0xFF])));
}

#[test]
fn response_budget_is_forty_microseconds() {
    let mut core = DhtCore::new(SensorKind::Dht11);
    core.start(0);
    assert_eq!(core.step(sample(18_000, false)), CoreAction::Release);
    // still high, in time: keep sampling
    assert_eq!(core.step(sample(18_040, true)), CoreAction::Sample);
    assert_eq!(core.phase(), Phase::AwaitAck);
    // one microsecond over the budget, even at the target level
    assert_eq!(core.step(sample(18_041, false)), CoreAction::Failed);
    assert_eq!(core.phase(), Phase::Failed);

    let mut core = DhtCore::new(SensorKind::Dht11);
    core.start(0);
    core.step(sample(18_000, false));
    assert_eq!(core.step(sample(18_040, false)), CoreAction::Sample);
    // the later edges have a hundred microseconds
    assert_eq!(core.step(sample(18_140, true)), CoreAction::Sample);
    assert_eq!(core.step(sample(18_241, false)), CoreAction::Failed);
}

#[test]
fn polling_between_edges_changes_nothing() {
    let mut core = DhtCore::new(SensorKind::Dht11);
    core.start(0);
    core.step(sample(18_000, false));
    let before = core.state();
    assert_eq!(core.step(sample(18_010, true)), CoreAction::Sample);
    assert_eq!(core.step(sample(18_020, true)), CoreAction::Sample);
    assert_eq!(core.state(), before);
    assert_eq!(core.step(sample(18_030, false)), CoreAction::Sample);
    assert_eq!(core.state().edge, 1);
    assert_eq!(core.state().since, 18_030);
}

#[test]
fn giving_up_fails_a_listening_core_only() {
    let mut core = DhtCore::new(SensorKind::Dht11);
    core.give_up();
    assert_eq!(core.phase(), Phase::Idle);
    core.start(0);
    core.give_up();
    assert_eq!(core.phase(), Phase::StartPulse);
    core.step(sample(18_000, false));
    core.give_up();
    assert_eq!(core.phase(), Phase::Failed);
}

#[test]
fn a_sample_wakes_a_core_at_rest() {
    let mut core = DhtCore::new(SensorKind::Dht11);
    assert_eq!(core.step(sample(55, true)), CoreAction::DriveLow { micros: 18_000 });
    assert_eq!(core.state().since, 55);
}

#[test]
fn elapsed_time_never_goes_negative() {
    assert_eq!(elapsed(10, 25), 15);
    assert_eq!(elapsed(25, 10), 0);
    assert_eq!(elapsed(0, u64::MAX), u64::MAX);
}

#[test]
fn driver_runs_a_read_step_by_step() {
    let mut dht = Dht11::new(SensorKind::Dht11, Profile::FailFast);
    assert_eq!(dht.kind(), SensorKind::Dht11);
    assert_eq!(dht.profile(), Profile::FailFast);
    assert_eq!(dht.phase(), Phase::Idle);
    assert_eq!(dht.begin(1_000), Action::DriveLow { micros: 18_000 });
    assert_eq!(dht.step(sample(19_000, false)), Action::Release);
    let mut at = 19_000 + 30;
    assert_eq!(dht.step(sample(at, false)), Action::Sample);
    at += 80;
    assert_eq!(dht.step(sample(at, true)), Action::Sample);
    at += 80;
    assert_eq!(dht.step(sample(at, false)), Action::Sample);
    let octets: [u8; 5] = [0x32, 0x00, 0x17, 0x00, 0x49];
    let mut last = Action::Sample;
    for bit in 0..40 {
        at += 50;
        assert_eq!(dht.step(sample(at, true)), Action::Sample);
        // sampled twice during the pulse
        at += 10;
        assert_eq!(dht.step(sample(at, true)), Action::Sample);
        at += if (octets[bit / 8] >> (7 - bit % 8)) & 1 == 1 { 60 } else { 18 };
        last = dht.step(sample(at, false));
    }
    assert_eq!(last, Action::Finish(Ok(SensorReading { humidity: 50, temperature: 23 })));
    assert_eq!(dht.phase(), Phase::Idle);
    assert_eq!(dht.last_read_at(), Some(at));
}

#[test]
fn fail_fast_driver_refuses_without_an_action_on_the_line() {
    let mut dht = Dht11::new(SensorKind::Dht11, Profile::FailFast);
    finish_one_read(&mut dht, 0);
    let last = dht.last_read_at().unwrap();
    assert_eq!(dht.begin(last + 999_999), Action::Finish(Err(DhtError::TooSoon)));
    assert_eq!(dht.phase(), Phase::Idle);
    assert_eq!(dht.last_read_at(), Some(last));
    // a clock that went backwards counts as no time passed
    assert_eq!(dht.begin(last - 1), Action::Finish(Err(DhtError::TooSoon)));
    assert_eq!(dht.begin(last + 1_000_000), Action::DriveLow { micros: 18_000 });
}

#[test]
fn blocking_driver_waits_for_the_rest_of_the_interval() {
    let mut dht = Dht11::new(SensorKind::Dht22, Profile::Blocking);
    finish_one_read(&mut dht, 0);
    let last = dht.last_read_at().unwrap();
    assert_eq!(dht.begin(last + 400_000), Action::Wait { micros: 1_600_000 });
    assert_eq!(dht.phase(), Phase::Idle);
    assert_eq!(dht.begin(last + 1_999_999), Action::Wait { micros: 1 });
    assert_eq!(dht.begin(last + 2_000_000), Action::DriveLow { micros: 1_000 });
    assert_eq!(dht.phase(), Phase::StartPulse);
}

#[test]
fn driver_gives_up_with_a_timeout() {
    let mut dht = Dht11::new(SensorKind::Dht11, Profile::FailFast);
    assert_eq!(dht.give_up(), None);
    dht.begin(0);
    assert_eq!(dht.give_up(), None);
    assert_eq!(dht.step(sample(18_000, false)), Action::Release);
    assert_eq!(dht.give_up(), Some(Action::Finish(Err(DhtError::Timeout))));
    assert_eq!(dht.phase(), Phase::Idle);
    assert_eq!(dht.last_read_at(), None);
}

#[test]
fn failed_read_does_not_start_the_interval() {
    let mut dht = Dht11::new(SensorKind::Dht11, Profile::FailFast);
    dht.begin(0);
    dht.step(sample(18_000, false));
    assert_eq!(dht.step(sample(18_100, true)), Action::Finish(Err(DhtError::Timeout)));
    assert_eq!(dht.last_read_at(), None);
    assert_eq!(dht.begin(18_101), Action::DriveLow { micros: 18_000 });
}

fn finish_one_read(dht: &mut Dht11, now: u64) {
    let hold = match dht.begin(now) {
        Action::DriveLow { micros } => micros,
        other => panic!("unexpected action {:?}", other),
    };
    let mut at = now + hold;
    assert_eq!(dht.step(sample(at, false)), Action::Release);
    let mut high = false;
    for width in [30u64, 80, 80] {
        at += width;
        assert_eq!(dht.step(sample(at, high)), Action::Sample);
        high = !high;
    }
    // an all-zero frame has a valid checksum
    let mut last = Action::Sample;
    for _ in 0..40 {
        at += 50;
        dht.step(sample(at, true));
        at += 28;
        last = dht.step(sample(at, false));
    }
    assert_eq!(last, Action::Finish(Ok(SensorReading { humidity: 0, temperature: 0 })));
}

use dht_sensor::driver::{Dht11, Profile};
use dht_sensor::fault::{alloc_error_handler, FaultResponse};
use dht_sensor::frame::Frame;
use dht_sensor::line::{script_for, LineMode, ScriptedLine};
use dht_sensor::morse::{keying_plan, letter_code, symbol_beep, text_to_morse, Beep};
use dht_sensor::reading::{decode, DhtError, SensorKind, SensorReading};
use dht_sensor::simulation::{simulate_dht11_reading, DHT11Reading};

const FRAMES: [[u8; 4]; 8] = [
    [0, 0, 0, 0],
    [0xFF, 0xFF, 0xFF, 0xFF],
    [0x32, 0x00, 0x17, 0x00],
    [0x02, 0x8C, 0x01, 0x5F],
    [0x02, 0x90, 0x80, 0x65],
    [0xAA, 0x55, 0xAA, 0x55],
    [0x80, 0x01, 0x7F, 0xFE],
    [0x01, 0x02, 0x04, 0x08],
];

#[test]
fn every_frame_comes_back_from_the_wire() {
    for data in FRAMES {
        for kind in [SensorKind::Dht11, SensorKind::Dht22] {
            let frame = Frame::with_data(data[0], data[1], data[2], data[3]);
            let mut line = ScriptedLine::for_frame(1_234, frame);
            let mut dht = Dht11::new(kind, Profile::FailFast);
            let reading = dht.read(&mut line).unwrap();
            assert_eq!(Ok(reading), decode(kind, frame));
            assert!(line.is_released());
        }
    }
}

#[test]
fn canonical_frames_round_trip_through_the_reading() {
    for data in [[50u8, 0, 23, 0], [0, 0, 0, 0], [255, 0, 255, 0]] {
        let frame = Frame::with_data(data[0], data[1], data[2], data[3]);
        let reading = decode(SensorKind::Dht11, frame).unwrap();
        assert_eq!(reading.encode(SensorKind::Dht11), Some(frame));
    }
    for data in FRAMES {
        let frame = Frame::with_data(data[0], data[1], data[2], data[3]);
        let reading = decode(SensorKind::Dht22, frame).unwrap();
        assert_eq!(reading.encode(SensorKind::Dht22), Some(frame));
    }
}

#[test]
fn fractional_octets_of_a_dht11_are_ignored() {
    let frame = Frame::with_data(41, 7, 19, 3);
    let reading = decode(SensorKind::Dht11, frame).unwrap();
    assert_eq!(reading, SensorReading { humidity: 41, temperature: 19 });
    assert_eq!(reading.encode(SensorKind::Dht11), Some(Frame::with_data(41, 0, 19, 0)));
}

#[test]
fn readings_that_a_sensor_cannot_express_have_no_frame() {
    assert_eq!(SensorReading { humidity: 256, temperature: 0 }.encode(SensorKind::Dht11), None);
    assert_eq!(SensorReading { humidity: 0, temperature: -1 }.encode(SensorKind::Dht11), None);
    assert_eq!(SensorReading { humidity: 0, temperature: 256 }.encode(SensorKind::Dht11), None);
    assert_eq!(
        SensorReading { humidity: 0, temperature: i16::MIN }.encode(SensorKind::Dht22),
        None
    );
    assert_eq!(
        SensorReading { humidity: 652, temperature: -101 }.encode(SensorKind::Dht22),
        Some(Frame::from_octets([0x02, 0x8C, 0x80, 0x65, 0x73]))
    );
}

#[test]
fn accepted_readings_have_a_valid_checksum() {
    for checksum in 0..=255u8 {
        let frame = Frame::from_octets([0x32, 0x01, 0x17, 0x02, checksum]);
        let accepted = decode(SensorKind::Dht11, frame).is_ok();
        assert_eq!(accepted, checksum == 0x4C);
        assert_eq!(accepted, frame.verify());
    }
    // the sum wraps at 256
    let frame = Frame::from_octets([0xFF, 0xFF, 0xFF, 0xFF, 0xFC]);
    assert_eq!(frame.sum(), 0xFC);
    assert!(frame.verify());
}

#[test]
fn any_late_edge_times_out_and_releases_the_line() {
    let frame = Frame::with_data(0x32, 0x00, 0x17, 0x00);
    for edge in 0..83 {
        let mut widths = script_for(frame);
        widths[edge] = if edge == 0 { 41 } else { 101 };
        let mut line = ScriptedLine::new(0, widths);
        let mut dht = Dht11::new(SensorKind::Dht11, Profile::FailFast);
        assert_eq!(dht.read(&mut line), Err(DhtError::Timeout), "edge {}", edge);
        assert_eq!(line.mode(), LineMode::Released);
        assert_eq!(dht.last_read_at(), None);
    }
}

#[test]
fn edges_on_the_budget_are_in_time() {
    let frame = Frame::with_data(0, 0, 0, 0);
    let mut widths = script_for(frame);
    widths[0] = 40;
    widths[1] = 100;
    widths[2] = 100;
    widths[3] = 100;
    let mut line = ScriptedLine::new(0, widths);
    let mut dht = Dht11::new(SensorKind::Dht11, Profile::FailFast);
    assert_eq!(dht.read(&mut line), Ok(SensorReading { humidity: 0, temperature: 0 }));
}

#[test]
fn a_script_that_stops_short_times_out() {
    let frame = Frame::with_data(1, 2, 3, 4);
    for length in [0usize, 1, 3, 40, 82] {
        let mut widths = script_for(frame);
        widths.truncate(length);
        let mut line = ScriptedLine::new(0, widths);
        let mut dht = Dht11::new(SensorKind::Dht22, Profile::FailFast);
        assert_eq!(dht.read(&mut line), Err(DhtError::Timeout));
        assert!(line.is_released());
    }
}

#[test]
fn blocking_read_does_not_return_before_the_interval_has_passed() {
    let frame = Frame::with_data(0x32, 0x00, 0x17, 0x00);
    let mut dht = Dht11::new(SensorKind::Dht11, Profile::Blocking);
    let mut line = ScriptedLine::for_frame(10, frame);
    assert!(dht.read(&mut line).is_ok());
    let first = dht.last_read_at().unwrap();
    line.sleep(400_000);
    assert!(dht.read(&mut line).is_ok());
    let second = dht.last_read_at().unwrap();
    assert_eq!(second, line.now());
    // the start pulse began exactly one second after the first read
    let transaction = 18_000 + 190 + 40 * 50 + 30 * 28 + 10 * 70;
    assert_eq!(second, first + 1_000_000 + transaction);
}

#[test]
fn blocking_read_times_out_only_after_the_interval() {
    let mut dht = Dht11::new(SensorKind::Dht22, Profile::Blocking);
    let mut line = ScriptedLine::for_frame(0, Frame::with_data(0, 0, 0, 0));
    assert!(dht.read(&mut line).is_ok());
    let first = line.now();
    let mut silent = ScriptedLine::new(first + 5, Vec::new());
    assert_eq!(dht.read(&mut silent), Err(DhtError::Timeout));
    assert!(silent.now() >= first + 2_000_000 + 1_000);
    assert!(silent.is_released());
}

#[test]
fn scripted_line_plays_its_edges() {
    let mut line = ScriptedLine::new(100, vec![30, 80, 80]);
    assert!(line.is_released());
    assert_eq!(line.observe().high, true);
    line.drive_low();
    assert_eq!(line.mode(), LineMode::DrivenLow);
    assert_eq!(line.observe().high, false);
    line.sleep(18_000);
    line.release();
    assert_eq!(line.observe().at, 18_100);
    let first = line.next_sample().unwrap();
    assert_eq!((first.at, first.high), (18_130, false));
    let second = line.next_sample().unwrap();
    assert_eq!((second.at, second.high), (18_210, true));
    let third = line.next_sample().unwrap();
    assert_eq!((third.at, third.high), (18_290, false));
    assert_eq!(line.next_sample(), None);
    assert_eq!(line.now(), 18_290);
    // a release starts the script over
    line.release();
    assert_eq!(line.next_sample().unwrap().at, 18_320);
    // the clock stops at its end
    line.sleep(u64::MAX);
    assert_eq!(line.now(), u64::MAX);
}

#[test]
fn synthetic_script_has_the_nominal_widths() {
    let widths = script_for(Frame::from_octets([0x80, 0, 0, 0, 0x01]));
    assert_eq!(widths.len(), 83);
    assert_eq!(&widths[..5], &[30, 80, 80, 50, 70]);
    assert_eq!(&widths[5..7], &[50, 28]);
    assert_eq!(widths[81], 50);
    assert_eq!(widths[82], 70);
    assert_eq!(widths.iter().filter(|w| **w == 70).count(), 2);
}

#[test]
fn frame_is_one_forty_bit_word() {
    let frame = Frame::from_octets([0x12, 0x34, 0x56, 0x78, 0x9A]);
    assert_eq!(frame.to_word(), 0x12_3456_789A);
    assert_eq!(Frame::from_word(0x12_3456_789A), frame);
    assert_eq!(Frame::from_word(0xFFFF_FF12_3456_789A), frame);
    let made = Frame::with_data(0x32, 0x00, 0x17, 0x00);
    assert_eq!(made.checksum, 0x49);
}

#[test]
fn sensor_kinds_have_their_timings() {
    assert_eq!(SensorKind::Dht11.min_interval(), 1_000_000);
    assert_eq!(SensorKind::Dht22.min_interval(), 2_000_000);
    assert_eq!(SensorKind::Dht11.start_low(), 18_000);
    assert_eq!(SensorKind::Dht22.start_low(), 1_000);
}

#[test]
fn text_becomes_morse_code() {
    assert_eq!(text_to_morse(""), "");
    assert_eq!(text_to_morse("H"), "....");
    assert_eq!(text_to_morse("HI"), ".... ..");
    assert_eq!(text_to_morse("hi"), ".... ..");
    assert_eq!(text_to_morse("SOS."), "... --- ... .-.-.-");
    assert_eq!(text_to_morse("I, R"), ".. --..-- / .-.");
    // a character without a code leaves its place empty
    assert_eq!(text_to_morse("AZA"), ".-  .-");
    assert_eq!(text_to_morse("ZZ"), " ");
    assert_eq!(
        text_to_morse("HI IM FRANK CASANOVA"),
        ".... .. / ..  / ..-. .-. .- -. -.- / -.-. .- ... .- -. --- ...- .-"
    );
    assert_eq!(letter_code('k'), "-.-");
    assert_eq!(letter_code('é'), "");
}

#[test]
fn faults_halt() {
    assert_eq!(dht_sensor::fault::panic(), FaultResponse::Halt);
    assert_eq!(alloc_error_handler(), FaultResponse::Halt);
}

#[test]
fn morse_code_becomes_a_keying_plan() {
    assert_eq!(symbol_beep('.'), Beep { tone_ms: 200, rest_ms: 200 });
    assert_eq!(symbol_beep('-'), Beep { tone_ms: 600, rest_ms: 200 });
    assert_eq!(symbol_beep(' '), Beep { tone_ms: 0, rest_ms: 800 });
    assert_eq!(symbol_beep('/'), Beep { tone_ms: 0, rest_ms: 1600 });
    assert_eq!(symbol_beep('x'), Beep { tone_ms: 0, rest_ms: 200 });
    assert_eq!(keying_plan(""), Vec::new());
    assert_eq!(
        keying_plan(".- /"),
        vec![
            Beep { tone_ms: 200, rest_ms: 200 },
            Beep { tone_ms: 600, rest_ms: 200 },
            Beep { tone_ms: 0, rest_ms: 800 },
            Beep { tone_ms: 0, rest_ms: 1600 },
        ]
    );
    assert_eq!(keying_plan(&text_to_morse("HI")).len(), 7);
}

#[test]
fn simulated_readings_vary_with_the_count() {
    assert_eq!(simulate_dht11_reading(0), DHT11Reading { temperature: 18, humidity: 45 });
    assert_eq!(simulate_dht11_reading(1), DHT11Reading { temperature: 21, humidity: 52 });
    assert_eq!(simulate_dht11_reading(3), DHT11Reading { temperature: 27, humidity: 46 });
    assert_eq!(simulate_dht11_reading(17), DHT11Reading { temperature: 19, humidity: 64 });
    assert_eq!(
        simulate_dht11_reading(u32::MAX / 7),
        DHT11Reading { temperature: 26, humidity: 57 }
    );
}

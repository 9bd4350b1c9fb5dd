use dht_sensor::driver::{Dht11, Profile};
use dht_sensor::frame::Frame;
use dht_sensor::line::{script_for, LineMode, ScriptedLine};
use dht_sensor::reading::{decode, DhtError, SensorKind, SensorReading};

#[test]
fn happy_dht11_frame_decodes() {
    let frame = Frame::from_octets([0x32, 0x00, 0x17, 0x00, 0x49]);
    assert_eq!(
        decode(SensorKind::Dht11, frame),
        Ok(SensorReading { humidity: 50, temperature: 23 })
    );
}

#[test]
fn happy_dht11_read_over_the_wire() {
    let frame = Frame::from_octets([0x32, 0x00, 0x17, 0x00, 0x49]);
    let mut line = ScriptedLine::for_frame(0, frame);
    let mut dht = Dht11::new(SensorKind::Dht11, Profile::FailFast);
    assert_eq!(dht.read(&mut line), Ok(SensorReading { humidity: 50, temperature: 23 }));
    assert!(line.is_released());
    assert_eq!(line.mode(), LineMode::Released);
    // start pulse 18 ms, answer 30 + 80 + 80, forty bits of 50 + 28 or 70:
    // the frame has 10 ones
    assert_eq!(line.now(), 18_000 + 190 + 40 * 50 + 30 * 28 + 10 * 70);
    assert_eq!(dht.last_read_at(), Some(line.now()));
}

#[test]
fn bad_checksum_is_reported() {
    let frame = Frame::from_octets([0x32, 0x00, 0x17, 0x00, 0x00]);
    assert_eq!(decode(SensorKind::Dht11, frame), Err(DhtError::ChecksumMismatch));
    let mut line = ScriptedLine::for_frame(0, frame);
    let mut dht = Dht11::new(SensorKind::Dht11, Profile::FailFast);
    assert_eq!(dht.read(&mut line), Err(DhtError::ChecksumMismatch));
    assert!(line.is_released());
    assert_eq!(dht.last_read_at(), None);
}

#[test]
fn dht22_fractional_values() {
    let frame = Frame::from_octets([0x02, 0x8C, 0x01, 0x5F, 0xEE]);
    assert_eq!(
        decode(SensorKind::Dht22, frame),
        Ok(SensorReading { humidity: 652, temperature: 351 })
    );
    let mut line = ScriptedLine::for_frame(5, frame);
    let mut dht = Dht11::new(SensorKind::Dht22, Profile::Blocking);
    assert_eq!(dht.read(&mut line), Ok(SensorReading { humidity: 652, temperature: 351 }));
    assert!(line.is_released());
}

#[test]
fn dht22_negative_temperature() {
    let frame = Frame::from_octets([0x02, 0x90, 0x80, 0x65, 0x77]);
    let reading = decode(SensorKind::Dht22, frame).unwrap();
    assert_eq!(reading.temperature, -101);
    assert_eq!(reading.humidity, 656);
    let mut line = ScriptedLine::for_frame(0, frame);
    let mut dht = Dht11::new(SensorKind::Dht22, Profile::FailFast);
    assert_eq!(dht.read(&mut line).unwrap().temperature, -101);
}

#[test]
fn dht22_sign_boundary() {
    let minus = Frame::with_data(0, 0, 0x80, 0x0A);
    let plus = Frame::with_data(0, 0, 0x00, 0x0A);
    assert_eq!(decode(SensorKind::Dht22, minus).unwrap().temperature, -10);
    assert_eq!(decode(SensorKind::Dht22, plus).unwrap().temperature, 10);
    let negative_zero = Frame::with_data(0, 0, 0x80, 0x00);
    assert_eq!(decode(SensorKind::Dht22, negative_zero).unwrap().temperature, 0);
    let coldest = Frame::with_data(0xFF, 0xFF, 0xFF, 0xFF);
    assert_eq!(
        decode(SensorKind::Dht22, coldest),
        Ok(SensorReading { humidity: 65535, temperature: -32767 })
    );
}

#[test]
fn second_read_after_400_ms_is_too_soon() {
    let frame = Frame::from_octets([0x32, 0x00, 0x17, 0x00, 0x49]);
    let mut dht = Dht11::new(SensorKind::Dht11, Profile::FailFast);
    let mut line = ScriptedLine::for_frame(0, frame);
    assert_eq!(dht.read(&mut line), Ok(SensorReading { humidity: 50, temperature: 23 }));
    let done_at = line.now();
    line.sleep(400_000);
    assert_eq!(dht.read(&mut line), Err(DhtError::TooSoon));
    // nothing was touched
    assert_eq!(line.now(), done_at + 400_000);
    assert!(line.is_released());
    assert_eq!(dht.last_read_at(), Some(done_at));
    // one second after the first read it works again
    line.sleep(600_000);
    assert_eq!(dht.read(&mut line), Ok(SensorReading { humidity: 50, temperature: 23 }));
}

#[test]
fn missing_acknowledgement_times_out() {
    // the sensor pulls low only after 150 microseconds
    let mut widths = script_for(Frame::from_octets([0x32, 0x00, 0x17, 0x00, 0x49]));
    widths[0] = 150;
    let mut line = ScriptedLine::new(0, widths);
    let mut dht = Dht11::new(SensorKind::Dht11, Profile::FailFast);
    assert_eq!(dht.read(&mut line), Err(DhtError::Timeout));
    assert!(line.is_released());
    assert_eq!(dht.last_read_at(), None);
}

#[test]
fn absent_sensor_times_out() {
    let mut line = ScriptedLine::new(7, Vec::new());
    let mut dht = Dht11::new(SensorKind::Dht22, Profile::Blocking);
    assert_eq!(dht.read(&mut line), Err(DhtError::Timeout));
    assert!(line.is_released());
    assert_eq!(line.now(), 7 + 1_000);
}

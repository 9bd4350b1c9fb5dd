//! Bit-banged single-wire driver for DHT11 and DHT22 humidity and temperature
//! sensors, written as a state machine that never touches the hardware itself.
//!
//! The host owns the pin and the clock. It asks the driver in `driver` what
//! to do, does it, and reports what the line looked like; the driver rate
//! limits the reads, follows the wire protocol through the transceiver in
//! `transceiver`, and validates and decodes the frame with `frame` and
//! `reading`. The scripted line in `line` stands in for pin and clock where
//! there is no sensor. What holds of all of this on every input is proved in
//! `laws` and `polling`.

pub mod frame;
pub mod reading;
pub mod transceiver;
pub mod line;
pub mod driver;
pub mod laws;
pub mod polling;
pub mod simulation;
pub mod morse;
pub mod fault;

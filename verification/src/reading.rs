//! Sensor kinds, decoded readings, and the rules that turn a frame into a
//! reading and back.

use vstd::prelude::*;
use crate::frame::Frame;

verus! {

/// Which sensor is on the line.
#[derive(Clone, Copy, Debug, PartialEq, Eq, Structural)]
pub enum SensorKind {
    Dht11,
    Dht22,
}

/// Why a read produced no reading.
#[derive(Clone, Copy, Debug, PartialEq, Eq, Structural)]
pub enum DhtError {
    /// A bus edge did not arrive within the budget of its phase.
    Timeout,
    /// All forty bits arrived, but the checksum octet does not match.
    ChecksumMismatch,
    /// The minimum interval since the last successful read has not passed.
    TooSoon,
}

/// A decoded measurement.
///
/// For a DHT11 `humidity` is in percent and `temperature` in degrees Celsius;
/// for a DHT22 both are in tenths.
#[derive(Clone, Copy, Debug, PartialEq, Eq, Structural)]
pub struct SensorReading {
    pub humidity: u16,
    pub temperature: i16,
}

impl SensorKind {
    /// Minimum time between two reads, in microseconds.
    pub open spec fn min_interval_spec(self) -> u64 {
        match self {
            SensorKind::Dht11 => 1_000_000,
            SensorKind::Dht22 => 2_000_000,
        }
    }

    /// How long the host holds the line low to start a transaction, in
    /// microseconds.
    pub open spec fn start_low_spec(self) -> u64 {
        match self {
            SensorKind::Dht11 => 18_000,
            SensorKind::Dht22 => 1_000,
        }
    }

    /// Minimum time between two reads, in microseconds.
    #[verifier::when_used_as_spec(min_interval_spec)]
    pub fn min_interval(self) -> (micros: u64)
        ensures
            micros == self.min_interval_spec(),
    {
        match self {
            SensorKind::Dht11 => 1_000_000,
            SensorKind::Dht22 => 2_000_000,
        }
    }

    /// Length of the start pulse, in microseconds.
    #[verifier::when_used_as_spec(start_low_spec)]
    pub fn start_low(self) -> (micros: u64)
        ensures
            micros == self.start_low_spec(),
    {
        match self {
            SensorKind::Dht11 => 18_000,
            SensorKind::Dht22 => 1_000,
        }
    }
}

/// Humidity that a frame carries: the integral octet for a DHT11, the
/// sixteen-bit big-endian value of both humidity octets for a DHT22.
pub open spec fn humidity_of(kind: SensorKind, frame: Frame) -> int {
    match kind {
        SensorKind::Dht11 => frame.h_int as int,
        SensorKind::Dht22 => frame.h_int * 256 + frame.h_frac,
    }
}

/// Temperature that a frame carries: the integral octet for a DHT11; for a
/// DHT22 the fifteen low bits of both temperature octets as magnitude, negated
/// when the top bit of the first octet is set.
pub open spec fn temperature_of(kind: SensorKind, frame: Frame) -> int {
    match kind {
        SensorKind::Dht11 => frame.t_int as int,
        SensorKind::Dht22 => {
            let magnitude = (frame.t_int % 128) * 256 + frame.t_frac;
            if frame.t_int >= 128 {
                -magnitude
            } else {
                magnitude
            }
        },
    }
}

/// What a complete frame decodes to.
pub open spec fn decode_spec(kind: SensorKind, frame: Frame) -> Result<SensorReading, DhtError> {
    if frame.checksum_ok() {
        Ok(
            SensorReading {
                humidity: humidity_of(kind, frame) as u16,
                temperature: temperature_of(kind, frame) as i16,
            },
        )
    } else {
        Err(DhtError::ChecksumMismatch)
    }
}

/// The decoding of a DHT22 frame in terms of the bits of its octets: the
/// humidity is the first octet shifted left by eight and joined with the
/// second; the magnitude of the temperature is the third octet without its
/// top bit, shifted left by eight and joined with the fourth; and the
/// temperature is negative when that top bit is set.
pub proof fn lemma_dht22_bit_layout(frame: Frame)
    ensures
        humidity_of(SensorKind::Dht22, frame) == ((frame.h_int as u16) << 8) | (
        frame.h_frac as u16),
        temperature_of(SensorKind::Dht22, frame) == if frame.t_int & 0x80 != 0 {
            -((((frame.t_int & 0x7F) as u16) << 8) | (frame.t_frac as u16))
        } else {
            ((((frame.t_int & 0x7F) as u16) << 8) | (frame.t_frac as u16)) as int
        },
{
    let h_int = frame.h_int;
    let h_frac = frame.h_frac;
    let t_int = frame.t_int;
    let t_frac = frame.t_frac;
    assert(((h_int as u16) << 8) | (h_frac as u16) == h_int as u16 * 256 + h_frac as u16)
        by (bit_vector);
    assert((((t_int & 0x7F) as u16) << 8) | (t_frac as u16) == (t_int % 128) as u16 * 256
        + t_frac as u16) by (bit_vector);
    assert((t_int & 0x80 != 0) == (t_int >= 128)) by (bit_vector);
}

/// Validates the checksum of `frame` and decodes it for the given sensor.
pub fn decode(kind: SensorKind, frame: Frame) -> (result: Result<SensorReading, DhtError>)
    ensures
        result == decode_spec(kind, frame),
        result is Ok <==> frame.checksum_ok(),
        result matches Ok(r) ==> r.humidity == humidity_of(kind, frame) && r.temperature
            == temperature_of(kind, frame),
        result matches Err(e) ==> e == DhtError::ChecksumMismatch,
{
    if !frame.verify() {
        return Err(DhtError::ChecksumMismatch);
    }
    match kind {
        SensorKind::Dht11 => Ok(
            SensorReading { humidity: frame.h_int as u16, temperature: frame.t_int as i16 },
        ),
        SensorKind::Dht22 => {
            let humidity: u16 = frame.h_int as u16 * 256 + frame.h_frac as u16;
            let magnitude: i16 = (frame.t_int % 128) as i16 * 256 + frame.t_frac as i16;
            let temperature: i16 = if frame.t_int >= 128 {
                -magnitude
            } else {
                magnitude
            };
            Ok(SensorReading { humidity, temperature })
        },
    }
}

/// Whether a frame is the only one of its sensor kind that carries its
/// reading: a DHT11 frame with both fractional octets zero, a DHT22 frame
/// other than the one that spells a negative zero.
pub open spec fn canonical(kind: SensorKind, frame: Frame) -> bool {
    match kind {
        SensorKind::Dht11 => frame.h_frac == 0 && frame.t_frac == 0,
        SensorKind::Dht22 => !(frame.t_int == 128 && frame.t_frac == 0),
    }
}

impl SensorReading {
    /// Whether a frame of the given sensor can carry this reading.
    pub open spec fn representable(self, kind: SensorKind) -> bool {
        match kind {
            SensorKind::Dht11 => self.humidity <= 255 && 0 <= self.temperature <= 255,
            SensorKind::Dht22 => -32767 <= self.temperature,
        }
    }

    /// The four data octets that carry this reading, fractional octets zero for
    /// a DHT11.
    pub open spec fn data_octets(self, kind: SensorKind) -> (int, int, int, int) {
        match kind {
            SensorKind::Dht11 => (self.humidity as int, 0, self.temperature as int, 0),
            SensorKind::Dht22 => {
                let magnitude: int = if self.temperature < 0 {
                    -self.temperature
                } else {
                    self.temperature as int
                };
                let sign: int = if self.temperature < 0 {
                    128
                } else {
                    0
                };
                (
                    self.humidity as int / 256,
                    self.humidity as int % 256,
                    sign + magnitude / 256,
                    magnitude % 256,
                )
            },
        }
    }

    /// The frame that carries this reading, if the sensor kind can express it.
    pub fn encode(&self, kind: SensorKind) -> (frame: Option<Frame>)
        ensures
            frame is Some <==> self.representable(kind),
            frame matches Some(f) ==> f.checksum_ok() && (
            f.h_int as int,
            f.h_frac as int,
            f.t_int as int,
            f.t_frac as int,
            ) == self.data_octets(kind),
    {
        match kind {
            SensorKind::Dht11 => {
                if self.humidity <= 255 && 0 <= self.temperature && self.temperature <= 255 {
                    Some(Frame::with_data(self.humidity as u8, 0, self.temperature as u8, 0))
                } else {
                    None
                }
            },
            SensorKind::Dht22 => {
                if self.temperature < -32767 {
                    return None;
                }
                let negative = self.temperature < 0;
                let magnitude: u16 = if negative {
                    (-self.temperature) as u16
                } else {
                    self.temperature as u16
                };
                let sign: u8 = if negative {
                    128
                } else {
                    0
                };
                Some(
                    Frame::with_data(
                        (self.humidity / 256) as u8,
                        (self.humidity % 256) as u8,
                        sign + (magnitude / 256) as u8,
                        (magnitude % 256) as u8,
                    ),
                )
            },
        }
    }
}

} // verus!

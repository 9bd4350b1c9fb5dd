//! Made-up readings for a board without a sensor.

use vstd::prelude::*;

verus! {

/// A simulated measurement: degrees Celsius and percent.
#[derive(Clone, Copy, Debug, PartialEq, Eq, Structural)]
pub struct DHT11Reading {
    pub temperature: i16,
    pub humidity: i16,
}

/// The simulated measurement with the given number: 23 degrees and 55
/// percent, varied by up to five degrees and ten percent in a pattern that
/// repeats with the number.
pub open spec fn simulated(measurement_count: u32) -> DHT11Reading {
    DHT11Reading {
        temperature: (23 + (measurement_count * 3) % 10 - 5) as i16,
        humidity: (55 + (measurement_count * 7) % 20 - 10) as i16,
    }
}

/// Makes up the measurement with the given number.
pub fn simulate_dht11_reading(measurement_count: u32) -> (reading: DHT11Reading)
    requires
        measurement_count * 7 <= u32::MAX,
    ensures
        reading == simulated(measurement_count),
        18 <= reading.temperature <= 27,
        45 <= reading.humidity <= 64,
{
    let base_temp: i16 = 23;
    let base_humidity: i16 = 55;
    let temp_variation: i16 = ((measurement_count * 3) % 10) as i16 - 5;
    let humidity_variation: i16 = ((measurement_count * 7) % 20) as i16 - 10;
    DHT11Reading {
        temperature: base_temp + temp_variation,
        humidity: base_humidity + humidity_variation,
    }
}

} // verus!

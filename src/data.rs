use vstd::prelude::*;

verus! {

/// Largest CO2 concentration, in ppm, that the value cells are sized for.
pub const CO2_MAX: u16 = 9999;

/// Smallest temperature or humidity, in hundredths, that the value cells are sized for.
pub const CENTI_MIN: i32 = -9990;

/// Largest temperature or humidity, in hundredths, that the value cells are sized for.
pub const CENTI_MAX: i32 = 19990;

/// One sampled reading of the sensor.
///
/// Temperature and humidity are fixed-point values in hundredths of their
/// unit: `2059` is 20.59 degrees Celsius, `5742` is 57.42 % relative humidity.
#[derive(Clone, Copy, Debug, PartialEq, Eq, Structural)]
pub struct Data {
    /// CO2 concentration in ppm.
    pub co2: u16,
    /// Temperature in hundredths of a degree Celsius.
    pub temperature: i32,
    /// Relative humidity in hundredths of a percent.
    pub humidity: i32,
}

/// A temperature or humidity, in hundredths, within the documented sensor range.
pub open spec fn centi_in_range(v: int) -> bool {
    CENTI_MIN <= v && v <= CENTI_MAX
}

impl Data {
    /// The reading lies in the range that every theme's value cells are sized for.
    pub open spec fn in_range(self) -> bool {
        &&& self.co2 <= CO2_MAX
        &&& centi_in_range(self.temperature as int)
        &&& centi_in_range(self.humidity as int)
    }

    pub fn new(co2: u16, temperature: i32, humidity: i32) -> (r: Data)
        ensures
            r.co2 == co2,
            r.temperature == temperature,
            r.humidity == humidity,
    {
        Data { co2, temperature, humidity }
    }

    /// Tells whether the reading lies in the documented range.
    pub fn is_in_range(&self) -> (r: bool)
        ensures
            r == self.in_range(),
    {
        self.co2 <= CO2_MAX && CENTI_MIN <= self.temperature && self.temperature <= CENTI_MAX
            && CENTI_MIN <= self.humidity && self.humidity <= CENTI_MAX
    }
}

} // verus!

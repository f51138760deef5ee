//! 16-bit I2C ADC that samples the wind speed sensor (0-2 V for 0-200
//! km/h), the soil moisture sensor (0-3 V for 0-100 %) and the battery.
use vstd::prelude::*;

verus! {

/// Registers of the ADC.
#[derive(Debug, Clone, Copy, PartialEq, Eq, Structural)]
pub enum Registers {
    Conversion,
    Config,
    LoThresh,
    HiThresh,
}

impl Registers {
    /// Register address.
    pub open spec fn spec_addr(self) -> u8 {
        match self {
            Registers::Conversion => 0,
            Registers::Config => 1,
            Registers::LoThresh => 2,
            Registers::HiThresh => 3,
        }
    }

    /// Register address.
    pub fn addr(self) -> (a: u8)
        ensures
            a == self.spec_addr(),
    {
        match self {
            Registers::Conversion => 0,
            Registers::Config => 1,
            Registers::LoThresh => 2,
            Registers::HiThresh => 3,
        }
    }
}

/// The analog input to sample.
#[derive(Debug, Clone, Copy, PartialEq, Eq, Structural)]
pub enum SensorSelect {
    SoilMoisture,
    WindSpeed,
    Battery,
}

/// Second byte of every configuration word: full-scale +-6.144 V, single
/// shot, default data rate and comparator.
pub const CONFIG_LOW_BYTE: u8 = 0b1000_0011;

impl SensorSelect {
    /// Input multiplexer code (bits 14:12 of the configuration word).
    pub open spec fn mux(self) -> u8 {
        match self {
            SensorSelect::SoilMoisture => 0b100,
            SensorSelect::WindSpeed => 0b101,
            SensorSelect::Battery => 0b110,
        }
    }

    /// Configuration word selecting this input, single-shot mode, without
    /// starting a conversion: OS=0, MUX, PGA=000, MODE=1.
    pub fn config_bytes(self) -> (b: [u8; 2])
        ensures
            b@ == seq![(self.mux() * 16 + 1) as u8, CONFIG_LOW_BYTE],
    {
        let b: [u8; 2] = match self {
            SensorSelect::SoilMoisture => [0b0100_0001, 0b1000_0011],
            SensorSelect::WindSpeed => [0b0101_0001, 0b1000_0011],
            SensorSelect::Battery => [0b0110_0001, 0b1000_0011],
        };
        assert(b@ =~= seq![(self.mux() * 16 + 1) as u8, CONFIG_LOW_BYTE]);
        b
    }

    /// Configuration word that starts one conversion of this input: OS=1,
    /// this input's MUX, PGA=000, MODE=1. Writing it keeps the input that
    /// `config_bytes` selected, so the conversion measures that input.
    pub fn trigger_one_shot_bytes(self) -> (b: [u8; 2])
        ensures
            b@ == seq![(128 + self.mux() * 16 + 1) as u8, CONFIG_LOW_BYTE],
    {
        let b: [u8; 2] = match self {
            SensorSelect::SoilMoisture => [0b1100_0001, 0b1000_0011],
            SensorSelect::WindSpeed => [0b1101_0001, 0b1000_0011],
            SensorSelect::Battery => [0b1110_0001, 0b1000_0011],
        };
        assert(b@ =~= seq![(128 + self.mux() * 16 + 1) as u8, CONFIG_LOW_BYTE]);
        b
    }
}

/// Configuration word written at start-up: soil moisture input selected.
pub fn init_config_bytes() -> (b: [u8; 2])
    ensures
        b@ == seq![0b0100_0001u8, CONFIG_LOW_BYTE],
{
    let b: [u8; 2] = [0b0100_0001, 0b1000_0011];
    assert(b@ =~= seq![0b0100_0001u8, CONFIG_LOW_BYTE]);
    b
}

/// The conversion register's two bytes, big-endian, as a signed reading.
pub open spec fn be_i16(hi: u8, lo: u8) -> i16 {
    (hi * 256 + lo) as i16
}

/// Millivolts of a conversion result: negative readings count as zero, and
/// the positive range of 32768 counts spans 6144 mV.
pub open spec fn millivolts(hi: u8, lo: u8) -> u32 {
    let v = be_i16(hi, lo);
    if v < 0 {
        0
    } else {
        (v * 6144 / 32768) as u32
    }
}

/// Millivolts of a conversion result.
pub fn adc_mv_from_raw(raw: [u8; 2]) -> (mv: u32)
    ensures
        mv == millivolts(raw@[0], raw@[1]),
        mv <= 6143,
{
    let raw_value = ((raw[0] as u16) * 256 + (raw[1] as u16)) as i16;
    let raw_value: u32 = if raw_value < 0 {
        0
    } else {
        raw_value as u32
    };
    raw_value * 6144 / 32768
}

/// Wind speed in km/h of a sensor voltage: 0-2000 mV spans 0-200 km/h.
pub fn wind_speed_kmh(voltage_mv: u32) -> (speed: u32)
    requires
        voltage_mv * 200 <= u32::MAX,
    ensures
        speed == voltage_mv * 200 / 2000,
{
    (voltage_mv * 200) / 2000
}

} // verus!

//! DFRobot SEN0575 tipping-bucket rainfall sensor: register map, device
//! identification, and rainfall counted from a software baseline.
use vstd::prelude::*;

verus! {

/// Expected VID of a genuine SEN0575.
pub const EXPECTED_VID: u16 = 0x3343;

/// Expected PID of a genuine SEN0575.
pub const EXPECTED_PID: u32 = 0x100C0;

/// Default I2C address of the SEN0575.
pub const RAINFALL_SENSOR_ADDR: u8 = 0x1D;

/// Registers of the rainfall sensor.
#[derive(Debug, Clone, Copy, PartialEq, Eq, Structural)]
pub enum Registers {
    /// 4 bytes: PID and VID, bit-packed.
    Pid,
    /// 2 bytes: firmware version.
    Version,
    /// 4 bytes: rainfall over the last N hours, scaled by 10000.
    TimeRainfall,
    /// 4 bytes: cumulative rainfall, little-endian, scaled by 10000 (mm).
    CumulativeRainfall,
    /// 4 bytes: raw tip count.
    RawData,
    /// 1 byte: window in hours for `TimeRainfall`.
    RainHour,
    /// 2 bytes: rainfall per tip, little-endian, scaled by 10000.
    BaseRainfall,
}

impl Registers {
    /// Register address.
    pub open spec fn spec_addr(self) -> u8 {
        match self {
            Registers::Pid => 0x00,
            Registers::Version => 0x0A,
            Registers::TimeRainfall => 0x0C,
            Registers::CumulativeRainfall => 0x10,
            Registers::RawData => 0x14,
            Registers::RainHour => 0x26,
            Registers::BaseRainfall => 0x28,
        }
    }

    /// Register address.
    pub fn addr(self) -> (a: u8)
        ensures
            a == self.spec_addr(),
    {
        match self {
            Registers::Pid => 0x00,
            Registers::Version => 0x0A,
            Registers::TimeRainfall => 0x0C,
            Registers::CumulativeRainfall => 0x10,
            Registers::RawData => 0x14,
            Registers::RainHour => 0x26,
            Registers::BaseRainfall => 0x28,
        }
    }
}

/// PID of the PID/VID block: bytes 0-1 are its low 16 bits, and the top two
/// bits of byte 3 extend it.
pub open spec fn pid_of(b: Seq<u8>) -> u32 {
    (b[0] + b[1] * 256 + (b[3] / 64) * 65536) as u32
}

/// VID of the PID/VID block: byte 2 is its low 8 bits, and the low six bits
/// of byte 3 extend it.
pub open spec fn vid_of(b: Seq<u8>) -> u16 {
    (b[2] + (b[3] % 64) * 256) as u16
}

/// Unpack the PID/VID block into `(pid, vid)`.
pub fn pid_vid_from_block(buf: &[u8; 4]) -> (r: (u32, u16))
    ensures
        r == (pid_of(buf@), vid_of(buf@)),
{
    let b0 = buf[0];
    let b1 = buf[1];
    let b2 = buf[2];
    let b3 = buf[3];
    let pid = (b0 as u32) | ((b1 as u32) << 8) | (((b3 & 0xC0) as u32) << 10);
    assert(((b0 as u32) | ((b1 as u32) << 8u32) | (((b3 & 0xC0u8) as u32) << 10u32)) == b0 + b1
        * 256 + (b3 / 64) * 65536) by (bit_vector);
    let vid = (b2 as u16) | (((b3 & 0x3F) as u16) << 8);
    assert(((b2 as u16) | (((b3 & 0x3Fu8) as u16) << 8u16)) == b2 + (b3 % 64) * 256)
        by (bit_vector);
    (pid, vid)
}

/// Whether a PID/VID pair identifies a genuine SEN0575.
pub fn is_expected_device(pid: u32, vid: u16) -> (r: bool)
    ensures
        r == (pid == EXPECTED_PID && vid == EXPECTED_VID),
{
    !(vid != EXPECTED_VID || pid != EXPECTED_PID)
}

/// The cumulative rainfall register's little-endian count.
pub fn cumulative_from_bytes(raw: &[u8; 4]) -> (v: u32)
    ensures
        v == raw@[0] + raw@[1] * 256 + raw@[2] * 65536 + raw@[3] * 16777216,
{
    (raw[0] as u32) + (raw[1] as u32) * 256 + (raw[2] as u32) * 65536 + (raw[3] as u32)
        * 16777216
}

/// A 32-bit counter's reading after `k` counts from `start`, wrapping past
/// its maximum.
pub open spec fn counter_after(start: u32, k: nat) -> int {
    (start + k) % 0x1_0000_0000
}

/// Rainfall counts (mm scaled by 10000) since the baseline: the difference
/// modulo 2^32, so that a single wrap of the sensor's counter past its
/// maximum still yields the true increment.
pub fn counts_since_baseline(raw_value: u32, baseline: u32) -> (delta: u32)
    ensures
        delta == (raw_value - baseline) % 0x1_0000_0000,
        forall|k: nat|
            k < 0x1_0000_0000 && raw_value == #[trigger] counter_after(baseline, k) ==> delta == k,
{
    let d = raw_value.wrapping_sub(baseline);
    proof {
        assert forall|k: nat|
            k < 0x1_0000_0000 && raw_value == #[trigger] counter_after(baseline, k) implies d == k by {
            if baseline + k < 0x1_0000_0000 {
                assert(raw_value == baseline + k);
            } else {
                assert(raw_value == baseline + k - 0x1_0000_0000);
            }
        }
    }
    d
}

} // verus!

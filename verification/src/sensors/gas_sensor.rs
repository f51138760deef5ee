//! BME680 gas sensor: register map, calibration data, and Bosch's
//! fixed-point compensation formulas for temperature, humidity, pressure,
//! gas resistance and heater set-point.
//!
//! Each formula is integer arithmetic in which an intermediate value may
//! leave its type's range on inputs outside the sensor's physical range.
//! `try_*` computes it with checked arithmetic and yields `None` exactly
//! there; the plain function requires that this does not happen.
use vstd::prelude::*;
use crate::sensors::checked::{
    add_i32, add_i64, as_i32, as_u32, ck_add_i32, ck_add_i64, ck_as_i32, ck_as_u32, ck_div_i32,
    ck_div_i64, ck_div_u32, ck_mul_i32, ck_mul_i64, ck_mul_u32, ck_shl_i32, ck_shl_u32,
    ck_shr_i32, ck_shr_i64, ck_shr_u32, ck_sub_i32, ck_sub_i64, div_i32, div_i64, div_u32,
    mul_i32, mul_i64, mul_u32, shl_i32, shl_u32, shr_i32, shr_i64, shr_u32, sub_i32, sub_i64,
};

verus! {

/// Registers of the gas sensor.
#[derive(Debug, Clone, Copy, PartialEq, Eq, Structural)]
pub enum Registers {
    Status,
    Reset,
    Id,
    Config,
    CtrlMeas,
    CtrlHum,
    CtrlGas1,
    CtrlGas0,
    /// Gas wait time of set-point 0; set-point x is at this address plus x.
    GasWaitX,
    /// Heater resistance of set-point 0; set-point x is at this address plus x.
    ResHeatX,
    /// Heater current of set-point 0; set-point x is at this address plus x.
    IdacHeatX,
    GasRLsb,
    GasRMsb,
    HumLsb,
    HumMsb,
    TempXlsb,
    TempLsb,
    TempMsb,
    PresXlsb,
    PressLsb,
    PressMsb,
    MeasStatus0,
    Calib1,
    Calib2,
}

impl Registers {
    /// Register address.
    pub open spec fn spec_addr(self) -> u8 {
        match self {
            Registers::Status => 0x73,
            Registers::Reset => 0xE0,
            Registers::Id => 0xD0,
            Registers::Config => 0x75,
            Registers::CtrlMeas => 0x74,
            Registers::CtrlHum => 0x72,
            Registers::CtrlGas1 => 0x71,
            Registers::CtrlGas0 => 0x70,
            Registers::GasWaitX => 0x64,
            Registers::ResHeatX => 0x5A,
            Registers::IdacHeatX => 0x50,
            Registers::GasRLsb => 0x2B,
            Registers::GasRMsb => 0x2A,
            Registers::HumLsb => 0x26,
            Registers::HumMsb => 0x25,
            Registers::TempXlsb => 0x24,
            Registers::TempLsb => 0x23,
            Registers::TempMsb => 0x22,
            Registers::PresXlsb => 0x21,
            Registers::PressLsb => 0x20,
            Registers::PressMsb => 0x1F,
            Registers::MeasStatus0 => 0x1D,
            Registers::Calib1 => 0x00,
            Registers::Calib2 => 0xEB,
        }
    }

    /// Register address.
    pub fn addr(self) -> (a: u8)
        ensures
            a == self.spec_addr(),
    {
        match self {
            Registers::Status => 0x73,
            Registers::Reset => 0xE0,
            Registers::Id => 0xD0,
            Registers::Config => 0x75,
            Registers::CtrlMeas => 0x74,
            Registers::CtrlHum => 0x72,
            Registers::CtrlGas1 => 0x71,
            Registers::CtrlGas0 => 0x70,
            Registers::GasWaitX => 0x64,
            Registers::ResHeatX => 0x5A,
            Registers::IdacHeatX => 0x50,
            Registers::GasRLsb => 0x2B,
            Registers::GasRMsb => 0x2A,
            Registers::HumLsb => 0x26,
            Registers::HumMsb => 0x25,
            Registers::TempXlsb => 0x24,
            Registers::TempLsb => 0x23,
            Registers::TempMsb => 0x22,
            Registers::PresXlsb => 0x21,
            Registers::PressLsb => 0x20,
            Registers::PressMsb => 0x1F,
            Registers::MeasStatus0 => 0x1D,
            Registers::Calib1 => 0x00,
            Registers::Calib2 => 0xEB,
        }
    }
}

/// Gas sensor modes. In Sleep mode nothing is measured; in Forced mode one
/// temperature, pressure, humidity and gas measurement is made, after which
/// the sensor returns to sleep.
#[derive(Debug, Clone, Copy, PartialEq, Eq, Structural)]
pub enum GSMode {
    Sleep,
    Forced,
}

/// Factory calibration (trim) values, read once at start-up.
#[derive(Debug, Clone, Copy, PartialEq, Eq, Structural)]
pub struct CalibrationData {
    pub par_t1: i16,
    pub par_t2: i16,
    pub par_t3: i8,
    pub par_p1: u16,
    pub par_p2: i16,
    pub par_p3: i8,
    pub par_p4: i16,
    pub par_p5: i16,
    pub par_p6: i8,
    pub par_p7: i8,
    pub par_p8: i16,
    pub par_p9: i16,
    pub par_p10: i8,
    pub par_h1: u16,
    pub par_h2: i16,
    pub par_h3: i8,
    pub par_h4: i8,
    pub par_h5: i8,
    pub par_h6: u8,
    pub par_h7: i8,
    pub par_g1: i8,
    pub par_g2: i16,
    pub par_g3: i8,
    pub res_heat_range: u8,
    pub res_heat_val: i8,
    pub range_switching_error: i8,
}

/// The signed 16-bit value of two little-endian bytes.
pub open spec fn le_i16(lo: u8, hi: u8) -> i16 {
    (lo + hi * 256) as i16
}

/// The unsigned 16-bit value of two little-endian bytes.
pub open spec fn le_u16(lo: u8, hi: u8) -> u16 {
    (lo + hi * 256) as u16
}

fn i16_from_le(lo: u8, hi: u8) -> (v: i16)
    ensures
        v == le_i16(lo, hi),
{
    ((lo as u16) + (hi as u16) * 256) as i16
}

fn u16_from_le(lo: u8, hi: u8) -> (v: u16)
    ensures
        v == le_u16(lo, hi),
{
    (lo as u16) + (hi as u16) * 256
}

/// Look-up table 1 of the gas resistance formula, indexed by gas range.
pub open spec fn lookup_table_1(i: int) -> u32 {
    seq![
        2147483647u32, 2147483647, 2147483647, 2147483647, 2147483647, 2126008810,
        2147483647, 2130303777, 2147483647, 2147483647, 2143188679, 2136746228,
        2147483647, 2126008810, 2147483647, 2147483647,
    ][i]
}

/// Look-up table 2 of the gas resistance formula, indexed by gas range.
pub open spec fn lookup_table_2(i: int) -> u32 {
    seq![
        4096000000u32, 2048000000, 1024000000, 512000000, 255744255, 127110228, 64000000,
        32258064, 16016016, 8000000, 4000000, 2000000, 1000000, 500000, 250000, 125000,
    ][i]
}

fn lookup_1(i: usize) -> (v: u32)
    requires
        i < 16,
    ensures
        v == lookup_table_1(i as int),
{
    let t: [u32; 16] = [
        2147483647, 2147483647, 2147483647, 2147483647, 2147483647, 2126008810, 2147483647,
        2130303777, 2147483647, 2147483647, 2143188679, 2136746228, 2147483647, 2126008810,
        2147483647, 2147483647,
    ];
    assert(t@ =~= seq![
        2147483647u32, 2147483647, 2147483647, 2147483647, 2147483647, 2126008810,
        2147483647, 2130303777, 2147483647, 2147483647, 2143188679, 2136746228,
        2147483647, 2126008810, 2147483647, 2147483647,
    ]);
    t[i]
}

fn lookup_2(i: usize) -> (v: u32)
    requires
        i < 16,
    ensures
        v == lookup_table_2(i as int),
{
    let t: [u32; 16] = [
        4096000000, 2048000000, 1024000000, 512000000, 255744255, 127110228, 64000000,
        32258064, 16016016, 8000000, 4000000, 2000000, 1000000, 500000, 250000, 125000,
    ];
    assert(t@ =~= seq![
        4096000000u32, 2048000000, 1024000000, 512000000, 255744255, 127110228, 64000000,
        32258064, 16016016, 8000000, 4000000, 2000000, 1000000, 500000, 250000, 125000,
    ]);
    t[i]
}

/// Compensated temperature from raw ADC: `[temp_comp (centi-degrees), t_fine]`.
pub open spec fn temp_compensation(cal: CalibrationData, temp_adc: u32) -> Option<(i32, i32)> {
    match ((temp_adc as i32) >> 3u32).checked_sub((cal.par_t1 as i32) << 1u32) {
        None => None,
        Some(var1) => match var1.checked_mul(cal.par_t2 as i32) {
            None => None,
            Some(p2) => {
                let var2 = p2 >> 11u32;
                match (var1 >> 1u32).checked_mul(var1 >> 1u32) {
                    None => None,
                    Some(sq) => match (sq >> 12u32).checked_mul((cal.par_t3 as i32) << 4u32) {
                        None => None,
                        Some(p3) => {
                            let var3 = p3 >> 14u32;
                            match var2.checked_add(var3) {
                                None => None,
                                Some(t_fine) => match t_fine.checked_mul(5) {
                                    None => None,
                                    Some(t5) => match t5.checked_add(128) {
                                        None => None,
                                        Some(t) => Some((t >> 8u32, t_fine)),
                                    },
                                },
                            }
                        },
                    },
                }
            },
        },
    }
}

/// `t_fine` in exact arithmetic, for a 20-bit reading.
#[verifier::spinoff_prover]
proof fn lemma_t_fine_formula(cal: CalibrationData, temp_adc: u32)
    requires
        temp_adc < 0x10_0000,
        temp_compensation(cal, temp_adc) is Some,
    ensures
        ({
            let tf = temp_compensation(cal, temp_adc)->Some_0.1;
            let v1 = temp_adc as int / 8 - 2 * cal.par_t1;
            let h = v1 / 2;
            tf == v1 * cal.par_t2 / 2048 + (h * h / 4096) * (16 * cal.par_t3) / 16384
        }),
{
    let ai: i32 = temp_adc as i32;
    assert(ai == temp_adc);
    lemma_i32_shifts(ai);
    let a3: i32 = ai >> 3u32;
    assert(a3 == temp_adc as int / 8);
    let t1: i32 = cal.par_t1 as i32;
    lemma_i32_shifts(t1);
    assert(t1 << 1u32 == 2 * t1);
    let v1: i32 = (a3 - (t1 << 1u32)) as i32;
    let vi: int = temp_adc as int / 8 - 2 * cal.par_t1;
    assert(v1 == vi);
    let p2: i32 = (v1 * (cal.par_t2 as i32)) as i32;
    assert(p2 == vi * cal.par_t2);
    lemma_i32_shifts(p2);
    assert(p2 >> 11u32 == p2 / 2048);
    lemma_i32_shifts(v1);
    let h: i32 = v1 >> 1u32;
    assert(h == vi / 2);
    let sq: i32 = (h * h) as i32;
    lemma_i32_shifts(sq);
    assert(sq >> 12u32 == sq / 4096);
    let t3: i32 = cal.par_t3 as i32;
    lemma_i32_shifts(t3);
    assert(t3 << 4u32 == 16 * t3);
    let p3: i32 = ((sq >> 12u32) * (t3 << 4u32)) as i32;
    lemma_i32_shifts(p3);
    assert(p3 >> 14u32 == p3 / 16384);
    let tf = temp_compensation(cal, temp_adc)->Some_0.1;
    assert(tf == (p2 >> 11u32) + (p3 >> 14u32));
}

/// Bosch's temperature compensation, in exact arithmetic with division
/// rounding down: for a 20-bit reading, `t_fine` is
/// `v1 * T2 / 2048 + ((v1 / 2)^2 / 4096) * 16 * T3 / 16384` with
/// `v1 = adc / 8 - 2 * T1`, and the compensated temperature is `t_fine`
/// scaled to centi-degrees and rounded: `floor((5 * t_fine + 128) / 256)`. In particular it is negative
/// exactly when `5 * t_fine + 128` is, i.e. below zero degrees.
pub proof fn temperature_from_t_fine(cal: CalibrationData, temp_adc: u32)
    ensures
        temp_compensation(cal, temp_adc) matches Some((tc, tf)) ==> 256 * tc <= 5 * tf + 128 < 256
            * tc + 256,
        temp_compensation(cal, temp_adc) matches Some((tc, tf)) ==> (tc < 0 <==> 5 * tf + 128 < 0),
        temp_compensation(cal, temp_adc) matches Some((tc, tf)) ==> (temp_adc < 0x10_0000 ==> ({
            let v1 = temp_adc as int / 8 - 2 * cal.par_t1;
            let h = v1 / 2;
            tf == v1 * cal.par_t2 / 2048 + (h * h / 4096) * (16 * cal.par_t3) / 16384
        })),
{
    if let Some((tc, tf)) = temp_compensation(cal, temp_adc) {
        if temp_adc < 0x10_0000 {
            lemma_t_fine_formula(cal, temp_adc);
        }
        let t: i32 = (5 * tf + 128) as i32;
        assert(tc == t >> 8u32);
        assert(256 * (t >> 8u32) <= t && t < 256 * (t >> 8u32) + 256) by (bit_vector);
    }
}

/// Compensated relative humidity in milli-percent from raw ADC humidity and
/// the compensated temperature.
pub open spec fn humidity_compensation(cal: CalibrationData, hum_adc: u16, temp_comp: i32) -> Option<u32> {
    let tc = Some(temp_comp);
    let h1 = cal.par_h1 as i32;
    let h2 = cal.par_h2 as i32;
    let h3 = cal.par_h3 as i32;
    let h4 = cal.par_h4 as i32;
    let h5 = cal.par_h5 as i32;
    let h6 = cal.par_h6 as i32;
    let h7 = cal.par_h7 as i32;
    let var1 = sub_i32(
        sub_i32(Some(hum_adc as i32), Some(h1 << 4u32)),
        shr_i32(div_i32(mul_i32(tc, Some(h3)), Some(100)), 1),
    );
    let var2 = shr_i32(
        mul_i32(
            Some(h2),
            add_i32(
                add_i32(
                    div_i32(mul_i32(tc, Some(h4)), Some(100)),
                    div_i32(shr_i32(mul_i32(tc, div_i32(mul_i32(tc, Some(h5)), Some(100))), 6), Some(100)),
                ),
                Some(16384),
            ),
        ),
        10,
    );
    let var3 = mul_i32(var1, var2);
    let var4 = shr_i32(add_i32(Some(h6 << 7u32), div_i32(mul_i32(tc, Some(h7)), Some(100))), 4);
    let var5 = shr_i32(mul_i32(shr_i32(var3, 14), shr_i32(var3, 14)), 10);
    let var6 = shr_i32(mul_i32(var4, var5), 1);
    let hum = shr_i32(mul_i32(shr_i32(add_i32(var3, var6), 10), Some(1000)), 12);
    as_u32(hum)
}

/// Compensated pressure in Pa from raw ADC pressure and `t_fine`.
pub open spec fn pressure_compensation(cal: CalibrationData, press_adc: u32, t_fine: i32) -> Option<u32> {
    let p1 = cal.par_p1 as i32;
    let p2 = cal.par_p2 as i32;
    let p3 = cal.par_p3 as i32;
    let p4 = cal.par_p4 as i32;
    let p5 = cal.par_p5 as i32;
    let p6 = cal.par_p6 as i32;
    let p7 = cal.par_p7 as i32;
    let p8 = cal.par_p8 as i32;
    let p9 = cal.par_p9 as i32;
    let p10 = cal.par_p10 as i32;
    let v1 = sub_i32(shr_i32(Some(t_fine), 1), Some(64000));
    let q = shr_i32(v1, 2);
    let v2 = shr_i32(mul_i32(shr_i32(mul_i32(q, q), 11), Some(p6)), 2);
    let v2 = add_i32(v2, shl_i32(mul_i32(v1, Some(p5)), 1));
    let v2 = add_i32(shr_i32(v2, 2), Some(p4 << 16u32));
    let w1 = add_i32(
        shr_i32(mul_i32(shr_i32(mul_i32(q, q), 13), Some(p3 << 5u32)), 3),
        shr_i32(mul_i32(Some(p2), v1), 1),
    );
    let w1 = shr_i32(w1, 18);
    let w1 = shr_i32(mul_i32(add_i32(Some(32768), w1), Some(p1)), 15);
    let pc = mul_u32(
        as_u32(sub_i32(sub_i32(Some(1048576), Some(press_adc as i32)), shr_i32(v2, 12))),
        Some(3125),
    );
    let pc = match pc {
        None => None,
        Some(p) => if p >= 0x4000_0000 {
            shl_u32(div_u32(Some(p), as_u32(w1)), 1)
        } else {
            div_u32(Some(p << 1u32), as_u32(w1))
        },
    };
    let s3 = shr_u32(pc, 3);
    let var1_final = shr_i32(mul_i32(Some(p9), as_i32(shr_u32(mul_u32(s3, s3), 13))), 12);
    let var2_final = shr_i32(mul_i32(as_i32(shr_u32(pc, 2)), Some(p8)), 13);
    let c = as_i32(shr_u32(pc, 8));
    let var3_final = shr_i32(mul_i32(mul_i32(mul_i32(c, c), c), Some(p10)), 17);
    as_u32(
        add_i32(
            as_i32(pc),
            shr_i32(add_i32(add_i32(add_i32(var1_final, var2_final), var3_final), Some(p7 << 7u32)), 4),
        ),
    )
}

/// Arithmetic right shifts of an `i32` round toward minus infinity:
/// `x >> k` is `floor(x / 2^k)`; left shifts by one double a value that
/// fits; and the constant shifts of the pressure formula.
proof fn lemma_i32_shifts(x: i32)
    by (bit_vector)
    ensures
        (x >> 1u32) * 2 <= x < (x >> 1u32) * 2 + 2,
        (x >> 2u32) * 4 <= x < (x >> 2u32) * 4 + 4,
        (x >> 3u32) * 8 <= x < (x >> 3u32) * 8 + 8,
        (x >> 4u32) * 16 <= x < (x >> 4u32) * 16 + 16,
        (x >> 11u32) * 2048 <= x < (x >> 11u32) * 2048 + 2048,
        (x >> 12u32) * 4096 <= x < (x >> 12u32) * 4096 + 4096,
        (x >> 13u32) * 8192 <= x < (x >> 13u32) * 8192 + 8192,
        (x >> 14u32) * 16384 <= x < (x >> 14u32) * 16384 + 16384,
        (x >> 15u32) * 32768 <= x < (x >> 15u32) * 32768 + 32768,
        (x >> 17u32) * 131072 <= x < (x >> 17u32) * 131072 + 131072,
        (x >> 18u32) * 262144 <= x < (x >> 18u32) * 262144 + 262144,
        -0x4000_0000 <= x < 0x4000_0000 ==> x << 1u32 == 2 * x,
        -0x0800_0000 <= x < 0x0800_0000 ==> x << 4u32 == 16 * x,
        (7360i32 << 16u32) == 482344960i32,
        (88i32 << 5u32) == 2816i32,
        (52i32 << 7u32) == 6656i32,
{
}

/// Right shifts of a `u32` divide by a power of two (rounding down), and a
/// left shift by one doubles a value below 2^31.
proof fn lemma_u32_shifts(x: u32)
    by (bit_vector)
    ensures
        (x >> 2u32) * 4 <= x < (x >> 2u32) * 4 + 4,
        (x >> 3u32) * 8 <= x < (x >> 3u32) * 8 + 8,
        (x >> 8u32) * 256 <= x < (x >> 8u32) * 256 + 256,
        (x >> 13u32) * 8192 <= x < (x >> 13u32) * 8192 + 8192,
        x < 0x8000_0000 ==> x << 1u32 == 2 * x,
{
}

/// Pressure compensation is defined on the sensor's operating range: for a
/// sensor with the pressure coefficients (36330, -10531, 88, 7360, -150, 30,
/// 52, -3230, -2937, 30), every temperature from -40 to 85 degrees C
/// (`t_fine` from -204800 to 435200) and every raw pressure from 380000 to
/// 920000, no intermediate value overflows and no divisor is zero.
#[verifier::spinoff_prover]
#[verifier::rlimit(40)]
pub proof fn pressure_defined_in_operating_range(cal: CalibrationData, press_adc: u32, t_fine: i32)
    requires
        cal.par_p1 == 36330,
        cal.par_p2 == -10531,
        cal.par_p3 == 88,
        cal.par_p4 == 7360,
        cal.par_p5 == -150,
        cal.par_p6 == 30,
        cal.par_p7 == 52,
        cal.par_p8 == -3230,
        cal.par_p9 == -2937,
        cal.par_p10 == 30,
        -204800 <= t_fine <= 435200,
        380000 <= press_adc <= 920000,
    ensures
        pressure_compensation(cal, press_adc, t_fine) is Some,
{
    lemma_i32_shifts(t_fine);
    let h: i32 = t_fine >> 1u32;
    assert(-102400 <= h <= 217600);
    let v1: i32 = (h - 64000) as i32;
    assert(sub_i32(shr_i32(Some(t_fine), 1), Some(64000)) == Some(v1));
    lemma_i32_shifts(v1);
    let q: i32 = v1 >> 2u32;
    assert(-41600 <= q <= 38400);
    assert(0 <= q * q <= 1730560000) by (nonlinear_arith)
        requires
            -41600 <= q <= 38400,
    ;
    let qq: i32 = (q * q) as i32;
    assert(mul_i32(Some(q), Some(q)) == Some(qq));
    lemma_i32_shifts(qq);
    let a11: i32 = qq >> 11u32;
    assert(0 <= a11 <= 845000);
    let m6: i32 = (a11 * 30) as i32;
    lemma_i32_shifts(m6);
    let v2a: i32 = m6 >> 2u32;
    assert(0 <= v2a <= 6337500);
    let m5: i32 = (v1 * -150) as i32;
    assert(-23040000 <= m5 <= 24960000);
    lemma_i32_shifts(m5);
    let s5: i32 = m5 << 1u32;
    assert(s5 == 2 * m5);
    let v2b: i32 = (v2a + s5) as i32;
    lemma_i32_shifts(v2b);
    let v2c: i32 = v2b >> 2u32;
    assert(-11520000 <= v2c <= 14064375);
    let v2: i32 = (v2c + 482344960) as i32;
    assert(470824960 <= v2 <= 496409335);
    assert(add_i32(
        shr_i32(
            add_i32(
                shr_i32(mul_i32(shr_i32(mul_i32(Some(q), Some(q)), 11), Some(30)), 2),
                shl_i32(mul_i32(Some(v1), Some(-150i32)), 1),
            ),
            2,
        ),
        Some(482344960),
    ) == Some(v2));
    let b13: i32 = qq >> 13u32;
    assert(0 <= b13 <= 211250);
    let m3: i32 = (b13 * 2816) as i32;
    lemma_i32_shifts(m3);
    let t3: i32 = m3 >> 3u32;
    assert(0 <= t3 <= 74360000);
    let m2: i32 = (-10531 * v1) as i32;
    assert(-1617561600 <= m2 <= 1752358400);
    lemma_i32_shifts(m2);
    let t2: i32 = m2 >> 1u32;
    let w: i32 = (t3 + t2) as i32;
    assert(-808780800 <= w <= 950539200);
    lemma_i32_shifts(w);
    let w18: i32 = w >> 18u32;
    assert(-3086 <= w18 <= 3626);
    let sw: i32 = (32768 + w18) as i32;
    let mp: i32 = (sw * 36330) as i32;
    assert(1078347060 <= mp <= 1322194020);
    lemma_i32_shifts(mp);
    let w1: i32 = mp >> 15u32;
    assert(32908 <= w1 <= 40350);
    assert(shr_i32(
        mul_i32(
            add_i32(
                Some(32768),
                shr_i32(
                    add_i32(
                        shr_i32(mul_i32(shr_i32(mul_i32(Some(q), Some(q)), 13), Some(2816)), 3),
                        shr_i32(mul_i32(Some(-10531i32), Some(v1)), 1),
                    ),
                    18,
                ),
            ),
            Some(36330),
        ),
        15,
    ) == Some(w1));
    lemma_i32_shifts(v2);
    let v2s: i32 = v2 >> 12u32;
    assert(114947 <= v2s <= 121193);
    let x: i32 = (1048576 - press_adc - v2s) as i32;
    assert(7383 <= x <= 553629);
    assert(x as u32 == x);
    let pcr: u32 = (x * 3125) as u32;
    assert(23071875 <= pcr <= 1730090625);
    let w1u: u32 = w1 as u32;
    assert(w1u == w1);
    let pc: u32 = if pcr >= 0x4000_0000 {
        let dv: u32 = pcr / w1u;
        assert(26610 <= dv <= 52573) by (nonlinear_arith)
            requires
                0x4000_0000 <= pcr <= 1730090625,
                32908 <= w1u <= 40350,
                dv == pcr / w1u,
        ;
        lemma_u32_shifts(dv);
        dv << 1u32
    } else {
        lemma_u32_shifts(pcr);
        let dbl: u32 = pcr << 1u32;
        assert(dbl == 2 * pcr);
        let dv: u32 = dbl / w1u;
        assert(0 <= dv <= 65257) by (nonlinear_arith)
            requires
                dbl < 0x8000_0000,
                32908 <= w1u <= 40350,
                dv == dbl / w1u,
        ;
        dv
    };
    assert(pc <= 105146);
    lemma_u32_shifts(pc);
    let s3: u32 = pc >> 3u32;
    assert(s3 <= 13143);
    assert(s3 * s3 <= 172738449) by (nonlinear_arith)
        requires
            s3 <= 13143,
    ;
    let ss: u32 = (s3 * s3) as u32;
    lemma_u32_shifts(ss);
    let a13: u32 = ss >> 13u32;
    assert(a13 <= 21086);
    let m9: i32 = (-2937 * (a13 as i32)) as i32;
    assert(-61929582 <= m9 <= 0);
    lemma_i32_shifts(m9);
    let vf1: i32 = m9 >> 12u32;
    assert(-15120 <= vf1 <= 0);
    let p2r: u32 = pc >> 2u32;
    assert(p2r <= 26286);
    let m8: i32 = ((p2r as i32) * -3230) as i32;
    assert(-84903780 <= m8 <= 0);
    lemma_i32_shifts(m8);
    let vf2: i32 = m8 >> 13u32;
    assert(-10365 <= vf2 <= 0);
    let c: i32 = (pc >> 8u32) as i32;
    assert(0 <= c <= 410);
    assert(0 <= c * c <= 168100) by (nonlinear_arith)
        requires
            0 <= c <= 410,
    ;
    assert(0 <= c * c * c <= 68921000) by (nonlinear_arith)
        requires
            0 <= c <= 410,
    ;
    let cc: i32 = (c * c) as i32;
    let ccc: i32 = (cc * c) as i32;
    assert(ccc == c * c * c);
    let m10: i32 = (ccc * 30) as i32;
    lemma_i32_shifts(m10);
    let vf3: i32 = m10 >> 17u32;
    assert(0 <= vf3 <= 15774);
    let tot: i32 = (vf1 + vf2 + vf3 + 6656) as i32;
    lemma_i32_shifts(tot);
    let adj: i32 = tot >> 4u32;
    assert(-1177 <= adj <= 1402);
    assert((pc as i32) == pc);
}

/// Gas resistance in Ohms from the raw gas ADC value and gas range.
pub open spec fn gas_resistance(cal: CalibrationData, gas_adc: u16, gas_range: u8) -> Option<i32> {
    let rse = cal.range_switching_error as i64;
    let var1 = shr_i64(
        mul_i64(add_i64(Some(1340), mul_i64(Some(5), Some(rse))), Some(lookup_table_1(gas_range as int) as i64)),
        16,
    );
    let var2 = add_i64(sub_i64(Some((gas_adc as i64) << 15u32), Some(16777216)), var1);
    let res = div_i64(
        add_i64(shr_i64(mul_i64(Some(lookup_table_2(gas_range as int) as i64), var1), 9), shr_i64(var2, 1)),
        var2,
    );
    match res {
        Some(r) => Some(r as i32),
        None => None,
    }
}

/// Bounds of the look-up tables: every entry of table 1 lies between
/// 2126008810 and 2^31 - 1, and no entry of table 2 exceeds 4096000000.
pub proof fn lemma_lookup_bounds(i: int)
    requires
        0 <= i < 16,
    ensures
        2126008810 <= lookup_table_1(i) <= 2147483647,
        lookup_table_2(i) <= 4096000000,
{
}

/// Bosch's table 2 halves from one gas range to the next: it starts at
/// 4096000000 Ohm-counts for range 0, and each entry is twice the next to
/// within one percent, so it strictly decreases with the range.
pub proof fn lookup_table_2_halves(i: int)
    requires
        0 <= i < 15,
    ensures
        lookup_table_2(0) == 4096000000,
        99 * lookup_table_2(i) <= 200 * lookup_table_2(i + 1) <= 101 * lookup_table_2(i),
        lookup_table_2(i + 1) < lookup_table_2(i),
{
}

/// For every gas range the gas resistance formula is defined: no step
/// overflows and the divisor is at least 5.9 million.
pub proof fn lemma_gas_resistance_defined(cal: CalibrationData, gas_adc: u16, gas_range: u8)
    requires
        gas_range < 16,
    ensures
        gas_resistance(cal, gas_adc, gas_range) is Some,
{
    lemma_lookup_bounds(gas_range as int);
    let rse = cal.range_switching_error as i64;
    let l1 = lookup_table_1(gas_range as int) as i64;
    let l2 = lookup_table_2(gas_range as int) as i64;
    let a: i64 = (1340 + 5 * rse) as i64;
    assert(700 <= a <= 1975);
    let m: i64 = (a * l1) as i64;
    assert(1488206167000 <= a * l1 <= 4241280202825) by (nonlinear_arith)
        requires
            700 <= a <= 1975,
            2126008810 <= l1 <= 2147483647,
    ;
    let var1: i64 = m >> 16u32;
    assert(var1 == m / 65536) by (bit_vector)
        requires
            m >= 0,
            var1 == m >> 16u32,
    ;
    assert(22708219 <= var1 <= 64716800);
    let g: i64 = (gas_adc as i64) << 15u32;
    let ga: i64 = gas_adc as i64;
    assert(g == ga * 32768) by (bit_vector)
        requires
            0 <= ga <= 65535,
            g == ga << 15u32,
    ;
    let var2: i64 = (g - 16777216 + var1) as i64;
    assert(5931003 <= var2 <= 2195390464);
    assert(l2 * var1 <= 265080012800000000) by (nonlinear_arith)
        requires
            0 <= l2 <= 4096000000,
            0 <= var1 <= 64716800,
    ;
    assert(0 <= l2 * var1) by (nonlinear_arith)
        requires
            0 <= l2,
            0 <= var1,
    ;
    let p: i64 = (l2 * var1) as i64;
    let q: i64 = p >> 9u32;
    assert(q == p / 512) by (bit_vector)
        requires
            p >= 0,
            q == p >> 9u32,
    ;
    let h: i64 = var2 >> 1u32;
    assert(h == var2 / 2) by (bit_vector)
        requires
            var2 >= 0,
            h == var2 >> 1u32,
    ;
}

/// Right shifts of an `i64` round toward minus infinity, and a left shift
/// by 15 of a 16-bit value multiplies it by 32768.
proof fn lemma_i64_shifts(x: i64)
    by (bit_vector)
    ensures
        (x >> 16u32) * 65536 <= x < (x >> 16u32) * 65536 + 65536,
        (x >> 9u32) * 512 <= x < (x >> 9u32) * 512 + 512,
        (x >> 1u32) * 2 <= x < (x >> 1u32) * 2 + 2,
        0 <= x <= 65535 ==> x << 15u32 == x * 32768,
{
}

/// The ratio step of the range comparison: with table 2 halving and table 1
/// varying by about one percent, the heavier term of the next range is
/// below that of this one by more than rounding can make up.
proof fn lemma_gas_ratio(l2: int, l2p: int, v1: int, v1p: int, g: int)
    requires
        125000 <= l2p,
        200 * l2p <= 101 * l2,
        22708219 <= v1 <= 64716800,
        22708219 <= v1p <= 64716800,
        1000 * (v1p - v1) <= 11 * v1,
        1000 * (v1 - v1p) <= 11 * v1,
        -16777216 <= g,
        g + v1 >= 5931003,
        g + v1p >= 5931003,
    ensures
        l2p * v1p * (g + v1) + 767 * (g + v1p) <= l2 * v1 * (g + v1p),
{
    let v2 = g + v1;
    let v2p = g + v1p;
    let x = v1p * v2;
    let y = v1 * v2p;
    assert(x - y == g * (v1p - v1)) by (nonlinear_arith)
        requires
            x == v1p * v2,
            y == v1 * v2p,
            v2 == g + v1,
            v2p == g + v1p,
    ;
    if g >= 0 {
        if v1p >= v1 {
            assert(100 * (g * (v1p - v1)) <= 4 * y) by (nonlinear_arith)
                requires
                    0 <= g <= v2p,
                    0 <= 1000 * (v1p - v1) <= 11 * v1,
                    y == v1 * v2p,
                    v1 >= 0,
            ;
        } else {
            assert(g * (v1p - v1) <= 0) by (nonlinear_arith)
                requires
                    g >= 0,
                    v1p < v1,
            ;
        }
    } else {
        if v1p >= v1 {
            assert(g * (v1p - v1) <= 0) by (nonlinear_arith)
                requires
                    g < 0,
                    v1p >= v1,
            ;
        } else {
            assert(100 * (g * (v1p - v1)) <= 4 * y) by (nonlinear_arith)
                requires
                    -16777216 <= g < 0,
                    0 < 1000 * (v1 - v1p) <= 11 * v1,
                    y == v1 * v2p,
                    v2p >= 5931003,
                    v1 >= 0,
            ;
        }
    }
    assert(100 * x <= 104 * y);
    assert(x >= 0 && y >= 0) by (nonlinear_arith)
        requires
            x == v1p * v2,
            y == v1 * v2p,
            v1 >= 0,
            v1p >= 0,
            v2 >= 0,
            v2p >= 0,
    ;
    assert(20000 * (l2p * x) <= 10504 * (l2 * y)) by (nonlinear_arith)
        requires
            0 <= l2p,
            200 * l2p <= 101 * l2,
            0 <= x,
            100 * x <= 104 * y,
    ;
    assert(767 * v2p * 20000 <= 9496 * (l2 * y)) by (nonlinear_arith)
        requires
            l2 >= 125000,
            v1 >= 22708219,
            y == v1 * v2p,
            v2p >= 0,
    ;
    assert(l2p * v1p * (g + v1) == l2p * x) by (nonlinear_arith)
        requires
            x == v1p * v2,
            v2 == g + v1,
    ;
    assert(l2 * v1 * (g + v1p) == l2 * y) by (nonlinear_arith)
        requires
            y == v1 * v2p,
            v2p == g + v1p,
    ;
}

/// For a fixed gas reading, a higher gas range never gives a higher
/// resistance: the ranges split the sensor's span from high resistances
/// (range 0) to low ones (range 15).
pub proof fn gas_resistance_decreases_with_range(cal: CalibrationData, gas_adc: u16, r: u8)
    requires
        r < 15,
    ensures
        gas_resistance(cal, gas_adc, r) is Some,
        gas_resistance(cal, gas_adc, (r + 1) as u8) is Some,
        gas_resistance(cal, gas_adc, (r + 1) as u8)->Some_0 <= gas_resistance(cal, gas_adc, r)->Some_0,
{
    let rp: u8 = (r + 1) as u8;
    lemma_gas_resistance_defined(cal, gas_adc, r);
    lemma_gas_resistance_defined(cal, gas_adc, rp);
    lemma_lookup_bounds(r as int);
    lemma_lookup_bounds(rp as int);
    lookup_table_2_halves(r as int);
    let rse = cal.range_switching_error as i64;
    let a: i64 = (1340 + 5 * rse) as i64;
    assert(700 <= a <= 1975);
    let l1 = lookup_table_1(r as int) as i64;
    let l1p = lookup_table_1(rp as int) as i64;
    let l2 = lookup_table_2(r as int) as i64;
    let l2p = lookup_table_2(rp as int) as i64;
    assert(1488206167000 <= a * l1 <= 4241280202825) by (nonlinear_arith)
        requires
            700 <= a <= 1975,
            2126008810 <= l1 <= 2147483647,
    ;
    assert(1488206167000 <= a * l1p <= 4241280202825) by (nonlinear_arith)
        requires
            700 <= a <= 1975,
            2126008810 <= l1p <= 2147483647,
    ;
    assert(-1975 * 21474837 <= a * l1p - a * l1 <= 1975 * 21474837) by (nonlinear_arith)
        requires
            700 <= a <= 1975,
            2126008810 <= l1 <= 2147483647,
            2126008810 <= l1p <= 2147483647,
    ;
    assert(1000 * (a * l1p - a * l1) <= 10102 * (a * l1) / 1000 && 1000 * (a * l1 - a * l1p)
        <= 10102 * (a * l1) / 1000) by (nonlinear_arith)
        requires
            700 <= a <= 1975,
            2126008810 <= l1 <= 2147483647,
            2126008810 <= l1p <= 2147483647,
    ;
    let m: i64 = (a * l1) as i64;
    let mp: i64 = (a * l1p) as i64;
    lemma_i64_shifts(m);
    lemma_i64_shifts(mp);
    let v1: i64 = m >> 16u32;
    let v1p: i64 = mp >> 16u32;
    assert(22708219 <= v1 <= 64716800);
    assert(22708219 <= v1p <= 64716800);
    assert(1000 * (v1p - v1) <= 11 * v1);
    assert(1000 * (v1 - v1p) <= 11 * v1);
    let ga: i64 = gas_adc as i64;
    lemma_i64_shifts(ga);
    let g: i64 = ((ga << 15u32) - 16777216) as i64;
    assert(-16777216 <= g <= 2130706432);
    let v2: i64 = (g + v1) as i64;
    let v2p: i64 = (g + v1p) as i64;
    assert(l2 * v1 <= 265080012800000000) by (nonlinear_arith)
        requires
            0 <= l2 <= 4096000000,
            0 <= v1 <= 64716800,
    ;
    assert(l2p * v1p <= 265080012800000000) by (nonlinear_arith)
        requires
            0 <= l2p <= 4096000000,
            0 <= v1p <= 64716800,
    ;
    assert(0 <= l2 * v1 && 0 <= l2p * v1p) by (nonlinear_arith)
        requires
            0 <= l2,
            0 <= l2p,
            0 <= v1,
            0 <= v1p,
    ;
    let lv: i64 = (l2 * v1) as i64;
    let lvp: i64 = (l2p * v1p) as i64;
    lemma_i64_shifts(lv);
    lemma_i64_shifts(lvp);
    lemma_i64_shifts(v2);
    lemma_i64_shifts(v2p);
    let n: i64 = ((lv >> 9u32) + (v2 >> 1u32)) as i64;
    let np: i64 = ((lvp >> 9u32) + (v2p >> 1u32)) as i64;
    assert(gas_resistance(cal, gas_adc, r) == Some(((n as int) / (v2 as int)) as i32));
    assert(gas_resistance(cal, gas_adc, rp) == Some(((np as int) / (v2p as int)) as i32));
    lemma_gas_ratio(l2 as int, l2p as int, v1 as int, v1p as int, g as int);
    assert(1024 * np <= 2 * lvp + 512 * v2p);
    assert(1024 * n >= 2 * lv + 512 * v2 - 1534);
    assert(np * v2 <= n * v2p) by (nonlinear_arith)
        requires
            1024 * np <= 2 * lvp + 512 * v2p,
            1024 * n >= 2 * lv + 512 * v2 - 1534,
            lvp == l2p * v1p,
            lv == l2 * v1,
            l2p * v1p * v2 + 767 * v2p <= l2 * v1 * v2p,
            v2 > 0,
            v2p > 0,
    ;
    let q: int = (n as int) / (v2 as int);
    let qp: int = (np as int) / (v2p as int);
    assert(qp <= q) by (nonlinear_arith)
        requires
            np * v2 <= n * v2p,
            v2 > 0,
            v2p > 0,
            np >= 0,
            n >= 0,
            q == n / v2,
            qp == np / v2p,
    ;
    assert(n <= 2147483647 * v2) by (nonlinear_arith)
        requires
            1024 * n <= 2 * lv + 512 * v2 + 1024,
            lv <= 265080012800000000,
            v2 >= 5931003,
    ;
    assert(0 <= qp <= q <= 2147483647) by (nonlinear_arith)
        requires
            n <= 2147483647 * v2,
            v2 > 0,
            v2p > 0,
            np >= 0,
            n >= 0,
            q == n / v2,
            qp == np / v2p,
            qp <= q,
    ;
}

/// Heater resistance register value for a target temperature, given the
/// ambient temperature (both in degrees Celsius).
pub open spec fn res_heat_setting(cal: CalibrationData, target_temp_c: i32, amb_temp_c: i32) -> Option<u8> {
    let g1 = cal.par_g1 as i32;
    let g2 = cal.par_g2 as i32;
    let g3 = cal.par_g3 as i32;
    let var1 = shl_i32(div_i32(mul_i32(Some(amb_temp_c), Some(g3)), Some(10)), 8);
    let var2 = mul_i32(
        add_i32(Some(g1), Some(784)),
        div_i32(
            add_i32(
                div_i32(mul_i32(mul_i32(add_i32(Some(g2), Some(154009)), Some(target_temp_c)), Some(5)), Some(100)),
                Some(3276800),
            ),
            Some(10),
        ),
    );
    let var3 = add_i32(var1, shr_i32(var2, 1));
    let var4 = div_i32(var3, Some((cal.res_heat_range + 4) as i32));
    let var5 = add_i32(mul_i32(Some(131), Some(cal.res_heat_val as i32)), Some(65536));
    let x100 = mul_i32(sub_i32(div_i32(var4, var5), Some(250)), Some(34));
    match div_i32(add_i32(x100, Some(50)), Some(100)) {
        Some(x) => Some(x as u8),
        None => None,
    }
}

/// Mantissa and multiplier steps of a heating duration: the duration is
/// divided by four until it fits in six bits.
pub open spec fn gas_wait_steps(d: nat) -> (nat, nat)
    decreases d,
{
    if d <= 63 {
        (d, 0)
    } else {
        let (v, f) = gas_wait_steps(d / 4);
        (v, f + 1)
    }
}

/// The gas_wait register code of a heating duration in milliseconds:
/// bits 5:0 the mantissa, bits 7:6 the multiplier exponent (x1, x4, x16,
/// x64); durations from 4032 ms up saturate at 0xFF.
pub open spec fn gas_wait_code(duration_ms: u16) -> u8 {
    if duration_ms >= 4032 {
        0xFF
    } else {
        let (v, f) = gas_wait_steps(duration_ms as nat);
        (v + f * 64) as u8
    }
}

/// Four to the power `f`.
pub open spec fn pow4(f: nat) -> nat
    decreases f,
{
    if f == 0 {
        1
    } else {
        4 * pow4((f - 1) as nat)
    }
}

/// The steps of a duration below 4032 ms: at most three multiplier steps,
/// and the mantissa scaled back never overstates the duration nor falls a
/// whole step short of it.
#[verifier::spinoff_prover]
pub proof fn gas_wait_steps_bounds(d: nat)
    requires
        d < 4032,
    ensures
        gas_wait_steps(d).0 <= 63,
        gas_wait_steps(d).1 <= 3,
        gas_wait_steps(d).1 > 0 ==> gas_wait_steps(d).0 >= 16,
        gas_wait_steps(d).0 * pow4(gas_wait_steps(d).1) <= d,
        d < (gas_wait_steps(d).0 + 1) * pow4(gas_wait_steps(d).1),
    decreases d,
{
    if d > 63 {
        let x = d / 4;
        gas_wait_steps_bounds(x);
        let (v, f) = gas_wait_steps(x);
        let p = pow4(f);
        assert(pow4(f + 1) == 4 * p);
        assert(gas_wait_steps(d).0 == v && gas_wait_steps(d).1 == f + 1);
        assert(4 * x <= d < 4 * x + 4);
        assert(v * p <= x);
        assert(x + 1 <= (v + 1) * p);
        assert(v * (4 * p) <= d) by (nonlinear_arith)
            requires
                v * p <= x,
                4 * x <= d,
        ;
        assert(d < (v + 1) * (4 * p)) by (nonlinear_arith)
            requires
                x + 1 <= (v + 1) * p,
                d < 4 * x + 4,
        ;
        assert(pow4(0) == 1);
        assert(pow4(1) == 4);
        assert(pow4(2) == 16);
        assert(pow4(3) == 64);
        if f == 0 {
            assert(v == x);
            assert(v >= 16);
        }
        if f == 3 {
            assert(v * 64 <= x);
            assert(false) by (nonlinear_arith)
                requires
                    v >= 16,
                    v * 64 <= x,
                    x < 1008,
            ;
        }
    } else {
        assert(pow4(0) == 1);
    }
}

/// Whether bit 7 (new data) of the measurement status register is set.
pub open spec fn new_data(status: u8) -> bool {
    status >= 128
}

/// Raw 10-bit gas ADC value and 4-bit gas range from the gas_r MSB and LSB
/// registers.
pub open spec fn gas_raw(msb: u8, lsb: u8) -> (u16, u8) {
    ((msb * 4 + lsb / 64) as u16, lsb % 16)
}

/// Raw 20-bit temperature or pressure ADC value from its MSB, LSB and XLSB
/// registers.
pub open spec fn raw_20bit(b: Seq<u8>) -> u32 {
    (b[0] * 4096 + b[1] * 16 + b[2] / 16) as u32
}

/// Air quality class of a gas resistance: 0 clean (from 35000 Ohm), 1
/// polluted (5000 up to 35000 Ohm), 2 heavily polluted (below 5000 Ohm).
pub open spec fn air_quality_class(gas_res: i32) -> u8 {
    if gas_res >= 35000 {
        0
    } else if gas_res >= 5000 {
        1
    } else {
        2
    }
}

impl GSMode {
    /// The ctrl_meas register with its mode bits 1:0 set for this mode
    /// (0b01 forced, 0b00 sleep) and every other bit kept.
    pub fn ctrl_meas_value(self, current: u8) -> (v: u8)
        ensures
            v == current - current % 4 + (if self == GSMode::Forced {
                1int
            } else {
                0int
            }),
    {
        assert(current & !3u8 == current - current % 4) by (bit_vector);
        assert((current & !3u8) | 1u8 == current - current % 4 + 1) by (bit_vector);
        match self {
            GSMode::Forced => (current & !0b11) | 0b01,
            GSMode::Sleep => current & !0b11,
        }
    }
}

/// The ctrl_hum register with humidity oversampling (bits 2:0) set to x1
/// and every other bit kept.
pub fn ctrl_hum_value(current: u8) -> (v: u8)
    ensures
        v == current - current % 8 + 1,
{
    assert((current & !7u8) | 1u8 == current - current % 8 + 1) by (bit_vector);
    (current & !0b111) | 0b001
}

/// The ctrl_gas_1 register selecting heater set-point 0 (nb_conv, bits
/// 3:0) with gas measurement enabled (run_gas, bit 4), other bits kept.
pub fn ctrl_gas_1_value(current: u8) -> (v: u8)
    ensures
        v == current - current % 32 + 16,
{
    assert((current & !31u8) | 16u8 == current - current % 32 + 16) by (bit_vector);
    (current & !0b1_1111) | 0b1_0000
}

/// Whether the measurement status register reports new data.
pub fn measurement_ready(status: u8) -> (r: bool)
    ensures
        r == new_data(status),
{
    assert((status & 0x80u8 != 0) == (status >= 128)) by (bit_vector);
    (status & 0b1000_0000) != 0
}

/// Raw gas ADC value and gas range from the gas_r MSB and LSB registers.
pub fn gas_adc_from_registers(msb: u8, lsb: u8) -> (r: (u16, u8))
    ensures
        r == gas_raw(msb, lsb),
{
    let adc: u16 = ((msb as u16) << 2) | ((lsb & 0b1100_0000) as u16 >> 6);
    assert((((msb as u16) << 2u16) | (((lsb & 0xC0u8) as u16) >> 6u16)) == msb * 4 + lsb / 64)
        by (bit_vector);
    let range = lsb & 0b0000_1111;
    assert(lsb & 0x0F == lsb % 16) by (bit_vector);
    (adc, range)
}

/// Raw temperature or pressure ADC value from its three registers, most
/// significant first.
pub fn adc_20bit_from_registers(b: &[u8; 3]) -> (v: u32)
    ensures
        v == raw_20bit(b@),
{
    let b0 = b[0];
    let b1 = b[1];
    let b2 = b[2];
    assert((((b0 as u32) << 12u32) | ((b1 as u32) << 4u32) | ((b2 as u32) >> 4u32)) == b0 * 4096
        + b1 * 16 + b2 / 16) by (bit_vector);
    ((b0 as u32) << 12) | ((b1 as u32) << 4) | ((b2 as u32) >> 4)
}

/// Raw humidity ADC value from its MSB and LSB registers.
pub fn hum_adc_from_registers(msb: u8, lsb: u8) -> (v: u16)
    ensures
        v == msb * 256 + lsb,
{
    assert((((msb as u16) << 8u16) | (lsb as u16)) == msb * 256 + lsb) by (bit_vector);
    ((msb as u16) << 8) | (lsb as u16)
}

/// Air quality class of a gas resistance.
pub fn air_quality_index(gas_res: i32) -> (q: u8)
    ensures
        q == air_quality_class(gas_res),
{
    let mut air_quality: u8 = 0;
    if gas_res >= 35000 {
        air_quality = 0;
    } else if 5000 <= gas_res && gas_res < 35000 {
        air_quality = 1;
    } else if gas_res < 5000 {
        air_quality = 2;
    }
    air_quality
}

/// Encode a heating duration in milliseconds into the gas_wait register.
/// The largest representable duration is 63 * 64 = 4032 ms.
pub fn encode_gas_wait(duration_ms: u16) -> (code: u8)
    ensures
        code == gas_wait_code(duration_ms),
{
    if duration_ms >= 0xFC0 {
        0xFF
    } else {
        let mut dur = duration_ms;
        let mut factor: u8 = 0;
        while dur > 0x3F
            invariant
                gas_wait_steps(duration_ms as nat).0 == gas_wait_steps(dur as nat).0,
                gas_wait_steps(duration_ms as nat).1 == gas_wait_steps(dur as nat).1 + factor,
                (factor == 0 && dur < 4032) || (factor == 1 && dur < 1008) || (factor == 2 && dur
                    < 252) || (factor == 3 && dur < 63),
            decreases dur,
        {
            dur = dur / 4;
            factor = factor + 1;
        }
        dur as u8 + (factor * 64)
    }
}

impl CalibrationData {
    /// Unpack the calibration registers: `heat` from 0x00 (heater value,
    /// heater range in bits 5:4 of byte 2, range switching error in bits 7:4
    /// of byte 3), `c1` from 0x89..=0xA1 and `c2` from 0xE1..=0xF0.
    pub fn from_registers(heat: &[u8; 4], c1: &[u8; 25], c2: &[u8; 16]) -> (cal: CalibrationData)
        ensures
            cal.res_heat_val == heat@[0] as i8,
            cal.res_heat_range == (heat@[2] / 16) % 4,
            cal.range_switching_error == (if heat@[3] >= 128 {
                (heat@[3] / 16) as int - 16
            } else {
                (heat@[3] / 16) as int
            }),
            cal.par_t1 == le_i16(c2@[8], c2@[9]),
            cal.par_t2 == le_i16(c1@[1], c1@[2]),
            cal.par_t3 == c1@[3] as i8,
            cal.par_p1 == le_u16(c1@[5], c1@[6]),
            cal.par_p2 == le_i16(c1@[7], c1@[8]),
            cal.par_p3 == c1@[9] as i8,
            cal.par_p4 == le_i16(c1@[11], c1@[12]),
            cal.par_p5 == le_i16(c1@[13], c1@[14]),
            cal.par_p7 == c1@[15] as i8,
            cal.par_p6 == c1@[16] as i8,
            cal.par_p8 == le_i16(c1@[19], c1@[20]),
            cal.par_p9 == le_i16(c1@[21], c1@[22]),
            cal.par_p10 == c1@[23] as i8,
            cal.par_h1 == c2@[2] * 16 + c2@[1] % 16,
            cal.par_h2 == c2@[0] * 16 + c2@[1] / 16,
            cal.par_h3 == c2@[3] as i8,
            cal.par_h4 == c2@[4] as i8,
            cal.par_h5 == c2@[5] as i8,
            cal.par_h6 == c2@[6],
            cal.par_h7 == c2@[7] as i8,
            cal.par_g2 == le_i16(c2@[10], c2@[11]),
            cal.par_g1 == c2@[12] as i8,
            cal.par_g3 == c2@[13] as i8,
    {
        let h0 = heat[0];
        let h2 = heat[2];
        let h3 = heat[3];
        let res_heat_val = h0 as i8;
        let res_heat_range = (h2 & 0x30) >> 4;
        assert((h2 & 0x30) >> 4 == (h2 / 16) % 4) by (bit_vector);
        let hi_nibble = h3 & 0xF0;
        assert(h3 & 0xF0 == h3 / 16 * 16) by (bit_vector);
        assert((hi_nibble as i8) as int == if h3 >= 128 {
            (h3 / 16 * 16) as int - 256
        } else {
            (h3 / 16 * 16) as int
        }) by (bit_vector)
            requires
                hi_nibble == h3 / 16 * 16,
        ;
        let range_switching_error = match (hi_nibble as i8).checked_div(16) {
            Some(v) => v,
            None => 0,
        };
        let b0 = c2[0];
        let b1 = c2[1];
        let b2 = c2[2];
        let par_h1 = (((b2 as i16) << 4) | ((b1 as i16) & 0x0F)) as u16;
        assert((((b2 as i16) << 4u16) | ((b1 as i16) & 0x0F)) as u16 == b2 * 16 + b1 % 16)
            by (bit_vector);
        let par_h2 = ((b0 as i16) << 4) | ((b1 as i16) >> 4);
        assert(((b0 as i16) << 4u16) | ((b1 as i16) >> 4u16) == b0 * 16 + b1 / 16)
            by (bit_vector);
        CalibrationData {
            par_t1: i16_from_le(c2[8], c2[9]),
            par_t2: i16_from_le(c1[1], c1[2]),
            par_t3: c1[3] as i8,
            par_p1: u16_from_le(c1[5], c1[6]),
            par_p2: i16_from_le(c1[7], c1[8]),
            par_p3: c1[9] as i8,
            par_p4: i16_from_le(c1[11], c1[12]),
            par_p5: i16_from_le(c1[13], c1[14]),
            par_p6: c1[16] as i8,
            par_p7: c1[15] as i8,
            par_p8: i16_from_le(c1[19], c1[20]),
            par_p9: i16_from_le(c1[21], c1[22]),
            par_p10: c1[23] as i8,
            par_h1,
            par_h2,
            par_h3: c2[3] as i8,
            par_h4: c2[4] as i8,
            par_h5: c2[5] as i8,
            par_h6: c2[6],
            par_h7: c2[7] as i8,
            par_g1: c2[12] as i8,
            par_g2: i16_from_le(c2[10], c2[11]),
            par_g3: c2[13] as i8,
            res_heat_range,
            res_heat_val,
            range_switching_error,
        }
    }

    /// Compensated temperature, `[temp_comp, t_fine]`, or `None` where an
    /// intermediate value would overflow.
    pub fn try_calc_temp(&self, temp_adc: u32) -> (r: Option<[i32; 2]>)
        ensures
            match (r, temp_compensation(*self, temp_adc)) {
                (Some(a), Some((t, f))) => a@ == seq![t, f],
                (None, None) => true,
                _ => false,
            },
    {
        let var1 = match ((temp_adc as i32) >> 3).checked_sub((self.par_t1 as i32) << 1) {
            Some(v) => v,
            None => return None,
        };
        let p2 = match var1.checked_mul(self.par_t2 as i32) {
            Some(v) => v,
            None => return None,
        };
        let var2 = p2 >> 11;
        let sq = match (var1 >> 1).checked_mul(var1 >> 1) {
            Some(v) => v,
            None => return None,
        };
        let p3 = match (sq >> 12).checked_mul((self.par_t3 as i32) << 4) {
            Some(v) => v,
            None => return None,
        };
        let var3 = p3 >> 14;
        let t_fine = match var2.checked_add(var3) {
            Some(v) => v,
            None => return None,
        };
        let t5 = match t_fine.checked_mul(5) {
            Some(v) => v,
            None => return None,
        };
        let t = match t5.checked_add(128) {
            Some(v) => v,
            None => return None,
        };
        let a: [i32; 2] = [t >> 8, t_fine];
        assert(a@ =~= seq![t >> 8u32, t_fine]);
        Some(a)
    }

    /// Compensated temperature, `[temp_comp (centi-degrees Celsius), t_fine]`,
    /// for inputs on which no intermediate value overflows.
    pub fn calc_temp(&self, temp_adc: u32) -> (r: [i32; 2])
        requires
            temp_compensation(*self, temp_adc) is Some,
        ensures
            r@ == seq![
                temp_compensation(*self, temp_adc).unwrap().0,
                temp_compensation(*self, temp_adc).unwrap().1,
            ],
    {
        match self.try_calc_temp(temp_adc) {
            Some(a) => a,
            None => [0, 0],
        }
    }

    /// Compensated humidity in milli-percent, or `None` where an
    /// intermediate value would overflow.
    pub fn try_calc_humidity(&self, hum_adc: u16, temp_comp: i32) -> (r: Option<u32>)
        ensures
            r == humidity_compensation(*self, hum_adc, temp_comp),
    {
        let tc = Some(temp_comp);
        let h1 = self.par_h1 as i32;
        let h2 = self.par_h2 as i32;
        let h3 = self.par_h3 as i32;
        let h4 = self.par_h4 as i32;
        let h5 = self.par_h5 as i32;
        let h6 = self.par_h6 as i32;
        let h7 = self.par_h7 as i32;
        let var1 = ck_sub_i32(
            ck_sub_i32(Some(hum_adc as i32), Some(h1 << 4u32)),
            ck_shr_i32(ck_div_i32(ck_mul_i32(tc, Some(h3)), Some(100)), 1),
        );
        let var2 = ck_shr_i32(
            ck_mul_i32(
                Some(h2),
                ck_add_i32(
                    ck_add_i32(
                        ck_div_i32(ck_mul_i32(tc, Some(h4)), Some(100)),
                        ck_div_i32(
                            ck_shr_i32(ck_mul_i32(tc, ck_div_i32(ck_mul_i32(tc, Some(h5)), Some(100))), 6),
                            Some(100),
                        ),
                    ),
                    Some(16384),
                ),
            ),
            10,
        );
        let var3 = ck_mul_i32(var1, var2);
        let var4 = ck_shr_i32(ck_add_i32(Some(h6 << 7u32), ck_div_i32(ck_mul_i32(tc, Some(h7)), Some(100))), 4);
        let var5 = ck_shr_i32(ck_mul_i32(ck_shr_i32(var3, 14), ck_shr_i32(var3, 14)), 10);
        let var6 = ck_shr_i32(ck_mul_i32(var4, var5), 1);
        let hum = ck_shr_i32(ck_mul_i32(ck_shr_i32(ck_add_i32(var3, var6), 10), Some(1000)), 12);
        ck_as_u32(hum)
    }

    /// Compensated humidity in milli-percent, for inputs on which no
    /// intermediate value overflows.
    pub fn calc_humidity(&self, hum_adc: u16, temp_comp: i32) -> (r: u32)
        requires
            humidity_compensation(*self, hum_adc, temp_comp) is Some,
        ensures
            Some(r) == humidity_compensation(*self, hum_adc, temp_comp),
    {
        match self.try_calc_humidity(hum_adc, temp_comp) {
            Some(h) => h,
            None => 0,
        }
    }

    /// Compensated pressure in Pa, or `None` where an intermediate value
    /// would overflow or a divisor is zero.
    pub fn try_calc_pressure(&self, press_adc: u32, t_fine: i32) -> (r: Option<u32>)
        ensures
            r == pressure_compensation(*self, press_adc, t_fine),
    {
        let p1 = self.par_p1 as i32;
        let p2 = self.par_p2 as i32;
        let p3 = self.par_p3 as i32;
        let p4 = self.par_p4 as i32;
        let p5 = self.par_p5 as i32;
        let p6 = self.par_p6 as i32;
        let p7 = self.par_p7 as i32;
        let p8 = self.par_p8 as i32;
        let p9 = self.par_p9 as i32;
        let p10 = self.par_p10 as i32;
        let v1 = ck_sub_i32(ck_shr_i32(Some(t_fine), 1), Some(64000));
        let q = ck_shr_i32(v1, 2);
        let v2 = ck_shr_i32(ck_mul_i32(ck_shr_i32(ck_mul_i32(q, q), 11), Some(p6)), 2);
        let v2 = ck_add_i32(v2, ck_shl_i32(ck_mul_i32(v1, Some(p5)), 1));
        let v2 = ck_add_i32(ck_shr_i32(v2, 2), Some(p4 << 16u32));
        let w1 = ck_add_i32(
            ck_shr_i32(ck_mul_i32(ck_shr_i32(ck_mul_i32(q, q), 13), Some(p3 << 5u32)), 3),
            ck_shr_i32(ck_mul_i32(Some(p2), v1), 1),
        );
        let w1 = ck_shr_i32(w1, 18);
        let w1 = ck_shr_i32(ck_mul_i32(ck_add_i32(Some(32768), w1), Some(p1)), 15);
        let pc = ck_mul_u32(
            ck_as_u32(ck_sub_i32(ck_sub_i32(Some(1048576), Some(press_adc as i32)), ck_shr_i32(v2, 12))),
            Some(3125),
        );
        let pc = match pc {
            None => None,
            Some(p) => if p >= 0x4000_0000 {
                ck_shl_u32(ck_div_u32(Some(p), ck_as_u32(w1)), 1)
            } else {
                ck_div_u32(Some(p << 1u32), ck_as_u32(w1))
            },
        };
        let s3 = ck_shr_u32(pc, 3);
        let var1_final = ck_shr_i32(ck_mul_i32(Some(p9), ck_as_i32(ck_shr_u32(ck_mul_u32(s3, s3), 13))), 12);
        let var2_final = ck_shr_i32(ck_mul_i32(ck_as_i32(ck_shr_u32(pc, 2)), Some(p8)), 13);
        let c = ck_as_i32(ck_shr_u32(pc, 8));
        let var3_final = ck_shr_i32(ck_mul_i32(ck_mul_i32(ck_mul_i32(c, c), c), Some(p10)), 17);
        ck_as_u32(
            ck_add_i32(
                ck_as_i32(pc),
                ck_shr_i32(
                    ck_add_i32(ck_add_i32(ck_add_i32(var1_final, var2_final), var3_final), Some(p7 << 7u32)),
                    4,
                ),
            ),
        )
    }

    /// Compensated pressure in Pa, for inputs on which no intermediate value
    /// overflows and no divisor is zero.
    pub fn calc_pressure(&self, press_adc: u32, t_fine: i32) -> (r: u32)
        requires
            pressure_compensation(*self, press_adc, t_fine) is Some,
        ensures
            Some(r) == pressure_compensation(*self, press_adc, t_fine),
    {
        match self.try_calc_pressure(press_adc, t_fine) {
            Some(p) => p,
            None => 0,
        }
    }

    /// Gas resistance in Ohms; for a gas range below 16 it is always `Some`.
    pub fn try_calc_gas_resistance(&self, gas_adc: u16, gas_range: u8) -> (r: Option<i32>)
        requires
            gas_range < 16,
        ensures
            r == gas_resistance(*self, gas_adc, gas_range),
            r is Some,
    {
        proof {
            lemma_gas_resistance_defined(*self, gas_adc, gas_range);
        }
        let rse = self.range_switching_error as i64;
        let l1 = lookup_1(gas_range as usize) as i64;
        let l2 = lookup_2(gas_range as usize) as i64;
        let var1 = ck_shr_i64(ck_mul_i64(ck_add_i64(Some(1340), ck_mul_i64(Some(5), Some(rse))), Some(l1)), 16);
        let var2 = ck_add_i64(ck_sub_i64(Some((gas_adc as i64) << 15u32), Some(16777216)), var1);
        let res = ck_div_i64(
            ck_add_i64(ck_shr_i64(ck_mul_i64(Some(l2), var1), 9), ck_shr_i64(var2, 1)),
            var2,
        );
        match res {
            Some(r) => Some(r as i32),
            None => None,
        }
    }

    /// Gas resistance in Ohms, for a gas range below 16 (the formula is
    /// defined on every such input).
    pub fn calc_gas_resistance(&self, gas_adc: u16, gas_range: u8) -> (r: i32)
        requires
            gas_range < 16,
        ensures
            Some(r) == gas_resistance(*self, gas_adc, gas_range),
    {
        proof {
            lemma_gas_resistance_defined(*self, gas_adc, gas_range);
        }
        match self.try_calc_gas_resistance(gas_adc, gas_range) {
            Some(g) => g,
            None => 0,
        }
    }

    /// Heater resistance register value, or `None` where an intermediate
    /// value would overflow.
    pub fn try_calc_res_heat(&self, target_temp_c: i32, amb_temp_c: i32) -> (r: Option<u8>)
        ensures
            r == res_heat_setting(*self, target_temp_c, amb_temp_c),
    {
        let g1 = self.par_g1 as i32;
        let g2 = self.par_g2 as i32;
        let g3 = self.par_g3 as i32;
        let var1 = ck_shl_i32(ck_div_i32(ck_mul_i32(Some(amb_temp_c), Some(g3)), Some(10)), 8);
        let var2 = ck_mul_i32(
            ck_add_i32(Some(g1), Some(784)),
            ck_div_i32(
                ck_add_i32(
                    ck_div_i32(
                        ck_mul_i32(ck_mul_i32(ck_add_i32(Some(g2), Some(154009)), Some(target_temp_c)), Some(5)),
                        Some(100),
                    ),
                    Some(3276800),
                ),
                Some(10),
            ),
        );
        let var3 = ck_add_i32(var1, ck_shr_i32(var2, 1));
        let var4 = ck_div_i32(var3, Some(self.res_heat_range as i32 + 4));
        let var5 = ck_add_i32(ck_mul_i32(Some(131), Some(self.res_heat_val as i32)), Some(65536));
        let x100 = ck_mul_i32(ck_sub_i32(ck_div_i32(var4, var5), Some(250)), Some(34));
        match ck_div_i32(ck_add_i32(x100, Some(50)), Some(100)) {
            Some(x) => Some(x as u8),
            None => None,
        }
    }

    /// Heater resistance register value for a target temperature at an
    /// ambient temperature, for inputs on which no intermediate value
    /// overflows; the result keeps the low byte, as a register does.
    pub fn calc_res_heat(&self, target_temp_c: i32, amb_temp_c: i32) -> (r: u8)
        requires
            res_heat_setting(*self, target_temp_c, amb_temp_c) is Some,
        ensures
            Some(r) == res_heat_setting(*self, target_temp_c, amb_temp_c),
    {
        match self.try_calc_res_heat(target_temp_c, amb_temp_c) {
            Some(x) => x,
            None => 0,
        }
    }
}

} // verus!

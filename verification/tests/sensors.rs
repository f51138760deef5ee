use hazard_sensor::crc::modbus_crc16;
use hazard_sensor::sensors::adc_sensors::{
    adc_mv_from_raw, init_config_bytes, wind_speed_kmh, SensorSelect,
};
use hazard_sensor::sensors::gas_sensor::{
    adc_20bit_from_registers, air_quality_index, ctrl_gas_1_value, ctrl_hum_value,
    encode_gas_wait, gas_adc_from_registers, hum_adc_from_registers, measurement_ready,
    CalibrationData, GSMode, Registers,
};
use hazard_sensor::sensors::tipping_bucket::{
    counts_since_baseline, cumulative_from_bytes, is_expected_device, pid_vid_from_block,
};
use hazard_sensor::sensors::watchdog::{initial_window, WatchdogWindow};

fn calibration() -> CalibrationData {
    CalibrationData {
        par_t1: 26311,
        par_t2: 26453,
        par_t3: 3,
        par_p1: 36330,
        par_p2: -10531,
        par_p3: 88,
        par_p4: 7360,
        par_p5: -150,
        par_p6: 30,
        par_p7: 52,
        par_p8: -3230,
        par_p9: -2937,
        par_p10: 30,
        par_h1: 768,
        par_h2: 1016,
        par_h3: 0,
        par_h4: 45,
        par_h5: 20,
        par_h6: 120,
        par_h7: -100,
        par_g1: -28,
        par_g2: -11260,
        par_g3: 18,
        res_heat_range: 1,
        res_heat_val: 44,
        range_switching_error: -1,
    }
}

#[test]
fn gas_register_addresses() {
    assert_eq!(Registers::CtrlMeas.addr(), 0x74);
    assert_eq!(Registers::MeasStatus0.addr(), 0x1D);
    assert_eq!(Registers::GasWaitX.addr(), 0x64);
}

#[test]
fn temperature_compensation() {
    assert_eq!(calibration().calc_temp(501876), [2551, 130629]);
    assert_eq!(calibration().try_calc_temp(501876), Some([2551, 130629]));
}

#[test]
fn temperature_overflow_is_none() {
    let mut c = calibration();
    c.par_t1 = -32768;
    assert_eq!(c.try_calc_temp(0x7FFF_FFFF), None);
}

#[test]
fn humidity_compensation() {
    assert_eq!(calibration().calc_humidity(25000, 2551), 70681);
}

#[test]
fn pressure_compensation() {
    assert_eq!(calibration().calc_pressure(390000, 130629), 92905);
}

#[test]
fn pressure_with_zero_divisor_is_none() {
    let mut c = calibration();
    c.par_p1 = 0;
    assert_eq!(c.try_calc_pressure(390000, 130629), None);
}

#[test]
fn gas_resistance() {
    assert_eq!(calibration().calc_gas_resistance(520, 5), 246768);
    assert_eq!(calibration().calc_gas_resistance(300, 10), 9291);
}

#[test]
fn heater_setting() {
    assert_eq!(calibration().calc_res_heat(320, 25), 115);
}

#[test]
fn gas_wait_encoding() {
    assert_eq!(encode_gas_wait(0), 0);
    assert_eq!(encode_gas_wait(63), 63);
    assert_eq!(encode_gas_wait(64), 80);
    assert_eq!(encode_gas_wait(100), 89);
    assert_eq!(encode_gas_wait(150), 101);
    assert_eq!(encode_gas_wait(4031), 254);
    assert_eq!(encode_gas_wait(4032), 0xFF);
    assert_eq!(encode_gas_wait(u16::MAX), 0xFF);
}

#[test]
fn register_values() {
    assert_eq!(ctrl_hum_value(0b1111_1110), 0b1111_1001);
    assert_eq!(ctrl_gas_1_value(0b1110_1011), 0b1111_0000);
    assert_eq!(GSMode::Forced.ctrl_meas_value(0b0101_0110), 0b0101_0101);
    assert_eq!(GSMode::Sleep.ctrl_meas_value(0b0101_0111), 0b0101_0100);
    assert!(measurement_ready(0x80));
    assert!(!measurement_ready(0x7F));
}

#[test]
fn raw_readings_from_registers() {
    assert_eq!(gas_adc_from_registers(0x82, 0xC5), (0x20B, 5));
    assert_eq!(adc_20bit_from_registers(&[0x7A, 0x87, 0x40]), 501876);
    assert_eq!(hum_adc_from_registers(0x61, 0xA8), 25000);
}

#[test]
fn air_quality_classes() {
    assert_eq!(air_quality_index(35000), 0);
    assert_eq!(air_quality_index(34999), 1);
    assert_eq!(air_quality_index(5000), 1);
    assert_eq!(air_quality_index(4999), 2);
    assert_eq!(air_quality_index(-1), 2);
}

#[test]
fn calibration_from_registers() {
    let heat = [0x2C, 0x00, 0x1A, 0xF3];
    let mut c1 = [0u8; 25];
    c1[1] = 0x55;
    c1[2] = 0x67;
    c1[3] = 0x03;
    c1[5] = 0xEA;
    c1[6] = 0x8D;
    c1[16] = 0x1E;
    c1[15] = 0x34;
    let mut c2 = [0u8; 16];
    c2[0] = 0x3F;
    c2[1] = 0xA5;
    c2[2] = 0x30;
    c2[8] = 0xC7;
    c2[9] = 0x66;
    c2[12] = 0xE4;
    let cal = CalibrationData::from_registers(&heat, &c1, &c2);
    assert_eq!(cal.res_heat_val, 44);
    assert_eq!(cal.res_heat_range, 1);
    assert_eq!(cal.range_switching_error, -1);
    assert_eq!(cal.par_t1, 26311);
    assert_eq!(cal.par_t2, 26453);
    assert_eq!(cal.par_t3, 3);
    assert_eq!(cal.par_p1, 36330);
    assert_eq!(cal.par_p6, 30);
    assert_eq!(cal.par_p7, 52);
    assert_eq!(cal.par_h1, 0x305);
    assert_eq!(cal.par_h2, 0x3FA);
    assert_eq!(cal.par_g1, -28);
}

#[test]
fn adc_conversion_and_inputs() {
    assert_eq!(adc_mv_from_raw([0x7F, 0xFF]), 6143);
    assert_eq!(adc_mv_from_raw([0x80, 0x00]), 0);
    assert_eq!(adc_mv_from_raw([0x0A, 0xAB]), 512);
    assert_eq!(wind_speed_kmh(2000), 200);
    assert_eq!(wind_speed_kmh(1234), 123);
    assert_eq!(SensorSelect::SoilMoisture.config_bytes(), [0b0100_0001, 0b1000_0011]);
    assert_eq!(SensorSelect::WindSpeed.config_bytes(), [0b0101_0001, 0b1000_0011]);
    assert_eq!(SensorSelect::Battery.config_bytes(), [0b0110_0001, 0b1000_0011]);
    assert_eq!(init_config_bytes(), [0b0100_0001, 0b1000_0011]);
    assert_eq!(SensorSelect::SoilMoisture.trigger_one_shot_bytes(), [0b1100_0001, 0b1000_0011]);
    assert_eq!(SensorSelect::WindSpeed.trigger_one_shot_bytes(), [0b1101_0001, 0b1000_0011]);
    assert_eq!(SensorSelect::Battery.trigger_one_shot_bytes(), [0b1110_0001, 0b1000_0011]);
}

#[test]
fn rainfall_sensor_identity_and_counts() {
    assert_eq!(pid_vid_from_block(&[0xC0, 0x00, 0x43, 0x73]), (0x100C0, 0x3343));
    assert!(is_expected_device(0x100C0, 0x3343));
    assert!(!is_expected_device(0x100C0, 0x3344));
    assert_eq!(cumulative_from_bytes(&[0x78, 0x56, 0x34, 0x12]), 0x1234_5678);
    assert_eq!(counts_since_baseline(5000, 1000), 4000);
    assert_eq!(counts_since_baseline(10, u32::MAX - 9), 20);
}

#[test]
fn watchdog_window_pins() {
    assert_eq!(initial_window(), WatchdogWindow::Disabled);
    assert!(!WatchdogWindow::Disabled.set1_high());
    assert!(WatchdogWindow::Ratio1To2.set1_high());
}

#[test]
fn modbus_crc_check_value() {
    assert_eq!(modbus_crc16(b"123456789"), 0x4B37);
    assert_eq!(modbus_crc16(b""), 0xFFFF);
    assert_eq!(modbus_crc16(&[1, 3, 0, 0, 0, 1]), 0x0A84);
}

pub mod adc_sensors;
pub mod checked;
pub mod gas_sensor;
pub mod tipping_bucket;
pub mod watchdog;

pub mod crc;
pub mod network;
pub mod sensors;

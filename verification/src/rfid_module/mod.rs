pub mod crc;
pub mod rfid_constants;
pub mod rfid_module;
pub mod laws;

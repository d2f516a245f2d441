//! Protocol logic for the ThingMagic/SparkFun simultaneous RFID reader module:
//! command framing, the module's CRC, response classification, the byte-level
//! receive state machine and the decoding of tag records.
//!
//! The serial port, timing and printing live with the caller: every operation
//! here works on the reader's message buffer and hands back what has to be
//! transmitted or what was decoded.

pub mod rfid_module;

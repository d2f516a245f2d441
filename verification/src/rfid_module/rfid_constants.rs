//! Opcodes, limits and the small enumerations of the reader protocol.

use vstd::prelude::*;

verus! {

/// Size of the message buffer shared by commands and responses.
pub const MAX_MSG_SIZE: usize = 255;

pub const TMR_SR_OPCODE_VERSION: u8 = 0x03;
pub const TMR_SR_OPCODE_SET_BAUD_RATE: u8 = 0x06;
pub const TMR_SR_OPCODE_READ_TAG_ID_SINGLE: u8 = 0x21;
pub const TMR_SR_OPCODE_READ_TAG_ID_MULTIPLE: u8 = 0x22;
pub const TMR_SR_OPCODE_WRITE_TAG_ID: u8 = 0x23;
pub const TMR_SR_OPCODE_WRITE_TAG_DATA: u8 = 0x24;
pub const TMR_SR_OPCODE_KILL_TAG: u8 = 0x26;
pub const TMR_SR_OPCODE_READ_TAG_DATA: u8 = 0x28;
pub const TMR_SR_OPCODE_CLEAR_TAG_ID_BUFFER: u8 = 0x2A;
pub const TMR_SR_OPCODE_MULTI_PROTOCOL_TAG_OP: u8 = 0x2F;
pub const TMR_SR_OPCODE_GET_READ_TX_POWER: u8 = 0x62;
pub const TMR_SR_OPCODE_GET_WRITE_TX_POWER: u8 = 0x64;
pub const TMR_SR_OPCODE_GET_USER_GPIO_INPUTS: u8 = 0x66;
pub const TMR_SR_OPCODE_GET_POWER_MODE: u8 = 0x68;
pub const TMR_SR_OPCODE_GET_READER_OPTIONAL_PARAMS: u8 = 0x6A;
pub const TMR_SR_OPCODE_GET_PROTOCOL_PARAM: u8 = 0x6B;
pub const TMR_SR_OPCODE_SET_ANTENNA_PORT: u8 = 0x91;
pub const TMR_SR_OPCODE_SET_TAG_PROTOCOL: u8 = 0x93;
pub const TMR_SR_OPCODE_SET_READ_TX_POWER: u8 = 0x92;
pub const TMR_SR_OPCODE_SET_WRITE_TX_POWER: u8 = 0x94;
pub const TMR_SR_OPCODE_SET_USER_GPIO_OUTPUTS: u8 = 0x96;
pub const TMR_SR_OPCODE_SET_REGION: u8 = 0x97;
pub const TMR_SR_OPCODE_SET_READER_OPTIONAL_PARAMS: u8 = 0x9A;
pub const TMR_SR_OPCODE_SET_PROTOCOL_PARAM: u8 = 0x9B;

/// Number of milliseconds to wait for a response from the module.
pub const COMMAND_TIME_OUT: u16 = 2000;

pub const DEFAULT_BAUD_RATE: u32 = 115200;

pub const MAX_DATA_TO_RECORD: usize = 2056;
pub const MAX_PASSWORD_SIZE: usize = 256;

/// All the ways an operation of the reader can end.
#[derive(Debug, Clone, Copy, PartialEq, Eq, Structural)]
pub enum ResponseError {
    AllGood,
    ErrorCommandResponseTimeout,
    ErrorCorruptResponse,
    ErrorWrongOpcodeResponse,
    ErrorUnknownOpcode,
    ErrorBufferLength,
    ResponseIsTemperature,
    ResponseIsKeepAlive,
    ResponseIsTempThrottle,
    ResposneIsTagFound,
    ResponseIsNotAGFound,
    ResponseIsUnknown,
    ResponseFail,
    ResponseIsHighReturnLoss,
    ResponseSuccess,
}

/// Regulatory regions the module can be configured for.
#[derive(Clone, Copy, Debug, Eq, PartialEq, Structural)]
pub enum Region {
    NorthAmerica,
    India,
    Japan,
    China,
    Europe,
    Korea,
    Australia,
    NewZealand,
    NorthAmerica2,
    NorthAmerica3,
    Open,
}

/// The code that the module uses on the wire for a region.
pub open spec fn region_code(region: Region) -> u8 {
    match region {
        Region::NorthAmerica => 0x01,
        Region::India => 0x04,
        Region::Japan => 0x05,
        Region::China => 0x06,
        Region::Europe => 0x08,
        Region::Korea => 0x09,
        Region::Australia => 0x0B,
        Region::NewZealand => 0x0C,
        Region::NorthAmerica2 => 0x0D,
        Region::NorthAmerica3 => 0x0E,
        Region::Open => 0xFF,
    }
}

impl From<Region> for u8 {
    fn from(region: Region) -> (code: u8) {
        match region {
            Region::NorthAmerica => 0x01,
            Region::India => 0x04,
            Region::Japan => 0x05,
            Region::China => 0x06,
            Region::Europe => 0x08,
            Region::Korea => 0x09,
            Region::Australia => 0x0B,
            Region::NewZealand => 0x0C,
            Region::NorthAmerica2 => 0x0D,
            Region::NorthAmerica3 => 0x0E,
            Region::Open => 0xFF,
        }
    }
}

impl vstd::std_specs::convert::FromSpecImpl<Region> for u8 {
    open spec fn obeys_from_spec() -> bool {
        true
    }

    open spec fn from_spec(region: Region) -> u8 {
        region_code(region)
    }
}

/// Direction of a user GPIO pin of the module.
#[derive(Clone, Copy, Debug, PartialEq, Eq, Structural)]
pub enum RFIDPinMode {
    INPUT,
    OUPUT,
}

/// Level of a user GPIO pin of the module.
#[derive(Clone, Copy, Debug, PartialEq, Eq, Structural)]
pub enum RFIDPinState {
    ON,
    OFF,
}

/// Decodes the pin level that the module reports: 0 is off, 1 is on, and any
/// other value is not a valid level.
pub fn get_pin_state(pin: u8) -> (state: Option<RFIDPinState>)
    ensures
        pin == 0 ==> state == Some(RFIDPinState::OFF),
        pin == 1 ==> state == Some(RFIDPinState::ON),
        pin > 1 ==> state is None,
{
    match pin {
        0 => Some(RFIDPinState::OFF),
        1 => Some(RFIDPinState::ON),
        _ => None,
    }
}

/// The code that the module uses on the wire for a pin direction.
pub open spec fn pin_mode_code(mode: RFIDPinMode) -> u8 {
    match mode {
        RFIDPinMode::INPUT => 0,
        RFIDPinMode::OUPUT => 1,
    }
}

impl From<RFIDPinMode> for u8 {
    fn from(mode: RFIDPinMode) -> (code: u8) {
        match mode {
            RFIDPinMode::INPUT => 0u8,
            RFIDPinMode::OUPUT => 1u8,
        }
    }
}

impl vstd::std_specs::convert::FromSpecImpl<RFIDPinMode> for u8 {
    open spec fn obeys_from_spec() -> bool {
        true
    }

    open spec fn from_spec(mode: RFIDPinMode) -> u8 {
        pin_mode_code(mode)
    }
}

} // verus!

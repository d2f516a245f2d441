use rfid_reader::rfid_module::crc::calculate_crc;
use rfid_reader::rfid_module::rfid_constants::{
    get_pin_state, RFIDPinMode, RFIDPinState, Region, ResponseError, COMMAND_TIME_OUT,
    MAX_MSG_SIZE, TMR_SR_OPCODE_READ_TAG_DATA, TMR_SR_OPCODE_VERSION,
    TMR_SR_OPCODE_WRITE_TAG_DATA,
};
use rfid_reader::rfid_module::rfid_module::{
    hex_byte, setup_outcome, setup_step_after_version, Command, Reception, SetupStep, RFID,
};

/// Feeds a response to the reader the way the serial driver does, then
/// judges it against `opcode`.
fn receive(rfid: &mut RFID, opcode: u8, response: &[u8]) -> Reception {
    let mut reception = Reception::new();
    for &b in response {
        assert!(!reception.is_complete());
        rfid.receive_byte(&mut reception, b);
    }
    assert!(reception.is_complete());
    rfid.finish_response(opcode, reception.message_length);
    reception
}

#[test]
fn pin_state_decoding() {
    assert_eq!(get_pin_state(0), Some(RFIDPinState::OFF));
    assert_eq!(get_pin_state(1), Some(RFIDPinState::ON));
    assert_eq!(get_pin_state(2), None);
    assert_eq!(get_pin_state(255), None);
}

#[test]
fn pin_mode_codes() {
    let input: u8 = RFIDPinMode::INPUT.into();
    let output: u8 = RFIDPinMode::OUPUT.into();
    assert_eq!(input, 0);
    assert_eq!(output, 1);
}

#[test]
fn region_codes() {
    let expected = [
        (Region::NorthAmerica, 0x01u8),
        (Region::India, 0x04),
        (Region::Japan, 0x05),
        (Region::China, 0x06),
        (Region::Europe, 0x08),
        (Region::Korea, 0x09),
        (Region::Australia, 0x0B),
        (Region::NewZealand, 0x0C),
        (Region::NorthAmerica2, 0x0D),
        (Region::NorthAmerica3, 0x0E),
        (Region::Open, 0xFF),
    ];
    for (region, code) in expected {
        assert_eq!(u8::from(region), code);
    }
}

#[test]
fn crc_of_known_frames() {
    // Length and opcode of the version command.
    assert_eq!(calculate_crc(&[0x00, 0x03], 2), 0x1D0C);
    // Only the first `len` bytes count.
    assert_eq!(calculate_crc(&[0x00, 0x03, 0x55, 0xAA], 2), 0x1D0C);
    // Nothing shifted in leaves the start value.
    assert_eq!(calculate_crc(&[0x12, 0x34], 0), 0xFFFF);
    // Length, opcode and data of a tag-data write.
    let body = [0x0A, 0x24, 0x03, 0xE8, 0x00, 0x00, 0x00, 0x00, 0x00, 0x03, 0x00, 0xEE];
    assert_eq!(calculate_crc(&body, body.len()), 0x589D);
}

#[test]
fn crc_matches_bitwise_definition() {
    fn bitwise(bytes: &[u8]) -> u16 {
        let mut crc: u16 = 0xFFFF;
        for &b in bytes {
            for k in (0..8).rev() {
                let top = crc & 0x8000 != 0;
                crc = (crc << 1) | u16::from((b >> k) & 1);
                if top {
                    crc ^= 0x1021;
                }
            }
        }
        crc
    }
    let data: Vec<u8> = (0..64u32).map(|i| (i * 37 + 11) as u8).collect();
    for len in 0..data.len() {
        assert_eq!(calculate_crc(&data, len), bitwise(&data[..len]));
    }
}

#[test]
fn new_reader_is_idle() {
    let rfid = RFID::new();
    assert_eq!(rfid.msg, [0u8; MAX_MSG_SIZE]);
    assert_eq!(rfid.get_response_error(), None);
    assert!(!rfid.print_debug());
}

#[test]
fn debugging_switch() {
    let mut rfid = RFID::new();
    rfid.enable_debugging();
    assert!(rfid.print_debug());
    rfid.disable_debugging();
    assert!(!rfid.print_debug());
}

#[test]
fn version_command_frame() {
    let mut rfid = RFID::new();
    let cmd = rfid.get_version();
    assert_eq!(
        cmd,
        Command {
            frame_len: 5,
            opcode: TMR_SR_OPCODE_VERSION,
            time_out: COMMAND_TIME_OUT,
            wait_for_response: true
        }
    );
    assert_eq!(&rfid.msg[..5], &[0xFF, 0x00, 0x03, 0x1D, 0x0C]);
    assert!(rfid.msg[5..].iter().all(|&b| b == 0));
}

#[test]
fn write_data_command_frame() {
    let mut rfid = RFID::new();
    let cmd = rfid.write_data(0x03, 0x0000_0000, &[0x00, 0xEE], 1000);
    assert_eq!(cmd.frame_len, 15);
    assert_eq!(cmd.opcode, TMR_SR_OPCODE_WRITE_TAG_DATA);
    assert_eq!(cmd.time_out, 1000);
    assert_eq!(
        &rfid.msg[..15],
        &[0xFF, 0x0A, 0x24, 0x03, 0xE8, 0x00, 0x00, 0x00, 0x00, 0x00, 0x03, 0x00, 0xEE, 0x58, 0x9D]
    );
}

#[test]
fn write_data_address_is_big_endian() {
    let mut rfid = RFID::new();
    rfid.write_data(0x01, 0x1234_5678, &[0xAB], 0x0102);
    assert_eq!(&rfid.msg[1..12], &[0x09, 0x24, 0x01, 0x02, 0x00, 0x12, 0x34, 0x56, 0x78, 0x01, 0xAB]);
    let crc = calculate_crc(&rfid.msg[1..], 11);
    assert_eq!(rfid.msg[12], (crc >> 8) as u8);
    assert_eq!(rfid.msg[13], (crc & 0xFF) as u8);
}

#[test]
fn read_user_data_command_frame() {
    let mut rfid = RFID::new();
    let cmd = rfid.read_user_data(1000);
    assert_eq!(cmd.frame_len, 16);
    assert_eq!(cmd.opcode, TMR_SR_OPCODE_READ_TAG_DATA);
    assert_eq!(
        &rfid.msg[..16],
        &[
            0xFF, 0x0B, 0x28, 0x03, 0xE8, 0x10, 0x00, 0x00, 0x03, 0x00, 0x00, 0x00, 0x00, 0x00,
            0x6E, 0x3E
        ]
    );
}

#[test]
fn read_tag_epc_uses_epc_bank_address_2() {
    let mut rfid = RFID::new();
    rfid.read_tag_epc(COMMAND_TIME_OUT);
    assert_eq!(
        &rfid.msg[..16],
        &[
            0xFF, 0x0B, 0x28, 0x07, 0xD0, 0x10, 0x00, 0x00, 0x01, 0x00, 0x00, 0x00, 0x02, 0x00,
            0x45, 0xBF
        ]
    );
    let mut other = RFID::new();
    other.read_data(0x01, 0x02, COMMAND_TIME_OUT);
    assert_eq!(rfid.msg, other.msg);
}

#[test]
fn write_tag_epc_writes_epc_bank_address_2() {
    let mut a = RFID::new();
    let mut b = RFID::new();
    let cmd = a.write_tag_epc(&[0xAA, 0xBB, 0xCC, 0xDD], 1000);
    b.write_data(0x01, 0x02, &[0xAA, 0xBB, 0xCC, 0xDD], 1000);
    assert_eq!(a.msg, b.msg);
    assert_eq!(cmd.frame_len, 17);
    assert_eq!(cmd.opcode, TMR_SR_OPCODE_WRITE_TAG_DATA);
}

#[test]
fn bank_and_address_of_the_shorthands() {
    let mut a = RFID::new();
    let mut b = RFID::new();
    a.read_kill_rw(500);
    b.read_data(0, 0, 500);
    assert_eq!(a.msg, b.msg);
    a.read_access_pw(500);
    b.read_data(0, 2, 500);
    assert_eq!(a.msg, b.msg);
    a.read_tid(500);
    b.read_data(2, 2, 500);
    assert_eq!(a.msg, b.msg);
    a.read_uid(500);
    assert_eq!(a.msg, b.msg);
    a.write_kill_pw(&[1, 2, 3, 4], 500);
    b.write_data(0, 0, &[1, 2, 3, 4], 500);
    assert_eq!(a.msg, b.msg);
    a.write_access_pw(&[1, 2, 3, 4], 500);
    b.write_data(0, 2, &[1, 2, 3, 4], 500);
    assert_eq!(a.msg, b.msg);
    a.write_user_data(&[9, 8], 500);
    b.write_data(3, 0, &[9, 8], 500);
    assert_eq!(a.msg, b.msg);
}

#[test]
fn power_and_configuration_frames() {
    let mut rfid = RFID::new();
    let cmd = rfid.set_read_power(2700);
    assert_eq!(cmd.frame_len, 7);
    assert_eq!(&rfid.msg[..7], &[0xFF, 0x02, 0x92, 0x0A, 0x8C, 0x4B, 0xD5]);
    // Settings above 27.00 dBm are limited to it.
    let mut limited = RFID::new();
    limited.set_read_power(3000);
    assert_eq!(&limited.msg[..7], &[0xFF, 0x02, 0x92, 0x0A, 0x8C, 0x4B, 0xD5]);
    limited.set_read_power(u16::MAX);
    assert_eq!(&limited.msg[..7], &[0xFF, 0x02, 0x92, 0x0A, 0x8C, 0x4B, 0xD5]);
    limited.set_read_power(500);
    assert_eq!(&limited.msg[1..5], &[0x02, 0x92, 0x01, 0xF4]);
    rfid.set_read_configuration(0x0C, 0x01);
    assert_eq!(&rfid.msg[..8], &[0xFF, 0x03, 0x9A, 0x01, 0x0C, 0x01, 0xA3, 0x5C]);
    rfid.get_read_power();
    assert_eq!(&rfid.msg[1..4], &[0x01, 0x62, 0x00]);
    rfid.get_write_power();
    assert_eq!(&rfid.msg[1..4], &[0x01, 0x64, 0x00]);
    rfid.set_write_power(0x03E8);
    assert_eq!(&rfid.msg[1..5], &[0x02, 0x94, 0x03, 0xE8]);
    rfid.get_optional_parameters(0x01, 0x0C);
    assert_eq!(&rfid.msg[1..5], &[0x02, 0x6A, 0x01, 0x0C]);
}

#[test]
fn kill_tag_frame() {
    let mut rfid = RFID::new();
    let cmd = rfid.kill_tag(&[0x11, 0x22, 0x33, 0x44], 1000);
    assert_eq!(cmd.frame_len, 13);
    assert_eq!(
        &rfid.msg[..13],
        &[0xFF, 0x08, 0x26, 0x03, 0xE8, 0x00, 0x11, 0x22, 0x33, 0x44, 0x00, 0x91, 0x16]
    );
}

#[test]
fn send_message_keeps_old_bytes_beyond_data() {
    let mut rfid = RFID::new();
    rfid.msg[3] = 0x77;
    rfid.msg[4] = 0x66;
    rfid.msg[10] = 0x55;
    let cmd = rfid.send_message(0x40, &[0xAA], 2, 300, false);
    assert_eq!(cmd.frame_len, 7);
    assert!(!cmd.wait_for_response);
    assert_eq!(&rfid.msg[..5], &[0xFF, 0x02, 0x40, 0xAA, 0x66]);
    let crc = calculate_crc(&[0x02, 0x40, 0xAA, 0x66], 4);
    assert_eq!(rfid.msg[5], (crc >> 8) as u8);
    assert_eq!(rfid.msg[6], (crc & 0xFF) as u8);
    assert_eq!(rfid.msg[10], 0x55);
}

#[test]
fn reception_completes_after_length_plus_seven() {
    let mut rfid = RFID::new();
    let response = [0xFF, 0x00, 0x03, 0x00, 0x00, 0xB4, 0xA3];
    let reception = receive(&mut rfid, TMR_SR_OPCODE_VERSION, &response);
    assert_eq!(reception.spot, 7);
    assert_eq!(reception.message_length, 7);
    assert_eq!(&rfid.msg[..7], &response);
}

#[test]
fn response_verdict_reads_last_two_bytes() {
    let response = [0xFF, 0x00, 0x03, 0x00, 0x00, 0xB4, 0xA3];
    let mut rfid = RFID::new();
    receive(&mut rfid, TMR_SR_OPCODE_VERSION, &response);
    assert_eq!(rfid.get_response_error(), Some(ResponseError::AllGood));

    // A wrong last byte is corrupt, whatever the buffer holds behind it.
    let mut rfid = RFID::new();
    rfid.msg[7] = 0xA3;
    receive(&mut rfid, TMR_SR_OPCODE_VERSION, &[0xFF, 0x00, 0x03, 0x00, 0x00, 0xB4, 0x00]);
    assert_eq!(rfid.get_response_error(), Some(ResponseError::ErrorCorruptResponse));
}

#[test]
fn response_verdict_wrong_opcode_and_corrupt() {
    let response = [0xFF, 0x00, 0x03, 0x00, 0x00, 0xB4, 0xA3];
    let mut rfid = RFID::new();
    receive(&mut rfid, 0x22, &response);
    assert_eq!(rfid.get_response_error(), Some(ResponseError::ErrorWrongOpcodeResponse));

    let mut rfid = RFID::new();
    receive(&mut rfid, TMR_SR_OPCODE_VERSION, &[0xFF, 0x00, 0x03, 0x00, 0x00, 0xB5, 0xA3]);
    assert_eq!(rfid.get_response_error(), Some(ResponseError::ErrorCorruptResponse));
}

#[test]
fn timeout_is_recorded() {
    let mut rfid = RFID::new();
    rfid.record_timeout();
    assert_eq!(rfid.get_response_error(), Some(ResponseError::ErrorCommandResponseTimeout));
}

#[test]
fn write_and_kill_results() {
    let mut rfid = RFID::new();
    assert_eq!(rfid.write_data_result(), Err(ResponseError::ResponseFail));
    assert_eq!(rfid.kill_tag_result(), ResponseError::ResponseFail);

    rfid.write_data(3, 0, &[0x00, 0xEE], 1000);
    receive(&mut rfid, TMR_SR_OPCODE_WRITE_TAG_DATA, &[0xFF, 0x00, 0x24, 0x00, 0x00, 0xE0, 0x26]);
    assert_eq!(rfid.get_response_error(), Some(ResponseError::AllGood));
    assert_eq!(rfid.write_data_result(), Ok(()));

    // A response in good order with a nonzero status is a failure.
    receive(&mut rfid, TMR_SR_OPCODE_WRITE_TAG_DATA, &[0xFF, 0x00, 0x24, 0x04, 0x02, 0xE4, 0x24]);
    assert_eq!(rfid.get_response_error(), Some(ResponseError::AllGood));
    assert_eq!(rfid.write_data_result(), Err(ResponseError::ResponseFail));

    let mut rfid = RFID::new();
    rfid.kill_tag(&[1, 2, 3, 4], 1000);
    receive(&mut rfid, 0x26, &[0xFF, 0x00, 0x26, 0x00, 0x00, 0xC0, 0x64]);
    assert_eq!(rfid.kill_tag_result(), ResponseError::ResponseSuccess);
}

#[test]
fn read_data_result_copies_tag_data() {
    let response = [0xFF, 0x07, 0x28, 0x00, 0x00, 0x10, 0x00, 0x00, 0x41, 0x43, 0x42, 0x44, 0x00, 0x52];
    let mut rfid = RFID::new();
    rfid.read_user_data(1000);
    receive(&mut rfid, TMR_SR_OPCODE_READ_TAG_DATA, &response);
    assert_eq!(rfid.get_response_error(), Some(ResponseError::AllGood));

    let mut big = [0x99u8; 8];
    assert_eq!(rfid.read_data_result(&mut big), Ok(4));
    assert_eq!(big, [0x41, 0x43, 0x42, 0x44, 0x99, 0x99, 0x99, 0x99]);

    // Extra response bytes beyond the caller's buffer are ignored.
    let mut small = [0u8; 2];
    assert_eq!(rfid.read_data_result(&mut small), Ok(2));
    assert_eq!(small, [0x41, 0x43]);
}

#[test]
fn read_data_result_failure_leaves_buffer() {
    let mut rfid = RFID::new();
    rfid.record_timeout();
    let mut buf = [7u8; 4];
    assert_eq!(rfid.read_data_result(&mut buf), Err(ResponseError::ResponseFail));
    assert_eq!(buf, [7u8; 4]);
}

#[test]
fn check_byte_frames_a_message() {
    let mut rfid = RFID::new();
    rfid.msg[20] = 0x33;
    let message = [0xFF, 0x00, 0x22, 0x04, 0x00, 0x84, 0xE0];
    // Bytes before the header byte are dropped.
    for b in [0x00u8, 0x12, 0xFE] {
        assert!(!rfid.check_byte(b));
    }
    assert_eq!(rfid.msg[0], 0);
    for (i, &b) in message.iter().enumerate() {
        let complete = rfid.check_byte(b);
        assert_eq!(complete, i == message.len() - 1);
    }
    assert_eq!(&rfid.msg[..7], &message);
    assert!(rfid.msg[7..].iter().all(|&b| b == 0));
    assert_eq!(rfid.parse_response(), ResponseError::ResponseIsKeepAlive);

    // The reader is idle again and takes the next message.
    let next = [0xFF, 0x00, 0x22, 0x05, 0x05, 0x85, 0xE5];
    let mut done = false;
    for &b in next.iter() {
        done = rfid.check_byte(b);
    }
    assert!(done);
    assert_eq!(rfid.parse_response(), ResponseError::ResponseIsHighReturnLoss);
}

fn parsed(message: &[u8]) -> ResponseError {
    let mut rfid = RFID::new();
    let mut done = false;
    for &b in message {
        done = rfid.check_byte(b);
    }
    assert!(done);
    rfid.parse_response()
}

#[test]
fn parse_response_classifies_messages() {
    assert_eq!(parsed(&[0xFF, 0x00, 0x22, 0x04, 0x00, 0x84, 0xE0]), ResponseError::ResponseIsKeepAlive);
    assert_eq!(parsed(&[0xFF, 0x00, 0x22, 0x05, 0x04, 0x85, 0xE4]), ResponseError::ResponseIsTempThrottle);
    assert_eq!(parsed(&[0xFF, 0x00, 0x22, 0x05, 0x05, 0x85, 0xE5]), ResponseError::ResponseIsHighReturnLoss);
    assert_eq!(parsed(&[0xFF, 0x00, 0x22, 0x01, 0x01, 0x81, 0xE1]), ResponseError::ResponseIsUnknown);
    assert_eq!(
        parsed(&[0xFF, 0x08, 0x22, 0, 0, 0, 0, 0, 0, 0, 0, 0, 0, 0xAF, 0x29]),
        ResponseError::ResponseIsUnknown
    );
    assert_eq!(
        parsed(&[0xFF, 0x0A, 0x22, 0, 0, 0, 0, 0, 0, 0, 0, 0, 0, 0, 0, 0xBE, 0xE1]),
        ResponseError::ResponseIsTemperature
    );
    assert_eq!(parsed(&[0xFF, 0x00, 0x03, 0x00, 0x00, 0xB4, 0xA3]), ResponseError::ErrorUnknownOpcode);
    assert_eq!(parsed(&[0xFF, 0x00, 0x22, 0x04, 0x00, 0x84, 0xE1]), ResponseError::ErrorCorruptResponse);
    assert_eq!(parsed(&[0xFF, 0x00, 0x22, 0x04, 0x01, 0x84, 0xE0]), ResponseError::ErrorCorruptResponse);
}

const TAG_RECORD: [u8; 47] = [
    0xFF, 0x28, 0x22, 0x00, 0x00, 0x10, 0x00, 0x1B, 0x01, 0xFF, 0x01, 0x01, 0xC4, 0x11, 0x0E, 0x16,
    0x40, 0x00, 0x00, 0x01, 0x27, 0x00, 0x00, 0x05, 0x00, 0x00, 0x0F, 0x00, 0x80, 0x30, 0x00, 0xE2,
    0x00, 0x00, 0x00, 0x00, 0x00, 0x00, 0x00, 0x00, 0x00, 0x00, 0x01, 0x45, 0x45, 0x11, 0x7F,
];

#[test]
fn tag_record_fields() {
    let mut rfid = RFID::new();
    let mut done = false;
    for &b in TAG_RECORD.iter() {
        done = rfid.check_byte(b);
    }
    assert!(done);
    assert_eq!(rfid.parse_response(), ResponseError::ResposneIsTagFound);
    assert_eq!(rfid.get_tag_rssi(), -60);
    assert_eq!(rfid.get_tag_freq(), 923_200);
    assert_eq!(rfid.get_tag_time_stamp(), 0x0127);
    assert_eq!(rfid.get_tag_data_bytes(), 0);
    assert_eq!(rfid.get_tag_epc_bytes(), 12);
}

#[test]
fn tag_record_with_embedded_data() {
    let mut rfid = RFID::new();
    // 9 bits of embedded data take two bytes; the EPC length follows them.
    rfid.msg[24] = 0x00;
    rfid.msg[25] = 0x09;
    rfid.msg[29] = 0x00;
    rfid.msg[30] = 0x60;
    assert_eq!(rfid.get_tag_data_bytes(), 2);
    assert_eq!(rfid.get_tag_epc_bytes(), 8);
    rfid.msg[24] = 0x07;
    rfid.msg[25] = 0xF8;
    assert_eq!(rfid.get_tag_data_bytes(), 255);
}

#[test]
fn rssi_is_signed() {
    let mut rfid = RFID::new();
    rfid.msg[12] = 0x7F;
    assert_eq!(rfid.get_tag_rssi(), 127);
    rfid.msg[12] = 0x80;
    assert_eq!(rfid.get_tag_rssi(), -128);
    rfid.msg[12] = 0xFF;
    assert_eq!(rfid.get_tag_rssi(), -1);
}

#[test]
fn hex_digits() {
    assert_eq!(hex_byte(0x00), *b"00");
    assert_eq!(hex_byte(0x0C), *b"0C");
    assert_eq!(hex_byte(0xA5), *b"A5");
    assert_eq!(hex_byte(0xFF), *b"FF");
    for b in 0..=255u8 {
        let text = hex_byte(b);
        let s = core::str::from_utf8(&text).unwrap();
        assert_eq!(u8::from_str_radix(s, 16).unwrap(), b);
    }
}

#[test]
fn message_text_of_version_command() {
    let mut rfid = RFID::new();
    rfid.get_version();
    assert_eq!(rfid.message_array_text(), b" [FF] [00] [03] [1D] [0C]\r\n".to_vec());
}

#[test]
fn message_text_is_bounded_by_buffer() {
    let mut rfid = RFID::new();
    rfid.msg[1] = 0xFF;
    let text = rfid.message_array_text();
    // 255 bytes of five characters each, then the line break.
    assert_eq!(text.len(), 255 * 5 + 2);
    assert!(text.starts_with(b" [00] [FF] [00]"));
    assert!(text.ends_with(b"\r\n"));
}

#[test]
fn set_baudrate_does_nothing() {
    RFID::set_baudrate(115200);
}

#[test]
fn setup_decisions() {
    assert_eq!(
        setup_step_after_version(Some(ResponseError::ErrorWrongOpcodeResponse)),
        SetupStep::StopReading
    );
    assert_eq!(setup_step_after_version(Some(ResponseError::AllGood)), SetupStep::ChangeBaudRate);
    assert_eq!(
        setup_step_after_version(Some(ResponseError::ErrorCommandResponseTimeout)),
        SetupStep::ChangeBaudRate
    );
    assert_eq!(setup_step_after_version(None), SetupStep::ChangeBaudRate);
    assert_eq!(setup_outcome(Some(ResponseError::AllGood)), Ok(()));
    assert_eq!(
        setup_outcome(Some(ResponseError::ErrorCorruptResponse)),
        Err(ResponseError::ErrorCorruptResponse)
    );
    assert_eq!(setup_outcome(None), Err(ResponseError::ResponseIsUnknown));
}

#[test]
fn crc_detects_bursts_up_to_16_bits() {
    let data: Vec<u8> = (0..12u32).map(|i| (i * 53 + 7) as u8).collect();
    let reference = calculate_crc(&data, data.len());
    let total_bits = data.len() * 8;
    // Every nonzero pattern of up to 16 bits at every position changes the
    // checksum; sample patterns keep the test short.
    let patterns: [u16; 6] = [0x0001, 0x8001, 0xFFFF, 0x1021, 0x8000, 0x1234];
    for start in 0..total_bits {
        for &pattern in patterns.iter() {
            let mut changed = data.clone();
            for k in 0..16 {
                if pattern & (0x8000 >> k) != 0 && start + k < total_bits {
                    let bit = start + k;
                    changed[bit / 8] ^= 0x80 >> (bit % 8);
                }
            }
            if changed != data {
                assert_ne!(calculate_crc(&changed, changed.len()), reference);
            }
        }
    }
}

#[test]
fn parse_response_reads_only_the_message() {
    let message = [0xFF, 0x00, 0x22, 0x05, 0x04, 0x85, 0xE4];
    let mut a = RFID::new();
    for &b in message.iter() {
        a.check_byte(b);
    }
    let mut b = RFID::new();
    b.msg[..7].copy_from_slice(&message);
    b.msg[0] = 0x00;
    b.msg[7] = 0xAB;
    b.msg[100] = 0xCD;
    assert_eq!(a.parse_response(), b.parse_response());
    assert_eq!(b.parse_response(), ResponseError::ResponseIsTempThrottle);
}

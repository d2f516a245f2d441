//! Laws that say, byte by byte, what the frames and decodings of the reader
//! are, independently of how the operations compute them.

use vstd::prelude::*;

use crate::rfid_module::crc::{crc_bits, spec_crc};
use crate::rfid_module::rfid_constants::{
    pin_mode_code, region_code, RFIDPinMode, Region, ResponseError, MAX_MSG_SIZE, TMR_SR_OPCODE_KILL_TAG, TMR_SR_OPCODE_READ_TAG_DATA,
    TMR_SR_OPCODE_WRITE_TAG_DATA,
};
use crate::rfid_module::rfid_module::{
    byte_text, bytes_text, command_buffer, command_succeeded, copy_tag_data, kill_tag_payload,
    printed_length, read_data_payload, response_kind, tag_data_bytes, tag_data_length,
    tag_epc_bits, write_data_payload,
};

verus! {

/// A command framed with exactly `size` data bytes: header byte, length,
/// opcode, the data bytes in order, then the checksum of length, opcode and
/// data, high byte first; nothing of the earlier buffer shows in the frame and
/// the buffer behind it is untouched.
proof fn lemma_framed_bytes(old: Seq<u8>, opcode: u8, data: Seq<u8>, size: u8)
    requires
        old.len() == MAX_MSG_SIZE,
        size <= 250,
        data.len() == size,
    ensures
        ({
            let buf = command_buffer(old, opcode, data, size);
            let crc = spec_crc(buf.subrange(1, size + 3));
            &&& buf.len() == MAX_MSG_SIZE
            &&& buf[0] == 0xFF
            &&& buf[1] == size
            &&& buf[2] == opcode
            &&& forall|j: int| 0 <= j < size ==> buf[3 + j] == data[j]
            &&& buf.subrange(1, size + 3) == seq![size, opcode] + data
            &&& buf[size + 3] == (crc >> 8u16) as u8
            &&& buf[size + 4] == (crc & 0xFFu16) as u8
            &&& forall|j: int| size + 5 <= j < MAX_MSG_SIZE ==> buf[j] == old[j]
        }),
{
    let buf = command_buffer(old, opcode, data, size);
    let payload = Seq::new(
        size as nat,
        |j: int| crate::rfid_module::rfid_module::payload_byte(old, data, j + 3),
    );
    assert(payload =~= data);
    assert(buf.subrange(1, size + 3) =~= seq![size, opcode] + data);
}

/// A tag-data read frame is sixteen bytes: `FF 0B 28`, the time-out (high
/// byte first), the option byte `0x10`, two zero metadata bytes, the bank, the
/// address (most significant byte first), a zero word count (the whole bank)
/// and the checksum. It does not depend on what the buffer held before.
pub proof fn lemma_read_data_frame(
    old: Seq<u8>,
    other: Seq<u8>,
    bank: u8,
    address: u32,
    time_out: u16,
)
    requires
        old.len() == MAX_MSG_SIZE,
        other.len() == MAX_MSG_SIZE,
    ensures
        ({
            let buf = command_buffer(
                old,
                TMR_SR_OPCODE_READ_TAG_DATA,
                read_data_payload(bank, address, time_out),
                11u8,
            );
            let crc = spec_crc(buf.subrange(1, 14));
            &&& buf[0] == 0xFF
            &&& buf[1] == 11
            &&& buf[2] == 0x28
            &&& buf[3] == (time_out >> 8u16) as u8
            &&& buf[4] == (time_out & 0xFFu16) as u8
            &&& buf[5] == 0x10
            &&& buf[6] == 0
            &&& buf[7] == 0
            &&& buf[8] == bank
            &&& buf[9] == (address >> 24u32) as u8
            &&& buf[10] == ((address >> 16u32) & 0xFFu32) as u8
            &&& buf[11] == ((address >> 8u32) & 0xFFu32) as u8
            &&& buf[12] == (address & 0xFFu32) as u8
            &&& buf[13] == 0
            &&& buf[14] == (crc >> 8u16) as u8
            &&& buf[15] == (crc & 0xFFu16) as u8
            &&& buf.take(16) == command_buffer(
                other,
                TMR_SR_OPCODE_READ_TAG_DATA,
                read_data_payload(bank, address, time_out),
                11u8,
            ).take(16)
        }),
{
    let data = read_data_payload(bank, address, time_out);
    assert(data.len() == 11);
    lemma_framed_bytes(old, TMR_SR_OPCODE_READ_TAG_DATA, data, 11u8);
    lemma_framed_bytes(other, TMR_SR_OPCODE_READ_TAG_DATA, data, 11u8);
    let buf = command_buffer(old, TMR_SR_OPCODE_READ_TAG_DATA, data, 11u8);
    let buf2 = command_buffer(other, TMR_SR_OPCODE_READ_TAG_DATA, data, 11u8);
    assert(buf[3] == data[0] && buf[4] == data[1] && buf[5] == data[2] && buf[6] == data[3]);
    assert(buf[7] == data[4] && buf[8] == data[5] && buf[9] == data[6] && buf[10] == data[7]);
    assert(buf[11] == data[8] && buf[12] == data[9] && buf[13] == data[10]);
    assert(buf.subrange(1, 14) =~= buf2.subrange(1, 14));
    assert(buf.take(16) =~= buf2.take(16));
}

/// A tag-data write frame: `FF`, a length of eight plus the data, `24`, the
/// time-out, a zero option byte, the address (most significant byte first),
/// the bank, every byte of the data in order, and the checksum. It does not
/// depend on what the buffer held before.
pub proof fn lemma_write_data_frame(
    old: Seq<u8>,
    other: Seq<u8>,
    bank: u8,
    address: u32,
    data: Seq<u8>,
    time_out: u16,
)
    requires
        old.len() == MAX_MSG_SIZE,
        other.len() == MAX_MSG_SIZE,
        data.len() <= 242,
    ensures
        ({
            let size = (8 + data.len()) as u8;
            let buf = command_buffer(
                old,
                TMR_SR_OPCODE_WRITE_TAG_DATA,
                write_data_payload(bank, address, data, time_out),
                size,
            );
            let n = data.len() as int;
            let crc = spec_crc(buf.subrange(1, n + 11));
            &&& buf[0] == 0xFF
            &&& buf[1] == 8 + n
            &&& buf[2] == 0x24
            &&& buf[3] == (time_out >> 8u16) as u8
            &&& buf[4] == (time_out & 0xFFu16) as u8
            &&& buf[5] == 0
            &&& buf[6] == (address >> 24u32) as u8
            &&& buf[7] == ((address >> 16u32) & 0xFFu32) as u8
            &&& buf[8] == ((address >> 8u32) & 0xFFu32) as u8
            &&& buf[9] == (address & 0xFFu32) as u8
            &&& buf[10] == bank
            &&& forall|i: int| 0 <= i < n ==> buf[11 + i] == data[i]
            &&& buf[n + 11] == (crc >> 8u16) as u8
            &&& buf[n + 12] == (crc & 0xFFu16) as u8
            &&& buf.take(n + 13) == command_buffer(
                other,
                TMR_SR_OPCODE_WRITE_TAG_DATA,
                write_data_payload(bank, address, data, time_out),
                size,
            ).take(n + 13)
        }),
{
    let n = data.len() as int;
    let size = (8 + data.len()) as u8;
    let payload = write_data_payload(bank, address, data, time_out);
    assert(payload.len() == 8 + n);
    lemma_framed_bytes(old, TMR_SR_OPCODE_WRITE_TAG_DATA, payload, size);
    lemma_framed_bytes(other, TMR_SR_OPCODE_WRITE_TAG_DATA, payload, size);
    let buf = command_buffer(old, TMR_SR_OPCODE_WRITE_TAG_DATA, payload, size);
    let buf2 = command_buffer(other, TMR_SR_OPCODE_WRITE_TAG_DATA, payload, size);
    assert(buf[3] == payload[0] && buf[4] == payload[1] && buf[5] == payload[2]);
    assert(buf[6] == payload[3] && buf[7] == payload[4] && buf[8] == payload[5]);
    assert(buf[9] == payload[6] && buf[10] == payload[7]);
    assert forall|i: int| 0 <= i < n implies buf[11 + i] == data[i] by {
        assert(buf[3 + (8 + i)] == payload[8 + i]);
    }
    assert(buf.subrange(1, n + 11) =~= buf2.subrange(1, n + 11));
    assert(buf.take(n + 13) =~= buf2.take(n + 13));
}

/// A kill frame: `FF`, a length of four plus the password, `26`, the
/// time-out, a zero option byte, every byte of the password in order, a zero
/// reserved byte, and the checksum. It does not depend on what the buffer held
/// before.
pub proof fn lemma_kill_tag_frame(
    old: Seq<u8>,
    other: Seq<u8>,
    password: Seq<u8>,
    time_out: u16,
)
    requires
        old.len() == MAX_MSG_SIZE,
        other.len() == MAX_MSG_SIZE,
        password.len() <= 246,
    ensures
        ({
            let size = (4 + password.len()) as u8;
            let buf = command_buffer(
                old,
                TMR_SR_OPCODE_KILL_TAG,
                kill_tag_payload(password, time_out),
                size,
            );
            let n = password.len() as int;
            let crc = spec_crc(buf.subrange(1, n + 7));
            &&& buf[0] == 0xFF
            &&& buf[1] == 4 + n
            &&& buf[2] == 0x26
            &&& buf[3] == (time_out >> 8u16) as u8
            &&& buf[4] == (time_out & 0xFFu16) as u8
            &&& buf[5] == 0
            &&& forall|i: int| 0 <= i < n ==> buf[6 + i] == password[i]
            &&& buf[6 + n] == 0
            &&& buf[n + 7] == (crc >> 8u16) as u8
            &&& buf[n + 8] == (crc & 0xFFu16) as u8
            &&& buf.take(n + 9) == command_buffer(
                other,
                TMR_SR_OPCODE_KILL_TAG,
                kill_tag_payload(password, time_out),
                size,
            ).take(n + 9)
        }),
{
    let n = password.len() as int;
    let size = (4 + password.len()) as u8;
    let payload = kill_tag_payload(password, time_out);
    assert(payload.len() == 4 + n);
    lemma_framed_bytes(old, TMR_SR_OPCODE_KILL_TAG, payload, size);
    lemma_framed_bytes(other, TMR_SR_OPCODE_KILL_TAG, payload, size);
    let buf = command_buffer(old, TMR_SR_OPCODE_KILL_TAG, payload, size);
    let buf2 = command_buffer(other, TMR_SR_OPCODE_KILL_TAG, payload, size);
    assert(buf[3] == payload[0] && buf[4] == payload[1] && buf[5] == payload[2]);
    assert forall|i: int| 0 <= i < n implies buf[6 + i] == password[i] by {
        assert(buf[3 + (3 + i)] == payload[3 + i]);
    }
    assert(buf[3 + (3 + n)] == payload[3 + n]);
    assert(buf.subrange(1, n + 7) =~= buf2.subrange(1, n + 7));
    assert(buf.take(n + 9) =~= buf2.take(n + 9));
}

/// A message of length `msg[1] + 7` is classified as corrupt exactly when its
/// last two bytes differ from the checksum, high byte first, of the bytes
/// between its header byte and them.
pub proof fn lemma_parse_corrupt_iff_checksum_wrong(msg: Seq<u8>)
    requires
        msg.len() == MAX_MSG_SIZE,
        msg[1] <= 248,
    ensures
        ({
            let len = msg[1] + 7;
            let crc = spec_crc(msg.subrange(1, len - 2));
            (response_kind(msg) == ResponseError::ErrorCorruptResponse) <==> (msg[len - 2] != (crc
                >> 8u16) as u8 || msg[len - 1] != (crc & 0xFFu16) as u8)
        }),
{
}

/// How a message whose checksum is right is classified: messages to the
/// tag-id read (opcode `0x22`) are, by length, an empty notice told apart by
/// its status (`04 00` keep-alive, `05 04` temperature throttle, `05 05` high
/// return loss, anything else unknown), an unknown record (8 bytes), a
/// temperature report (10 bytes) or a tag record; any other opcode is unknown.
pub proof fn lemma_parse_classifies_valid_messages(msg: Seq<u8>)
    requires
        msg.len() == MAX_MSG_SIZE,
        msg[1] <= 248,
        ({
            let len = msg[1] + 7;
            let crc = spec_crc(msg.subrange(1, len - 2));
            msg[len - 2] == (crc >> 8u16) as u8 && msg[len - 1] == (crc & 0xFFu16) as u8
        }),
    ensures
        response_kind(msg) == (if msg[2] != 0x22 {
            ResponseError::ErrorUnknownOpcode
        } else if msg[1] == 0 {
            if msg[3] == 0x04 && msg[4] == 0x00 {
                ResponseError::ResponseIsKeepAlive
            } else if msg[3] == 0x05 && msg[4] == 0x04 {
                ResponseError::ResponseIsTempThrottle
            } else if msg[3] == 0x05 && msg[4] == 0x05 {
                ResponseError::ResponseIsHighReturnLoss
            } else {
                ResponseError::ResponseIsUnknown
            }
        } else if msg[1] == 8 {
            ResponseError::ResponseIsUnknown
        } else if msg[1] == 10 {
            ResponseError::ResponseIsTemperature
        } else {
            ResponseError::ResposneIsTagFound
        }),
{
}

/// The embedded data of a tag record takes the announced number of bits
/// rounded up to whole bytes: enough bytes for all bits, and no byte more.
pub proof fn lemma_tag_data_bytes_round_up(msg: Seq<u8>)
    requires
        msg.len() == MAX_MSG_SIZE,
    ensures
        ({
            let bits = msg[24] as int * 256 + msg[25] as int;
            let n = tag_data_bytes(msg);
            &&& tag_data_length(msg) == bits
            &&& 8 * n >= bits
            &&& 8 * n < bits + 8
        }),
{
}

/// The EPC length of a tag record stands right behind the embedded data: in
/// the two bytes that follow byte 26 plus the whole bytes that the announced
/// data bits take, most significant byte first.
pub proof fn lemma_tag_epc_length_follows_data(msg: Seq<u8>, n: int)
    requires
        msg.len() == MAX_MSG_SIZE,
        8 * n >= msg[24] as int * 256 + msg[25] as int,
        8 * n < msg[24] as int * 256 + msg[25] as int + 8,
        28 + n < MAX_MSG_SIZE,
    ensures
        tag_epc_bits(msg) == msg[27 + n] as int * 256 + msg[28 + n] as int,
{
    lemma_tag_data_bytes_round_up(msg);
}

/// A command has succeeded exactly when its response came in good order and
/// carries status `00 00` in bytes 3 and 4.
pub proof fn lemma_command_succeeded_means_status_zero(
    last: Option<ResponseError>,
    msg: Seq<u8>,
)
    requires
        msg.len() == MAX_MSG_SIZE,
    ensures
        command_succeeded(last, msg) <==> (last == Some(ResponseError::AllGood) && msg[3] == 0
            && msg[4] == 0),
{
}

/// The data of a read response lands at the start of the caller's buffer:
/// byte `i` of it is byte `8 + i` of the response for `i < n`, and the rest of
/// the caller's buffer keeps its bytes.
pub proof fn lemma_copied_tag_data(dst: Seq<u8>, msg: Seq<u8>, n: int)
    requires
        0 <= n <= dst.len(),
        n + 8 <= msg.len(),
    ensures
        copy_tag_data(dst, msg, n).len() == dst.len(),
        forall|i: int| 0 <= i < n ==> copy_tag_data(dst, msg, n)[i] == msg[8 + i],
        forall|i: int| n <= i < dst.len() ==> copy_tag_data(dst, msg, n)[i] == dst[i],
{
}

/// The ASCII character of a hexadecimal digit, upper case, by arithmetic.
pub open spec fn ascii_hex(n: int) -> u8 {
    if n < 10 {
        (48 + n) as u8
    } else {
        (55 + n) as u8
    }
}

/// Characters `5 * i` to `5 * i + 4` of `text` show the byte `b`: ` [`, its
/// two upper-case hexadecimal digits, `]`.
pub open spec fn shows_byte(text: Seq<u8>, i: int, b: u8) -> bool {
    text[5 * i] == 0x20u8 && text[5 * i + 1] == 0x5Bu8 && text[5 * i + 2] == ascii_hex(
        b as int / 16,
    ) && text[5 * i + 3] == ascii_hex(b as int % 16) && text[5 * i + 4] == 0x5Du8
}

proof fn lemma_bytes_text_shape(bytes: Seq<u8>)
    ensures
        bytes_text(bytes).len() == 5 * bytes.len(),
        forall|i: int| 0 <= i < bytes.len() ==> shows_byte(bytes_text(bytes), i, #[trigger] bytes[i]),
    decreases bytes.len(),
{
    if bytes.len() > 0 {
        let init = bytes.drop_last();
        lemma_bytes_text_shape(init);
        let b = bytes.last();
        let t = bytes_text(bytes);
        let bt = byte_text(b);
        assert((b >> 4u8) as int == b as int / 16 && (b & 0x0Fu8) as int == b as int % 16)
            by (bit_vector);
        let ti = bytes_text(init);
        assert(t == ti + bt);
        assert forall|i: int| 0 <= i < bytes.len() implies shows_byte(t, i, #[trigger] bytes[i]) by {
            if i < init.len() {
                assert(bytes[i] == init[i]);
                assert(shows_byte(ti, i, init[i]));
                assert(t[5 * i] == ti[5 * i]);
                assert(t[5 * i + 1] == ti[5 * i + 1]);
                assert(t[5 * i + 2] == ti[5 * i + 2]);
                assert(t[5 * i + 3] == ti[5 * i + 3]);
                assert(t[5 * i + 4] == ti[5 * i + 4]);
            } else {
                assert(bytes[i] == b);
                assert(t[5 * i] == bt[0]);
                assert(t[5 * i + 1] == bt[1]);
                assert(t[5 * i + 2] == bt[2]);
                assert(t[5 * i + 3] == bt[3]);
                assert(t[5 * i + 4] == bt[4]);
            }
        }
    }
}

/// The printed form of the message in the buffer: five characters per byte
/// (` [`, its two upper-case hexadecimal digits, `]`) for the first
/// `msg[1] + 5` bytes, but no more than the whole buffer, then CR LF.
pub proof fn lemma_message_text_shape(msg: Seq<u8>)
    requires
        msg.len() == MAX_MSG_SIZE,
    ensures
        ({
            let count = if msg[1] + 5 <= MAX_MSG_SIZE {
                msg[1] + 5
            } else {
                MAX_MSG_SIZE as int
            };
            let text = bytes_text(msg.take(printed_length(msg))) + seq![0x0Du8, 0x0Au8];
            &&& text.len() == 5 * count + 2
            &&& forall|i: int| 0 <= i < count ==> shows_byte(text, i, #[trigger] msg[i])
            &&& text[5 * count] == 0x0D
            &&& text[5 * count + 1] == 0x0A
        }),
{
    let count = if msg[1] + 5 <= MAX_MSG_SIZE {
        msg[1] + 5
    } else {
        MAX_MSG_SIZE as int
    };
    assert(printed_length(msg) == count);
    let shown = msg.take(count);
    lemma_bytes_text_shape(shown);
    let bt = bytes_text(shown);
    let text = bt + seq![0x0Du8, 0x0Au8];
    assert(text.len() == 5 * count + 2);
    assert forall|i: int| 0 <= i < count implies shows_byte(text, i, #[trigger] msg[i]) by {
        assert(shown[i] == msg[i]);
        assert(shows_byte(bt, i, shown[i]));
        assert(text[5 * i] == bt[5 * i]);
        assert(text[5 * i + 1] == bt[5 * i + 1]);
        assert(text[5 * i + 2] == bt[5 * i + 2]);
        assert(text[5 * i + 3] == bt[5 * i + 3]);
        assert(text[5 * i + 4] == bt[5 * i + 4]);
    }
}

/// The wire codes of the regions: North America 1, India 4, Japan 5, China 6,
/// Europe 8, Korea 9, Australia 11, New Zealand 12, North America 2 13, North
/// America 3 14, open 255. No two regions share a code.
pub proof fn lemma_region_codes(r1: Region, r2: Region)
    ensures
        region_code(Region::NorthAmerica) == 0x01,
        region_code(Region::India) == 0x04,
        region_code(Region::Japan) == 0x05,
        region_code(Region::China) == 0x06,
        region_code(Region::Europe) == 0x08,
        region_code(Region::Korea) == 0x09,
        region_code(Region::Australia) == 0x0B,
        region_code(Region::NewZealand) == 0x0C,
        region_code(Region::NorthAmerica2) == 0x0D,
        region_code(Region::NorthAmerica3) == 0x0E,
        region_code(Region::Open) == 0xFF,
        region_code(r1) == region_code(r2) ==> r1 == r2,
{
}

/// The wire codes of the pin directions: input 0, output 1.
pub proof fn lemma_pin_mode_codes()
    ensures
        pin_mode_code(RFIDPinMode::INPUT) == 0,
        pin_mode_code(RFIDPinMode::OUPUT) == 1,
{
}

/// The checksum is the shift register started at `0xFFFF` after all bits of
/// the bytes went in, most significant bit of each byte first; in particular
/// the checksum of no bytes is `0xFFFF`.
pub proof fn lemma_crc_register(s: Seq<u8>)
    ensures
        spec_crc(s) == crc_bits(0xFFFFu16, s, (8 * s.len()) as nat),
        spec_crc(Seq::empty()) == 0xFFFFu16,
{
    crate::rfid_module::crc::lemma_crc_bits_bytes(0xFFFFu16, s, s.len() as int);
    assert(s.take(s.len() as int) =~= s);
}

} // verus!

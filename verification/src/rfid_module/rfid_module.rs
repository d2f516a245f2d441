//! The reader's message buffer and the operations on it: framing commands,
//! receiving and checking responses, and decoding tag records.

use vstd::prelude::*;

use crate::rfid_module::crc::{calculate_crc, spec_crc};
use crate::rfid_module::rfid_constants::{
    ResponseError, COMMAND_TIME_OUT, MAX_MSG_SIZE, TMR_SR_OPCODE_GET_READER_OPTIONAL_PARAMS,
    TMR_SR_OPCODE_GET_READ_TX_POWER, TMR_SR_OPCODE_GET_WRITE_TX_POWER, TMR_SR_OPCODE_KILL_TAG,
    TMR_SR_OPCODE_READ_TAG_DATA, TMR_SR_OPCODE_READ_TAG_ID_MULTIPLE,
    TMR_SR_OPCODE_SET_READER_OPTIONAL_PARAMS, TMR_SR_OPCODE_SET_READ_TX_POWER,
    TMR_SR_OPCODE_SET_WRITE_TX_POWER, TMR_SR_OPCODE_VERSION, TMR_SR_OPCODE_WRITE_TAG_DATA,
};

verus! {

/// The high byte of a 16-bit value.
pub open spec fn hi_byte(v: u16) -> u8 {
    (v >> 8u16) as u8
}

/// The low byte of a 16-bit value.
pub open spec fn lo_byte(v: u16) -> u8 {
    (v & 0xFFu16) as u8
}

/// A 16-bit value in big-endian byte order.
pub open spec fn be16(v: u16) -> Seq<u8> {
    seq![hi_byte(v), lo_byte(v)]
}

/// A 32-bit value in big-endian byte order.
pub open spec fn be32(v: u32) -> Seq<u8> {
    seq![
        (v >> 24u32) as u8,
        ((v >> 16u32) & 0xFFu32) as u8,
        ((v >> 8u32) & 0xFFu32) as u8,
        (v & 0xFFu32) as u8,
    ]
}

/// The message buffer after framing a command: the header byte `0xFF`, the
/// length `size`, the opcode, `size` data bytes (taken from `data` as far as it
/// reaches, the earlier contents of the buffer beyond it), and the checksum of
/// length, opcode and data in big-endian order. The rest of the buffer keeps
/// its earlier contents.
pub open spec fn command_buffer(old: Seq<u8>, opcode: u8, data: Seq<u8>, size: u8) -> Seq<u8> {
    let payload = Seq::new(size as nat, |j: int| payload_byte(old, data, j + 3));
    let body = seq![size, opcode] + payload;
    seq![0xFFu8] + body + be16(spec_crc(body)) + old.subrange(size + 5, old.len() as int)
}

/// Byte `j` of the buffer after the data of a command was copied in: data byte
/// `j - 3` where `data` reaches that far, the earlier contents otherwise.
pub open spec fn payload_byte(old: Seq<u8>, data: Seq<u8>, j: int) -> u8 {
    if j - 3 < data.len() {
        data[j - 3]
    } else {
        old[j]
    }
}

/// The 16-bit status that a response carries in bytes 3 and 4 of the buffer.
pub open spec fn status_of(msg: Seq<u8>) -> int {
    msg[3] as int * 256 + msg[4] as int
}

/// The verdict on a response of `message_length` bytes received for a command
/// with opcode `opcode`: the checksum of bytes 1 to `message_length - 3` is
/// compared with the last two bytes of the response, high byte first, and then
/// the opcode in byte 2.
pub open spec fn response_check(msg: Seq<u8>, opcode: u8, message_length: int) -> ResponseError {
    let crc = spec_crc(msg.subrange(1, message_length - 2));
    if msg[message_length - 2] != hi_byte(crc) || msg[message_length - 1] != lo_byte(crc) {
        ResponseError::ErrorCorruptResponse
    } else if msg[2] != opcode {
        ResponseError::ErrorWrongOpcodeResponse
    } else {
        ResponseError::AllGood
    }
}

/// What a message of length `msg[1] + 7` held in the buffer is: a corrupt one
/// when its last two bytes are not the checksum of the bytes between the
/// header and them; otherwise, for the opcode that reads tag ids, a keep-alive,
/// a temperature-throttle or a high-return-loss notice (empty messages with
/// status 0x0400, 0x0504, 0x0505), a temperature report (length byte 0x0a), an
/// unknown record (other empty ones, length byte 0x08) or a tag record; any
/// other opcode is unknown.
pub open spec fn response_kind(msg: Seq<u8>) -> ResponseError {
    let message_length = msg[1] + 7;
    let crc = spec_crc(msg.subrange(1, message_length - 2));
    if msg[message_length - 2] != hi_byte(crc) || msg[message_length - 1] != lo_byte(crc) {
        ResponseError::ErrorCorruptResponse
    } else if msg[2] == TMR_SR_OPCODE_READ_TAG_ID_MULTIPLE {
        if msg[1] == 0x00 {
            if status_of(msg) == 0x0400 {
                ResponseError::ResponseIsKeepAlive
            } else if status_of(msg) == 0x0504 {
                ResponseError::ResponseIsTempThrottle
            } else if status_of(msg) == 0x0505 {
                ResponseError::ResponseIsHighReturnLoss
            } else {
                ResponseError::ResponseIsUnknown
            }
        } else if msg[1] == 0x08 {
            ResponseError::ResponseIsUnknown
        } else if msg[1] == 0x0a {
            ResponseError::ResponseIsTemperature
        } else {
            ResponseError::ResposneIsTagFound
        }
    } else {
        ResponseError::ErrorUnknownOpcode
    }
}

/// One byte arriving while the reader watches for messages, as
/// `(buffer, head, complete)`. While nothing has been received, bytes other
/// than the header byte `0xFF` are dropped. Otherwise the byte is stored at the
/// head, which advances (wrapping around the buffer); when the head reaches
/// seven more than the length byte, the message is complete: the buffer behind
/// it is cleared and the head returns to the start.
pub open spec fn check_step(msg: Seq<u8>, head: int, byte: u8) -> (Seq<u8>, int, bool) {
    if head == 0 && byte != 0xFF {
        (msg, head, false)
    } else {
        let m = msg.update(head, byte);
        let h = (head + 1) % (MAX_MSG_SIZE as int);
        if h > 0 && h == m[1] + 7 {
            (Seq::new(m.len(), |i: int| if i < h { m[i] } else { 0u8 }), 0, true)
        } else {
            (m, h, false)
        }
    }
}

/// The invariant of the message detector: the head lies inside a buffer of
/// `MAX_MSG_SIZE` bytes, and while a message is being collected it starts with
/// the header byte `0xFF`.
pub open spec fn detector_ok(msg: Seq<u8>, head: int) -> bool {
    &&& msg.len() == MAX_MSG_SIZE
    &&& 0 <= head < MAX_MSG_SIZE
    &&& head > 0 ==> msg[0] == 0xFF
}

/// One byte of a response arriving, as `(buffer, spot, message_length)`: it is
/// stored at `spot`, which advances (wrapping around the buffer); the byte
/// stored at position 1 is the length byte and makes the message length seven
/// more than it.
pub open spec fn receive_step(msg: Seq<u8>, spot: int, message_length: int, byte: u8) -> (
    Seq<u8>,
    int,
    int,
) {
    (
        msg.update(spot, byte),
        (spot + 1) % (MAX_MSG_SIZE as int),
        if spot == 1 {
            byte + 7
        } else {
            message_length
        },
    )
}

/// Feeding the bytes of `bytes` to `receive_step` in order.
pub open spec fn receive_run(msg: Seq<u8>, spot: int, message_length: int, bytes: Seq<u8>) -> (
    Seq<u8>,
    int,
    int,
)
    decreases bytes.len(),
{
    if bytes.len() == 0 {
        (msg, spot, message_length)
    } else {
        let before = receive_run(msg, spot, message_length, bytes.drop_last());
        receive_step(before.0, before.1, before.2, bytes.last())
    }
}

/// Feeding the bytes of `bytes` to `check_step` in order, as
/// `(buffer, head, completions)`, where `completions[i]` tells whether byte
/// `i` completed a message.
pub open spec fn check_run(msg: Seq<u8>, head: int, bytes: Seq<u8>) -> (Seq<u8>, int, Seq<bool>)
    decreases bytes.len(),
{
    if bytes.len() == 0 {
        (msg, head, Seq::empty())
    } else {
        let before = check_run(msg, head, bytes.drop_last());
        let step = check_step(before.0, before.1, bytes.last());
        (step.0, step.1, before.2.push(step.2))
    }
}

/// The payload of a tag-data read: time-out, option byte `0x10`, two metadata
/// bytes, bank, address and a word count of zero (the whole bank).
pub open spec fn read_data_payload(bank: u8, address: u32, time_out: u16) -> Seq<u8> {
    be16(time_out) + seq![0x10u8, 0x00u8, 0x00u8, bank] + be32(address) + seq![0x00u8]
}

/// The payload of a tag-data write: time-out, option byte, address, bank and
/// the data.
pub open spec fn write_data_payload(bank: u8, address: u32, data: Seq<u8>, time_out: u16) -> Seq<
    u8,
> {
    be16(time_out) + seq![0x00u8] + be32(address) + seq![bank] + data
}

/// The payload of a kill command: time-out, option byte, password and a
/// reserved zero byte.
pub open spec fn kill_tag_payload(password: Seq<u8>, time_out: u16) -> Seq<u8> {
    be16(time_out) + seq![0x00u8] + password + seq![0x00u8]
}

/// Whether the last command was answered in good order with status zero.
pub open spec fn command_succeeded(last: Option<ResponseError>, msg: Seq<u8>) -> bool {
    last == Some(ResponseError::AllGood) && status_of(msg) == 0
}

/// `dst` with its first `n` bytes replaced by the tag data of a read response,
/// which starts at byte 8 of the buffer.
pub open spec fn copy_tag_data(dst: Seq<u8>, msg: Seq<u8>, n: int) -> Seq<u8> {
    Seq::new(dst.len(), |i: int| if i < n { msg[i + 8] } else { dst[i] })
}

/// The number of embedded tag data bits that a tag record announces.
pub open spec fn tag_data_length(msg: Seq<u8>) -> int {
    msg[24] as int * 256 + msg[25] as int
}

/// The number of bytes of embedded tag data in a tag record.
pub open spec fn tag_data_bytes(msg: Seq<u8>) -> int {
    (tag_data_length(msg) + 7) / 8
}

/// The number of EPC bits (with protocol control and CRC bits) that a tag
/// record announces, found behind the embedded data.
pub open spec fn tag_epc_bits(msg: Seq<u8>) -> int {
    msg[27 + tag_data_bytes(msg)] as int * 256 + msg[28 + tag_data_bytes(msg)] as int
}

/// The ASCII character of a hexadecimal digit, upper case.
pub open spec fn hex_digit(n: u8) -> u8 {
    if n < 10 {
        (0x30 + n) as u8
    } else {
        (0x41 + n - 10) as u8
    }
}

/// The value of an upper-case hexadecimal ASCII character.
pub open spec fn hex_value(c: u8) -> int {
    if 0x30 <= c <= 0x39 {
        c - 0x30
    } else {
        c - 0x41 + 10
    }
}

/// How a byte of the buffer is printed: ` [`, its two hexadecimal digits,
/// `]`.
pub open spec fn byte_text(b: u8) -> Seq<u8> {
    seq![0x20u8, 0x5Bu8, hex_digit(b >> 4u8), hex_digit(b & 0x0Fu8), 0x5Du8]
}

/// The printed form of a sequence of bytes.
pub open spec fn bytes_text(bytes: Seq<u8>) -> Seq<u8>
    decreases bytes.len(),
{
    if bytes.len() == 0 {
        Seq::empty()
    } else {
        bytes_text(bytes.drop_last()) + byte_text(bytes.last())
    }
}

/// The number of buffer bytes printed: the length byte plus five, at most the
/// whole buffer.
pub open spec fn printed_length(msg: Seq<u8>) -> int {
    if msg[1] + 5 < MAX_MSG_SIZE {
        msg[1] + 5
    } else {
        MAX_MSG_SIZE as int
    }
}

/// What the module has to be sent after a command was framed in the buffer.
#[derive(Clone, Copy, Debug, PartialEq, Eq, Structural)]
pub struct Command {
    /// The number of bytes at the start of the buffer that form the frame.
    pub frame_len: usize,
    /// The opcode that the response must carry.
    pub opcode: u8,
    /// How long to wait for the response, in milliseconds.
    pub time_out: u16,
    /// Whether a response is expected at all.
    pub wait_for_response: bool,
}

/// Progress of receiving one response into the message buffer.
#[derive(Clone, Copy, Debug, PartialEq, Eq, Structural)]
pub struct Reception {
    /// The position at which the next byte is stored.
    pub spot: usize,
    /// The length of the response: `MAX_MSG_SIZE - 1` until its length byte
    /// has arrived, seven more than that byte afterwards.
    pub message_length: usize,
}

impl Reception {
    /// A reception that has received nothing yet.
    pub fn new() -> (r: Reception)
        ensures
            r.spot == 0,
            r.message_length == MAX_MSG_SIZE - 1,
    {
        Reception { spot: 0, message_length: MAX_MSG_SIZE - 1 }
    }

    /// Whether all bytes of the response have arrived.
    pub fn is_complete(&self) -> (done: bool)
        ensures
            done == (self.spot >= self.message_length),
    {
        self.spot >= self.message_length
    }
}

/// The state of the reader: the message buffer that holds the command being
/// sent or the response being received, and the outcome of the last command.
pub struct RFID {
    pub msg: [u8; MAX_MSG_SIZE],
    msg_head: usize,
    print_debug: bool,
    response_error: Option<ResponseError>,
}

/// The two upper-case hexadecimal ASCII digits of a byte, high digit first.
pub fn hex_byte(byte: u8) -> (chars: [u8; 2])
    ensures
        chars@ == seq![hex_digit(byte >> 4u8), hex_digit(byte & 0x0Fu8)],
        hex_value(chars@[0]) * 16 + hex_value(chars@[1]) == byte,
        forall|i: int|
            0 <= i < 2 ==> (0x30 <= #[trigger] chars@[i] <= 0x39 || 0x41 <= chars@[i] <= 0x46),
{
    let high = byte >> 4u8;
    let low = byte & 0x0Fu8;
    assert(high < 16 && low < 16 && high as int * 16 + low as int == byte) by (bit_vector)
        requires
            high == byte >> 4u8,
            low == byte & 0x0Fu8,
    ;
    let chars = [hex_char(high), hex_char(low)];
    assert(chars@ =~= seq![hex_digit(high), hex_digit(low)]);
    chars
}

/// The upper-case hexadecimal ASCII digit of a value below 16.
fn hex_char(n: u8) -> (c: u8)
    requires
        n < 16,
    ensures
        c == hex_digit(n),
{
    if n < 10 {
        0x30 + n
    } else {
        0x41 + n - 10
    }
}

/// What the set-up does after the first version query.
#[derive(Clone, Copy, Debug, PartialEq, Eq, Structural)]
pub enum SetupStep {
    /// The module answered with another opcode: it is still reading tags
    /// continuously and has to be stopped first.
    StopReading,
    /// The module is quiet: switch it to the wanted baud rate.
    ChangeBaudRate,
}

/// Decides the set-up step from the outcome of the first version query: a
/// reply with the wrong opcode means the module is busy reading tags.
pub fn setup_step_after_version(response_error: Option<ResponseError>) -> (step: SetupStep)
    ensures
        step == (if response_error == Some(ResponseError::ErrorWrongOpcodeResponse) {
            SetupStep::StopReading
        } else {
            SetupStep::ChangeBaudRate
        }),
{
    match response_error {
        Some(ResponseError::ErrorWrongOpcodeResponse) => SetupStep::StopReading,
        _ => SetupStep::ChangeBaudRate,
    }
}

/// The outcome of the set-up from the outcome of the final version query:
/// success when it was answered in good order, its error otherwise, and
/// `ResponseIsUnknown` when no query was made.
pub fn setup_outcome(response_error: Option<ResponseError>) -> (r: Result<(), ResponseError>)
    ensures
        r == (match response_error {
            Some(ResponseError::AllGood) => Ok(()),
            Some(e) => Err(e),
            None => Err(ResponseError::ResponseIsUnknown),
        }),
{
    match response_error {
        Some(ResponseError::AllGood) => Ok(()),
        Some(response_error) => Err(response_error),
        None => Err(ResponseError::ResponseIsUnknown),
    }
}

impl RFID {
    /// The contents of the message buffer.
    pub closed spec fn buffer(&self) -> Seq<u8> {
        self.msg@
    }

    /// Where `check_byte` stores the next byte of an incoming message.
    pub closed spec fn head(&self) -> int {
        self.msg_head as int
    }

    /// Whether the caller asked for the traffic to be printed.
    pub closed spec fn debugging(&self) -> bool {
        self.print_debug
    }

    /// The outcome of the last command, if any was sent.
    pub closed spec fn last_response(&self) -> Option<ResponseError> {
        self.response_error
    }

    /// The reader's internal consistency: the receive position lies inside
    /// the buffer.
    pub closed spec fn wf(&self) -> bool {
        self.msg_head < MAX_MSG_SIZE
    }

    /// The buffer always holds `MAX_MSG_SIZE` bytes, and the head of a
    /// well-formed reader lies inside it.
    pub proof fn lemma_buffer_length(&self)
        ensures
            self.buffer().len() == MAX_MSG_SIZE,
            self.wf() <==> 0 <= self.head() < MAX_MSG_SIZE,
    {
    }

    /// A reader with a zeroed buffer, debugging off and no command sent yet.
    pub fn new() -> (rfid: RFID)
        ensures
            rfid.wf(),
            rfid.buffer() == Seq::new(MAX_MSG_SIZE as nat, |i: int| 0u8),
            rfid.head() == 0,
            !rfid.debugging(),
            rfid.last_response() is None,
    {
        let rfid = RFID { msg: [0u8; 255], msg_head: 0, print_debug: false, response_error: None };
        assert(rfid.msg@ =~= Seq::new(MAX_MSG_SIZE as nat, |i: int| 0u8));
        rfid
    }

    /// Turns on printing of the traffic with the module.
    pub fn enable_debugging(&mut self)
        ensures
            final(self).debugging(),
            final(self).buffer() == old(self).buffer(),
            final(self).head() == old(self).head(),
            final(self).last_response() == old(self).last_response(),
            final(self).wf() == old(self).wf(),
    {
        self.print_debug = true;
    }

    /// Turns off printing of the traffic with the module.
    pub fn disable_debugging(&mut self)
        ensures
            !final(self).debugging(),
            final(self).buffer() == old(self).buffer(),
            final(self).head() == old(self).head(),
            final(self).last_response() == old(self).last_response(),
            final(self).wf() == old(self).wf(),
    {
        self.print_debug = false;
    }

    /// Whether the traffic with the module is to be printed.
    pub fn print_debug(&self) -> (on: bool)
        ensures
            on == self.debugging(),
    {
        self.print_debug
    }

    /// The outcome of the last command, if any was sent.
    pub fn get_response_error(&self) -> (r: Option<ResponseError>)
        ensures
            r == self.last_response(),
    {
        self.response_error
    }

    /// Changing the baud rate is not implemented: the call does nothing.
    pub fn set_baudrate(_baudrate: u64) {
    }

    /// Frames a command in the buffer: length, opcode and `size` data bytes,
    /// then the header byte and the checksum (see `command_buffer`). Data bytes
    /// beyond the end of `data` keep what the buffer held.
    pub fn send_message(
        &mut self,
        opcode: u8,
        data: &[u8],
        size: u8,
        time_out: u16,
        wait_for_response: bool,
    ) -> (cmd: Command)
        requires
            size <= 250,
        ensures
            final(self).buffer() == command_buffer(old(self).buffer(), opcode, data@, size),
            cmd == (Command {
                frame_len: (size + 5) as usize,
                opcode,
                time_out,
                wait_for_response,
            }),
            final(self).head() == old(self).head(),
            final(self).debugging() == old(self).debugging(),
            final(self).last_response() == old(self).last_response(),
            final(self).wf() == old(self).wf(),
    {
        let ghost old_msg = self.msg@;
        assert(old_msg.len() == MAX_MSG_SIZE);
        self.msg[1] = size;
        self.msg[2] = opcode;
        let n: usize = size as usize;
        let mut x: usize = 0;
        while x < n
            invariant
                n == size as usize,
                n <= 250,
                x <= n,
                self.msg@.len() == MAX_MSG_SIZE,
                old_msg.len() == MAX_MSG_SIZE,
                self.msg@[1] == size,
                self.msg@[2] == opcode,
                self.msg@[0] == old_msg[0],
                self.msg_head == old(self).msg_head,
                self.print_debug == old(self).print_debug,
                self.response_error == old(self).response_error,
                forall|j: int|
                    3 <= j < 3 + x ==> #[trigger] self.msg@[j] == payload_byte(old_msg, data@, j),
                forall|j: int| 3 + x <= j < MAX_MSG_SIZE ==> self.msg@[j] == old_msg[j],
            decreases n - x,
        {
            let ghost before = self.msg@;
            if x < data.len() {
                self.msg[x + 3] = data[x];
            }
            assert(forall|j: int| 0 <= j < MAX_MSG_SIZE && j != x + 3 ==> self.msg@[j] == before[j]);
            x = x + 1;
        }
        let ghost mid = self.msg@;
        self.frame_command(size);
        proof {
            let payload = Seq::new(size as nat, |j: int| payload_byte(old_msg, data@, j + 3));
            let body = seq![size, opcode] + payload;
            assert forall|j: int| 0 <= j < size implies #[trigger] mid[3 + j] == payload[j] by {
                assert(mid[3 + j] == payload_byte(old_msg, data@, 3 + j));
            }
            assert(mid.subrange(1, size + 3) =~= body);
            assert(mid.subrange(size + 5, MAX_MSG_SIZE as int) =~= old_msg.subrange(
                size + 5,
                old_msg.len() as int,
            ));
            assert(self.msg@ =~= command_buffer(old_msg, opcode, data@, size));
        }
        Command { frame_len: n + 5, opcode, time_out, wait_for_response }
    }

    /// Stores a byte of the response to the command just sent at the position
    /// that `reception` has reached; the byte at position 1 is the length byte
    /// and fixes the length of the response. The position wraps around the
    /// buffer.
    pub fn receive_byte(&mut self, reception: &mut Reception, byte: u8)
        requires
            old(reception).spot < MAX_MSG_SIZE,
        ensures
            (final(self).buffer(), final(reception).spot as int, final(reception).message_length as int)
                == receive_step(
                old(self).buffer(),
                old(reception).spot as int,
                old(reception).message_length as int,
                byte,
            ),
            final(self).head() == old(self).head(),
            final(self).debugging() == old(self).debugging(),
            final(self).last_response() == old(self).last_response(),
            final(self).wf() == old(self).wf(),
    {
        let spot = reception.spot;
        self.msg[spot] = byte;
        if spot == 1 {
            reception.message_length = self.msg[1] as usize + 7;
        }
        reception.spot = (spot + 1) % MAX_MSG_SIZE;
    }

    /// Records that the module did not answer in time.
    pub fn record_timeout(&mut self)
        ensures
            final(self).last_response() == Some(ResponseError::ErrorCommandResponseTimeout),
            final(self).buffer() == old(self).buffer(),
            final(self).head() == old(self).head(),
            final(self).debugging() == old(self).debugging(),
            final(self).wf() == old(self).wf(),
    {
        self.response_error = Some(ResponseError::ErrorCommandResponseTimeout);
    }

    /// Judges the response of `message_length` bytes now in the buffer against
    /// the command with opcode `opcode` and records the verdict (see
    /// `response_check`).
    pub fn finish_response(&mut self, opcode: u8, message_length: usize)
        requires
            3 <= message_length < MAX_MSG_SIZE,
        ensures
            final(self).last_response() == Some(
                response_check(old(self).buffer(), opcode, message_length as int),
            ),
            final(self).buffer() == old(self).buffer(),
            final(self).head() == old(self).head(),
            final(self).debugging() == old(self).debugging(),
            final(self).wf() == old(self).wf(),
    {
        let rest = vstd::slice::slice_subrange(self.msg.as_slice(), 1, MAX_MSG_SIZE);
        let crc = calculate_crc(rest, message_length - 3);
        proof {
            assert(rest@.take(message_length - 3) =~= self.msg@.subrange(1, message_length - 2));
        }
        let msb_crc = (crc >> 8u16) as u8;
        let lsb_crc = (crc & 0xFFu16) as u8;
        if self.msg[message_length - 2] != msb_crc || self.msg[message_length - 1] != lsb_crc {
            self.response_error = Some(ResponseError::ErrorCorruptResponse);
            return ;
        }
        if self.msg[2] != opcode {
            self.response_error = Some(ResponseError::ErrorWrongOpcodeResponse);
            return ;
        }
        self.response_error = Some(ResponseError::AllGood);
    }

    /// Takes one byte that arrived while the reader watches for messages (see
    /// `check_step`); true when it completed a message, which then stands at
    /// the start of the buffer.
    pub fn check_byte(&mut self, byte: u8) -> (complete: bool)
        requires
            old(self).wf(),
        ensures
            final(self).wf(),
            detector_ok(old(self).buffer(), old(self).head()) ==> detector_ok(
                final(self).buffer(),
                final(self).head(),
            ),
            (final(self).buffer(), final(self).head(), complete) == check_step(
                old(self).buffer(),
                old(self).head(),
                byte,
            ),
            final(self).debugging() == old(self).debugging(),
            final(self).last_response() == old(self).last_response(),
    {
        if self.msg_head == 0 && byte != 0xFF {
            return false;
        }
        let ghost old_msg = self.msg@;
        self.msg[self.msg_head] = byte;
        let ghost m = self.msg@;
        self.msg_head = (self.msg_head + 1) % MAX_MSG_SIZE;
        if self.msg_head > 0 && self.msg_head == self.msg[1] as usize + 7 {
            let head = self.msg_head;
            let mut x: usize = head;
            while x < MAX_MSG_SIZE
                invariant
                    head <= x <= MAX_MSG_SIZE,
                    m.len() == MAX_MSG_SIZE,
                    self.msg@.len() == MAX_MSG_SIZE,
                    self.msg_head == head,
                    self.print_debug == old(self).print_debug,
                    self.response_error == old(self).response_error,
                    forall|i: int| 0 <= i < x ==> #[trigger] self.msg@[i] == (if i < head {
                        m[i]
                    } else {
                        0u8
                    }),
                    forall|i: int| x <= i < MAX_MSG_SIZE ==> #[trigger] self.msg@[i] == m[i],
                decreases MAX_MSG_SIZE - x,
            {
                self.msg[x] = 0;
                x = x + 1;
            }
            self.msg_head = 0;
            assert(self.msg@ =~= Seq::new(m.len(), |i: int| if i < head { m[i] } else { 0u8 }));
            return true;
        }
        false
    }

    /// Classifies the message of length `msg[1] + 7` that `check_byte` just
    /// completed (see `response_kind`).
    pub fn parse_response(&self) -> (kind: ResponseError)
        requires
            self.buffer()[1] <= 248,
        ensures
            kind == response_kind(self.buffer()),
    {
        let message_length: usize = self.msg[1] as usize + 7;
        let opcode = self.msg[2];
        let rest = vstd::slice::slice_subrange(self.msg.as_slice(), 1, MAX_MSG_SIZE);
        let message_crc = calculate_crc(rest, message_length - 3);
        proof {
            assert(rest@.take(message_length - 3) =~= self.msg@.subrange(1, message_length - 2));
        }
        let msb_crc = (message_crc >> 8u16) as u8;
        let lsb_crc = (message_crc & 0xFFu16) as u8;
        if self.msg[message_length - 2] != msb_crc || self.msg[message_length - 1] != lsb_crc {
            return ResponseError::ErrorCorruptResponse;
        }
        if opcode == TMR_SR_OPCODE_READ_TAG_ID_MULTIPLE {
            if self.msg[1] == 0x00 {
                let status_message: u16 = ((self.msg[3] as u16) << 8u16) | (self.msg[4] as u16);
                proof {
                    let a = self.msg@[3];
                    let b = self.msg@[4];
                    assert(((a as u16) << 8u16) | (b as u16) == a as int * 256 + b as int)
                        by (bit_vector);
                }
                match status_message {
                    0x0400 => ResponseError::ResponseIsKeepAlive,
                    0x0504 => ResponseError::ResponseIsTempThrottle,
                    0x0505 => ResponseError::ResponseIsHighReturnLoss,
                    _ => ResponseError::ResponseIsUnknown,
                }
            } else if self.msg[1] == 0x08 {
                ResponseError::ResponseIsUnknown
            } else if self.msg[1] == 0x0a {
                ResponseError::ResponseIsTemperature
            } else {
                ResponseError::ResposneIsTagFound
            }
        } else {
            ResponseError::ErrorUnknownOpcode
        }
    }

    /// The text that shows the message in the buffer: each of its first
    /// `msg[1] + 5` bytes (at most the whole buffer) as ` [..]`, then a line
    /// break.
    pub fn message_array_text(&self) -> (text: Vec<u8>)
        ensures
            text@ == bytes_text(self.buffer().take(printed_length(self.buffer()))) + seq![
                0x0Du8,
                0x0Au8,
            ],
    {
        let amount_to_print: usize = if (self.msg[1] as usize) + 5 < MAX_MSG_SIZE {
            (self.msg[1] as usize) + 5
        } else {
            MAX_MSG_SIZE
        };
        let mut text: Vec<u8> = Vec::new();
        let mut x: usize = 0;
        while x < amount_to_print
            invariant
                amount_to_print <= MAX_MSG_SIZE,
                amount_to_print == printed_length(self.msg@),
                x <= amount_to_print,
                self.msg@.len() == MAX_MSG_SIZE,
                text@ == bytes_text(self.msg@.take(x as int)),
            decreases amount_to_print - x,
        {
            let byte = self.msg[x];
            text.push(0x20);
            text.push(0x5B);
            let digits = hex_byte(byte);
            text.push(digits[0]);
            text.push(digits[1]);
            text.push(0x5D);
            proof {
                assert(self.msg@.take(x + 1).drop_last() =~= self.msg@.take(x as int));
                assert(text@ =~= bytes_text(self.msg@.take(x as int)) + byte_text(byte));
            }
            x = x + 1;
        }
        text.push(0x0D);
        text.push(0x0A);
        text
    }

    /// The number of bytes of embedded tag data in the tag record in the
    /// buffer.
    pub fn get_tag_data_bytes(&self) -> (n: u8)
        requires
            tag_data_length(self.buffer()) <= 2040,
        ensures
            n == tag_data_bytes(self.buffer()),
    {
        let a = self.msg[24];
        let b = self.msg[25];
        let tag_data_length: u16 = ((a as u16) << 8u16) | (b as u16);
        assert(((a as u16) << 8u16) | (b as u16) == a as int * 256 + b as int) by (bit_vector);
        ((tag_data_length + 7) / 8) as u8
    }

    /// The number of EPC bytes of the tag record in the buffer, without the
    /// two protocol-control and the two CRC bytes.
    pub fn get_tag_epc_bytes(&self) -> (n: u8)
        requires
            tag_data_length(self.buffer()) <= 2040,
            28 + tag_data_bytes(self.buffer()) < MAX_MSG_SIZE,
            4 <= tag_epc_bits(self.buffer()) / 8 <= 259,
        ensures
            n == tag_epc_bits(self.buffer()) / 8 - 4,
    {
        let tag_data_bytes: usize = self.get_tag_data_bytes() as usize;
        let a = self.msg[27 + tag_data_bytes];
        let b = self.msg[28 + tag_data_bytes];
        let epcs_bits: u16 = ((a as u16) << 8u16) | (b as u16);
        assert(((a as u16) << 8u16) | (b as u16) == a as int * 256 + b as int) by (bit_vector);
        let epc_bytes = epcs_bits / 8;
        (epc_bytes - 4) as u8
    }

    /// The time stamp of the tag record in the buffer: milliseconds since the
    /// last keep-alive message.
    pub fn get_tag_time_stamp(&self) -> (t: u16)
        requires
            self.buffer()[17] == 0,
            self.buffer()[18] == 0,
        ensures
            t == self.buffer()[19] as int * 256 + self.buffer()[20] as int,
    {
        let a = self.msg[17];
        let b = self.msg[18];
        let c = self.msg[19];
        let d = self.msg[20];
        let time_stamp: u32 = ((a as u32) << 24u32) | ((b as u32) << 16u32) | ((c as u32) << 8u32)
            | (d as u32);
        assert(a == 0 && b == 0 ==> ((a as u32) << 24u32) | ((b as u32) << 16u32) | ((c as u32)
            << 8u32) | (d as u32) == c as int * 256 + d as int) by (bit_vector);
        time_stamp as u16
    }

    /// The frequency, in kHz, at which the tag of the record in the buffer was
    /// read.
    pub fn get_tag_freq(&self) -> (f: u32)
        ensures
            f == self.buffer()[14] as int * 65536 + self.buffer()[15] as int * 256
                + self.buffer()[16] as int,
    {
        let a = self.msg[14];
        let b = self.msg[15];
        let c = self.msg[16];
        assert(((a as u32) << 16u32) | ((b as u32) << 8u32) | (c as u32) == a as int * 65536
            + b as int * 256 + c as int) by (bit_vector);
        ((a as u32) << 16u32) | ((b as u32) << 8u32) | (c as u32)
    }

    /// The signal strength of the tag record in the buffer: byte 12 read as a
    /// signed number.
    pub fn get_tag_rssi(&self) -> (rssi: i8)
        ensures
            rssi == (if self.buffer()[12] < 128 {
                self.buffer()[12] as int
            } else {
                self.buffer()[12] as int - 256
            }),
    {
        let b = self.msg[12];
        assert((b as i8) as int == (if b < 128 {
            b as int
        } else {
            b as int - 256
        })) by (bit_vector);
        b as i8
    }

    /// Frames the command that sets the optional reader parameters `option1` and
    /// `option2`.
    pub fn set_read_configuration(&mut self, option1: u8, option2: u8) -> (cmd: Command)
        ensures
            final(self).buffer() == command_buffer(
                old(self).buffer(),
                TMR_SR_OPCODE_SET_READER_OPTIONAL_PARAMS,
                seq![1u8, option1, option2],
                3u8,
            ),
            cmd == (Command {
                frame_len: (3u8 + 5) as usize,
                opcode: TMR_SR_OPCODE_SET_READER_OPTIONAL_PARAMS,
                time_out: COMMAND_TIME_OUT,
                wait_for_response: true,
            }),
            final(self).head() == old(self).head(),
            final(self).debugging() == old(self).debugging(),
            final(self).last_response() == old(self).last_response(),
            final(self).wf() == old(self).wf(),
    {
        let data: [u8; 3] = [1, option1, option2];
        assert(data@ =~= seq![1u8, option1, option2]);
        self.send_message(
            TMR_SR_OPCODE_SET_READER_OPTIONAL_PARAMS,
            data.as_slice(),
            3,
            COMMAND_TIME_OUT,
            true,
        )
    }

    /// Frames the command that asks for the optional reader parameters
    /// `option1` and `option2`.
    pub fn get_optional_parameters(&mut self, option1: u8, option2: u8) -> (cmd: Command)
        ensures
            final(self).buffer() == command_buffer(
                old(self).buffer(),
                TMR_SR_OPCODE_GET_READER_OPTIONAL_PARAMS,
                seq![option1, option2],
                2u8,
            ),
            cmd == (Command {
                frame_len: (2u8 + 5) as usize,
                opcode: TMR_SR_OPCODE_GET_READER_OPTIONAL_PARAMS,
                time_out: COMMAND_TIME_OUT,
                wait_for_response: true,
            }),
            final(self).head() == old(self).head(),
            final(self).debugging() == old(self).debugging(),
            final(self).last_response() == old(self).last_response(),
            final(self).wf() == old(self).wf(),
    {
        let data: [u8; 2] = [option1, option2];
        assert(data@ =~= seq![option1, option2]);
        self.send_message(
            TMR_SR_OPCODE_GET_READER_OPTIONAL_PARAMS,
            data.as_slice(),
            2,
            COMMAND_TIME_OUT,
            true,
        )
    }

    /// Frames the command that asks for the firmware version.
    pub fn get_version(&mut self) -> (cmd: Command)
        ensures
            final(self).buffer() == command_buffer(
                old(self).buffer(),
                TMR_SR_OPCODE_VERSION,
                Seq::<u8>::empty(),
                0u8,
            ),
            cmd == (Command {
                frame_len: (0u8 + 5) as usize,
                opcode: TMR_SR_OPCODE_VERSION,
                time_out: COMMAND_TIME_OUT,
                wait_for_response: true,
            }),
            final(self).head() == old(self).head(),
            final(self).debugging() == old(self).debugging(),
            final(self).last_response() == old(self).last_response(),
            final(self).wf() == old(self).wf(),
    {
        let data: [u8; 0] = [];
        assert(data@ =~= Seq::<u8>::empty());
        self.send_message(TMR_SR_OPCODE_VERSION, data.as_slice(), 0, COMMAND_TIME_OUT, true)
    }

    /// Frames the command that sets the read TX power, in hundredths of a dBm;
    /// the setting is limited to 2700 (27.00 dBm).
    pub fn set_read_power(&mut self, power_setting: u16) -> (cmd: Command)
        ensures
            final(self).buffer() == command_buffer(
                old(self).buffer(),
                TMR_SR_OPCODE_SET_READ_TX_POWER,
                be16(if power_setting <= 2700 { power_setting } else { 2700u16 }),
                2u8,
            ),
            cmd == (Command {
                frame_len: (2u8 + 5) as usize,
                opcode: TMR_SR_OPCODE_SET_READ_TX_POWER,
                time_out: COMMAND_TIME_OUT,
                wait_for_response: true,
            }),
            final(self).head() == old(self).head(),
            final(self).debugging() == old(self).debugging(),
            final(self).last_response() == old(self).last_response(),
            final(self).wf() == old(self).wf(),
    {
        let power_setting: u16 = if power_setting <= 2700 { power_setting } else { 2700 };
        let data: [u8; 2] = [(power_setting >> 8u16) as u8, (power_setting & 0xFFu16) as u8];
        assert(data@ =~= be16(power_setting));
        self.send_message(TMR_SR_OPCODE_SET_READ_TX_POWER, data.as_slice(), 2, COMMAND_TIME_OUT, true)
    }

    /// Frames the command that asks for the read TX power.
    pub fn get_read_power(&mut self) -> (cmd: Command)
        ensures
            final(self).buffer() == command_buffer(
                old(self).buffer(),
                TMR_SR_OPCODE_GET_READ_TX_POWER,
                seq![0u8],
                1u8,
            ),
            cmd == (Command {
                frame_len: (1u8 + 5) as usize,
                opcode: TMR_SR_OPCODE_GET_READ_TX_POWER,
                time_out: COMMAND_TIME_OUT,
                wait_for_response: true,
            }),
            final(self).head() == old(self).head(),
            final(self).debugging() == old(self).debugging(),
            final(self).last_response() == old(self).last_response(),
            final(self).wf() == old(self).wf(),
    {
        let data: [u8; 1] = [0];
        assert(data@ =~= seq![0u8]);
        self.send_message(TMR_SR_OPCODE_GET_READ_TX_POWER, data.as_slice(), 1, COMMAND_TIME_OUT, true)
    }

    /// Frames the command that sets the write TX power, in hundredths of a dBm.
    pub fn set_write_power(&mut self, power_setting: u16) -> (cmd: Command)
        ensures
            final(self).buffer() == command_buffer(
                old(self).buffer(),
                TMR_SR_OPCODE_SET_WRITE_TX_POWER,
                be16(power_setting),
                2u8,
            ),
            cmd == (Command {
                frame_len: (2u8 + 5) as usize,
                opcode: TMR_SR_OPCODE_SET_WRITE_TX_POWER,
                time_out: COMMAND_TIME_OUT,
                wait_for_response: true,
            }),
            final(self).head() == old(self).head(),
            final(self).debugging() == old(self).debugging(),
            final(self).last_response() == old(self).last_response(),
            final(self).wf() == old(self).wf(),
    {
        let data: [u8; 2] = [(power_setting >> 8u16) as u8, (power_setting & 0xFFu16) as u8];
        assert(data@ =~= be16(power_setting));
        self.send_message(TMR_SR_OPCODE_SET_WRITE_TX_POWER, data.as_slice(), 2, COMMAND_TIME_OUT, true)
    }

    /// Frames the command that asks for the write TX power.
    pub fn get_write_power(&mut self) -> (cmd: Command)
        ensures
            final(self).buffer() == command_buffer(
                old(self).buffer(),
                TMR_SR_OPCODE_GET_WRITE_TX_POWER,
                seq![0u8],
                1u8,
            ),
            cmd == (Command {
                frame_len: (1u8 + 5) as usize,
                opcode: TMR_SR_OPCODE_GET_WRITE_TX_POWER,
                time_out: COMMAND_TIME_OUT,
                wait_for_response: true,
            }),
            final(self).head() == old(self).head(),
            final(self).debugging() == old(self).debugging(),
            final(self).last_response() == old(self).last_response(),
            final(self).wf() == old(self).wf(),
    {
        let data: [u8; 1] = [0];
        assert(data@ =~= seq![0u8]);
        self.send_message(TMR_SR_OPCODE_GET_WRITE_TX_POWER, data.as_slice(), 1, COMMAND_TIME_OUT, true)
    }

    /// Frames the command that reads memory bank `bank` of a tag from `address`
    /// on (the whole bank). The result is taken with `read_data_result` once the
    /// response is in.
    pub fn read_data(&mut self, bank: u8, address: u32, time_out: u16) -> (cmd: Command)
        ensures
            final(self).buffer() == command_buffer(
                old(self).buffer(),
                TMR_SR_OPCODE_READ_TAG_DATA,
                read_data_payload(bank, address, time_out),
                11u8,
            ),
            cmd == (Command {
                frame_len: (11u8 + 5) as usize,
                opcode: TMR_SR_OPCODE_READ_TAG_DATA,
                time_out: time_out,
                wait_for_response: true,
            }),
            final(self).head() == old(self).head(),
            final(self).debugging() == old(self).debugging(),
            final(self).last_response() == old(self).last_response(),
            final(self).wf() == old(self).wf(),
    {
        let data: [u8; 11] = [
            (time_out >> 8u16) as u8,
            (time_out & 0xFFu16) as u8,
            0x10,
            0x00,
            0x00,
            bank,
            (address >> 24u32) as u8,
            ((address >> 16u32) & 0xFFu32) as u8,
            ((address >> 8u32) & 0xFFu32) as u8,
            (address & 0xFFu32) as u8,
            0x00,
        ];
        assert(data@ =~= read_data_payload(bank, address, time_out));
        self.send_message(TMR_SR_OPCODE_READ_TAG_DATA, data.as_slice(), 11, time_out, true)
    }

    /// Frames the command that writes `data_to_record` to memory bank `bank` of
    /// a tag from `address` on. The result is taken with `write_data_result` once
    /// the response is in.
    pub fn write_data(&mut self, bank: u8, address: u32, data_to_record: &[u8], time_out: u16) -> (cmd: Command)
        requires
            data_to_record@.len() <= 242,
        ensures
            final(self).buffer() == command_buffer(
                old(self).buffer(),
                TMR_SR_OPCODE_WRITE_TAG_DATA,
                write_data_payload(bank, address, data_to_record@, time_out),
                (8 + data_to_record@.len()) as u8,
            ),
            cmd == (Command {
                frame_len: ((8 + data_to_record@.len()) as u8 + 5) as usize,
                opcode: TMR_SR_OPCODE_WRITE_TAG_DATA,
                time_out: time_out,
                wait_for_response: true,
            }),
            final(self).head() == old(self).head(),
            final(self).debugging() == old(self).debugging(),
            final(self).last_response() == old(self).last_response(),
            final(self).wf() == old(self).wf(),
    {
        let mut data: Vec<u8> = Vec::new();
        data.push((time_out >> 8u16) as u8);
        data.push((time_out & 0xFFu16) as u8);
        data.push(0x00);
        data.push((address >> 24u32) as u8);
        data.push(((address >> 16u32) & 0xFFu32) as u8);
        data.push(((address >> 8u32) & 0xFFu32) as u8);
        data.push((address & 0xFFu32) as u8);
        data.push(bank);
        let mut i: usize = 0;
        while i < data_to_record.len()
            invariant
                i <= data_to_record@.len(),
                data@ == write_data_payload(bank, address, data_to_record@.take(i as int), time_out),
            decreases data_to_record@.len() - i,
        {
            data.push(data_to_record[i]);
            proof {
                assert(data_to_record@.take(i + 1) =~= data_to_record@.take(i as int).push(
                    data_to_record@[i as int],
                ));
                assert(data@ =~= write_data_payload(
                    bank,
                    address,
                    data_to_record@.take(i + 1),
                    time_out,
                ));
            }
            i = i + 1;
        }
        assert(data_to_record@.take(i as int) =~= data_to_record@);
        let size = (8 + data_to_record.len()) as u8;
        self.send_message(TMR_SR_OPCODE_WRITE_TAG_DATA, data.as_slice(), size, time_out, true)
    }

    /// Frames the command that kills a tag with the kill password `password`.
    /// The result is taken with `kill_tag_result` once the response is in.
    pub fn kill_tag(&mut self, password: &[u8], time_out: u16) -> (cmd: Command)
        requires
            password@.len() <= 246,
        ensures
            final(self).buffer() == command_buffer(
                old(self).buffer(),
                TMR_SR_OPCODE_KILL_TAG,
                kill_tag_payload(password@, time_out),
                (4 + password@.len()) as u8,
            ),
            cmd == (Command {
                frame_len: ((4 + password@.len()) as u8 + 5) as usize,
                opcode: TMR_SR_OPCODE_KILL_TAG,
                time_out: time_out,
                wait_for_response: true,
            }),
            final(self).head() == old(self).head(),
            final(self).debugging() == old(self).debugging(),
            final(self).last_response() == old(self).last_response(),
            final(self).wf() == old(self).wf(),
    {
        let mut data: Vec<u8> = Vec::new();
        data.push((time_out >> 8u16) as u8);
        data.push((time_out & 0xFFu16) as u8);
        data.push(0x00);
        let mut i: usize = 0;
        while i < password.len()
            invariant
                i <= password@.len(),
                data@ == be16(time_out) + seq![0x00u8] + password@.take(i as int),
            decreases password@.len() - i,
        {
            data.push(password[i]);
            proof {
                assert(password@.take(i + 1) =~= password@.take(i as int).push(password@[i as int]));
            }
            i = i + 1;
        }
        data.push(0x00);
        assert(password@.take(i as int) =~= password@);
        assert(data@ =~= kill_tag_payload(password@, time_out));
        let size = (4 + password.len()) as u8;
        self.send_message(TMR_SR_OPCODE_KILL_TAG, data.as_slice(), size, time_out, true)
    }

    /// Frames the read of a single EPC: the EPC bank (bank 1) from address 2.
    pub fn read_tag_epc(&mut self, time_out: u16) -> (cmd: Command)
        ensures
            final(self).buffer() == command_buffer(
                old(self).buffer(),
                TMR_SR_OPCODE_READ_TAG_DATA,
                read_data_payload(0x01u8, 2u32, time_out),
                11u8,
            ),
            cmd == (Command {
                frame_len: 16,
                opcode: TMR_SR_OPCODE_READ_TAG_DATA,
                time_out,
                wait_for_response: true,
            }),
            final(self).head() == old(self).head(),
            final(self).debugging() == old(self).debugging(),
            final(self).last_response() == old(self).last_response(),
            final(self).wf() == old(self).wf(),
    {
        self.read_data(0x01u8, 2u32, time_out)
    }

    /// Frames the write of a new EPC, `new_id`, to the EPC bank (bank 1) from
    /// address 2. The module writes it to the first tag that hears the command.
    pub fn write_tag_epc(&mut self, new_id: &[u8], time_out: u16) -> (cmd: Command)
        requires
            new_id@.len() <= 242,
        ensures
            final(self).buffer() == command_buffer(
                old(self).buffer(),
                TMR_SR_OPCODE_WRITE_TAG_DATA,
                write_data_payload(0x01u8, 2u32, new_id@, time_out),
                (8 + new_id@.len()) as u8,
            ),
            cmd == (Command {
                frame_len: (8 + new_id@.len() + 5) as usize,
                opcode: TMR_SR_OPCODE_WRITE_TAG_DATA,
                time_out,
                wait_for_response: true,
            }),
            final(self).head() == old(self).head(),
            final(self).debugging() == old(self).debugging(),
            final(self).last_response() == old(self).last_response(),
            final(self).wf() == old(self).wf(),
    {
        self.write_data(0x01u8, 2u32, new_id, time_out)
    }

    /// Frames the read of the user memory bank (bank 3) from address 0; up to
    /// 64 bytes are normally there.
    pub fn read_user_data(&mut self, time_out: u16) -> (cmd: Command)
        ensures
            final(self).buffer() == command_buffer(
                old(self).buffer(),
                TMR_SR_OPCODE_READ_TAG_DATA,
                read_data_payload(3u8, 0u32, time_out),
                11u8,
            ),
            cmd == (Command {
                frame_len: 16,
                opcode: TMR_SR_OPCODE_READ_TAG_DATA,
                time_out,
                wait_for_response: true,
            }),
            final(self).head() == old(self).head(),
            final(self).debugging() == old(self).debugging(),
            final(self).last_response() == old(self).last_response(),
            final(self).wf() == old(self).wf(),
    {
        self.read_data(3u8, 0u32, time_out)
    }

    /// Frames the write of `user_data` to the user memory bank (bank 3) from
    /// address 0.
    pub fn write_user_data(&mut self, user_data: &[u8], time_out: u16) -> (cmd: Command)
        requires
            user_data@.len() <= 242,
        ensures
            final(self).buffer() == command_buffer(
                old(self).buffer(),
                TMR_SR_OPCODE_WRITE_TAG_DATA,
                write_data_payload(3u8, 0u32, user_data@, time_out),
                (8 + user_data@.len()) as u8,
            ),
            cmd == (Command {
                frame_len: (8 + user_data@.len() + 5) as usize,
                opcode: TMR_SR_OPCODE_WRITE_TAG_DATA,
                time_out,
                wait_for_response: true,
            }),
            final(self).head() == old(self).head(),
            final(self).debugging() == old(self).debugging(),
            final(self).last_response() == old(self).last_response(),
            final(self).wf() == old(self).wf(),
    {
        self.write_data(3u8, 0u32, user_data, time_out)
    }

    /// Frames the write of the kill password (bank 0, address 0); it should be
    /// four bytes long.
    pub fn write_kill_pw(&mut self, password: &[u8], time_out: u16) -> (cmd: Command)
        requires
            password@.len() <= 242,
        ensures
            final(self).buffer() == command_buffer(
                old(self).buffer(),
                TMR_SR_OPCODE_WRITE_TAG_DATA,
                write_data_payload(0u8, 0u32, password@, time_out),
                (8 + password@.len()) as u8,
            ),
            cmd == (Command {
                frame_len: (8 + password@.len() + 5) as usize,
                opcode: TMR_SR_OPCODE_WRITE_TAG_DATA,
                time_out,
                wait_for_response: true,
            }),
            final(self).head() == old(self).head(),
            final(self).debugging() == old(self).debugging(),
            final(self).last_response() == old(self).last_response(),
            final(self).wf() == old(self).wf(),
    {
        self.write_data(0u8, 0u32, password, time_out)
    }

    /// Frames the read of the kill password (bank 0, address 0).
    pub fn read_kill_rw(&mut self, time_out: u16) -> (cmd: Command)
        ensures
            final(self).buffer() == command_buffer(
                old(self).buffer(),
                TMR_SR_OPCODE_READ_TAG_DATA,
                read_data_payload(0u8, 0u32, time_out),
                11u8,
            ),
            cmd == (Command {
                frame_len: 16,
                opcode: TMR_SR_OPCODE_READ_TAG_DATA,
                time_out,
                wait_for_response: true,
            }),
            final(self).head() == old(self).head(),
            final(self).debugging() == old(self).debugging(),
            final(self).last_response() == old(self).last_response(),
            final(self).wf() == old(self).wf(),
    {
        self.read_data(0u8, 0u32, time_out)
    }

    /// Frames the write of the access password (bank 0, address 2); it should be
    /// four bytes long.
    pub fn write_access_pw(&mut self, password: &[u8], time_out: u16) -> (cmd: Command)
        requires
            password@.len() <= 242,
        ensures
            final(self).buffer() == command_buffer(
                old(self).buffer(),
                TMR_SR_OPCODE_WRITE_TAG_DATA,
                write_data_payload(0u8, 2u32, password@, time_out),
                (8 + password@.len()) as u8,
            ),
            cmd == (Command {
                frame_len: (8 + password@.len() + 5) as usize,
                opcode: TMR_SR_OPCODE_WRITE_TAG_DATA,
                time_out,
                wait_for_response: true,
            }),
            final(self).head() == old(self).head(),
            final(self).debugging() == old(self).debugging(),
            final(self).last_response() == old(self).last_response(),
            final(self).wf() == old(self).wf(),
    {
        self.write_data(0u8, 2u32, password, time_out)
    }

    /// Frames the read of the access password (bank 0, address 2).
    pub fn read_access_pw(&mut self, time_out: u16) -> (cmd: Command)
        ensures
            final(self).buffer() == command_buffer(
                old(self).buffer(),
                TMR_SR_OPCODE_READ_TAG_DATA,
                read_data_payload(0u8, 2u32, time_out),
                11u8,
            ),
            cmd == (Command {
                frame_len: 16,
                opcode: TMR_SR_OPCODE_READ_TAG_DATA,
                time_out,
                wait_for_response: true,
            }),
            final(self).head() == old(self).head(),
            final(self).debugging() == old(self).debugging(),
            final(self).last_response() == old(self).last_response(),
            final(self).wf() == old(self).wf(),
    {
        self.read_data(0u8, 2u32, time_out)
    }

    /// Frames the read of the tag's unique id from the TID bank (bank 2, address
    /// 2).
    pub fn read_tid(&mut self, time_out: u16) -> (cmd: Command)
        ensures
            final(self).buffer() == command_buffer(
                old(self).buffer(),
                TMR_SR_OPCODE_READ_TAG_DATA,
                read_data_payload(2u8, 2u32, time_out),
                11u8,
            ),
            cmd == (Command {
                frame_len: 16,
                opcode: TMR_SR_OPCODE_READ_TAG_DATA,
                time_out,
                wait_for_response: true,
            }),
            final(self).head() == old(self).head(),
            final(self).debugging() == old(self).debugging(),
            final(self).last_response() == old(self).last_response(),
            final(self).wf() == old(self).wf(),
    {
        self.read_data(2u8, 2u32, time_out)
    }

    /// Frames the read of the unique id of a tag from the TID bank (bank 2,
    /// address 2).
    pub fn read_uid(&mut self, time_out: u16) -> (cmd: Command)
        ensures
            final(self).buffer() == command_buffer(
                old(self).buffer(),
                TMR_SR_OPCODE_READ_TAG_DATA,
                read_data_payload(2u8, 2u32, time_out),
                11u8,
            ),
            cmd == (Command {
                frame_len: 16,
                opcode: TMR_SR_OPCODE_READ_TAG_DATA,
                time_out,
                wait_for_response: true,
            }),
            final(self).head() == old(self).head(),
            final(self).debugging() == old(self).debugging(),
            final(self).last_response() == old(self).last_response(),
            final(self).wf() == old(self).wf(),
    {
        self.read_data(2u8, 2u32, time_out)
    }

    /// The status that the last response carries in bytes 3 and 4.
    fn response_status(&self) -> (status: u16)
        ensures
            status == status_of(self.buffer()),
    {
        let a = self.msg[3];
        let b = self.msg[4];
        assert(((a as u16) << 8u16) | (b as u16) == a as int * 256 + b as int) by (bit_vector);
        ((a as u16) << 8u16) | (b as u16)
    }

    /// The outcome of a tag-data write whose response is in: success when the
    /// response came in good order with status zero.
    pub fn write_data_result(&self) -> (r: Result<(), ResponseError>)
        ensures
            r == (if command_succeeded(self.last_response(), self.buffer()) {
                Ok(())
            } else {
                Err(ResponseError::ResponseFail)
            }),
    {
        if self.response_error == Some(ResponseError::AllGood) {
            if self.response_status() == 0x0000 {
                return Ok(());
            }
        }
        Err(ResponseError::ResponseFail)
    }

    /// The outcome of a kill command whose response is in: success when the
    /// response came in good order with status zero.
    pub fn kill_tag_result(&self) -> (r: ResponseError)
        ensures
            r == (if command_succeeded(self.last_response(), self.buffer()) {
                ResponseError::ResponseSuccess
            } else {
                ResponseError::ResponseFail
            }),
    {
        if self.response_error == Some(ResponseError::AllGood) {
            if self.response_status() == 0x0000 {
                return ResponseError::ResponseSuccess;
            }
        }
        ResponseError::ResponseFail
    }

    /// The outcome of a tag-data read whose response is in. On success, the
    /// response carries `msg[1] - 3` data bytes from byte 8 on; as many of them
    /// as `data_read` holds are copied to its start and their number is
    /// returned. Otherwise `data_read` is left as it was.
    pub fn read_data_result(&self, data_read: &mut [u8]) -> (r: Result<usize, ResponseError>)
        requires
            command_succeeded(self.last_response(), self.buffer()) ==> {
                &&& self.buffer()[1] >= 3
                &&& self.buffer()[1] - 3 <= old(data_read)@.len() ==> self.buffer()[1] + 5
                    <= MAX_MSG_SIZE
                &&& old(data_read)@.len() <= self.buffer()[1] - 3 ==> old(data_read)@.len() + 8
                    <= MAX_MSG_SIZE
            },
        ensures
            command_succeeded(self.last_response(), self.buffer()) ==> {
                let n = if self.buffer()[1] - 3 <= old(data_read)@.len() {
                    self.buffer()[1] - 3
                } else {
                    old(data_read)@.len() as int
                };
                &&& r == Ok::<usize, ResponseError>(n as usize)
                &&& final(data_read)@ == copy_tag_data(old(data_read)@, self.buffer(), n)
            },
            !command_succeeded(self.last_response(), self.buffer()) ==> {
                &&& r == Err::<usize, ResponseError>(ResponseError::ResponseFail)
                &&& final(data_read)@ == old(data_read)@
            },
    {
        if self.response_error == Some(ResponseError::AllGood) {
            if self.response_status() == 0x0000 {
                let response_length: u8 = self.msg[1] - 3;
                let data_length_read: usize = if (response_length as usize) < data_read.len() {
                    response_length as usize
                } else {
                    data_read.len()
                };
                let ghost original = data_read@;
                let mut x: usize = 0;
                while x < data_length_read
                    invariant
                        x <= data_length_read,
                        data_length_read <= original.len(),
                        data_length_read + 8 <= MAX_MSG_SIZE,
                        self.msg@.len() == MAX_MSG_SIZE,
                        data_read@.len() == original.len(),
                        forall|i: int|
                            0 <= i < original.len() ==> #[trigger] data_read@[i] == (if i < x {
                                self.msg@[i + 8]
                            } else {
                                original[i]
                            }),
                    decreases data_length_read - x,
                {
                    data_read[x] = self.msg[x + 8];
                    x = x + 1;
                }
                assert(data_read@ =~= copy_tag_data(original, self.msg@, data_length_read as int));
                return Ok(data_length_read);
            }
        }
        Err(ResponseError::ResponseFail)
    }

    /// Completes the frame of the command held in the buffer: writes the
    /// header byte and appends the checksum of length, opcode and data.
    fn frame_command(&mut self, size: u8)
        requires
            size <= 250,
            old(self).msg@[1] == size,
        ensures
            final(self).msg@ == seq![0xFFu8] + old(self).msg@.subrange(1, size + 3) + be16(
                spec_crc(old(self).msg@.subrange(1, size + 3)),
            ) + old(self).msg@.subrange(size + 5, MAX_MSG_SIZE as int),
            final(self).msg_head == old(self).msg_head,
            final(self).print_debug == old(self).print_debug,
            final(self).response_error == old(self).response_error,
    {
        self.msg[0] = 0xFF;
        let message_length: usize = self.msg[1] as usize;
        let rest = vstd::slice::slice_subrange(self.msg.as_slice(), 1, MAX_MSG_SIZE);
        let crc = calculate_crc(rest, message_length + 2);
        proof {
            assert(rest@.take(message_length + 2) =~= old(self).msg@.subrange(1, size + 3));
        }
        self.msg[message_length + 3] = (crc >> 8u16) as u8;
        self.msg[message_length + 4] = (crc & 0xFFu16) as u8;
        assert(self.msg@ =~= seq![0xFFu8] + old(self).msg@.subrange(1, size + 3) + be16(crc)
            + old(self).msg@.subrange(size + 5, MAX_MSG_SIZE as int));
    }
}

} // verus!

verus! {

/// The state of `check_run` after the first `n` bytes of `noise + frame`,
/// while the message is not yet complete.
proof fn lemma_check_prefix(msg: Seq<u8>, noise: Seq<u8>, frame: Seq<u8>, n: int)
    requires
        msg.len() == MAX_MSG_SIZE,
        forall|i: int| 0 <= i < noise.len() ==> noise[i] != 0xFF,
        frame.len() < MAX_MSG_SIZE,
        frame[0] == 0xFF,
        frame.len() == frame[1] + 7,
        0 <= n < noise.len() + frame.len(),
    ensures
        ({
            let run = check_run(msg, 0, (noise + frame).take(n));
            &&& run.2 == Seq::new(n as nat, |i: int| false)
            &&& run.0.len() == MAX_MSG_SIZE
            &&& n <= noise.len() ==> run.0 == msg && run.1 == 0
            &&& n > noise.len() ==> run.1 == n - noise.len() && forall|j: int|
                0 <= j < n - noise.len() ==> run.0[j] == frame[j]
        }),
    decreases n,
{
    let bytes = noise + frame;
    if n == 0 {
        assert(bytes.take(0) =~= Seq::<u8>::empty());
        assert(Seq::new(0, |i: int| false) =~= Seq::<bool>::empty());
    } else {
        lemma_check_prefix(msg, noise, frame, n - 1);
        assert(bytes.take(n).drop_last() =~= bytes.take(n - 1));
        let before = check_run(msg, 0, bytes.take(n - 1));
        let byte = bytes[n - 1];
        assert(bytes.take(n).last() == byte);
        let step = check_step(before.0, before.1, byte);
        assert(check_run(msg, 0, bytes.take(n)) == (step.0, step.1, before.2.push(step.2)));
        if n <= noise.len() {
            assert(byte == noise[n - 1]);
        } else {
            let k = n - 1 - noise.len();
            assert(byte == frame[k]);
            let m = before.0.update(before.1, byte);
            if k >= 1 {
                assert(m[1] == frame[1]);
            }
            assert(!step.2);
        }
        assert(before.2.push(step.2) =~= Seq::new(n as nat, |i: int| false));
    }
}

/// Receiving messages byte by byte: while the reader is idle, bytes other than
/// the header byte `0xFF` are dropped; a message that starts with `0xFF` and is
/// seven bytes longer than its length byte (and shorter than the buffer) is
/// reported complete exactly when its last byte arrives, and it then stands at
/// the start of the buffer, followed by zeros, with the reader idle again.
pub proof fn lemma_check_receives_message(msg: Seq<u8>, noise: Seq<u8>, frame: Seq<u8>)
    requires
        msg.len() == MAX_MSG_SIZE,
        forall|i: int| 0 <= i < noise.len() ==> noise[i] != 0xFF,
        frame.len() < MAX_MSG_SIZE,
        frame[0] == 0xFF,
        frame.len() == frame[1] + 7,
    ensures
        ({
            let run = check_run(msg, 0, noise + frame);
            &&& run.0 == frame + Seq::new((MAX_MSG_SIZE - frame.len()) as nat, |i: int| 0u8)
            &&& run.1 == 0
            &&& run.2.len() == noise.len() + frame.len()
            &&& forall|i: int|
                0 <= i < run.2.len() ==> run.2[i] == (i == noise.len() + frame.len() - 1)
        }),
{
    let bytes = noise + frame;
    let n = bytes.len() as int;
    lemma_check_prefix(msg, noise, frame, n - 1);
    assert(bytes.take(n) =~= bytes);
    assert(bytes.take(n).drop_last() =~= bytes.take(n - 1));
    let before = check_run(msg, 0, bytes.take(n - 1));
    let byte = bytes[n - 1];
    let k = frame.len() - 1;
    assert(byte == frame[k]);
    let step = check_step(before.0, before.1, byte);
    let m = before.0.update(before.1, byte);
    assert(m[1] == frame[1]);
    assert(step.0 =~= frame + Seq::new((MAX_MSG_SIZE - frame.len()) as nat, |i: int| 0u8));
}

} // verus!

verus! {

/// The state of `receive_run` after the first `k` bytes of a response.
proof fn lemma_receive_prefix(msg: Seq<u8>, frame: Seq<u8>, k: int)
    requires
        msg.len() == MAX_MSG_SIZE,
        frame.len() < MAX_MSG_SIZE,
        frame.len() == frame[1] + 7,
        0 <= k <= frame.len(),
    ensures
        ({
            let run = receive_run(msg, 0, MAX_MSG_SIZE - 1, frame.take(k));
            &&& run.0 == frame.take(k) + msg.subrange(k, MAX_MSG_SIZE as int)
            &&& run.1 == k
            &&& run.2 == (if k >= 2 {
                frame.len() as int
            } else {
                MAX_MSG_SIZE - 1
            })
        }),
    decreases k,
{
    if k == 0 {
        assert(frame.take(0) =~= Seq::<u8>::empty());
        assert(msg.subrange(0, MAX_MSG_SIZE as int) =~= msg);
        assert(Seq::<u8>::empty() + msg =~= msg);
    } else {
        lemma_receive_prefix(msg, frame, k - 1);
        assert(frame.take(k).drop_last() =~= frame.take(k - 1));
        let before = receive_run(msg, 0, MAX_MSG_SIZE - 1, frame.take(k - 1));
        assert(frame.take(k).last() == frame[k - 1]);
        assert(before.0.update(k - 1, frame[k - 1]) =~= frame.take(k) + msg.subrange(
            k,
            MAX_MSG_SIZE as int,
        ));
    }
}

/// Receiving a response: from a fresh `Reception`, a response seven bytes
/// longer than its length byte (and shorter than the buffer) is complete
/// exactly after its last byte; the buffer then holds it, followed by what
/// the buffer held before.
pub proof fn lemma_reception_receives_response(msg: Seq<u8>, frame: Seq<u8>)
    requires
        msg.len() == MAX_MSG_SIZE,
        frame.len() < MAX_MSG_SIZE,
        frame.len() == frame[1] + 7,
    ensures
        ({
            let run = receive_run(msg, 0, MAX_MSG_SIZE - 1, frame);
            &&& run.0 == frame + msg.subrange(frame.len() as int, MAX_MSG_SIZE as int)
            &&& run.1 == frame.len()
            &&& run.2 == frame.len()
        }),
        forall|k: int|
            0 <= k < frame.len() ==> {
                let run = #[trigger] receive_run(msg, 0, MAX_MSG_SIZE - 1, frame.take(k));
                run.1 < run.2
            },
{
    lemma_receive_prefix(msg, frame, frame.len() as int);
    assert(frame.take(frame.len() as int) =~= frame);
    assert forall|k: int| 0 <= k < frame.len() implies {
        let run = #[trigger] receive_run(msg, 0, MAX_MSG_SIZE - 1, frame.take(k));
        run.1 < run.2
    } by {
        lemma_receive_prefix(msg, frame, k);
    }
}

/// The verdict on a received response depends on the response alone: it is
/// corrupt when its last two bytes are not the checksum of its length, opcode,
/// status and data bytes, of the wrong opcode when they are but its opcode is
/// not that of the command, and in good order otherwise.
pub proof fn lemma_received_response_verdict(msg: Seq<u8>, frame: Seq<u8>, opcode: u8)
    requires
        msg.len() == MAX_MSG_SIZE,
        frame.len() < MAX_MSG_SIZE,
        frame.len() >= 2,
        frame.len() == frame[1] + 7,
    ensures
        ({
            let len = frame.len() as int;
            let crc = spec_crc(frame.subrange(1, len - 2));
            let buf = receive_run(msg, 0, MAX_MSG_SIZE - 1, frame).0;
            response_check(buf, opcode, len) == (if frame.subrange(len - 2, len) != be16(crc) {
                ResponseError::ErrorCorruptResponse
            } else if frame[2] != opcode {
                ResponseError::ErrorWrongOpcodeResponse
            } else {
                ResponseError::AllGood
            })
        }),
{
    lemma_reception_receives_response(msg, frame);
    let len = frame.len() as int;
    let crc = spec_crc(frame.subrange(1, len - 2));
    let buf = receive_run(msg, 0, MAX_MSG_SIZE - 1, frame).0;
    assert(buf.subrange(1, len - 2) =~= frame.subrange(1, len - 2));
    assert(buf[len - 2] == frame[len - 2]);
    assert(buf[len - 1] == frame[len - 1]);
    assert(buf[2] == frame[2]);
    if frame[len - 2] == hi_byte(crc) && frame[len - 1] == lo_byte(crc) {
        assert(frame.subrange(len - 2, len) =~= be16(crc));
    } else {
        assert(frame.subrange(len - 2, len)[0] == frame[len - 2]);
        assert(frame.subrange(len - 2, len)[1] == frame[len - 1]);
    }
}

/// `parse_response` reads only the message itself: two buffers that agree on
/// the bytes from the length byte to the end of the message are classified
/// alike, whatever the header byte and the bytes behind the message.
pub proof fn lemma_parse_depends_on_message(s1: Seq<u8>, s2: Seq<u8>)
    requires
        s1.len() == MAX_MSG_SIZE,
        s2.len() == MAX_MSG_SIZE,
        s1[1] <= 248,
        s1.subrange(1, s1[1] + 7) == s2.subrange(1, s1[1] + 7),
    ensures
        response_kind(s1) == response_kind(s2),
{
    let len = s1[1] + 7;
    assert(s1[1] == s1.subrange(1, len)[0]);
    assert(s2[1] == s2.subrange(1, len)[0]);
    assert(s1.subrange(1, len - 2) =~= s1.subrange(1, len).subrange(0, len - 3));
    assert(s2.subrange(1, len - 2) =~= s2.subrange(1, len).subrange(0, len - 3));
    assert forall|i: int| 1 <= i < len implies s1[i] == s2[i] by {
        assert(s1[i] == s1.subrange(1, len)[i - 1]);
        assert(s2[i] == s2.subrange(1, len)[i - 1]);
    }
}

/// A message delivered by `check_byte` whose last two bytes are the checksum
/// of its length, opcode, status and data bytes is never classified as
/// corrupt by `parse_response`, and its classification depends on the message
/// alone.
pub proof fn lemma_checked_message_not_corrupt(msg: Seq<u8>, noise: Seq<u8>, frame: Seq<u8>)
    requires
        msg.len() == MAX_MSG_SIZE,
        forall|i: int| 0 <= i < noise.len() ==> noise[i] != 0xFF,
        frame.len() < MAX_MSG_SIZE,
        frame[0] == 0xFF,
        frame.len() == frame[1] + 7,
        frame.subrange(frame.len() - 2, frame.len() as int) == be16(
            spec_crc(frame.subrange(1, frame.len() - 2)),
        ),
    ensures
        ({
            let buf = check_run(msg, 0, noise + frame).0;
            &&& buf[1] <= 248
            &&& response_kind(buf) != ResponseError::ErrorCorruptResponse
            &&& response_kind(buf) == response_kind(
                frame + Seq::new((MAX_MSG_SIZE - frame.len()) as nat, |i: int| 0u8),
            )
        }),
{
    lemma_check_receives_message(msg, noise, frame);
    let buf = check_run(msg, 0, noise + frame).0;
    let len = frame.len() as int;
    assert(buf.subrange(1, len - 2) =~= frame.subrange(1, len - 2));
    assert(buf[len - 2] == frame.subrange(len - 2, len)[0]);
    assert(buf[len - 1] == frame.subrange(len - 2, len)[1]);
}

} // verus!

verus! {

/// Every framed command is a well-formed frame: it starts with the header byte
/// `0xFF`, is five bytes longer than its length byte, and its last two bytes are
/// the checksum, high byte first, of everything between the header byte and
/// them; the buffer beyond the frame is untouched.
pub proof fn lemma_command_frame_is_checked(old: Seq<u8>, opcode: u8, data: Seq<u8>, size: u8)
    requires
        old.len() == MAX_MSG_SIZE,
        size <= 250,
    ensures
        ({
            let buf = command_buffer(old, opcode, data, size);
            let frame_len = buf[1] + 5;
            let crc = spec_crc(buf.subrange(1, frame_len - 2));
            &&& buf.len() == MAX_MSG_SIZE
            &&& buf[0] == 0xFF
            &&& buf[1] == size
            &&& buf[2] == opcode
            &&& buf[frame_len - 2] == hi_byte(crc)
            &&& buf[frame_len - 1] == lo_byte(crc)
            &&& buf.subrange(frame_len, MAX_MSG_SIZE as int) == old.subrange(
                frame_len,
                MAX_MSG_SIZE as int,
            )
        }),
{
    let buf = command_buffer(old, opcode, data, size);
    let payload = Seq::new(size as nat, |j: int| payload_byte(old, data, j + 3));
    let body = seq![size, opcode] + payload;
    assert(buf.subrange(1, size + 3) =~= body);
    assert(buf.subrange(size + 5, MAX_MSG_SIZE as int) =~= old.subrange(
        size + 5,
        MAX_MSG_SIZE as int,
    ));
}

} // verus!

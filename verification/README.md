# rfid_reader

Verified protocol logic for a simultaneous UHF RFID reader module attached to
an ESP32-S3 over a UART.

- `src/rfid_module/crc.rs`: the 16-bit frame checksum, specified bit by bit and
  computed with a nibble table; the table step is proved equal to four bit
  steps, and the checksum is proved to detect every error burst of up to 16
  bits.
- `src/rfid_module/rfid_constants.rs`: opcodes, limits, the outcome enumeration
  and the region and pin codes.
- `src/rfid_module/rfid_module.rs`: the reader's message buffer; framing of
  every command, reception and judgement of responses, the byte-level message
  detector used while scanning, classification of messages, decoding of tag
  records and the decisions of the start-up sequence, with the laws that tie
  these operations together.
- `app/`: the firmware around the library: board bring-up, the UART transfers
  with their time-outs, debug printing and the scanning task.
- `tests/`: executable checks of the library on concrete frames.

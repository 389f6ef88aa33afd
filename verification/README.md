# robots

The message layer of the RobotS boards, verified with Verus.

- `src/cmd.rs`: the `Cmd` messages, their postcard bytes (`to_postcard`,
  `from_postcard`) and their COBS frames (`to_vec`, `from_vec`), with the
  round-trip laws.
- `src/wire.rs`: postcard's varints and booleans; `src/cobs_format.rs`: the
  COBS encoding and decoding, stated and proved inverse.
- `src/frame.rs`: the calls into `postcard` (COBS flavor), `cobs` and
  `heapless`, with their contracts.
- `src/codec.rs`: cutting a `bytes::BytesMut` stream into frames.
- `src/driver.rs`, `src/firmware.rs`, `src/led.rs`: what the serial driver
  and the two boards decide for each command they receive.
- `src/sse.rs`, `src/cmd_log.rs`: the server-sent events and the command log
  of the web page.
- `app/`: the serial driver program (tokio, tokio-serial), the serde forms of
  the messages, and the floating-point sensor units.

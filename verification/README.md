# lc3

Verified pieces of an LC-3 simulator that runs on a microcontroller, written
in Verus.

- `src/fifo.rs` — a 256-slot ring buffer; its contents are modelled as a
  sequence, and every operation is specified against it.
- `src/gpio.rs`, `src/timers.rs` — the GPIO and timer peripheral vocabulary
  (pins, states, per-pin arrays, error summaries) and the peripheral traits,
  whose provided methods are proved against the per-pin contracts.
- `src/transport.rs` — the UART framing: a byte-at-a-time frame receiver
  specified as a state machine, the control-message mailbox, frame
  construction, and the law that a framed message with a non-empty body is
  received whole.
- `src/varint.rs` — protobuf length delimiters (LEB128) as specifications,
  and the calls into `prost` that encode and decode them.
- `src/isa.rs` — LC-3 registers, instructions, their 16-bit encodings and
  program layout.
- `app/` — a host program that runs the transport over stdin/stdout, plus
  the serde-serializable copies of the peripheral types and lock-shared
  peripherals.

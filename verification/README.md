# usb_can

A driver library for USB-CAN-A adapters, verified with Verus.

- `src/` — the verified library: CAN identifiers and messages, the
  USB-CAN-A wire protocol (settings frame, data frames, the junk-skipping
  parser) behind the `Protocol` trait, hex-string helpers, the receive
  buffer and client state that every transport drives, and the zencan
  message conversions. Its laws (frames built are parsed back, a frame
  written to the wire is read back as the same message, the parser skips
  only junk, ...) are public proof functions next to the code they speak of.
- `tests/` — tests of the library on concrete values.
- `app/` — the I/O around the library: `embedded-io` blocking and async
  clients, the tokio serial-port frontend (exclusive client and split mode),
  the zencan `BusManager` adaptor, and `embedded-can` interop.

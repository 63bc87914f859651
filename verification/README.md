# inferno_aoip

The decisions of a Dante-compatible audio-over-IP device, written in Verus: what it sends about
itself and when, how it answers controllers, and how received samples reach their consumer.

- `src/` is the verified library. It does no input or output: it takes requests, counters and
  samples, and gives back packets, blocks of samples and what to do next. Contracts are stated over
  byte sequences and timestamps that wrap around.
- `app/` is the device around it: sockets, timers, files, the clock, and the rings that receiver
  threads fill.
- `tests/` runs the library on concrete packets and samples.

Bytes are written through `bytebuffer` and read through `hex`; what the library relies on there is
stated in `src/byte_utils.rs` and `src/hex_text.rs`.

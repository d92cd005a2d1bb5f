# desertstorm

A stateless SYN port scanner whose decision logic is verified with Verus.

- `src/` is the verified library: target and port parsing, network
  analysis, the scan order (sequential or a multiplicative-group walk),
  probe frames with their checksums and SYN cookies, reply classification,
  banner analysis, merging of findings, the report formats, and the timing
  decisions of the transmitter and receiver. Every function carries a
  contract; the laws of the scanner (cookie round trip, checksums, no probe
  sent twice, coverage of the range by sequential and randomised scans,
  the same probes, as many, in either order, canonical address text,
  block arithmetic) are proof functions; `src/sweep.rs` holds the law that
  a randomised scan and a sequential one probe the same multiset of pairs. The
  randomised order rests on `src/group.rs`, which proves that each
  multiplier generates the multiplicative group modulo 2^32 + 15.
- `app/` is the program around it: command-line arguments, raw sockets
  through `pnet`, the transmit and receive threads, banner connections
  through `tokio`, clocks, JSON output through `serde_json`, and printing.
- `tests/` runs the library on concrete values.

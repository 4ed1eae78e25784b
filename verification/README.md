# rasta

A tunnel that multiplexes many bidirectional byte streams over one TCP
connection, with its logic verified by Verus.

- `src/frame.rs`: the wire format (a type byte, a big-endian stream id and a
  big-endian payload length, then the payload), with encoding and decoding
  proved against a byte-level model, including the round-trip law.
- `src/stream.rs`: one stream's state (received bytes, local close, remote
  half-close) as a state machine whose operations return the frames to send.
- `src/mux.rs`: the multiplexer: one step of the connection loop per frame
  read, the queue of streams waiting to be accepted, and its laws.
- `app/`: the daemon's command line and the TCP, locking and waiting around
  the library.

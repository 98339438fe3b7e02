# shutterproto

A protocol for driving window-shutter motors, verified with Verus.

A daemon keeps the state of the configured motors and answers commands; a
client asks it for the state of every motor. Messages travel in frames
(`SHTR`, a 32-bit little-endian length, the body); every frame carries a
protocol header around the payload, and every payload is a protocol message.

## Layout

- `src/` — the verified library.
  - `transport.rs`: building and reading frames; building and reading the
    protocol header. A frame read back gives the body that was framed, and a
    header a session builds gives its payload back.
  - `rpc.rs`: the messages; reading a command from a message; building the
    state and status answers; the client's reading of a state answer (which
    gives back the motors the daemon reported).
  - `shutterctl.rs`: the daemon's model of the motors — setting them up from
    their configuration, reporting them, carrying out drive commands,
    estimating a moving motor's position, and answering a message.
  - `motor.rs`: motors, their configuration and state; `clock.rs`: readings
    of the system clock, which nothing in the proofs depends on.
- `app/` — the programs around the library: the FlatBuffers encoding of the
  header and messages (the schema is written out in `app/fbs.rs`), the TCP
  session, the configuration file, the daemon (`shutterctld`, the default) and
  the client (argument `client`).
- `tests/` — tests of the library.

# nearby_rs

The protocol core of Nearby Connections, verified with Verus: the offline wire format,
its validator, and the state machine that moves a connection to a faster medium.

- `src/` is the library. Every function states what it returns or changes, and Verus
  proves it. The laws that relate several functions stand beside them, and those of the
  bandwidth upgrade in `src/bwu/laws.rs`.
- `tests/` runs the library on concrete values.
- `app/` connects the library to sockets, threads and the tokio runtime.

The state machine does no I/O. Channels, handlers, streams, ciphers and access points are
traits; each records the calls made on it and what they gave, and the contracts of the
state machine are stated over those records. Time enters as milliseconds: the owner of
the state machine tells when the next retry is due, and the host says what time it is.

Four calls into code that is not verified are trusted: two of `prost` for varints and two
of the standard library for UTF-8. The doc comment of each says what is relied on.

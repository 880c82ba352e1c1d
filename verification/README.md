# ms_mqtt_client

A low-level MQTT 5 client core whose protocol logic is verified with Verus.

## Layout

- `src/mqtt_proto/`: the MQTT packets, their properties, reason codes, topic names and topic
  filters, with decoders and encoders whose contracts are stated over byte sequences. The
  `*_laws.rs` files prove what holds across them: encoding a valid packet and decoding it
  gives it back, and any packet decoded encodes again and decodes to itself.
- `src/buffer_pool/`: the byte buffers and accumulators the codecs read from and write to.
- `src/io/`: framing packets out of a byte stream (`reader`), queuing encoded packets for the
  stream (`writer`), and the HTTP CONNECT exchange of a proxy tunnel (`proxy`).
- `src/client/`: the client's state. `pkid` leases packet identifiers; `session` tracks what
  is in flight, what is owed to the server, and what is sent again after a reconnect, and
  `session/laws.rs` proves that every step keeps its packet identifiers consistent;
  `connect` and `connection` decide what a response to CONNECT and a packet received on an
  established connection lead to.
- `app/`: the Tokio side: sockets, timers, channels and the loops that hand events to the
  verified session and carry out what it decides, and the error and serde types that need
  outside traits.
- `tests/`: tests of the library on concrete values.

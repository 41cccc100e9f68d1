# mcproto

Data types of the Minecraft Java protocol, verified with Verus.

- `src/utils`: VarInt and VarLong, and the codecs of the packet field types
  (fixed-width integers, strings, UUIDs, prefixed arrays and optionals). Each
  codec states its bytes as a spec function and proves that reading back what
  it wrote gives the value.
- `src/network`: the packets of the handshake, status, login, configuration
  and play phases, each with its id and the bytes of its fields.
- `src/nbt`: the NBT format, documents read and written against a spec of the
  format, dotted-path lookup, and typed access to `level.dat`.
- `src/http`: what is decided around the web requests (profile URLs and ids,
  the sign-in tokens, the device-code polling).
- `app/`: what Verus does not check: floating-point fields, the requests
  themselves (reqwest, tokio) and the serde forms of their answers.

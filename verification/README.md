# velocitas_fix

A FIX protocol engine whose core is verified with Verus.

## Layout

- `src/` — the verified library.
  - `serializer` writes FIX tag=value messages (BeginString, BodyLength,
    body fields, CheckSum) into a caller's buffer or a fresh one; each
    builder's output is stated byte for byte.
  - `parser` and `message` frame and check messages (BodyLength, CheckSum)
    and look fields up by tag. `parser::lemma_parse_serialized` proves that
    what the serializer writes is read back field for field.
  - `session` is the session state machine: logon validation, sequence
    numbers and gap detection, heartbeats and TestRequests, logout timeout,
    reconnection and rate limiting, with its laws.
  - `engine` decides, for each timer tick and inbound message, what to send,
    what to tell the application and when to stop.
  - `sbe`, `normalized_sbe` and `aeron_sbe` are the SBE codecs for the
    normalized order flow and the Aeron envelope, with round-trip laws.
  - `aeron` holds Aeron result codes and errors and the transport's
    decisions; `time` and `timestamp` hold clock readings and FIX
    UTCTimestamp text; `checksum`, `bytes` and `tags` are shared helpers.
- `tests/` — tests run against the compiled library.
- `app/` — the I/O around it: TCP and Aeron transports, bindings to Aeron's
  C client, and the engine loop that runs application callbacks.

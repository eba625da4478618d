# nats_stream_dump

A diagnostic tool for NATS JetStream streams: it dumps a stream's raw
messages as one JSON array, to a file or standard output, optionally keeping
only the messages that a JSONPath (RFC 9535) filter selects. A custom
`datetime()` filter function turns RFC 3339 timestamps into nanoseconds for
temporal comparisons.

The library under `src/` is verified with Verus. It holds the command-line
grammar, the JSON array writer and the JSON form of each message, the filter
evaluation, the decisions taken while reading a stream, and the per-message
logic of a dump, each with its contract, together with proofs of the
properties that tie them together (the output is the JSON array of the
selected messages, in order; a dump streams; a filter sees a message in the
form a compact dump writes it, with the payload in its own text rather than
written back).

`app/` is the program around it: connecting to NATS and reading the stream
(I/O), writing files, drawing the progress bar, and registering the
`datetime()` function with `serde_json_path`. The registration needs that
crate's `#[function]` attribute, so `datetime()` is available in the
program; a program that links only the library has the standard JSONPath
functions, and can turn strings into nanoseconds with
`datetime::datetime_function`.

Messages are handed from the reader to the writer through an unbounded
channel, so memory use grows when the output is slower than the stream.

```bash
nats-stream-dump dump MY_STREAM -o dump.json
nats-stream-dump dump MY_STREAM -n 100 --pretty -o dump.json
nats-stream-dump dump MY_STREAM -f "$[?@.payload.severity == 'critical']"
nats-stream-dump dump MY_STREAM -f "$[?datetime(@.timestamp) >= datetime('2026-03-01T00:00:00Z')]"
nats-stream-dump --url nats://nats.example.com:4222 dump MY_STREAM -o dump.json
```

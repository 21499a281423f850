# underlying_streams

Adapters that let a Rust stream, reader or sink stand behind a JavaScript
`ReadableStream` or `WritableStream`, written in Verus.

- `src/` is the verified library: for each adapter the callbacks of the stream
  and the state machine of its operations. What lies between two steps of an
  operation (awaiting the Rust side, calling the stream's controller) is done by
  the caller, who hands the outcome back.
- `app/` is ordinary Rust around it. It creates the JavaScript objects, drives
  the futures and performs the calls that the library asks for.
- `tests/` runs the library with real streams, readers, sinks and abort handles.

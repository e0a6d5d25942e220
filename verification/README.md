# moesif_exproc

An envoy external processor (ext_proc) that records the HTTP traffic envoy
reports and sends it to Moesif API analytics in batches. The processing
logic is a Verus library whose functions carry contracts proved by Verus;
a thin program around it runs the gRPC server, the HTTP client and the
timers.

## Layout

- `src/` — the verified library.
  - `text.rs`, `map.rs`: string operations and `StringMap`, an
    insertion-ordered map keyed by strings.
  - `external.rs`: the calls into regex, uuid, chrono, base64, serde_json
    and `core::net`, each behind a stated contract.
  - `proto.rs`: the envoy processing messages as plain values.
  - `event.rs`, `headers.rs`, `config.rs`, `rules.rs`: the event model,
    header reading, settings and sampling, governance rules and templates.
  - `root_context.rs`: the send buffer and its batching, the requests
    waiting for their responses, stale-event collection.
  - `processing.rs`: what each message of a processing stream does.
  - `http_context.rs`: an exchange built up from headers and body chunks.
  - `update_manager.rs`, `http_callback.rs`: entity-tagged data and
    call-token handlers.
  - `inspector.rs`: the inspection processor's settings and views.
  - `placeholders.rs`: templates whose braces all belong to placeholders
    fill alike in any variable order.
- `tests/` — tests of the library on concrete values.
- `app/` — the program: environment, gRPC services, conversions to and
  from the generated protobuf types, JSON, HTTP requests to the API.

## Running

The program listens on `0.0.0.0:50051`. It reads `MOESIF_APPLICATION_ID`,
`USER_ID_HEADER`, `COMPANY_ID_HEADER`, `BATCH_MAX_SIZE` (default 100),
`BATCH_MAX_WAIT` (milliseconds, default 2000), `UPSTREAM` (default
`moesif_api`), `DEBUG` and `CONNECTION_TIMEOUT` (milliseconds, default
5000). The argument `per-message` logs each message on its own; `inspect`
runs the inspection processor.

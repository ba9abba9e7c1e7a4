# spear_exec

The execution layer of a node agent that runs guest workloads: the
descriptor table that guests drive through host calls, its readiness
(epoll) machinery, the realtime speech-to-text, microphone, chat and
user-stream descriptors, termination requests, guest logs, and the runtime
response model with its HTTP form. The library is written in Verus: every
function states its behaviour in `requires`/`ensures` and is proved to meet
it.

## Layout

- `src/` — the verified library.
  - `fd_table`, `fd_ctl`, `poll`, `types`, `tables` — descriptors, flags and
    readiness, epoll interest lists and waits, descriptor control.
  - `rtasr`, `rtasr_ctl`, `rtasr_tasks`, `segmentation` — realtime ASR
    streams: queues with back-pressure, the control commands, the steps of
    the local stand-in and the websocket transport, segmentation settings.
  - `mic` — microphone descriptors and the synthetic sample source.
  - `user_stream`, `user_stream_host` — framed streams between a guest and
    a browser session.
  - `cchat` — chat sessions and responses, log redaction rules.
  - `termination`, `wasm_logs`, `wasm_host`, `host` — termination requests,
    guest log rings, the host-call guard, the host API.
  - `runtime`, `runtime_config`, `http_adapter`, `registry`, `template`,
    `json`, `codec` — runtime responses and settings, their HTTP form,
    model-backend settings, `${..}` templates, the JSON model, and the text
    helpers taken from outside crates.
  - `runtime_manager`, `execution_error` — one runtime per runtime kind,
    and the execution-layer errors with their texts.
  - `wasm_modules` — the WebAssembly module cache keyed by content hash.
  - `wasm_exec` — the entry point a run uses and how a run that is not
    waited for starts.
  - `tool_loop` — the decisions of a chat send that calls tools: limits,
    requested tool calls, routing, error documents, and the round step.
  - `execution_flow`, `replicas` — the task execution manager's
    bookkeeping: execution records and counters, result reports, what
    follows a runtime's answer, listings, and replica reconciliation.
  - `laws` — properties that relate several operations.
- `tests/` — tests of the library.
- `app/` — process glue: JSON and serde conversions, process-wide state,
  byte-level host calls, the background sources, and the error type with
  its `Display` form.

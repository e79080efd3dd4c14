# taskhomie

The verified core of a desktop agent that lets a language model work a
computer, a Chrome browser and a terminal, by text or by voice.

## Layout

- `src/` — the library, written in Verus. Every executable function carries a
  contract over mathematical models (`Seq`, `Map`, spec functions), and the
  properties that span several calls are stated and proved as public proof
  functions (`lemma_*`).
  - `text` — string helpers and their specifications (lines, joins, trims,
    decimal rendering).
  - `bash` — the shell tool: blocked commands, output truncation, result text.
  - `api` — the messages API model: request copies, the server-sent-event line
    splitter and decoder, transcription rewriting.
  - `agent` — the agent loop's decisions: tool routing, snapshot summarizing,
    history, when to stop.
  - `computer` — screen actions planned from model requests, key parsing,
    screenshot scaling.
  - `browser`, `axtree`, `chrome` — element ids, page bookkeeping, the
    accessibility-tree snapshot, and the Chrome restart state machine.
  - `voice` — push-to-talk and voice sessions, transcript gathering, the
    speech cache.
  - `storage`, `permissions`, `mcp`, `tools` — conversations and usage, the
    settings and profile helpers, the tool-server client state, and the tool
    definitions sent to the model.
  - `media` — the calls into `base64` and `image`, behind trusted wrappers.
- `tests/` — tests run against the compiled library.
- `app/` — the desktop shell around the library: windows, I/O, network,
  database, audio and input devices. It is ordinary Rust and is not verified.

# bizclaw

The core logic of the BizClaw AI-agent platform as a library whose
behaviour is stated in `requires` / `ensures` contracts and proved with
Verus.

## Layout

- `src/` — the verified library, one module per concern:
  - text and numbers: `text`, `numparse`, `order`, `json`
  - model files and decoding: `gguf`, `grammar`, `llamacpp`
  - agents: `discovery`, `orchestrator`, `conversation`, `memory`, `bindings`
  - hands and skills: `hands`, `skills`
  - channels: `channels`, `adapters`, `zalo`, `webhook`
  - gateway: `gateway`, `ws`, `models`, `health`, `personalize`,
    `gallery`, `tasks`, `instances`, `mcp`, `config`, `ffi`
- `tests/` — ordinary Rust tests of the library.
- `app/` — the program side: files, the environment, the clock, TOML and
  JSON, HTTP through a client the caller supplies, and the settings that
  hold floating-point numbers; the WebSocket chat loop, the agent turn and
  evaluate loops, agent restore and update, and the IMAP fetch, each over
  a socket, provider or session that the caller supplies.

## Trusted calls

A few calls leave the verified code; each stands behind one small function
whose contract is stated and not proved:

- `String::push`, `String::from_utf8`, `str::to_lowercase` and
  `char::is_alphanumeric` (std);
- `mail_parser::MessageParser::parse` and the message accessors used to
  read an e-mail;
- `sha2::Sha256::digest`.

Everything else in `src/` is proved, including freedom from overflow and
panics.

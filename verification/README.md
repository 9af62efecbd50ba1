# xiaozhi_server

A voice assistant server for Xiaozhi devices. A device opens a websocket and
sends Opus audio; the server detects speech, has it recognised, asks a language
model, and sends the spoken answer back.

- `src/` is the library: the wire protocol, the audio containers, voice
  detection over speech levels, the clients' message formats, the text filter
  and the state machine of a session. Everything in it is verified with Verus;
  each function states what it returns, and functions named `law_..` state what
  holds of several of them together. Calls into other crates stand behind
  `external_body` functions and `assume_specification` items, whose doc comments
  say what is taken from those crates.
- `app/` is the program: sockets, HTTP, files, the ONNX models, floating-point
  signal processing and the Opus decoder. It performs what the library decides.
- `tests/` are tests of the library on concrete values.

## Modules

| Module | What it holds |
| --- | --- |
| `protocol` | messages and the three binary framings of the device protocol |
| `audio` | Ogg pages, Opus packet durations, silence, PCM bytes, voice detection |
| `text_filter` | what of a reply is spoken |
| `services` | the message formats of recognition, language models and synthesis |
| `session` | what a session does on each message, timeout and event |
| `speaker_id` | which known speaker a voice belongs to |
| `http`, `config`, `env` | requests to the server and its settings |
| `text`, `json`, `buf`, `cut`, `time`, `ids` | what the others are built on |

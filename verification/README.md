# meetily_sherpa

Verified decision logic behind the Sherpa-ONNX speech engine of a meeting
transcription app, written in Verus.

- `src/` — the verified library: model selection (`models`), the engine
  commands as step machines with their messages and events (`commands`),
  runtime-library staging for Windows bundles (`dll`), path joining
  (`paths`), text helpers such as Unicode trimming (`text`) and the
  transcription provider (`provider`).
- `app/` — the Tauri commands, the build-time staging driver and the
  provider glue, which perform the I/O that the library's decisions ask for.
- `tests/` — tests of the library on concrete values.

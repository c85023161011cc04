# darb

The decision core of a terminal coding assistant, verified with Verus.

- `src/` is the library. Permissions, the agent loop (as a state machine
  driven step by step), tool-call parsing and review, the project map and
  context selection, the tools' rules and result formats, the interface
  model (keys, mouse, palette, editor, panels), interface languages, the provider
  wire format and the memory checks all live here with their contracts.
  Calls into `serde_json`, `toml`, `ratatui` (layout splitting) and a few
  std functions stand behind small trusted wrappers.
- `app/` is the program around it: terminal drawing and input, the HTTP
  provider, the SQLite memory, the event channel, disk and process work,
  and the loop that performs what the library decides.
- `tests/` exercises the library on concrete values.

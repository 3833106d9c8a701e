# jcode_desktop_ui

The logic of the jcode desktop client, with contracts that Verus proves.

- `src/` is the library. Each module holds its types, a mathematical view of them, and the
  functions on them: accounts and usage (`accounts`), the workers behind the sessions
  (`harness`, `remote`, `bridge`), the store's sessions (`sessions`), the panel and its
  transcript (`panel`, `transcript`, `history`, `view`, `rows`, `activity`, `scroll`,
  `surface`, `composer`, `demo`), cards and side views (`todos`, `cards`, `todoist`, `mail`, `tabs`),
  and what they share (`text`, `json`, `order`, `labels`, `models`, `events`).
- `tests/` runs the library from outside.
- `app/` is the program around it: processes, files, channels, the clock and pixels.

Public proof functions state what holds across functions; their doc comments say it in
words.

Anthropic's login and models go by the name of a model family. The library takes that name
as an argument. The program reads it from `JCODE_MODEL_FAMILY`, or from the file
`model-family` in the runtime's home, or takes it over from the runtime's own report of the
logins; until one of these has named it, it goes by `anthropic`.

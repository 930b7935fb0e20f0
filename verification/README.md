# thugsrf

The verified core of a radio signal intelligence workbench for HackRF,
RTL-SDR and sound-card receivers.

- `src/` is the library, written in Verus: settings and their validation, exact
  frequency parsing, the receive, record, replay and sweep commands, the addon
  catalog and its rules, live decoding windows and the decoder console, RDS
  station data, channel directories, AI request preparation, the ASCII export
  graph, the workbench's navigation arithmetic, and the terminal workbench's
  key handling as a state machine (`workbench::step`: which key does what in
  which panel, when input editing starts and ends, when quitting is allowed,
  when the receiver, sweep or listening start and stop). Verus proves every
  function against its contract, except a few small trusted wrappers whose
  contracts are assumed from the outside code they call: `text::string_of`
  (std's `String::from_iter`), `ai::encode_base64` (the `base64` crate),
  `ai::parse_url` (the `url` parser that `reqwest` re-exports),
  `json::parse_json` with its one-for-one conversion `json::json_from_value`
  (`serde_json`'s parser), and `cli::split_words` (`shlex`'s word splitting).
  AI replies, addon results and RDS decoder output are read from their bytes
  in the library: the size limits, the JSON checks and the picking of the
  answer text are verified. The JSON documents the workbench sends or saves
  (AI request bodies, addon requests, recording sidecars) are built there too,
  each with its exact layout stated; `app/` only writes them out.
- `tests/` exercises the library on concrete values.
- `app/` is the program around it: command-line parsing, files, processes,
  the SQLite history, HTTP requests, floating-point signal processing, and the
  terminal loop that reads keys, hands them to `workbench::step` and carries
  out the effects it returns.

# happy-wakey-cli

A command-line client for Shared Auth verification and the Happy Wakey alarm
API, whose decisions are proved with Verus.

- `src/` is the verified library:
  - `text.rs`: control characters, UTF-8 byte order and length, unsigned
    decimal parsing, and the colon-separated pieces of clock texts;
  - `alarm_draft.rs`: alarm drafts checked and normalized into requests;
  - `settings.rs`: resolved command settings;
  - `cli.rs`: the command-line rules: required settings, alarm and
    transition requests, base URLs, access tokens, commands and response
    limits;
  - `outside.rs`: the calls into `url`, `uuid` and `serde_json`, each behind
    one trusted item;
  - `laws.rs`: properties that span functions.
- `app/` is the program around it: argument parsing with flags2env, HTTP with
  reqwest, the clock, fresh UUIDs, `f32` volumes and printing.
- `tests/` runs the library on concrete values.

# parrot_core

The decision logic of Parrot, a local-first dictation app, written in Verus
and verified: shortcut settings and their migration between platforms, the
hotkey engines for Linux and Windows, shortcut capture, the cleanup prompt and
the sanitizing of model output, contextual paste formatting, the model
catalog and the bookkeeping of model downloads, the steps of a dictation
(which model transcribes, when cleanup runs and what it falls back to),
permission snapshots, and the parsing of what the Linux audio and desktop
tools report.

- `src/` is the library. Every executable function there carries a contract
  that Verus proves; the few calls into `regex`, `uuid` and std that have no
  proof are wrapped in small trusted functions whose contracts say what is
  assumed.
- `tests/` runs the library on concrete values.
- `app/` is the Linux native-core program around the library: it reads JSON
  requests on standard input, gathers what the machine reports (environment
  variables, files, `pactl`), hands plain values to the library, and writes
  JSON responses.

The language catalog in `src/language.rs` holds five languages, and the cleanup
prompt templates in `src/prompts.rs` are written inline. The shared language
list and prompt template files of the full app are not part of this crate, so
these stand in for them.

# capy_core

The verified core of the Capybara recorder and project package, written in
Verus. Every function under `src/` carries a contract that Verus proves;
`app/` is the command-line program around it (arguments, files, processes,
floating-point formatting).

## Layout

- `src/errors.rs`, `src/backend.rs`: recorder errors, their codes, exit codes
  and messages; the single recording backend.
- `src/export.rs`, `src/parallel.rs`, `src/record.rs`: export presets and
  profiles, parallel segment planning (frame ranges that partition the
  recording), segment command lines, progress, recording length and span.
- `src/readiness.rs`, `src/snapshot.rs`: the frame-ready handshake with the
  page runtime, video-state readiness, BGRA to RGBA conversion, black-frame
  detection and the commit wait of single-frame snapshots.
- `src/render_source.rs`, `src/audio.rs`: reading a render source from its
  JSON text, its validation, stage background and pinned export resolution,
  the audio clips an export mixes, audio source classification and data-URL
  decoding.
- `src/mp4/`: an MP4 box reader (top-level scan, `moov` parsing, H.264 SPS)
  and the verdict that `verify` reports.
- `src/project/`: the decisions and records of the `.capy` project package:
  artifacts, design language, its content ref and the validation report,
  exact-text patches, their staging (all operations or none) and undo, the
  steps of review runs (the decision, the checks, the run records), the video
  clip queue, semantics, feedback, suggestions, proposal ids, changes and
  history entries, workbench cards, selection and context packages (the
  video project context among them), campaign and generation edits of
  artifact JSON, surface node plans, video import records, paths and layout.
  The reading and writing of the package's files stays in `app/`.
- `src/project/json.rs`, `src/project/basis.rs`: a JSON value with its
  compact text (keys in ascending order), and the basis records whose text is
  hashed into queue, suggestion, proposal and context ids.
- `src/text.rs`: characters, decimal text, trimming and searching.

Outside crates called from `src/`: `serde_json` (reading JSON text, quoting a
string, setting members of an object, pretty printing), `base64` (data URLs),
`uuid` (run ids). Each call goes through a small trusted wrapper whose
contract names what it returns.

## Running

`tests/` holds the test suite; `app/main.rs` is the `capy-recorder` program.

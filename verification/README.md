# glitchlisp

A small Lisp for live-coded beats: tracks with gate and note patterns,
scenes that chain into each other, a terminal editor and a command line.
This crate is its core, written in Verus: the functions under `src/`
carry contracts that Verus proves, but for one wrapper of std
(`String::push`, in `text`) whose contract is trusted.

## Layout

- `src/` — the library.
  - Reading source: `language` (tokens, option names), `forms` (the
    reader), `includes`, `editor` (top-level forms, scene lookup),
    `compiler_forms` (which sources need the Clojure compiler).
  - Patterns and sequencing: `sequencer` (pattern indexing, Euclidean
    rhythms), `gates`, `patterns`, `gate_forms` (gate patterns read from
    forms), `note_patterns` (note, chord and number patterns),
    `effect_slots` (effect patterns), `trigger` (which tracks, slots and
    effects fire at a step), `cursors`.
  - Program forms: `program` (top-level forms), `program_state` (what
    each top-level form does to the program: tracks and their flags,
    scenes, the transport; the sound engine reports the values it reads
    with numbers), `track_params`,
    `track_effects` (the shape of a track's effect form, `on` gates),
    `effect_args` (effect parameters), `options`, `values`,
    `scene_options`, `scene_def` (scene length), `scenes` (scene chains,
    cueing, advancing).
  - Interaction: `session` (the editor's state, edits and screen), `keys`,
    `console`, `cli` (what a command line asks for), `audio` (step
    reports), `effects` (fades with exact gains).
- `app/` — the program around the library: the terminal, files, the
  Clojure compiler process, the audio device list.
- `tests/` — tests of the library.

## Numbers

The reader keeps a number as its literal text. Where the value of a
number decides something (a count, whether a gate fires, a chance), the
caller hands the library a `Reading` of the text: whether it parses, its
value as a whole number, whether it is above zero, whether it is exactly
0 or 1, and a percentage as parts per million. `app/sources.rs` builds
readings from the `f32` values of a source's tokens; the library does not
compute with floating point.

The sound engine (oscillators, filters, effects, rendering) works in
floating point and is not part of this crate.

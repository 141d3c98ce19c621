use vstd::prelude::*;

pub mod arith;
pub mod sequencer;
pub mod text;
pub mod editor;
pub mod cli;
pub mod model;
pub mod effects;
pub mod language;
pub mod gates;
pub mod audio;
pub mod keys;
pub mod session;
pub mod scenes;
pub mod forms;
pub mod trigger;
pub mod console;
pub mod includes;
pub mod notes;
pub mod patterns;
pub mod options;
pub mod scene_def;
pub mod cursors;
pub mod gate_forms;
pub mod values;
pub mod scene_options;
pub mod track_params;
pub mod program;
pub mod compiler_forms;
pub mod effect_slots;
pub mod note_patterns;
pub mod effect_args;
pub mod track_effects;
pub mod program_state;

verus! {
}

use glitchlisp::compiler_forms::source_needs_compiler;
use glitchlisp::effect_args::effect_args_scan;
use glitchlisp::program_state::{EngineReport, ProgramState, SceneBody};
use glitchlisp::track_effects::{track_effect_plan, TrackEffectPlan};
use glitchlisp::effect_slots::effect_pattern_slots;
use glitchlisp::forms::{parse_program, Form};
use glitchlisp::model::NoteMode;
use glitchlisp::model::EffectParamPatternMode;
use glitchlisp::note_patterns::{
    bounded_usize_param, note_pattern, number_pattern, numeric_effect_param_pattern,
    numeric_param_pattern, PatternValue, UsizeParam,
};
use glitchlisp::gate_forms::{
    chance_gate_percent, checked_gate_pattern, gate_cell, gate_widths_fit, gate_pattern, gate_repeat_values, gate_step_pattern,
    gate_steps_from_values, gate_subdivision_pattern, gate_sustain_value, positive_usize_value,
    usize_value, Reading,
};
use glitchlisp::gates::ParsedGatePattern;
use glitchlisp::language::tokenize;
use glitchlisp::model::{GateCell, Waveform};
use glitchlisp::scene_def::{scene_repeats, scene_steps, TrackLength};
use glitchlisp::options::sample_track_items;
use glitchlisp::program::{form_head, play_scene, start_check, track_target, FormHead};
use glitchlisp::scenes::SceneLink;
use glitchlisp::scene_options::{scene_header, SceneHeader};
use glitchlisp::audio::TRANSPORT_STOPPED_STEP;
use glitchlisp::trigger::{active_effect_specs, plan_step, StepPlan};
use glitchlisp::track_params::{track_scan, TrackEntry, TrackParam};
use glitchlisp::values::{
    bool_value, keyword_arg, loop_true_value, string_value, track_options_contain,
    track_options_contain_any, waveform,
};

/// The reading the reader's `f32` value gives a text.
fn read(text: &str) -> Reading {
    match text.parse::<f32>() {
        Ok(v) => Reading {
            text: text.to_string(),
            parsed: true,
            whole: if v >= 0.0 && v.fract() == 0.0 { Some(v as usize) } else { None },
            positive: v > 0.0,
            bit: if v == 0.0 {
                Some(false)
            } else if v == 1.0 {
                Some(true)
            } else {
                None
            },
            percent_ppm: if (0.0..=100.0).contains(&v) {
                Some((v as f64 * 10_000.0).round() as u32)
            } else {
                None
            },
        },
        Err(_) => Reading {
            text: text.to_string(),
            parsed: false,
            whole: None,
            positive: false,
            bit: None,
            percent_ppm: None,
        },
    }
}

/// Readings for every token of `source` and for the text after a `?`.
fn readings(source: &str) -> Vec<Reading> {
    let mut out = Vec::new();
    for token in tokenize(source) {
        if let Some(rest) = token.strip_prefix('?') {
            out.push(read(rest));
        }
        out.push(read(&token));
    }
    out
}

fn form(source: &str) -> Form {
    parse_program(source).unwrap().remove(0)
}

fn pattern(source: &str) -> Result<ParsedGatePattern, String> {
    gate_pattern(&form(source), &readings(source))
}

fn gates(source: &str) -> Vec<Vec<bool>> {
    pattern(source).unwrap().gates
}

fn err(source: &str) -> String {
    pattern(source).unwrap_err()
}

#[test]
fn vector_of_hits_and_rests() {
    let p = pattern("[1 0 1 0.5]").unwrap();
    assert_eq!(p.gates, vec![vec![true], vec![false], vec![true], vec![true]]);
    assert_eq!(p.holds, vec![vec![0], vec![0], vec![0], vec![0]]);
    assert_eq!(p.loop_start, 0);
    assert!(matches!(p.cells[1][0], GateCell::Static(false)));
}

#[test]
fn euclid_and_rotation() {
    assert_eq!(
        gates("(euclid 3 8)"),
        vec![
            vec![true],
            vec![false],
            vec![false],
            vec![true],
            vec![false],
            vec![false],
            vec![true],
            vec![false]
        ]
    );
    assert_eq!(gates("(euclid-rot 1 4 1)"), vec![vec![false], vec![true], vec![false], vec![false]]);
    assert_eq!(err("(euclid 3)"), "euclid expects pulses and steps");
    assert_eq!(err("(euclid 3 0)"), "euclid steps must be greater than zero");
    assert_eq!(err("(euclid 1.5 4)"), "euclid pulses must be a non-negative integer");
    assert_eq!(err("(euclid-rot 1 4)"), "euclid-rot expects pulses, steps, and rotation");
}

#[test]
fn reverse_times_and_then() {
    assert_eq!(gates("(reverse [1 0 0])"), vec![vec![false], vec![false], vec![true]]);
    assert_eq!(gates("(rev (rev [1 0 0]))"), vec![vec![true], vec![false], vec![false]]);
    assert_eq!(err("(reverse)"), "reverse requires a pattern");
    assert_eq!(err("(reverse [1] [0])"), "reverse expects one pattern");

    let p = pattern("(times 2 [1 0])").unwrap();
    assert_eq!(p.gates, vec![vec![true], vec![false], vec![true], vec![false]]);
    assert_eq!(p.loop_start, 0);
    assert_eq!(err("(times 0 [1])"), "times must be greater than zero");
    assert_eq!(err("(times)"), "times requires a count");
    assert_eq!(err("(times 2)"), "times requires a pattern");
    assert_eq!(err("(times 2 [1] [0])"), "times expects count and one pattern");

    let p = pattern("(then [1] [0 1])").unwrap();
    assert_eq!(p.gates, vec![vec![true], vec![false], vec![true]]);
    assert_eq!(p.loop_start, 1);
    let p = pattern("(then [1] (times 2 [0]))").unwrap();
    assert_eq!(p.gates.len(), 3);
    assert_eq!(p.loop_start, 0);
    assert_eq!(err("(then [1])"), "then expects at least two patterns");
}

#[test]
fn wrapping_forms() {
    assert_eq!(gates("(g [1 0])"), vec![vec![true], vec![false]]);
    assert_eq!(gates("(gate-seq (euclid 1 2))"), vec![vec![true], vec![false]]);
    assert_eq!(err("(g)"), "g requires a pattern");
    assert_eq!(err("(gs [1] [0])"), "gs expects one pattern");
    assert_eq!(
        err("(g [1] then [0])"),
        "g wraps exactly one pattern; use (g (then A B)) instead of (g A then B)"
    );
}

#[test]
fn subdivisions_widen_to_a_common_length() {
    assert_eq!(gates("[[1 1] 1]"), vec![vec![true, true], vec![true]]);
    assert_eq!(gates("[[1 [1 1]]]"), vec![vec![true, false, true, true]]);
    assert_eq!(gates("[[]]"), vec![vec![false]]);
    let f = form("[1 [1 0 1]]");
    let slots = gate_step_pattern(&f, &readings("[1 [1 0 1]]")).unwrap();
    assert_eq!(slots.iter().map(|s| s.gate).collect::<Vec<_>>(), vec![true, false, false, true, false, true]);
}

#[test]
fn sustains_holds_repeats_and_chances() {
    assert_eq!(gates("[1 ~2 0]"), vec![vec![true], vec![false], vec![false], vec![false]]);
    assert_eq!(gates("[1 (gate-sustain 1)]"), vec![vec![true], vec![false]]);
    assert_eq!(err("[~2 1]"), "gate sustain must follow a hit");
    assert_eq!(err("~2"), "gate sustain must follow a hit inside a vector pattern");
    assert_eq!(err("[1 ~0]"), "gate sustain must be greater than zero");
    assert_eq!(err("[1 ~x]"), "gate sustain must be written like ~12");

    let p = pattern("[(gate-hold 2) 0 0]").unwrap();
    assert_eq!(p.holds[0], vec![2]);
    assert_eq!(err("[(gate-hold 0)]"), "gate-hold must be greater than zero");
    assert_eq!(err("[(gate-hold 1 2)]"), "gate-hold expects zero or one amount");
    assert_eq!(pattern("[(gate-hold)]").unwrap().holds[0], vec![1]);

    let p = pattern("[(gate-repeat [0 1]) 1%0]").unwrap();
    assert!(matches!(&p.cells[0][0], GateCell::Repeat(v) if v == &vec![false, true]));
    assert_eq!(p.gates[0], vec![false]);
    assert!(matches!(&p.cells[1][0], GateCell::Repeat(v) if v == &vec![true, false]));
    assert_eq!(err("[(gate-repeat [0 2])]"), "gate-repeat only accepts 0 and 1 values");
    assert_eq!(err("[(gate-repeat [])]"), "gate-repeat vector cannot be empty");
    assert_eq!(err("[(gate-repeat 1)]"), "gate-repeat expects a vector");

    let p = pattern("[?25 ? ?50 [1 0]]").unwrap();
    assert!(matches!(p.cells[0][0], GateCell::Chance(250_000)));
    assert_eq!(p.gates[0], vec![false]);
    assert!(matches!(p.cells[1][0], GateCell::Chance(500_000)));
    assert_eq!(p.gates[2], vec![true, false]);
    assert!(matches!(p.cells[2][0], GateCell::Chance(500_000)));
    assert!(matches!(p.cells[2][1], GateCell::Static(false)));
    assert_eq!(err("[?x]"), "chance gate must be ? or ?0 through ?100");
    assert_eq!(err("[?150]"), "chance gate must be between ?0 and ?100");
}

#[test]
fn single_values_and_their_errors() {
    let rs = readings("3 0 2.5");
    assert_eq!(usize_value(&form("3"), &rs, "n"), Ok(3));
    assert_eq!(usize_value(&form("2.5"), &rs, "n"), Err("n must be a non-negative integer".to_string()));
    assert_eq!(usize_value(&form("x"), &rs, "n"), Err("expected numeric pattern value".to_string()));
    assert_eq!(positive_usize_value(&form("0"), &rs, "n"), Err("n must be greater than zero".to_string()));
    assert!(matches!(gate_cell(&form("2.5"), &rs), Ok(GateCell::Static(true))));
    assert!(matches!(gate_cell(&form("0"), &rs), Ok(GateCell::Static(false))));
    assert_eq!(gate_cell(&form("x"), &rs).unwrap_err(), "expected numeric pattern value");
    assert_eq!(chance_gate_percent("?", &rs), Ok(500_000));
    assert_eq!(gate_sustain_value(&form("~3"), &rs), Ok(Some(3)));
    assert_eq!(gate_sustain_value(&form("1"), &rs), Ok(None));
    assert_eq!(gate_repeat_values(&form("[1 0]"), &readings("[1 0]")), Ok(vec![true, false]));
    assert_eq!(gate_subdivision_pattern(&form("[1 0]"), &readings("[1 0]")), Ok(vec![vec![true], vec![false]]));
    let values = match form("[1 ~1]") {
        Form::Vector(v) => v,
        _ => unreachable!(),
    };
    assert_eq!(gate_steps_from_values(&values, &readings("[1 ~1]")).unwrap().len(), 2);
}

#[test]
fn a_missing_reading_reads_as_no_number() {
    assert!(matches!(gate_cell(&form("1"), &[]), Ok(GateCell::Static(false))));
    assert_eq!(usize_value(&form("1"), &[], "n"), Err("n must be a non-negative integer".to_string()));
}

fn items(source: &str) -> Vec<Form> {
    match form(source) {
        Form::List(v) => v,
        _ => unreachable!(),
    }
}

#[test]
fn keywords_strings_and_truth_values() {
    let list = items("(mute :kick 1)");
    assert_eq!(keyword_arg(&list, 1, "mute"), Ok("kick".to_string()));
    assert_eq!(keyword_arg(&list, 2, "mute"), Err("mute requires a keyword argument".to_string()));
    assert_eq!(keyword_arg(&list, 9, "mute"), Err("mute requires a keyword argument".to_string()));

    assert_eq!(string_value(&form("\"kick.wav\"")), Ok("kick.wav"));
    assert_eq!(string_value(&form("kick")), Err("expected string".to_string()));

    let rs = readings("0 2 -1");
    assert_eq!(bool_value(&form("true"), &rs, "x"), Ok(true));
    assert_eq!(bool_value(&form("false"), &rs, "x"), Ok(false));
    assert_eq!(bool_value(&form("0"), &rs, "x"), Ok(false));
    assert_eq!(bool_value(&form("-1"), &rs, "x"), Ok(true));
    assert_eq!(bool_value(&form("maybe"), &rs, "x"), Err("x must be true or false".to_string()));
    assert_eq!(loop_true_value(&form("true"), &rs), Ok(()));
    assert_eq!(
        loop_true_value(&form("0"), &rs),
        Err("scene :loop only accepts true; use :repeat N for finite scenes".to_string())
    );
    assert_eq!(loop_true_value(&form("\"yes\""), &rs), Err("loop must be true or false".to_string()));
}

#[test]
fn option_keys_sit_at_even_positions() {
    let options = items("(:amp :gates :pan 1)");
    assert!(track_options_contain(&options, "amp"));
    assert!(track_options_contain(&options, "pan"));
    assert!(!track_options_contain(&options, "gates"));
    assert!(track_options_contain_any(&options, &["x", "pan"]));
    assert!(!track_options_contain_any(&options, &["gates", "x"]));
    assert!(!track_options_contain_any(&[], &["amp"]));
}

fn header(source: &str) -> Result<SceneHeader, String> {
    scene_header(&items(source), &readings(source))
}

#[test]
fn scene_heads_and_options() {
    let h = header("(scene :intro :repeat 2 :steps 16 (d :kick [1]))").unwrap();
    assert_eq!(h.id, "intro");
    assert_eq!(h.repeats, 2);
    assert!(h.explicit_repeats);
    assert_eq!(h.length.steps, 16);
    assert!(h.length.explicit_steps);
    assert_eq!(h.body_start, 6);
    assert_eq!(h.next, None);

    let h = header("(scene :a :loop true)").unwrap();
    assert_eq!((h.repeats, h.explicit_repeats, h.body_start), (0, true, 4));
    let h = header("(scene :a :bars 2 :bar-steps 8)").unwrap();
    assert_eq!((h.length.bars, h.length.bar_steps, h.length.explicit_steps), (Some(2), Some(8), true));
    let h = header("(scene :a :loop-by :kick 2 :next :b)").unwrap();
    assert_eq!(h.length.loop_by, Some(("kick".to_string(), 2)));
    assert_eq!(h.next, Some("b".to_string()));
    assert_eq!(h.body_start, 7);
    let h = header("(scene :a :steps-of :kick :bar-length-of :hat)").unwrap();
    assert_eq!(h.length.steps_of, Some("kick".to_string()));
    assert_eq!(h.length.bar_steps_of, Some("hat".to_string()));

    let e = |s: &str| header(s).err().unwrap();
    assert_eq!(e("(scene)"), "scene requires a scene id");
    assert_eq!(e("(scene intro)"), "scene id must be a keyword");
    assert_eq!(e("(scene :a :repeat 1 :times 2)"), "duplicate scene option ':times'");
    assert_eq!(e("(scene :a :steps 4 :bars 2)"), "duplicate scene option ':bars'");
    assert_eq!(e("(scene :a :loop 0)"), "scene :loop only accepts true; use :repeat N for finite scenes");
    assert_eq!(e("(scene :a :loop-by :kick)"), "scene :loop-by requires a count");
    assert_eq!(e("(scene :a :next 3)"), "scene :next requires a keyword argument");
    assert_eq!(e("(scene :a :repeat)"), "scene :repeat requires a value");
    assert_eq!(e("(scene :a :steps 0)"), "steps must be greater than zero");
    assert_eq!(e("(scene :a :wobble 1)"), "unknown scene option ':wobble'");
}

#[test]
fn a_scene_header_sizes_the_scene() {
    let h = header("(scene :a :loop-by :kick 3 :next :b)").unwrap();
    let tracks = vec![TrackLength { id: "kick".to_string(), steps: 16 }];
    assert_eq!(scene_steps(&h.length, &tracks), Ok(48));
    assert_eq!(scene_repeats(h.repeats, h.explicit_repeats, h.length.loop_by.is_some(), h.next.is_some()), 1);
}

#[test]
fn track_forms_list_their_parameters_in_order() {
    let s = track_scan(&items("(d :kick :src kick :gate [1 0] :amp 0.5)")).unwrap();
    assert_eq!(s.id, "kick");
    assert_eq!(
        s.entries,
        vec![
            TrackEntry::Param(TrackParam::Src, 3),
            TrackEntry::Param(TrackParam::Gate, 5),
            TrackEntry::Param(TrackParam::Amp, 7)
        ]
    );
    assert_eq!(s.stop, None);

    let s = track_scan(&items("(d :kick :off :choke)")).unwrap();
    assert_eq!(s.entries, vec![TrackEntry::Mute, TrackEntry::Choke]);
    let s = track_scan(&items("(d :kick :off 1 :cut)")).unwrap();
    assert_eq!(s.entries, vec![TrackEntry::Param(TrackParam::Off, 3), TrackEntry::Choke]);
    let s = track_scan(&items("(d :kick :amp nil :foo null)")).unwrap();
    assert_eq!((s.entries.len(), s.stop), (0, None));

    let stop = |src: &str| track_scan(&items(src)).unwrap().stop;
    assert_eq!(stop("(d :kick :amp 1 :amp 2)"), Some("duplicate track parameter ':amp'".to_string()));
    assert_eq!(
        stop("(d :kick :pw 0.5 :pulse-width 0.3)"),
        Some("duplicate track parameter ':pulse-width'".to_string())
    );
    assert_eq!(stop("(d :kick :amp)"), Some("track parameter ':amp' requires a value".to_string()));
    assert_eq!(stop("(d :kick 1 2)"), Some("track parameters must be keyword/value pairs".to_string()));
    assert_eq!(stop("(d :kick :foo 1)"), Some("unknown track parameter ':foo'".to_string()));
    assert_eq!(track_scan(&items("(d :kick :amp 1 :amp 2)")).unwrap().entries.len(), 1);
    assert_eq!(track_scan(&items("(d)")).err(), Some("d requires a track id".to_string()));
    assert_eq!(track_scan(&items("(d kick)")).err(), Some("d track id must be a keyword".to_string()));
}

fn show(f: &Form) -> String {
    match f {
        Form::List(v) => format!("({})", v.iter().map(show).collect::<Vec<_>>().join(" ")),
        Form::Vector(v) => format!("[{}]", v.iter().map(show).collect::<Vec<_>>().join(" ")),
        Form::Symbol(s) => s.clone(),
        Form::Keyword(s) => format!(":{}", s),
        Form::Number(s) => s.clone(),
        Form::Str(s) => format!("\"{}\"", s),
    }
}

fn sample(source: &str) -> Result<String, String> {
    sample_track_items(&items(source)).map(|v| v.iter().map(show).collect::<Vec<_>>().join(" "))
}

#[test]
fn sample_forms_become_track_forms() {
    assert_eq!(
        sample("(sample :kick \"kick.wav\" :amp 0.5)"),
        Ok("d :kick :src :sample :sample-path \"kick.wav\" :note c3 :gate 1 :dur 1 :amp 0.5".to_string())
    );
    assert_eq!(
        sample("(sample :kick :sample-data [0 1] :off)"),
        Ok("d :kick :src :sample :note c3 :gate 1 :dur 1 :amp 1 :sample-data [0 1] :off true".to_string())
    );
    assert_eq!(sample("(sample :kick :amp 1)"), Err("sample requires a wav path or :sample-data".to_string()));
    assert_eq!(sample("(sample)"), Err("sample requires a track id".to_string()));
    assert_eq!(sample("(sample kick \"k.wav\")"), Err("sample track id must be a keyword".to_string()));
    assert_eq!(sample("(sample :kick)"), Err("sample requires a wav path or :sample-data".to_string()));
    assert_eq!(
        sample("(sample :kick \"k.wav\" 1)"),
        Err("sample options must be keyword/value pairs".to_string())
    );
    assert_eq!(sample("(sample :kick \"k.wav\" :amp)"), Err("sample :amp requires a value".to_string()));
}

#[test]
fn top_level_forms_and_their_checks() {
    assert_eq!(form_head(&form("(d :kick)")), Ok(FormHead::Track));
    assert_eq!(form_head(&form("(master-fx [])")), Ok(FormHead::PostFx));
    assert_eq!(form_head(&form("(cue :a)")), Ok(FormHead::PlayScene));
    assert_eq!(form_head(&form("(wobble)")), Err("unsupported form 'wobble'".to_string()));
    assert_eq!(form_head(&form("([1] 2)")), Err("form must start with a symbol".to_string()));
    assert_eq!(form_head(&form("()")), Err("form must start with a symbol".to_string()));
    assert_eq!(form_head(&form("[1]")), Err("top-level value must be a form".to_string()));

    assert_eq!(start_check(&items("(start!)"), true, false), Ok(()));
    assert_eq!(
        start_check(&items("(start!)"), false, false),
        Err("start! requires at least one top-level track".to_string())
    );
    assert_eq!(
        start_check(&items("(start!)"), false, true),
        Err("start! only starts top-level tracks; use (play-scene :scene-name) for scenes".to_string())
    );
    assert_eq!(start_check(&items("(start! 1)"), true, true), Err("start! expects no arguments".to_string()));

    let ids = vec!["kick".to_string(), "hat".to_string()];
    assert_eq!(track_target(&items("(mute :hat)"), "mute", &ids), Ok(1));
    assert_eq!(track_target(&items("(solo :snare)"), "solo", &ids), Err("unknown track ':snare'".to_string()));
    assert_eq!(track_target(&items("(clear)"), "clear", &ids), Err("clear expects exactly 1 argument".to_string()));
    assert_eq!(track_target(&items("(unmute hat)"), "unmute", &ids), Err("unmute requires a keyword argument".to_string()));

    let link = |id: &str, next: Option<&str>| SceneLink {
        id: id.to_string(),
        steps: 16,
        repeats: 1,
        next: next.map(|n| n.to_string()),
    };
    let scenes = vec![link("a", Some("b")), link("b", None)];
    assert_eq!(play_scene(&scenes, &items("(play-scene :b)"), "play-scene"), Ok(1));
    assert_eq!(play_scene(&scenes, &items("(cue :x)"), "cue"), Err("unknown scene ':x'".to_string()));
    assert_eq!(
        play_scene(&scenes, &items("(cue :a :b)"), "cue"),
        Err("cue expects exactly one scene keyword".to_string())
    );
    let broken = vec![link("a", Some("c"))];
    assert_eq!(
        play_scene(&broken, &items("(play-block :a)"), "play-block"),
        Err("scene ':a' :next references unknown scene ':c'".to_string())
    );
}

#[test]
fn sources_that_need_the_compiler() {
    let needs = |src: &str| source_needs_compiler(src, &readings(src));
    assert!(!needs("(d :kick :gate (p [1 0]))"));
    assert!(needs("(d :kick :gate (p [1] [0]))"));
    assert!(needs("(d :kick :gate (p :repeat))"));
    assert!(!needs("(d :kick :gate (times 2 [1]))"));
    assert!(needs("(d :kick :gate (times 2.5 [1]))"));
    assert!(needs("(d :kick :gate (times 0 [1]))"));
    assert!(needs("(d :kick :gate (times 2))"));
    assert!(needs("(d :kick :gate (then [1]))"));
    assert!(needs("(def x 1)"));
    assert!(needs("(d :kick :note [c3 (chord c3 :major)])"));
    assert!(!needs("(d :kick :note [c3 e3])"));
    assert!(needs("(d :a 1_000)"));
    assert!(!needs("(d :a"));
    assert!(!needs(""));
}

#[test]
fn effects_play_by_their_own_gates() {
    let gates = vec![
        None,
        Some(vec![vec![true], vec![false]]),
        Some(vec![vec![true, false, true]]),
        Some(vec![]),
    ];
    assert_eq!(active_effect_specs(&gates, 0, 0), vec![0, 1, 2]);
    assert_eq!(active_effect_specs(&gates, 1, 1), vec![0]);
    assert_eq!(active_effect_specs(&gates, 1, 2), vec![0, 2]);
    assert_eq!(active_effect_specs(&gates, 3, 5), vec![0, 2]);
    assert_eq!(active_effect_specs(&[], 3, 5), Vec::<usize>::new());
}

#[test]
fn a_step_starts_by_plan() {
    let p = plan_step(true, false, true, 7);
    assert_eq!(p, StepPlan { reset_transport: true, clear_voices: false, report: Some(7), play_tracks: true });
    let p = plan_step(false, true, false, 7);
    assert_eq!(p.report, Some(TRANSPORT_STOPPED_STEP));
    assert!(p.clear_voices && !p.play_tracks);
    assert_eq!(plan_step(false, false, false, 7).report, None);
}

fn slots(source: &str) -> Result<String, String> {
    effect_pattern_slots(&form(source), "fx", &readings(source))
        .map(|v| v.iter().map(show).collect::<Vec<_>>().join(" "))
}

#[test]
fn effect_patterns_list_one_effect_per_slot() {
    assert_eq!(slots("[(crush) (delay)]"), Ok("(crush) (delay)".to_string()));
    assert_eq!(slots("(times 2 [(a) (b)])"), Ok("(a) (b) (a) (b)".to_string()));
    assert_eq!(slots("(then [(a)] [(b) (c)])"), Ok("(a) (b) (c)".to_string()));
    assert_eq!(slots("(rev [(a) (b)])"), Ok("(b) (a)".to_string()));
    assert_eq!(slots("(g (reverse [(a) (b)]))"), Ok("(b) (a)".to_string()));
    assert_eq!(slots("(crush :bits 4)"), Ok("(crush :bits 4)".to_string()));
    assert_eq!(slots("((crush))"), Ok("(crush)".to_string()));
    assert_eq!(slots("(1 2)"), Err("fx requires effect forms".to_string()));
    assert_eq!(slots(":crush"), Err("fx requires effect forms".to_string()));
    assert_eq!(slots("(times 0 [(a)])"), Err("times must be greater than zero".to_string()));
    assert_eq!(slots("(times 2 :a)"), Err("times requires effect forms".to_string()));
    assert_eq!(slots("(then [(a)])"), Err("then expects at least two patterns".to_string()));
    assert_eq!(
        slots("(g [(a)] then [(b)])"),
        Err("g wraps exactly one pattern; use (g (then A B)) instead of (g A then B)".to_string())
    );
    assert_eq!(slots("(rev)"), Err("reverse requires a pattern".to_string()));
}

fn note(n: i64) -> PatternValue {
    PatternValue::Note(n)
}

fn num(t: &str) -> PatternValue {
    PatternValue::Number(t.to_string())
}

fn notes(source: &str) -> Result<(Vec<PatternValue>, Vec<Vec<PatternValue>>, NoteMode), String> {
    note_pattern(&form(source), &readings(source))
}

#[test]
fn note_patterns_give_notes_chords_and_mode() {
    let (flat, chords, mode) = notes("[c3 e3 [c3 g3]]").unwrap();
    assert_eq!(chords, vec![vec![note(45)], vec![note(49)], vec![note(45), note(52)]]);
    assert_eq!(flat, vec![note(45), note(49), note(45), note(52)]);
    assert_eq!(mode, NoteMode::Hit);
    assert_eq!(notes("(p [c3 e3])").unwrap().2, NoteMode::Step);
    assert_eq!(notes("(s [c3])").unwrap().2, NoteMode::Hit);
    assert_eq!(notes("(g [c3])").unwrap().2, NoteMode::Tick);
    let (flat, chords, mode) = notes("(gs (times 2 [c3 e3]))").unwrap();
    assert_eq!((flat.len(), chords.len(), mode), (4, 4, NoteMode::Tick));
    let (flat, _, mode) = notes("(rev (p [c3 e3]))").unwrap();
    assert_eq!((flat, mode), (vec![note(49), note(45)], NoteMode::Step));
    assert_eq!(notes("c3").unwrap(), (vec![note(45)], vec![vec![note(45)]], NoteMode::Step));
    assert_eq!(notes("440").unwrap().0, vec![num("440")]);
    assert_eq!(notes("[440 cs3]").unwrap().0, vec![num("440"), note(46)]);
    assert_eq!(notes("a4").unwrap().0, vec![note(66)]);

    let e = |src: &str| notes(src).unwrap_err();
    assert_eq!(e("(p [c3] [e3])"), "p expects one vector");
    assert_eq!(e("(p)"), "p requires a vector");
    assert_eq!(e("(p c3)"), "p requires a vector");
    assert_eq!(e("[x3]"), "unknown symbol 'x3'");
    assert_eq!(e("[[c3 [e3 g3]]]"), "expected one number or note, got vector with 2 values");
    assert_eq!(e("(then [c3])"), "expected number or note");
}

#[test]
fn number_patterns_expand_their_forms() {
    let values = |src: &str| number_pattern(&form(src), false, &readings(src));
    assert_eq!(values("(p [1 2])"), Ok(vec![num("1"), num("2")]));
    assert_eq!(values("(p (then [1] [2 3]))"), Ok(vec![num("1"), num("2"), num("3")]));
    assert_eq!(values("(p (times 2 [1]))"), Ok(vec![num("1"), num("1")]));
    assert_eq!(values("(rev [1 2])"), Ok(vec![num("2"), num("1")]));
    assert_eq!(values("0.5"), Ok(vec![num("0.5")]));
    assert_eq!(values("[1 c3]"), Err("expected numeric pattern value".to_string()));
    assert_eq!(values("(p (foo))"), Err("p requires a vector".to_string()));
    assert_eq!(values("(p (times 0 [1]))"), Err("times must be greater than zero".to_string()));
    assert_eq!(
        number_pattern(&form("[c3 1]"), true, &[]),
        Ok(vec![note(45), num("1")])
    );
}

#[test]
fn parameters_written_as_patterns() {
    let pattern = |src: &str| numeric_param_pattern(&form(src), &readings(src));
    assert_eq!(pattern("(p [1 2])"), Ok(Some(vec![num("1"), num("2")])));
    assert_eq!(pattern("[0.5]"), Ok(Some(vec![num("0.5")])));
    assert_eq!(pattern("(rev [1 2])"), Ok(Some(vec![num("2"), num("1")])));
    assert_eq!(pattern("0.5"), Ok(None));
    assert_eq!(pattern("(foo 1)"), Ok(None));
    assert_eq!(pattern("[c3]"), Err("expected numeric pattern value".to_string()));

    let effect = |src: &str| numeric_effect_param_pattern(&form(src), &readings(src));
    assert_eq!(effect("(s [1 2])"), Ok(Some((EffectParamPatternMode::Hit, vec![num("1"), num("2")]))));
    assert_eq!(effect("(gs [1])"), Ok(Some((EffectParamPatternMode::Gate, vec![num("1")]))));
    assert_eq!(effect("(reverse [1 2])"), Ok(Some((EffectParamPatternMode::Step, vec![num("2"), num("1")]))));
    assert_eq!(effect("[3]"), Ok(Some((EffectParamPatternMode::Step, vec![num("3")]))));
    assert_eq!(effect("3"), Ok(None));

    let unison = |src: &str| bounded_usize_param(&form(src), &readings(src), 1, 10, "unison");
    assert!(matches!(unison("3"), Ok(UsizeParam::Scalar(3))));
    assert!(matches!(unison("(p [1 4])"), Ok(UsizeParam::Pattern(ref v)) if v == &vec![1, 4]));
    assert_eq!(unison("12").err(), Some("unison must be between 1 and 10, got 12".to_string()));
    assert_eq!(unison("2.5").err(), Some("unison must be a non-negative integer".to_string()));
    assert_eq!(
        unison("(p [1 12])").err(),
        Some(":unison unison must be between 1 and 10, got 12".to_string())
    );
    assert_eq!(
        unison("(p [1 1.5])").err(),
        Some(":unison unison must be a non-negative integer".to_string())
    );
    assert_eq!(unison("(p [c3])").err(), Some(":unison expected numeric pattern value".to_string()));
}

#[test]
fn reversing_notes_twice_changes_nothing() {
    for src in ["[c3 e3 [c3 g3]]", "(p (then [c3] [e3 g3]))", "c3", "(g [c3 e3])", "[x3]"] {
        let twice = format!("(rev (rev {}))", src);
        assert_eq!(notes(&twice), notes(src), "{}", src);
    }
}

#[test]
fn track_sources_by_name() {
    assert_eq!(waveform(&form(":sine-synth")), Ok(Waveform::Sine));
    assert_eq!(waveform(&form("bass_slap")), Ok(Waveform::BassSlap));
    assert_eq!(waveform(&form(":kazoo")), Err("unsupported source ':kazoo'".to_string()));
    assert_eq!(waveform(&form("\"sine-synth\"")), Err("source must be a keyword".to_string()));
}

fn items_of(source: &str) -> Vec<Form> {
    match form(source) {
        Form::List(items) => items,
        _ => panic!("not a list"),
    }
}

#[test]
fn effect_args_scan_reads_keyword_value_pairs() {
    let items = items_of("(delay :time 0.5 :mix 0.2)");
    let s = effect_args_scan(&items, "delay", &["time", "feedback", "mix"]);
    assert_eq!(s.entries, vec![1, 3]);
    assert_eq!(s.stop, None);
}

#[test]
fn effect_args_scan_errors() {
    let keys = ["time", "feedback", "mix"];
    let s = effect_args_scan(&items_of("(delay :time 0.5 0.2)"), "delay", &keys);
    assert_eq!(s.entries, vec![1]);
    assert_eq!(s.stop, Some("delay parameters must be keyword/value pairs".to_string()));
    let s = effect_args_scan(&items_of("(delay :mix)"), "delay", &keys);
    assert_eq!(s.stop, Some("delay :mix requires a value".to_string()));
    let s = effect_args_scan(&items_of("(delay :size 1)"), "delay", &keys);
    assert_eq!(s.stop, Some("unknown delay parameter ':size'".to_string()));
    let s = effect_args_scan(&items_of("(delay :mix 1 :mix 2)"), "delay", &keys);
    assert_eq!(s.entries, vec![1]);
    assert_eq!(s.stop, Some("duplicate delay parameter ':mix'".to_string()));
}

#[test]
fn effect_args_scan_uses_canonical_names() {
    let keys = ["type", "cutoff", "res", "resonance", "gain-db", "gain_db"];
    let s = effect_args_scan(&items_of("(filter :res 1 :resonance 2)"), "filter", &keys);
    assert_eq!(s.entries, vec![1]);
    assert_eq!(s.stop, Some("duplicate filter parameter ':resonance'".to_string()));
}

fn plan(source: &str) -> Result<TrackEffectPlan, String> {
    track_effect_plan(&form(source), &readings(source))
}

#[test]
fn track_effect_plans() {
    assert!(matches!(plan("(delay :time 0.5)"), Ok(TrackEffectPlan::Whole)));
    assert!(matches!(plan("(delay :time nil)"), Ok(TrackEffectPlan::Skipped)));
    assert!(matches!(plan("(unknown-fx :x nil)"), Ok(TrackEffectPlan::Skipped)));
    assert_eq!(plan("(delay :size nil)").err(), Some("unknown delay parameter ':size'".to_string()));
    assert_eq!(plan("[1 2]").err(), Some("effect must be a form".to_string()));
    match plan("(on :gate [1 0] (delay :time 0.5))") {
        Ok(TrackEffectPlan::On { gate, effect }) => {
            assert_eq!(gate, Some(vec![vec![true], vec![false]]));
            assert_eq!(effect, 3);
        }
        _ => panic!("expected an on plan"),
    }
    assert!(matches!(plan("(on :gate [1 0] (delay :time nil))"), Ok(TrackEffectPlan::Skipped)));
}

#[test]
fn track_effect_on_errors() {
    assert_eq!(plan("(on :gate [1] :gate [0] (delay))").err(), Some("on expects only one :gate pattern".to_string()));
    assert_eq!(plan("(on :gate)").err(), Some("on :gate requires a gate pattern".to_string()));
    assert_eq!(plan("(on :gate [1])").err(), Some("on requires an effect form".to_string()));
    assert_eq!(plan("(on 3)").err(), Some("on expects :gate PATTERN followed by one effect form".to_string()));
    match plan("(on (delay :time 1) (comb :mix 1))") {
        Ok(TrackEffectPlan::RefusedAfter { effect, error }) => {
            assert_eq!(effect, 1);
            assert_eq!(error, "on expects exactly one effect form");
        }
        _ => panic!("expected a refusal after the effect form"),
    }
}

#[test]
fn checked_gate_patterns() {
    let f = form("[1 [1 0] [1 0 0]]");
    let rs = readings("[1 [1 0] [1 0 0]]");
    assert!(gate_widths_fit(&f, &rs));
    match checked_gate_pattern(&f, &rs) {
        Some(Ok(p)) => assert_eq!(p.gates.len(), 3),
        _ => panic!("expected a pattern"),
    }
    let nested = form("(reverse [1 0])");
    assert!(checked_gate_pattern(&nested, &readings("(reverse [1 0])")).is_some());
}

#[test]
fn program_state_transitions() {
    let mut st = ProgramState::new();
    assert_eq!(st.start(&items_of("(start!)")), Err("start! requires at least one top-level track".to_string()));
    st.define_track("kick", None);
    st.define_track("hat", None);
    assert_eq!(st.start(&items_of("(start!)")), Ok(()));
    assert!(st.running);
    assert_eq!(st.set_track_flag(&items_of("(mute :kick)"), "mute", true, false), Ok(()));
    assert_eq!(st.set_track_flag(&items_of("(solo :hat)"), "solo", true, true), Ok(()));
    assert_eq!(st.muted, vec![true, false]);
    assert_eq!(st.solo, vec![false, true]);
    st.define_track("kick", None);
    assert_eq!(st.muted, vec![true, false]);
    st.define_track("kick", Some(false));
    assert_eq!(st.muted, vec![false, false]);
    assert_eq!(st.clear(&items_of("(clear :snare)")), Err("unknown track ':snare'".to_string()));
    assert_eq!(st.clear(&items_of("(clear :kick)")), Ok(()));
    assert_eq!(st.ids, vec!["hat".to_string()]);
    assert_eq!(st.stop(&items_of("(stop!)")), Ok(()));
    assert!(!st.running);
    st.play_note();
    assert!(st.running);
    assert_eq!(st.ids, vec!["hat".to_string(), "tone".to_string()]);
    assert_eq!(st.clear_all(&items_of("(clear-all 1)")), Err("clear-all expects no arguments".to_string()));
    assert_eq!(st.clear_all(&items_of("(clear-all)")), Ok(()));
    assert!(st.ids.is_empty());
    assert!(!st.running);
    assert_eq!(st.eval_form(&form("(scene :intro :steps 8)"), &readings("(scene :intro :steps 8)"), clean()), Ok(()));
    assert_eq!(st.eval_form(&form("(scene :intro :steps 4)"), &readings("(scene :intro :steps 4)"), clean()), Ok(()));
    assert_eq!(st.scenes.len(), 1);
    assert_eq!(st.scenes[0].steps, 4);
    assert_eq!(
        st.start(&items_of("(start!)")),
        Err("start! only starts top-level tracks; use (play-scene :scene-name) for scenes".to_string())
    );
}

fn empty_body() -> SceneBody {
    SceneBody { ids: Vec::new(), muted: Vec::new(), solo: Vec::new(), post_effects: 0 }
}

fn clean() -> EngineReport {
    EngineReport { error: None, effects: 0, body: empty_body(), lengths: Vec::new() }
}

fn eval(st: &mut ProgramState, source: &str) -> Result<(), String> {
    st.eval_form(&form(source), &readings(source), clean())
}

#[test]
fn eval_form_applies_state_forms() {
    let mut st = ProgramState::new();
    st.define_track("kick", None);
    assert_eq!(eval(&mut st, "(start!)"), Ok(()));
    assert!(st.running);
    assert_eq!(eval(&mut st, "(mute :kick)"), Ok(()));
    assert_eq!(st.muted, vec![true]);
    assert_eq!(eval(&mut st, "(unmute :kick)"), Ok(()));
    assert_eq!(st.muted, vec![false]);
    assert_eq!(eval(&mut st, "(solo :kick)"), Ok(()));
    assert_eq!(st.solo, vec![true]);
    assert_eq!(eval(&mut st, "(bpm 120)"), Ok(()));
    assert_eq!(eval(&mut st, "(bpm)"), Err("bpm expects exactly 1 argument".to_string()));
    assert_eq!(eval(&mut st, "(mute :snare)"), Err("unknown track ':snare'".to_string()));
    assert_eq!(eval(&mut st, "(stop! 1)"), Err("stop! expects no arguments".to_string()));
    assert_eq!(eval(&mut st, "(wobble)"), Err("unsupported form 'wobble'".to_string()));
    assert_eq!(eval(&mut st, "(stop!)"), Ok(()));
    assert!(!st.running);
    assert_eq!(eval(&mut st, "(clear :kick)"), Ok(()));
    assert!(st.ids.is_empty());
}

#[test]
fn eval_form_defines_tracks() {
    let mut st = ProgramState::new();
    assert_eq!(eval(&mut st, "(d :kick :gate [1 0])"), Ok(()));
    assert_eq!(st.ids, vec!["kick".to_string()]);
    assert_eq!(st.muted, vec![false]);
    assert_eq!(eval(&mut st, "(mute :kick)"), Ok(()));
    assert_eq!(eval(&mut st, "(d :kick :gate [1 1])"), Ok(()));
    assert_eq!(st.muted, vec![true]);
    assert_eq!(eval(&mut st, "(d :kick :off false)"), Ok(()));
    assert_eq!(st.muted, vec![false]);
    assert_eq!(eval(&mut st, "(d :hat :off)"), Ok(()));
    assert_eq!(st.muted, vec![false, true]);
    assert_eq!(eval(&mut st, "(d :snare :off maybe)"), Err("off must be true or false".to_string()));
    assert_eq!(eval(&mut st, "(d :snare :wobble 1)"), Err("unknown track parameter ':wobble'".to_string()));
    assert_eq!(eval(&mut st, "(d snare)"), Err("d track id must be a keyword".to_string()));
    let refused = EngineReport { error: Some(":amp out of range".to_string()), ..clean() };
    assert_eq!(
        st.eval_form(&form("(d :snare :amp 9)"), &readings("(d :snare :amp 9)"), refused),
        Err(":amp out of range".to_string())
    );
    assert_eq!(st.ids, vec!["kick".to_string(), "hat".to_string()]);
    assert_eq!(eval(&mut st, "(sample :clap \"clap.wav\")"), Ok(()));
    assert_eq!(st.ids.len(), 3);
    assert_eq!(eval(&mut st, "(play-note 440)"), Ok(()));
    assert_eq!(st.ids.len(), 4);
    assert!(st.running);
}

#[test]
fn eval_form_defines_and_plays_scenes() {
    let mut st = ProgramState::new();
    let body = SceneBody {
        ids: vec!["kick".to_string()],
        muted: vec![false],
        solo: vec![true],
        post_effects: 1,
    };
    let lengths = vec![TrackLength { id: "kick".to_string(), steps: 16 }];
    let report = EngineReport { error: None, effects: 0, body, lengths };
    assert_eq!(st.eval_form(&form("(scene :intro (d :kick))"), &readings(""), report), Ok(()));
    assert_eq!(st.scenes.len(), 1);
    assert_eq!(st.scenes[0].id, "intro");
    assert_eq!(st.scenes[0].steps, 16);
    assert!(!st.running);
    assert_eq!(eval(&mut st, "(play-scene :outro)"), Err("unknown scene ':outro'".to_string()));
    assert_eq!(eval(&mut st, "(play-scene :intro)"), Ok(()));
    assert!(st.running);
    assert_eq!(st.playing, Some("intro".to_string()));
    assert_eq!(st.ids, vec!["kick".to_string()]);
    assert_eq!(st.solo, vec![true]);
    assert_eq!(st.post_effects, 1);
    assert_eq!(eval(&mut st, "(scene :empty)"), Err("scene has nothing to play; add a track or set :steps explicitly".to_string()));
    assert_eq!(eval(&mut st, "(post-fx [(reverse)])"), Ok(()));
    let fx = EngineReport { effects: 2, ..clean() };
    assert_eq!(st.eval_form(&form("(post-fx [])"), &readings(""), fx), Ok(()));
    assert_eq!(st.post_effects, 2);
}

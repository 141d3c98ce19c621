use glitchlisp::effects::{AmsProgram, DistortionKind, FilterKind, StereoSide, Vowel};
use glitchlisp::forms::{is_float_literal, parse_program, read_atom, Form};
use glitchlisp::gates::{
    expand_gate_cell, flatten_gate_grid, flatten_hold_grid, gate_pattern_from_steps,
    parse_gate_repeat_token, validate_gate_holds, GateSlot,
};
use glitchlisp::language::{
    ams_program, bounded_usize_value, clean_compiler_error, distortion_kind,
    effect_param_canonical_key, effect_pattern_slot_gates, filter_kind, gate_sustain_amount,
    include_path_from_line, live_effect_param_keys, numeric_pattern_form, numeric_pattern_mode,
    offline_effect_param_keys, scene_option_canonical_key, stereo_side, tokenize,
    track_param_canonical_key, unary_track_flag, vowel,
};
use glitchlisp::model::{is_percussive, waveform_named, EffectParamPatternMode, GateCell, Waveform};

#[test]
fn tokens_of_a_program() {
    assert_eq!(
        tokenize("(d :kick ; comment (\n [1 0] \"a b\")"),
        vec!["(", "d", ":kick", "[", "1", "0", "]", "\"a b\"", ")"]
    );
    assert_eq!(tokenize(""), Vec::<String>::new());
    assert_eq!(tokenize("; only a comment"), Vec::<String>::new());
    assert_eq!(tokenize("\"open"), vec!["\"open\""]);
}

#[test]
fn float_literals_as_std_reads_them() {
    for ok in ["1", "-2.5", "+.5", "5.", "1e3", "2.5E-3", "inf", "-Infinity", "NaN", "007"] {
        assert!(is_float_literal(ok), "{}", ok);
        assert!(ok.parse::<f32>().is_ok(), "{}", ok);
    }
    for bad in [".", "e3", "1e", "1e+", "1.2.3", "c4", "+", "", "1_000", "infinite", "0x10"] {
        assert!(!is_float_literal(bad), "{}", bad);
        assert!(bad.parse::<f32>().is_err(), "{}", bad);
    }
}

fn show(f: &Form) -> String {
    match f {
        Form::List(v) => format!("({})", v.iter().map(show).collect::<Vec<_>>().join(" ")),
        Form::Vector(v) => format!("[{}]", v.iter().map(show).collect::<Vec<_>>().join(" ")),
        Form::Symbol(s) => format!("sym:{}", s),
        Form::Keyword(s) => format!("kw:{}", s),
        Form::Number(s) => format!("num:{}", s),
        Form::Str(s) => format!("str:{}", s),
    }
}

#[test]
fn reading_forms() {
    let forms = parse_program("(d :kick :gate (p [1 0]) :name \"big\") (bpm 120)").unwrap();
    let shown: Vec<String> = forms.iter().map(show).collect();
    assert_eq!(
        shown,
        vec![
            "(sym:d kw:kick kw:gate (sym:p [num:1 num:0]) kw:name str:big)",
            "(sym:bpm num:120)"
        ]
    );
    assert_eq!(show(&read_atom("::x")), "kw:x");
    assert_eq!(show(&read_atom("\"\"\"")), "str:");
    assert_eq!(show(&read_atom("c4")), "sym:c4");
}

#[test]
fn reading_refuses_unbalanced_brackets() {
    assert_eq!(parse_program("(a").unwrap_err(), "missing ')'");
    assert_eq!(parse_program("[a (b)").unwrap_err(), "missing ']'");
    assert_eq!(parse_program("a)").unwrap_err(), "unexpected ')'");
    assert_eq!(parse_program("(a]").unwrap_err(), "unexpected ']'");
    assert!(parse_program("").unwrap().is_empty());
}

#[test]
fn canonical_keys() {
    assert_eq!(scene_option_canonical_key("times"), "repeat");
    assert_eq!(scene_option_canonical_key("loop-by"), "steps");
    assert_eq!(scene_option_canonical_key("bar-length"), "bar-steps");
    assert_eq!(scene_option_canonical_key("next"), "next");
    assert_eq!(track_param_canonical_key("pw"), "pulse-width");
    assert_eq!(track_param_canonical_key("cut"), "choke");
    assert_eq!(track_param_canonical_key("amp"), "amp");
    for key in ["times", "bars", "zzz"] {
        let once = scene_option_canonical_key(key);
        assert_eq!(scene_option_canonical_key(once), once);
    }
    assert_eq!(effect_param_canonical_key("filter", "res"), "resonance");
    assert_eq!(effect_param_canonical_key("comb", "delay"), "delay-ms");
    assert_eq!(effect_param_canonical_key("reverb", "mix"), "mix");
}

#[test]
fn effect_parameter_keys() {
    assert_eq!(offline_effect_param_keys("haas"), Some(vec!["delay-ms", "side"]));
    assert_eq!(offline_effect_param_keys("ping-pong"), Some(vec!["time", "feedback", "mix"]));
    assert_eq!(offline_effect_param_keys("filter"), None);
    assert_eq!(
        live_effect_param_keys("filter"),
        Some(vec!["type", "cutoff", "res", "resonance", "gain-db", "gain_db"])
    );
    assert_eq!(live_effect_param_keys("nope"), None);
}

#[test]
fn effect_kind_names() {
    assert_eq!(stereo_side("left"), Ok(StereoSide::Left));
    assert_eq!(stereo_side("up"), Err("unsupported stereo side 'up'".to_string()));
    assert_eq!(ams_program("ambient"), Ok(AmsProgram::Ambience));
    assert_eq!(ams_program("x"), Err("unsupported AMS reverb program 'x'".to_string()));
    assert_eq!(filter_kind("bell"), Ok(FilterKind::Peaking));
    assert_eq!(filter_kind("lowshelf"), Ok(FilterKind::LowShelf));
    assert_eq!(filter_kind("x"), Err("unsupported filter type ':x'".to_string()));
    assert_eq!(vowel("o"), Ok(Vowel::O));
    assert_eq!(vowel("y"), Err("unsupported vowel ':y'".to_string()));
    assert_eq!(distortion_kind("half_rectify"), Ok(DistortionKind::HalfRectify));
    assert_eq!(distortion_kind("fuzz"), Err("unsupported distortion type ':fuzz'".to_string()));
}

#[test]
fn track_flags_and_pattern_forms() {
    assert!(unary_track_flag("off"));
    assert!(!unary_track_flag("on"));
    assert!(numeric_pattern_form("gate-seq"));
    assert!(!numeric_pattern_form("q"));
    assert_eq!(numeric_pattern_mode("p"), Some(EffectParamPatternMode::Step));
    assert_eq!(numeric_pattern_mode("s"), Some(EffectParamPatternMode::Hit));
    assert_eq!(numeric_pattern_mode("gs"), Some(EffectParamPatternMode::Gate));
    assert_eq!(numeric_pattern_mode("x"), None);
}

#[test]
fn bounded_values() {
    assert_eq!(bounded_usize_value(4, 1, 8, "unison"), Ok(4));
    assert_eq!(bounded_usize_value(9, 1, 8, "unison"), Err("unison must be between 1 and 8, got 9".to_string()));
    assert_eq!(gate_sustain_amount("12"), Ok(12));
    assert_eq!(gate_sustain_amount("0"), Err("gate sustain must be greater than zero".to_string()));
    assert_eq!(gate_sustain_amount("x"), Err("gate sustain must be written like ~12".to_string()));
}

#[test]
fn waveforms() {
    assert_eq!(waveform_named("sine-synth"), Ok(Waveform::Sine));
    assert_eq!(waveform_named("bogus"), Err("unsupported source ':bogus'".to_string()));
    assert!(!is_percussive(Waveform::Sine));
}

#[test]
fn include_lines() {
    assert_eq!(include_path_from_line("  (include \"lib/drums.gl\")  "), Some("lib/drums.gl".to_string()));
    assert_eq!(include_path_from_line("(include \"a\" extra)"), None);
    assert_eq!(include_path_from_line("(include a)"), None);
    assert_eq!(include_path_from_line("(d :k)"), None);
}

#[test]
fn compiler_errors() {
    assert_eq!(
        clean_compiler_error("Execution error at x.\n  Unknown symbol foo\nmore"),
        "Unknown symbol foo"
    );
    assert_eq!(clean_compiler_error("Execution error only"), "Execution error only");
    assert_eq!(clean_compiler_error("Full report at:\nExecution error\nx"), "Full report at:\nExecution error\nx");
    assert_eq!(clean_compiler_error("plain"), "plain");
}

#[test]
fn repeat_gate_tokens() {
    assert_eq!(parse_gate_repeat_token("1%0%1"), Ok(vec![true, false, true]));
    assert_eq!(
        parse_gate_repeat_token("%1"),
        Err("repeat gate cells use values separated by %, like 1%0%1%0".to_string())
    );
    assert_eq!(
        parse_gate_repeat_token("1%2"),
        Err("repeat gate cells only accept 0 and 1 values, like 1%0%1%0".to_string())
    );
    assert_eq!(
        parse_gate_repeat_token(""),
        Err("repeat gate cells only accept 0 and 1 values, like 1%0%1%0".to_string())
    );
}

fn slot(gate: bool, hold: usize) -> GateSlot {
    GateSlot { gate, cell: GateCell::Static(gate), hold }
}

#[test]
fn gate_patterns_from_steps() {
    let p = gate_pattern_from_steps(vec![vec![slot(true, 2)], vec![slot(false, 0), slot(true, 0)]]).unwrap();
    assert_eq!(p.gates, vec![vec![true], vec![false, true]]);
    assert_eq!(p.holds, vec![vec![2], vec![0, 0]]);
    assert_eq!(p.loop_start, 0);
    assert_eq!(
        gate_pattern_from_steps(vec![vec![slot(false, 1)]]).err(),
        Some("gate hold can only be attached to a hit".to_string())
    );
    assert_eq!(flatten_gate_grid(&[vec![true], vec![false, true]]), vec![true, false, true]);
    assert_eq!(flatten_hold_grid(&[vec![1], vec![0, 2]]), vec![1, 0, 2]);
    assert!(validate_gate_holds(&[vec![true, false]], &[vec![3, 0]]).is_ok());
    assert!(validate_gate_holds(&[vec![true, false]], &[vec![0, 3]]).is_err());
}

#[test]
fn widening_a_gate_cell_keeps_its_hits() {
    let cell = vec![slot(true, 0), slot(false, 0), slot(true, 1)];
    let wide = expand_gate_cell(&cell, 6);
    let gates: Vec<bool> = wide.iter().map(|s| s.gate).collect();
    assert_eq!(gates, vec![true, false, false, false, true, false]);
    assert_eq!(wide[4].hold, 1);
    assert_eq!(expand_gate_cell(&[], 0).len(), 1);
    let narrow = expand_gate_cell(&cell, 2);
    assert_eq!(narrow.iter().map(|s| s.gate).collect::<Vec<_>>(), vec![true, false]);
}

#[test]
fn effect_pattern_slots() {
    assert_eq!(
        effect_pattern_slot_gates(3, 1, Some(vec![vec![true, false]])),
        vec![vec![false], vec![true, false], vec![false]]
    );
    assert_eq!(effect_pattern_slot_gates(2, 0, None), vec![vec![true], vec![false]]);
}

use glitchlisp::includes::{
    append_included, append_text_line, has_includes, include_cycle_message, include_read_message,
    source_lines, SourceLine,
};
use glitchlisp::notes::{note_number, parse_i32};

#[test]
fn include_planning() {
    let lines = source_lines("(bpm 120)\n(include \"drums.gl\")\n");
    assert_eq!(
        lines,
        vec![SourceLine::Text("(bpm 120)".to_string()), SourceLine::Include("drums.gl".to_string())]
    );
    assert!(has_includes("a\n (include \"b\") "));
    assert!(!has_includes("(d :k)"));
    let mut out = String::new();
    append_text_line(&mut out, "(bpm 120)");
    append_included(&mut out, "(d :k)");
    append_included(&mut out, "(d :s)\n");
    assert_eq!(out, "(bpm 120)\n(d :k)\n(d :s)\n");
    assert_eq!(include_cycle_message("a.gl"), "include cycle detected at a.gl");
    assert_eq!(include_read_message("a.gl", "not found"), "include a.gl: not found");
}

fn cs(s: &str) -> Vec<char> {
    s.chars().collect()
}

#[test]
fn whole_numbers_as_std_reads_them() {
    for text in ["0", "-0", "+12", "-2147483648", "2147483647", "-5"] {
        assert_eq!(parse_i32(&cs(text)), text.parse::<i32>().ok(), "{}", text);
    }
    for text in ["", "-", "+", "-+1", "2147483648", "-2147483649", "1.0", "x"] {
        assert_eq!(parse_i32(&cs(text)), None, "{}", text);
        assert!(text.parse::<i32>().is_err());
    }
}

#[test]
fn note_names() {
    assert_eq!(note_number("c4"), Some(57));
    assert_eq!(note_number("a4"), Some(66));
    assert_eq!(note_number("C4"), Some(57));
    assert_eq!(note_number("cs4"), Some(58));
    assert_eq!(note_number("eb2"), Some(36));
    assert_eq!(note_number("b-1"), Some(8));
    assert_eq!(note_number("h4"), None);
    assert_eq!(note_number("c"), None);
    assert_eq!(note_number("cx4"), None);
    assert_eq!(note_number(""), None);
}

#[test]
fn bracket_free_tokens_read_as_atoms() {
    let forms = parse_program("a :b 1 \"s\"").unwrap();
    let shown: Vec<String> = forms.iter().map(show).collect();
    assert_eq!(shown, vec!["sym:a", "kw:b", "num:1", "str:s"]);
}

use glitchlisp::gates::ParsedGatePattern;
use glitchlisp::patterns::{
    chain_gate_patterns, euclid_gate_pattern, repeat_gate_pattern, reverse_gate_pattern,
};

fn plain(gates: Vec<Vec<bool>>, holds: Vec<Vec<usize>>) -> ParsedGatePattern {
    let cells = gates.iter().map(|row| row.iter().map(|g| GateCell::Static(*g)).collect()).collect();
    ParsedGatePattern { gates, cells, holds, loop_start: 0 }
}

#[test]
fn euclid_patterns() {
    let p = euclid_gate_pattern(3, 8, 0);
    assert_eq!(
        p.gates,
        vec![vec![true], vec![false], vec![false], vec![true], vec![false], vec![false], vec![true], vec![false]]
    );
    assert_eq!(p.holds, vec![vec![0]; 8]);
    assert_eq!(p.loop_start, 0);
}

#[test]
fn reversed_patterns() {
    let p = plain(vec![vec![true], vec![false, true]], vec![vec![2], vec![0, 0]]);
    let r = reverse_gate_pattern(p).unwrap();
    assert_eq!(r.gates, vec![vec![false, true], vec![true]]);
    assert_eq!(r.holds, vec![vec![0, 0], vec![2]]);
    let back = reverse_gate_pattern(r).unwrap();
    assert_eq!(back.gates, vec![vec![true], vec![false, true]]);
    let skewed = plain(vec![vec![true], vec![false, false]], vec![vec![1], vec![0]]);
    assert_eq!(
        reverse_gate_pattern(skewed).err(),
        Some("gate hold can only be attached to a hit".to_string())
    );
}

#[test]
fn repeated_patterns() {
    let p = plain(vec![vec![true], vec![false]], vec![vec![0], vec![0]]);
    let r = repeat_gate_pattern(&p, 3).unwrap();
    assert_eq!(r.gates, vec![vec![true], vec![false], vec![true], vec![false], vec![true], vec![false]]);
    assert_eq!(r.gates.len(), 3 * p.gates.len());
    assert!(repeat_gate_pattern(&p, 0).unwrap().gates.is_empty());
}

#[test]
fn chained_patterns() {
    let a = plain(vec![vec![true], vec![false]], vec![vec![0], vec![0]]);
    let b = plain(vec![vec![false], vec![true], vec![true]], vec![vec![0], vec![0], vec![0]]);
    let c = chain_gate_patterns(vec![a, b], false).unwrap();
    assert_eq!(c.gates.len(), 5);
    assert_eq!(c.loop_start, 2);
    let a = plain(vec![vec![true]], vec![vec![0]]);
    let b = plain(vec![vec![false]], vec![vec![0]]);
    assert_eq!(chain_gate_patterns(vec![a, b], true).unwrap().loop_start, 0);
    let one = plain(vec![vec![true]], vec![vec![0]]);
    assert_eq!(
        chain_gate_patterns(vec![one], false).err(),
        Some("then expects at least two patterns".to_string())
    );
}

use glitchlisp::options::{
    all_effect_params_null, copy_form, effect_pattern_form, expect_arity, keyword_param,
    normalized_track_options, null_value, validate_sample_options,
};

fn items_of(source: &str) -> Vec<Form> {
    match parse_program(source).unwrap().remove(0) {
        Form::List(items) => items,
        _ => panic!("not a list"),
    }
}

#[test]
fn form_arity() {
    assert_eq!(expect_arity(&items_of("(start!)"), "start!", 1), Ok(()));
    assert_eq!(expect_arity(&items_of("(start! 1)"), "start!", 1), Err("start! expects no arguments".to_string()));
    assert_eq!(expect_arity(&items_of("(bpm)"), "bpm", 2), Err("bpm expects exactly 1 argument".to_string()));
}

#[test]
fn keyword_options() {
    let items = items_of("(haas :side :left :mix 0.5)");
    assert_eq!(keyword_param(&items, "side"), Ok(Some("left".to_string())));
    assert_eq!(keyword_param(&items, "type"), Ok(None));
    assert_eq!(keyword_param(&items, "mix"), Err(":mix expected keyword or symbol".to_string()));
    assert_eq!(keyword_param(&items_of("(f :side nil)"), "side"), Ok(None));
    assert_eq!(keyword_param(&items_of("(f :side right)"), "side"), Ok(Some("right".to_string())));
    assert!(null_value(&read_atom("null")));
    assert!(!null_value(&read_atom(":nil")));
}

#[test]
fn sample_options() {
    assert_eq!(validate_sample_options(&items_of("(sample :k :path \"a.wav\" :cut)"), 2), Ok(()));
    assert_eq!(validate_sample_options(&items_of("(sample :k :off :amp 1)"), 2), Ok(()));
    assert_eq!(
        validate_sample_options(&items_of("(sample :k :amp)"), 2),
        Err("sample :amp requires a value".to_string())
    );
    assert_eq!(
        validate_sample_options(&items_of("(sample :k 3)"), 2),
        Err("sample options must be keyword/value pairs".to_string())
    );
}

#[test]
fn track_options() {
    let opts = normalized_track_options(&items_of("(d :k :choke :amp 0.5 :off)"), 2).unwrap();
    let shown: Vec<String> = opts.iter().map(show).collect();
    assert_eq!(shown, vec!["kw:choke", "sym:true", "kw:amp", "num:0.5", "kw:off", "sym:true"]);
    assert_eq!(
        normalized_track_options(&items_of("(d :k :amp)"), 2).err(),
        Some("track parameter ':amp' requires a value".to_string())
    );
    assert_eq!(
        normalized_track_options(&items_of("(d :k amp 1)"), 2).err(),
        Some("track parameters must be keyword/value pairs".to_string())
    );
    let f = parse_program("(p [1 (x)] :k)").unwrap().remove(0);
    assert_eq!(show(&copy_form(&f)), show(&f));
}

#[test]
fn pattern_forms_and_null_effects() {
    assert!(effect_pattern_form(&parse_program("(then a b)").unwrap().remove(0)));
    assert!(effect_pattern_form(&parse_program("(gs [1])").unwrap().remove(0)));
    assert!(!effect_pattern_form(&parse_program("(delay :mix 1)").unwrap().remove(0)));
    assert!(!effect_pattern_form(&parse_program("()").unwrap().remove(0)));
    assert!(all_effect_params_null(&items_of("(delay :mix nil :time null)")));
    assert!(!all_effect_params_null(&items_of("(delay :mix nil :time 1)")));
    assert!(!all_effect_params_null(&items_of("(delay)")));
    assert!(!all_effect_params_null(&items_of("(delay :mix nil :time)")));
}

#[test]
fn offline_and_live_effect_names_are_disjoint() {
    assert_eq!(offline_effect_param_keys("haas"), Some(vec!["delay-ms", "side"]));
    assert_eq!(offline_effect_param_keys("ping-pong"), Some(vec!["time", "feedback", "mix"]));
    assert_eq!(offline_effect_param_keys("delay"), None);
    for name in [
        "reverse", "tape-stop", "granular", "granular-stretch", "spectral-freeze", "haas",
        "stereo-widen", "stereo_widen", "stereo-imager", "stereo_imager", "width-enhance",
        "width_enhance", "freq-shift", "freq_shift", "autopan", "auto-pan", "ping-pong-delay",
        "ping_pong_delay", "ping-pong",
    ] {
        assert!(offline_effect_param_keys(name).is_some());
        assert_eq!(live_effect_param_keys(name), None);
    }
}

#[test]
fn whitespace_test_agrees_with_std() {
    for v in 0u32..0x3100 {
        if let Some(c) = char::from_u32(v) {
            assert_eq!(glitchlisp::text::char_is_whitespace(c), c.is_whitespace(), "{:#x}", v);
        }
    }
    for c in ['\u{feff}', '\u{180e}', '\u{200b}', 'a', '\u{10ffff}'] {
        assert_eq!(glitchlisp::text::char_is_whitespace(c), c.is_whitespace());
    }
}

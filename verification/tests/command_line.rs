use glitchlisp::cli::{
    capabilities, decide_command, expect_positional_count, expect_positional_max, has_seconds,
    interactive_render_path, is_help_command, option_value, positional_args,
    positional_args_with_options, run_with_args, run_with_args_quiet, usage_text, CliAction,
};
use glitchlisp::scenes::{
    advance_scene, apply_scene, auto_render_steps, find_scene, playback_hint,
    validate_scene_next_targets, SceneAdvance, SceneCursor, SceneLink,
};

fn args(v: &[&str]) -> Vec<String> {
    v.iter().map(|s| s.to_string()).collect()
}

#[test]
fn seconds_flag() {
    assert!(has_seconds(&args(&["x", "play", "--seconds", "2"])));
    assert!(!has_seconds(&args(&["x", "play"])));
}

#[test]
fn positional_arguments() {
    assert_eq!(positional_args(&args(&["x", "play", "a.gl", "--seconds", "3"])), Ok(args(&["a.gl"])));
    assert_eq!(
        positional_args(&args(&["x", "play", "--seconds", "1", "--seconds", "2"])),
        Err("duplicate option '--seconds'".to_string())
    );
    assert_eq!(
        positional_args(&args(&["x", "play", "--seconds"])),
        Err("--seconds requires a value".to_string())
    );
    assert_eq!(
        positional_args(&args(&["x", "play", "--seconds", "--loud"])),
        Err("--seconds requires a value".to_string())
    );
    assert_eq!(positional_args(&args(&["x", "play", "--loud"])), Err("unknown option '--loud'".to_string()));
    assert_eq!(
        positional_args_with_options(&args(&["x", "gui-live", "--device", "usb", "y"]), &["--device"]),
        Ok(args(&["y"]))
    );
}

#[test]
fn positional_counts() {
    assert_eq!(expect_positional_count(&args(&["a"]), "play", 1), Ok(()));
    assert_eq!(
        expect_positional_count(&args(&[]), "play", 1),
        Err("play expects exactly 1 positional argument".to_string())
    );
    assert_eq!(
        expect_positional_count(&args(&["a"]), "render", 2),
        Err("render expects exactly 2 positional arguments".to_string())
    );
    assert_eq!(
        expect_positional_max(&args(&["a", "b"]), "live", 1),
        Err("live expects at most 1 positional argument".to_string())
    );
    assert_eq!(expect_positional_max(&args(&[]), "live", 1), Ok(()));
}

#[test]
fn option_values_and_help() {
    assert_eq!(option_value(&args(&["x", "--device", "usb"]), "--device"), Some("usb".to_string()));
    assert_eq!(option_value(&args(&["x", "--device"]), "--device"), None);
    assert!(is_help_command("-h"));
    assert!(is_help_command("help"));
    assert!(!is_help_command("halp"));
    assert_eq!(interactive_render_path("  "), Err("render requires an output path".to_string()));
    assert_eq!(interactive_render_path(" out.wav "), Ok("out.wav".to_string()));
    assert!(usage_text().starts_with("usage:"));
    assert!(capabilities().starts_with("glitchlisp-native capabilities"));
}

#[test]
fn commands() {
    let d = decide_command(&args(&["x", "render", "a.gl", "b.wav", "--seconds", "4"]), true);
    assert!(!d.show_usage);
    assert!(matches!(d.outcome, Ok(CliAction::Render { ref input, ref output }) if input == "a.gl" && output == "b.wav"));
    let d = decide_command(&args(&["x", "play"]), true);
    assert_eq!(d.outcome.err(), Some("play expects exactly 1 positional argument".to_string()));
    let d = decide_command(&args(&["x", "live"]), true);
    assert!(matches!(d.outcome, Ok(CliAction::Live { path: None })));
    let d = decide_command(&args(&["x", "edit", "s.gl"]), true);
    assert!(matches!(d.outcome, Ok(CliAction::Edit { path: Some(ref p) }) if p == "s.gl"));
    let d = decide_command(&args(&["x", "gui-live", "--device", "usb"]), true);
    assert!(matches!(d.outcome, Ok(CliAction::GuiLive { device: Some(ref p) }) if p == "usb"));
    let d = decide_command(&args(&["x", "compile-gui"]), true);
    assert!(matches!(d.outcome, Ok(CliAction::GuiRender)));
    let d = decide_command(&args(&["x", "compile", "a", "b", "--seconds", "1"]), true);
    assert_eq!(d.outcome.err(), Some("unknown option '--seconds'".to_string()));
}

#[test]
fn usage_is_shown_for_missing_help_and_unknown_commands() {
    let d = run_with_args(&args(&["x"]));
    assert!(d.show_usage);
    assert_eq!(d.outcome.err(), Some("missing command".to_string()));
    let d = run_with_args(&args(&["x", "--help"]));
    assert!(d.show_usage);
    assert!(matches!(d.outcome, Ok(CliAction::Help)));
    let d = run_with_args(&args(&["x", "dance"]));
    assert!(d.show_usage);
    assert_eq!(d.outcome.err(), Some("unknown command 'dance'".to_string()));
    let d = run_with_args_quiet(&args(&["x", "dance"]));
    assert!(!d.show_usage);
    let d = run_with_args(&args(&["x", "repl"]));
    assert!(!d.show_usage);
    assert!(matches!(d.outcome, Ok(CliAction::Repl)));
}

fn scene(id: &str, steps: usize, repeats: usize, next: Option<&str>) -> SceneLink {
    SceneLink { id: id.to_string(), steps, repeats, next: next.map(|n| n.to_string()) }
}

#[test]
fn scene_chains_are_checked() {
    let g = vec![scene("a", 16, 2, Some("b")), scene("b", 8, 1, None), scene("c", 4, 1, Some("zz"))];
    assert_eq!(find_scene(&g, "b"), Some(1));
    assert_eq!(find_scene(&g, "q"), None);
    assert_eq!(validate_scene_next_targets(&g, "a"), Ok(()));
    assert_eq!(validate_scene_next_targets(&g, "q"), Err("unknown scene ':q'".to_string()));
    assert_eq!(
        validate_scene_next_targets(&g, "c"),
        Err("scene ':c' :next references unknown scene ':zz'".to_string())
    );
    assert_eq!(apply_scene(&g, "b"), Ok(1));
    assert_eq!(apply_scene(&g, "q"), Err("unknown scene ':q'".to_string()));
    let looping = vec![scene("a", 4, 1, Some("b")), scene("b", 4, 1, Some("a"))];
    assert_eq!(validate_scene_next_targets(&looping, "a"), Ok(()));
    let forever = vec![scene("a", 4, 0, Some("nowhere"))];
    assert_eq!(validate_scene_next_targets(&forever, "a"), Ok(()));
}

#[test]
fn render_length_of_a_scene_chain() {
    let g = vec![scene("a", 16, 2, Some("b")), scene("b", 0, 3, None)];
    assert_eq!(auto_render_steps(&g, Some("a")), Some(35));
    assert_eq!(auto_render_steps(&g, Some("b")), Some(3));
    assert_eq!(auto_render_steps(&g, None), None);
    assert_eq!(auto_render_steps(&g, Some("zz")), None);
    let looping = vec![scene("a", 4, 1, Some("b")), scene("b", 4, 1, Some("a"))];
    assert_eq!(auto_render_steps(&looping, Some("a")), None);
    let forever = vec![scene("a", 4, 0, None)];
    assert_eq!(auto_render_steps(&forever, Some("a")), None);
}

fn at(current: &str, cycle: usize) -> Option<SceneCursor> {
    Some(SceneCursor { current: current.to_string(), cycle })
}

#[test]
fn scenes_advance_at_their_ends() {
    let g = vec![scene("a", 4, 2, Some("b")), scene("b", 8, 0, Some("b")), scene("c", 2, 1, Some("a"))];
    assert_eq!(advance_scene(&g, &None, 4), SceneAdvance::Hold);
    assert_eq!(advance_scene(&g, &at("gone", 0), 4), SceneAdvance::Forget);
    assert_eq!(advance_scene(&g, &at("a", 0), 0), SceneAdvance::Hold);
    assert_eq!(advance_scene(&g, &at("a", 0), 3), SceneAdvance::Hold);
    assert_eq!(advance_scene(&g, &at("a", 0), 4), SceneAdvance::NextCycle(1));
    assert_eq!(advance_scene(&g, &at("a", 1), 8), SceneAdvance::Switch { index: 1, changed: true });
    assert_eq!(advance_scene(&g, &at("b", 5), 8), SceneAdvance::NextCycle(6));
    assert_eq!(advance_scene(&g, &at("c", 0), 2), SceneAdvance::Switch { index: 0, changed: true });
    let end = vec![scene("a", 4, 1, None), scene("b", 4, 1, Some("b")), scene("c", 4, 1, Some("x"))];
    assert_eq!(advance_scene(&end, &at("a", 0), 4), SceneAdvance::Finish);
    assert_eq!(advance_scene(&end, &at("b", 0), 4), SceneAdvance::Switch { index: 1, changed: false });
    assert_eq!(advance_scene(&end, &at("c", 0), 4), SceneAdvance::Finish);
}

#[test]
fn playback_hints() {
    assert_eq!(playback_hint(true, 3, 3, 3), None);
    assert_eq!(
        playback_hint(false, 1, 0, 0),
        Some("no scene is playing; add (play-scene :scene-name) or use the editor preview/render path")
    );
    assert_eq!(
        playback_hint(false, 0, 2, 1),
        Some("tracks are defined but playback is stopped; add (start!) or wrap tracks in a scene and call (play-scene :scene-name)")
    );
    assert_eq!(
        playback_hint(false, 0, 0, 1),
        Some("post-fx is defined but there is no audio source; add a track or scene to render")
    );
    assert_eq!(playback_hint(false, 0, 0, 0), None);
}

use glitchlisp::audio::{StepEvent, TRANSPORT_STOPPED_STEP};
use glitchlisp::console::{
    append_source_line, console_command, gui_live_command, is_eval_end, parse_terminal_size,
    seconds_value, single_line, step_line, ConsoleCommand, GuiCommand,
};

#[test]
fn prompt_lines() {
    assert_eq!(console_command("  quit ", true), ConsoleCommand::Quit);
    assert_eq!(console_command("exit", false), ConsoleCommand::Quit);
    assert_eq!(console_command("status", true), ConsoleCommand::Status);
    assert_eq!(console_command("status", false), ConsoleCommand::Eval("status".to_string()));
    assert_eq!(console_command("render out.wav", true), ConsoleCommand::Render("out.wav".to_string()));
    assert_eq!(console_command("render  ", true), ConsoleCommand::Eval("render".to_string()));
    assert_eq!(console_command("   ", true), ConsoleCommand::Skip);
    assert_eq!(console_command(" (bpm 90) ", true), ConsoleCommand::Eval("(bpm 90)".to_string()));
}

#[test]
fn gui_live_protocol() {
    assert_eq!(gui_live_command("EVAL"), GuiCommand::Eval);
    assert_eq!(gui_live_command(" STOP "), GuiCommand::Stop);
    assert_eq!(gui_live_command("STATUS"), GuiCommand::Status);
    assert_eq!(gui_live_command("EXIT"), GuiCommand::Quit);
    assert_eq!(gui_live_command(""), GuiCommand::Skip);
    assert_eq!(gui_live_command("eval"), GuiCommand::Unsupported("eval".to_string()));
    assert!(is_eval_end("__GLITCHLISP_END__"));
    assert!(!is_eval_end(" __GLITCHLISP_END__"));
    let mut source = String::new();
    append_source_line(&mut source, "(bpm 120)");
    append_source_line(&mut source, "(start!)");
    assert_eq!(source, "(bpm 120)\n(start!)\n");
    assert_eq!(single_line("a\nb\n"), "a b ");
}

#[test]
fn step_reports() {
    assert_eq!(step_line(&StepEvent { step: TRANSPORT_STOPPED_STEP, scene: None }), "STOPPED");
    assert_eq!(step_line(&StepEvent { step: 12, scene: Some("intro".to_string()) }), "STEP 12 :intro");
    assert_eq!(step_line(&StepEvent { step: 0, scene: None }), "STEP 0");
}

#[test]
fn terminal_sizes() {
    assert_eq!(parse_terminal_size("24 80\n"), Some((24, 80)));
    assert_eq!(parse_terminal_size("  50\t132"), Some((50, 132)));
    assert_eq!(parse_terminal_size("24"), None);
    assert_eq!(parse_terminal_size("24 x"), None);
    assert_eq!(parse_terminal_size(""), None);
}

#[test]
fn seconds_option() {
    assert_eq!(seconds_value(&args(&["x", "play", "a"])), Ok(None));
    assert_eq!(seconds_value(&args(&["x", "play", "--seconds", "2.5"])), Ok(Some("2.5".to_string())));
    assert_eq!(
        seconds_value(&args(&["x", "--seconds", "1", "--seconds", "2"])),
        Err("duplicate option '--seconds'".to_string())
    );
    assert_eq!(
        seconds_value(&args(&["x", "--seconds"])),
        Err("--seconds requires a numeric value".to_string())
    );
    assert_eq!(
        seconds_value(&args(&["x", "--seconds", "--x"])),
        Err("--seconds requires a numeric value".to_string())
    );
}

#[test]
fn a_looping_scene_never_ends() {
    let g = vec![scene("a", 4, 2, Some("a"))];
    assert_eq!(auto_render_steps(&g, Some("a")), None);
    assert_eq!(validate_scene_next_targets(&g, "a"), Ok(()));
}

use glitchlisp::scene_def::{
    inferred_scene_steps, inferred_track_steps, scene_repeats, scene_steps, SceneLengthOptions,
    TrackLength,
};

fn track(id: &str, steps: usize) -> TrackLength {
    TrackLength { id: id.to_string(), steps }
}

fn no_length() -> SceneLengthOptions {
    SceneLengthOptions {
        steps: 0,
        explicit_steps: false,
        steps_of: None,
        loop_by: None,
        bars: None,
        bar_steps: None,
        bar_steps_of: None,
    }
}

#[test]
fn track_and_scene_lengths() {
    assert_eq!(inferred_track_steps(2, 8), 16);
    assert_eq!(inferred_track_steps(0, 0), 1);
    assert_eq!(inferred_scene_steps(&[track("a", 4), track("b", 6), track("c", 3)]), Ok(12));
    assert_eq!(inferred_scene_steps(&[track("a", 0)]), Ok(1));
    assert_eq!(
        inferred_scene_steps(&[]),
        Err("scene has nothing to play; add a track or set :steps explicitly".to_string())
    );
    let lens = [4usize, 6, 10];
    let tracks: Vec<TrackLength> = lens.iter().map(|n| track("t", *n)).collect();
    let total = inferred_scene_steps(&tracks).unwrap();
    assert!(lens.iter().all(|n| total % n == 0));
}

#[test]
fn scene_length_options() {
    let tracks = [track("kick", 16), track("hat", 8)];
    assert_eq!(scene_steps(&SceneLengthOptions { steps_of: Some("hat".to_string()), ..no_length() }, &tracks), Ok(8));
    assert_eq!(
        scene_steps(&SceneLengthOptions { steps_of: Some("pad".to_string()), ..no_length() }, &tracks),
        Err("scene :steps-of references unknown track ':pad'".to_string())
    );
    assert_eq!(
        scene_steps(&SceneLengthOptions { loop_by: Some(("kick".to_string(), 3)), ..no_length() }, &tracks),
        Ok(48)
    );
    assert_eq!(
        scene_steps(&SceneLengthOptions { loop_by: Some(("kick".to_string(), usize::MAX)), ..no_length() }, &tracks),
        Ok(usize::MAX)
    );
    assert_eq!(scene_steps(&SceneLengthOptions { bars: Some(2), ..no_length() }, &tracks), Ok(32));
    assert_eq!(
        scene_steps(&SceneLengthOptions { bars: Some(2), bar_steps: Some(12), ..no_length() }, &tracks),
        Ok(24)
    );
    assert_eq!(
        scene_steps(
            &SceneLengthOptions { bars: Some(2), bar_steps_of: Some("hat".to_string()), ..no_length() },
            &tracks
        ),
        Ok(16)
    );
    assert_eq!(
        scene_steps(&SceneLengthOptions { bar_steps: Some(12), ..no_length() }, &tracks),
        Err("scene :bar-steps requires :bars".to_string())
    );
    assert_eq!(
        scene_steps(&SceneLengthOptions { steps: 5, explicit_steps: true, ..no_length() }, &tracks),
        Ok(5)
    );
    assert_eq!(scene_steps(&no_length(), &tracks), Ok(16));
    assert_eq!(scene_repeats(0, false, true, true), 1);
    assert_eq!(scene_repeats(0, true, true, true), 0);
    assert_eq!(scene_repeats(3, false, false, true), 3);
}

use glitchlisp::scenes::{status_labels, status_tail};

#[test]
fn status_lines() {
    let g = vec![scene("a", 4, 0, None), scene("b", 4, 3, None)];
    assert_eq!(status_labels(&g, false, &at("a", 0)), ("-".to_string(), "-".to_string()));
    assert_eq!(status_labels(&g, true, &None), ("-".to_string(), "-".to_string()));
    assert_eq!(status_labels(&g, true, &at("a", 4)), (":a".to_string(), "5/loop".to_string()));
    assert_eq!(status_labels(&g, true, &at("b", 1)), (":b".to_string(), "2/3".to_string()));
    assert_eq!(status_labels(&g, true, &at("zz", 0)), (":zz".to_string(), "1".to_string()));
    assert_eq!(
        status_tail(true, 2, 1, ":b", "2/3"),
        " running=true tracks=2 scenes=1 scene=:b cycle=2/3"
    );
}

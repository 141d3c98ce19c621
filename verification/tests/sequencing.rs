use glitchlisp::arith::{checked_lcm, decimal_string, gcd, lcm, parse_usize};
use glitchlisp::audio::{
    coalesce_next, coalesced_step_event, coalesce_start, pattern_usize_or, seed_from_step,
    CoalesceStep, StepEvent, TRANSPORT_STOPPED_STEP,
};
use glitchlisp::effects::{Fade, Gain};
use glitchlisp::sequencer::{
    euclid, pattern_bool_with_loop, pattern_index, pattern_step_gates,
    pattern_step_gates_with_loop, pattern_step_holds_with_loop,
};
use glitchlisp::trigger::{any_solo, step_slots, track_step, SlotTrigger, TrackTiming};

fn chars(s: &str) -> Vec<char> {
    s.chars().collect()
}

#[test]
fn gcd_and_lcm_of_step_counts() {
    assert_eq!(gcd(12, 18), 6);
    assert_eq!(gcd(7, 0), 7);
    assert_eq!(gcd(0, 0), 1);
    assert_eq!(lcm(4, 6), 12);
    assert_eq!(lcm(0, 5), 5);
    assert_eq!(lcm(3, 3), 3);
}

#[test]
fn lcm_is_a_common_multiple_of_both() {
    for (a, b) in [(4usize, 6usize), (3, 8), (16, 12), (1, 9)] {
        let m = lcm(a, b);
        assert_eq!(m % a, 0);
        assert_eq!(m % b, 0);
    }
}

#[test]
fn decimal_writing() {
    assert_eq!(decimal_string(0), "0");
    assert_eq!(decimal_string(1203), "1203");
}

#[test]
fn parse_usize_follows_str_parse() {
    assert_eq!(parse_usize(&chars("42")), Some(42));
    assert_eq!(parse_usize(&chars("+7")), Some(7));
    assert_eq!(parse_usize(&chars("")), None);
    assert_eq!(parse_usize(&chars("+")), None);
    assert_eq!(parse_usize(&chars("-1")), None);
    assert_eq!(parse_usize(&chars("1x")), None);
    assert_eq!(parse_usize(&chars("99999999999999999999999")), None);
}

#[test]
fn pattern_index_plays_once_then_loops() {
    assert_eq!(pattern_index(0, 0, 5), 0);
    assert_eq!(pattern_index(4, 0, 5), 1);
    assert_eq!(pattern_index(4, 2, 1), 1);
    assert_eq!(pattern_index(4, 2, 4), 2);
    assert_eq!(pattern_index(4, 2, 5), 3);
    assert_eq!(pattern_index(4, 2, 6), 2);
    assert_eq!(pattern_index(4, 9, 7), 3);
}

#[test]
fn pattern_index_is_periodic_after_the_loop_start() {
    for step in 2..40usize {
        assert_eq!(pattern_index(5, 2, step), pattern_index(5, 2, step + 3));
    }
}

#[test]
fn gate_patterns_read_by_step() {
    assert!(!pattern_bool_with_loop(&[], 0, 3));
    assert!(pattern_bool_with_loop(&[true, false], 0, 2));
    assert!(!pattern_bool_with_loop(&[true, false], 1, 7));
    let subdivided = vec![vec![true, false], vec![true, true, true]];
    assert_eq!(pattern_step_gates(&subdivided, 3), &[true, true, true]);
    assert_eq!(pattern_step_gates(&[], 3), &[false]);
    assert_eq!(pattern_step_gates_with_loop(&subdivided, 1, 4), &[true, true, true]);
    let holds = vec![vec![0, 2], vec![1]];
    assert_eq!(pattern_step_holds_with_loop(&holds, 0, 2), &[0, 2]);
    assert_eq!(pattern_step_holds_with_loop(&[], 0, 2), &[0]);
}

#[test]
fn euclidean_rhythms() {
    assert_eq!(euclid(3, 8, 0), vec![true, false, false, true, false, false, true, false]);
    assert_eq!(euclid(3, 8, 1), vec![false, true, false, false, true, false, false, true]);
    assert_eq!(euclid(5, 8, 0), vec![true, false, true, false, true, true, false, true]);
    assert_eq!(euclid(0, 4, 0), vec![false, false, false, false]);
    assert_eq!(euclid(9, 4, 0), vec![true, true, true, true]);
    assert_eq!(euclid(3, 0, 2), vec![true]);
}

#[test]
fn euclidean_rhythm_hits_as_many_pulses_as_fit() {
    for steps in 1..12usize {
        for pulses in 0..14usize {
            for rotation in 0..5usize {
                let hits = euclid(pulses, steps, rotation).iter().filter(|g| **g).count();
                assert_eq!(hits, pulses.min(steps));
            }
        }
    }
}

#[test]
fn per_hit_patterns_cycle_or_fall_back() {
    assert_eq!(pattern_usize_or(&None, 9, 4), 9);
    assert_eq!(pattern_usize_or(&Some(vec![]), 9, 4), 9);
    assert_eq!(pattern_usize_or(&Some(vec![1, 2, 3]), 9, 4), 2);
}

#[test]
fn noise_seed_is_fnv1a_of_the_track_id() {
    assert_eq!(seed_from_step("kick", 0), 3323728671);
    assert_eq!(seed_from_step("kick", 3), 1389579696);
    assert_eq!(seed_from_step("", 5), 2166136256);
    assert_ne!(seed_from_step("kick", 0), seed_from_step("snare", 0));
}

fn event(step: usize, scene: Option<&str>) -> StepEvent {
    StepEvent { step, scene: scene.map(|s| s.to_string()) }
}

#[test]
fn coalescing_keeps_the_newest_step() {
    let r = coalesced_step_event(event(1, None), vec![event(2, None), event(3, Some("b"))]);
    assert_eq!(r.step, 3);
    assert_eq!(r.scene.as_deref(), Some("b"));
    let r = coalesced_step_event(event(1, None), vec![]);
    assert_eq!(r.step, 1);
}

#[test]
fn coalescing_stops_at_a_stop_report() {
    let r = coalesced_step_event(
        event(1, None),
        vec![event(2, None), event(TRANSPORT_STOPPED_STEP, None), event(4, None)],
    );
    assert_eq!(r.step, TRANSPORT_STOPPED_STEP);
    let r = coalesced_step_event(event(TRANSPORT_STOPPED_STEP, None), vec![event(5, None)]);
    assert_eq!(r.step, TRANSPORT_STOPPED_STEP);
    assert!(matches!(coalesce_start(event(TRANSPORT_STOPPED_STEP, None)), CoalesceStep::Done(_)));
    assert!(matches!(coalesce_start(event(0, None)), CoalesceStep::Continue(_)));
    assert!(matches!(coalesce_next(event(2, None), None), CoalesceStep::Done(e) if e.step == 2));
    assert!(
        matches!(coalesce_next(event(2, None), Some(event(3, None))), CoalesceStep::Continue(e) if e.step == 3)
    );
}

fn gain_value(g: Gain) -> f64 {
    g.num as f64 / g.den as f64
}

#[test]
fn fade_rises_holds_and_falls() {
    let mut fade = Fade::new(3, 3, 10);
    let mut gains = Vec::new();
    for _ in 0..10 {
        gains.push(gain_value(fade.step()));
    }
    assert_eq!(gains, vec![0.0, 0.5, 1.0, 1.0, 1.0, 1.0, 1.0, 1.0, 0.5, 0.0]);
    assert_eq!(gain_value(fade.gain()), 0.0);
}

#[test]
fn fade_of_one_sample_lengths() {
    let mut fade = Fade::new(1, 1, 3);
    assert_eq!(fade.step(), Gain { num: 0, den: 1 });
    assert_eq!(gain_value(fade.step()), 1.0);
    assert_eq!(gain_value(fade.step()), 1.0);
    let plain = Fade::new(0, 0, 3);
    assert_eq!(plain.gain(), Gain { num: 1, den: 1 });
}

fn timing(step_every: usize, step_offset: usize) -> TrackTiming {
    TrackTiming {
        muted: false,
        solo: false,
        step_every,
        step_offset,
        gates: vec![true, false],
        gate_subdivisions: vec![],
        gate_holds: vec![],
    }
}

#[test]
fn tracks_play_on_their_own_steps() {
    let t = timing(2, 1);
    assert_eq!(track_step(&t, false, 3), None);
    assert_eq!(track_step(&t, false, 4), Some(3));
    assert_eq!(track_step(&timing(0, 0), false, 5), Some(5));
    let muted = TrackTiming { muted: true, ..timing(1, 0) };
    assert_eq!(track_step(&muted, false, 4), None);
    assert_eq!(track_step(&timing(1, 0), true, 4), None);
    let soloed = TrackTiming { solo: true, ..timing(1, 0) };
    assert_eq!(track_step(&soloed, true, 4), Some(4));
    assert!(any_solo(&[timing(1, 0), soloed.clone()]));
    assert!(!any_solo(&[timing(1, 0)]));
}

#[test]
fn slots_of_a_step() {
    let plain = timing(1, 0);
    assert_eq!(
        step_slots(&plain, 7, 2),
        vec![SlotTrigger { slot: 0, gate: false, hold: 0, seed_step: 7 }]
    );
    let unsplit = TrackTiming { gate_subdivisions: vec![vec![]], ..timing(1, 0) };
    assert_eq!(
        step_slots(&unsplit, 7, 2),
        vec![SlotTrigger { slot: 0, gate: true, hold: 0, seed_step: 7 }]
    );
    let split = TrackTiming {
        gate_subdivisions: vec![vec![true, false, true]],
        gate_holds: vec![vec![2]],
        ..timing(1, 0)
    };
    assert_eq!(
        step_slots(&split, 3, 0),
        vec![
            SlotTrigger { slot: 0, gate: true, hold: 2, seed_step: 3072 },
            SlotTrigger { slot: 1, gate: false, hold: 0, seed_step: 3073 },
            SlotTrigger { slot: 2, gate: true, hold: 0, seed_step: 3074 },
        ]
    );
    let single = TrackTiming { gate_subdivisions: vec![vec![false]], ..timing(1, 0) };
    assert_eq!(step_slots(&single, 1, 0)[0].gate, false);
}

use glitchlisp::cursors::{note_for_slot, CursorTable, NoteChoice};
use glitchlisp::model::NoteMode;

#[test]
fn per_track_counters() {
    let mut c = CursorTable::new();
    assert_eq!(c.get("kick"), 0);
    assert_eq!(c.advance("kick"), 0);
    assert_eq!(c.advance("kick"), 1);
    assert_eq!(c.advance("hat"), 0);
    assert_eq!(c.get("kick"), 2);
    assert_eq!(c.get("hat"), 1);
    c.clear();
    assert_eq!(c.get("kick"), 0);
}

#[test]
fn notes_for_slots() {
    let mut c = CursorTable::new();
    assert_eq!(note_for_slot(NoteMode::Step, 5, true, "a", &mut c), NoteChoice::AtStep(5));
    assert_eq!(c.get("a"), 0);
    assert_eq!(note_for_slot(NoteMode::Hit, 5, false, "a", &mut c), NoteChoice::AtCount(0));
    assert_eq!(note_for_slot(NoteMode::Hit, 6, true, "a", &mut c), NoteChoice::AtCount(0));
    assert_eq!(note_for_slot(NoteMode::Hit, 7, false, "a", &mut c), NoteChoice::AtCount(1));
    assert_eq!(note_for_slot(NoteMode::Tick, 8, false, "a", &mut c), NoteChoice::AtCount(1));
    assert_eq!(c.get("a"), 2);
}

#[test]
fn lcm_ignores_operand_order_and_is_least() {
    assert_eq!(lcm(4, 6), lcm(6, 4));
    assert_eq!(lcm(0, 3), 3);
    assert_eq!(lcm(0, 0), 1);
    for m in 1..12usize {
        if m % 4 == 0 && m % 6 == 0 {
            assert!(lcm(4, 6) <= m);
        }
    }
}

#[test]
fn checked_lcm_reports_overflow() {
    assert_eq!(checked_lcm(4, 6), Some(12));
    assert_eq!(checked_lcm(0, 0), Some(1));
    assert_eq!(checked_lcm(usize::MAX, 2), None);
    assert_eq!(checked_lcm(usize::MAX, usize::MAX), Some(usize::MAX));
}

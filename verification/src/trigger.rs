use vstd::prelude::*;
use crate::audio::TRANSPORT_STOPPED_STEP;
use crate::sequencer::{
    spec_pattern_index, pattern_bool_with_loop, pattern_step_gates, pattern_step_holds_with_loop,
};

verus! {

/// What the sequencer reads of a track to decide when it sounds: whether it
/// is muted or soloed, how many steps each of its steps lasts and how far
/// it is shifted, its gate per step, the subdivided gates of its steps and
/// how many steps each subdivided gate holds.
#[derive(Clone, Debug)]
pub struct TrackTiming {
    pub muted: bool,
    pub solo: bool,
    pub step_every: usize,
    pub step_offset: usize,
    pub gates: Vec<bool>,
    pub gate_subdivisions: Vec<Vec<bool>>,
    pub gate_holds: Vec<Vec<usize>>,
}

/// One slot of a track's step: its place among the step's slots, whether
/// its gate is open, how many steps it holds, and the number that seeds its
/// noise.
#[derive(Clone, Copy, Debug, PartialEq, Eq, Structural)]
pub struct SlotTrigger {
    pub slot: usize,
    pub gate: bool,
    pub hold: usize,
    pub seed_step: usize,
}

/// Whether some track of `tracks` is soloed.
pub open spec fn spec_any_solo(tracks: Seq<TrackTiming>) -> bool {
    exists|i: int| 0 <= i < tracks.len() && #[trigger] tracks[i].solo
}

/// Whether some track is soloed, which silences the tracks that are not.
pub fn any_solo(tracks: &[TrackTiming]) -> (r: bool)
    ensures
        r == spec_any_solo(tracks@),
{
    let mut i: usize = 0;
    while i < tracks.len()
        invariant
            i <= tracks@.len(),
            forall|j: int| 0 <= j < i ==> !(#[trigger] tracks@[j]).solo,
        decreases tracks@.len() - i,
    {
        if tracks[i].solo {
            return true;
        }
        i = i + 1;
    }
    false
}

/// The step of its own pattern that a track plays at sequencer step `step`,
/// if it plays then: a muted track never plays, nor does an unsoloed one
/// while another is soloed; a track whose steps last `step_every` steps
/// plays every `step_every`th step, shifted by its offset.
pub open spec fn spec_track_step(t: TrackTiming, solo_active: bool, step: usize) -> Option<usize> {
    let every: usize = if t.step_every >= 1 { t.step_every } else { 1 };
    if t.muted || (solo_active && !t.solo) || step % every != 0 {
        None
    } else {
        Some(((step / every) as usize).wrapping_add(t.step_offset))
    }
}

/// The step of its own pattern that a track plays at `step`, if any.
pub fn track_step(t: &TrackTiming, solo_active: bool, step: usize) -> (r: Option<usize>)
    ensures
        r == spec_track_step(*t, solo_active, step),
{
    let every: usize = if t.step_every >= 1 {
        t.step_every
    } else {
        1
    };
    if t.muted || (solo_active && !t.solo) || step % every != 0 {
        None
    } else {
        Some((step / every).wrapping_add(t.step_offset))
    }
}


/// A muted track never sounds, nor does an unsoloed one while another is
/// soloed; and a track sounds at a step exactly when it sounds `step_every`
/// steps later.
pub proof fn lemma_track_step_rules(t: TrackTiming, solo_active: bool, step: usize)
    ensures
        t.muted ==> spec_track_step(t, solo_active, step) is None,
        solo_active && !t.solo ==> spec_track_step(t, solo_active, step) is None,
        ({
            let every: usize = if t.step_every >= 1 { t.step_every } else { 1 };
            step + every <= usize::MAX ==> (spec_track_step(t, solo_active, step) is Some
                <==> spec_track_step(t, solo_active, (step + every) as usize) is Some)
        }),
{
    let every: usize = if t.step_every >= 1 {
        t.step_every
    } else {
        1
    };
    if step + every <= usize::MAX {
        vstd::arithmetic::div_mod::lemma_mod_add_multiples_vanish(step as int, every as int);
    }
}

/// The gates of a track's step `ts`: its subdivided gates, or one closed
/// gate when the track has none.
pub open spec fn step_gates(t: TrackTiming, ts: usize) -> Seq<bool> {
    if t.gate_subdivisions@.len() == 0 {
        seq![false]
    } else {
        t.gate_subdivisions@[(ts as nat % t.gate_subdivisions@.len()) as int]@
    }
}

/// The holds of a track's step `ts`, or one zero hold when it has none.
pub open spec fn step_holds(t: TrackTiming, ts: usize) -> Seq<usize> {
    if t.gate_holds@.len() == 0 {
        seq![0usize]
    } else {
        t.gate_holds@[spec_pattern_index(t.gate_holds@.len(), 0, ts as nat) as int]@
    }
}

/// The slots of a track's step `ts` at sequencer step `step`. A step with
/// at most one gate is one slot: its gate, or the track's plain gate
/// pattern when the step has no gate, seeded by the step itself. A
/// subdivided step has one slot per gate, seeded by `step * 1024 + slot`
/// (wrapping). Each slot holds for its own hold, or 0 past the holds given.
pub open spec fn spec_step_slots(t: TrackTiming, step: usize, ts: usize) -> Seq<SlotTrigger> {
    let gates = step_gates(t, ts);
    let holds = step_holds(t, ts);
    if gates.len() <= 1 {
        let gate = if gates.len() == 1 {
            gates[0]
        } else if t.gates@.len() == 0 {
            false
        } else {
            t.gates@[(ts as nat % t.gates@.len()) as int]
        };
        seq![
            SlotTrigger {
                slot: 0,
                gate,
                hold: if holds.len() > 0 { holds[0] } else { 0 },
                seed_step: step,
            },
        ]
    } else {
        Seq::new(
            gates.len(),
            |i: int|
                SlotTrigger {
                    slot: i as usize,
                    gate: gates[i],
                    hold: if i < holds.len() { holds[i] } else { 0 },
                    seed_step: step.wrapping_mul(1024).wrapping_add(i as usize),
                },
        )
    }
}

/// Each slot of a step carries the hold that the track's hold grid gives at
/// that step and slot (zero past the step's holds, or when the track has
/// none): an undivided step's single slot carries the step's first hold,
/// and a subdivided step has one slot per gate, each with its own gate.
pub proof fn lemma_step_slot_holds(t: TrackTiming, step: usize, ts: usize)
    ensures
        ({
            let r = spec_step_slots(t, step, ts);
            let row: Seq<usize> = if t.gate_holds@.len() == 0 {
                seq![0usize]
            } else {
                t.gate_holds@[spec_pattern_index(t.gate_holds@.len(), 0, ts as nat) as int]@
            };
            let g: Seq<bool> = if t.gate_subdivisions@.len() == 0 {
                seq![false]
            } else {
                t.gate_subdivisions@[(ts as nat % t.gate_subdivisions@.len()) as int]@
            };
            &&& r.len() == if g.len() <= 1 { 1 } else { g.len() }
            &&& forall|k: int| 0 <= k < r.len() ==> {
                &&& (#[trigger] r[k]).slot == k as usize
                &&& r[k].hold == if k < row.len() { row[k] } else { 0 }
                &&& g.len() > 1 ==> r[k].gate == g[k]
            }
        }),
{
    let r = spec_step_slots(t, step, ts);
    let g = step_gates(t, ts);
    let row = step_holds(t, ts);
    assert forall|k: int| 0 <= k < r.len() implies {
        &&& (#[trigger] r[k]).slot == k as usize
        &&& r[k].hold == if k < row.len() { row[k] } else { 0 }
        &&& g.len() > 1 ==> r[k].gate == g[k]
    } by {
    }
}

/// The slots of a track's step `ts` at sequencer step `step`.
pub fn step_slots(t: &TrackTiming, step: usize, ts: usize) -> (r: Vec<SlotTrigger>)
    ensures
        r@ == spec_step_slots(*t, step, ts),
{
    let gates = pattern_step_gates(t.gate_subdivisions.as_slice(), ts);
    let holds = pattern_step_holds_with_loop(t.gate_holds.as_slice(), 0, ts);
    let mut out: Vec<SlotTrigger> = Vec::new();
    if gates.len() <= 1 {
        let gate = if gates.len() == 1 {
            gates[0]
        } else {
            pattern_bool_with_loop(t.gates.as_slice(), 0, ts)
        };
        let hold = if holds.len() > 0 {
            holds[0]
        } else {
            0
        };
        out.push(SlotTrigger { slot: 0, gate, hold, seed_step: step });
        assert(out@ =~= spec_step_slots(*t, step, ts));
        return out;
    }
    let base = step.wrapping_mul(1024);
    let mut i: usize = 0;
    while i < gates.len()
        invariant
            i <= gates@.len(),
            gates@ == step_gates(*t, ts),
            holds@ == step_holds(*t, ts),
            gates@.len() > 1,
            base == step.wrapping_mul(1024),
            out@ == spec_step_slots(*t, step, ts).subrange(0, i as int),
        decreases gates@.len() - i,
    {
        let hold = if i < holds.len() {
            holds[i]
        } else {
            0
        };
        out.push(SlotTrigger { slot: i, gate: gates[i], hold, seed_step: base.wrapping_add(i) });
        assert(out@ =~= spec_step_slots(*t, step, ts).subrange(0, i + 1));
        i = i + 1;
    }
    assert(out@ =~= spec_step_slots(*t, step, ts));
    out
}

/// The gates of an effect's pattern as plain values: none when the effect
/// has no pattern.
pub open spec fn effect_gates_view(g: Option<Vec<Vec<bool>>>) -> Option<Seq<Seq<bool>>> {
    match g {
        Some(v) => Some(v@.map_values(|row: Vec<bool>| row@)),
        None => None,
    }
}

/// Whether an effect plays at slot `sub` of track step `ts`: always without
/// a pattern; otherwise by the gates of its own step `ts` (cycling): an
/// undivided step's only value, or in a subdivided step the value at slot
/// `sub` (cycling).
pub open spec fn effect_active(gates: Option<Seq<Seq<bool>>>, ts: usize, sub: usize) -> bool {
    match gates {
        None => true,
        Some(g) => {
            let sg = if g.len() == 0 {
                seq![false]
            } else {
                g[(ts as nat % g.len()) as int]
            };
            if sg.len() <= 1 {
                sg.len() == 1 && sg[0]
            } else {
                sg[(sub as nat % sg.len()) as int]
            }
        },
    }
}

/// The indices, in order, of the first `n` effects that play at slot `sub`
/// of track step `ts`.
pub open spec fn active_upto(gs: Seq<Option<Vec<Vec<bool>>>>, ts: usize, sub: usize, n: int) -> Seq<
    usize,
>
    decreases n,
{
    if n <= 0 {
        Seq::empty()
    } else if effect_active(effect_gates_view(gs[n - 1]), ts, sub) {
        active_upto(gs, ts, sub, n - 1).push((n - 1) as usize)
    } else {
        active_upto(gs, ts, sub, n - 1)
    }
}

/// The effects of a track that play at slot `sub_index` of its step
/// `track_step`, by their index in the track's chain, in order.
pub fn active_effect_specs(effect_gates: &[Option<Vec<Vec<bool>>>], track_step: usize, sub_index: usize) -> (r:
    Vec<usize>)
    ensures
        r@ == active_upto(effect_gates@, track_step, sub_index, effect_gates@.len() as int),
{
    let mut out: Vec<usize> = Vec::new();
    let mut k: usize = 0;
    while k < effect_gates.len()
        invariant
            k <= effect_gates@.len(),
            out@ == active_upto(effect_gates@, track_step, sub_index, k as int),
        decreases effect_gates@.len() - k,
    {
        let active = match &effect_gates[k] {
            None => true,
            Some(g) => {
                let sg = pattern_step_gates(g.as_slice(), track_step);
                proof {
                    if g@.len() > 0 {
                        assert(effect_gates_view(effect_gates@[k as int])->Some_0[(track_step as nat
                            % g@.len()) as int] == g@[(track_step as nat % g@.len()) as int]@);
                    }
                }
                if sg.len() <= 1 {
                    sg.len() == 1 && sg[0]
                } else {
                    sg[sub_index % sg.len()]
                }
            },
        };
        if active {
            out.push(k);
        }
        k = k + 1;
    }
    out
}

/// What the sequencer does at the start of a step: reset its transport when
/// the program's transport changed, drop its sounding voices, pending
/// triggers and cursors when the scene changed, report the step (or, when
/// a scene change stopped the transport, that it stopped), and play the
/// tracks only while running.
#[derive(Clone, Copy, Debug, PartialEq, Eq, Structural)]
pub struct StepPlan {
    pub reset_transport: bool,
    pub clear_voices: bool,
    pub report: Option<usize>,
    pub play_tracks: bool,
}

/// Plans the start of sequencer step `step`.
pub fn plan_step(transport_changed: bool, scene_advanced: bool, running: bool, step: usize) -> (r:
    StepPlan)
    ensures
        r.reset_transport == transport_changed,
        r.clear_voices == scene_advanced,
        r.play_tracks == running,
        r.report == if running {
            Some(step)
        } else if scene_advanced {
            Some(TRANSPORT_STOPPED_STEP)
        } else {
            None
        },
{
    let report = if running {
        Some(step)
    } else if scene_advanced {
        Some(TRANSPORT_STOPPED_STEP)
    } else {
        None
    };
    StepPlan {
        reset_transport: transport_changed,
        clear_voices: scene_advanced,
        report,
        play_tracks: running,
    }
}

} // verus!

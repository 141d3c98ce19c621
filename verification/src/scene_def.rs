use vstd::prelude::*;
use crate::arith::{lcm, spec_lcm, lemma_lcm_is_common_multiple};
use crate::text::str_eq;

verus! {

/// A track of a scene's block as the scene's length reads it: its name and
/// the steps one pass of it takes.
#[derive(Clone, Debug)]
pub struct TrackLength {
    pub id: String,
    pub steps: usize,
}

/// The steps one pass of a track takes: its step length times the number
/// of steps of its gate pattern, each at least one.
pub open spec fn spec_track_steps(step_every: usize, gate_steps: usize) -> nat {
    (if step_every >= 1 { step_every as nat } else { 1nat }) * (if gate_steps >= 1 {
        gate_steps as nat
    } else {
        1nat
    })
}

/// The steps one pass of a track takes (see `spec_track_steps`).
pub fn inferred_track_steps(step_every: usize, gate_steps: usize) -> (r: usize)
    requires
        spec_track_steps(step_every, gate_steps) <= usize::MAX,
    ensures
        r == spec_track_steps(step_every, gate_steps),
{
    let every = if step_every >= 1 {
        step_every
    } else {
        1
    };
    let gates = if gate_steps >= 1 {
        gate_steps
    } else {
        1
    };
    every * gates
}

/// The least common multiple of the first `k` track lengths, folded from
/// the first.
pub open spec fn fold_lcm(s: Seq<usize>, k: nat) -> nat
    decreases k,
{
    if k <= 1 {
        if s.len() > 0 {
            s[0] as nat
        } else {
            0
        }
    } else {
        spec_lcm(fold_lcm(s, (k - 1) as nat), s[k - 1] as nat)
    }
}

/// Whether folding the lengths never goes past `usize::MAX`.
pub open spec fn fold_fits(s: Seq<usize>) -> bool {
    forall|k: nat| k <= s.len() ==> #[trigger] fold_lcm(s, k) <= usize::MAX
}

/// The length of a scene that sets none: the least common multiple of its
/// tracks' lengths, at least one; a scene without tracks is refused.
pub fn inferred_scene_steps(tracks: &[TrackLength]) -> (r: Result<usize, String>)
    requires
        fold_fits(tracks@.map_values(|t: TrackLength| t.steps)),
    ensures
        ({
            let s = tracks@.map_values(|t: TrackLength| t.steps);
            if s.len() == 0 {
                r matches Err(m) && m@
                    == "scene has nothing to play; add a track or set :steps explicitly"@
            } else {
                r == Ok::<usize, String>(
                    (if fold_lcm(s, s.len()) >= 1 {
                        fold_lcm(s, s.len())
                    } else {
                        1
                    }) as usize,
                )
            }
        }),
{
    let ghost s = tracks@.map_values(|t: TrackLength| t.steps);
    if tracks.len() == 0 {
        return Err(
            String::from_str("scene has nothing to play; add a track or set :steps explicitly"),
        );
    }
    let mut acc: usize = tracks[0].steps;
    let mut i: usize = 1;
    assert(fold_lcm(s, 1) <= usize::MAX);
    while i < tracks.len()
        invariant
            1 <= i <= tracks@.len(),
            s == tracks@.map_values(|t: TrackLength| t.steps),
            fold_fits(s),
            acc == fold_lcm(s, i as nat),
        decreases tracks@.len() - i,
    {
        assert(fold_lcm(s, (i + 1) as nat) <= usize::MAX);
        acc = lcm(acc, tracks[i].steps);
        i = i + 1;
    }
    Ok(
        if acc >= 1 {
            acc
        } else {
            1
        },
    )
}

/// Every track's length divides the inferred length of its scene.
pub proof fn lemma_inferred_steps_fit_every_track(s: Seq<usize>, k: nat, i: int)
    requires
        2 <= k <= s.len(),
        0 <= i < k,
    ensures
        fold_lcm(s, k) > 0,
        fold_lcm(s, k) % (if s[i] == 0 { 1 } else { s[i] as nat }) == 0,
    decreases k,
{
    let prev = fold_lcm(s, (k - 1) as nat);
    lemma_lcm_is_common_multiple(prev, s[k - 1] as nat);
    if i < k - 1 {
        if k - 1 >= 2 {
            lemma_inferred_steps_fit_every_track(s, (k - 1) as nat, i);
            let d = if s[i] == 0 { 1 } else { s[i] as nat };
            lemma_divides_trans(d, prev, fold_lcm(s, k));
        } else {
            assert(i == 0);
            assert(prev == s[0] as nat);
        }
    }
}

proof fn lemma_divides_trans(d: nat, p: nat, m: nat)
    requires
        d > 0,
        p > 0,
        p % d == 0,
        m % p == 0,
    ensures
        m % d == 0,
{
    vstd::arithmetic::div_mod::lemma_fundamental_div_mod(p as int, d as int);
    vstd::arithmetic::div_mod::lemma_fundamental_div_mod(m as int, p as int);
    let a = p / d;
    let b = m / p;
    assert(m == (d * a) * b);
    assert(m == d * (a * b)) by (nonlinear_arith)
        requires
            m == (d * a) * b,
    ;
    vstd::arithmetic::div_mod::lemma_mod_multiples_basic((a * b) as int, d as int);
}


/// The options of a scene that decide its length, as read from its form:
/// an explicit `:steps` (and whether one was given, `:bars` counting as
/// one), `:steps-of` a track, `:loop-by` a track and a count, `:bars`,
/// `:bar-steps` and `:bar-steps-of` a track.
#[derive(Clone, Debug)]
pub struct SceneLengthOptions {
    pub steps: usize,
    pub explicit_steps: bool,
    pub steps_of: Option<String>,
    pub loop_by: Option<(String, usize)>,
    pub bars: Option<usize>,
    pub bar_steps: Option<usize>,
    pub bar_steps_of: Option<String>,
}

/// The index of the first track named `id`, or -1.
pub open spec fn track_index_from(t: Seq<TrackLength>, id: Seq<char>, i: int) -> int
    decreases t.len() - i,
{
    if i < 0 || i >= t.len() {
        -1
    } else if t[i].id@ == id {
        i
    } else {
        track_index_from(t, id, i + 1)
    }
}

/// The length of the track named `id`, if there is one.
pub open spec fn track_steps_of(t: Seq<TrackLength>, id: Seq<char>) -> Option<nat> {
    let i = track_index_from(t, id, 0);
    if i < 0 {
        None
    } else {
        Some(t[i].steps as nat)
    }
}

proof fn lemma_track_index_from(t: Seq<TrackLength>, id: Seq<char>, i: int)
    requires
        0 <= i <= t.len(),
    ensures
        track_index_from(t, id, i) >= 0 ==> i <= track_index_from(t, id, i) < t.len(),
    decreases t.len() - i,
{
    if i < t.len() && t[i].id@ != id {
        lemma_track_index_from(t, id, i + 1);
    }
}

fn find_track(tracks: &[TrackLength], id: &str) -> (r: Option<usize>)
    ensures
        match r {
            Some(k) => k < tracks@.len() && track_steps_of(tracks@, id@) == Some(
                tracks@[k as int].steps as nat,
            ),
            None => track_steps_of(tracks@, id@) is None,
        },
{
    proof {
        lemma_track_index_from(tracks@, id@, 0);
    }
    let mut i: usize = 0;
    while i < tracks.len()
        invariant
            i <= tracks@.len(),
            track_index_from(tracks@, id@, 0) == track_index_from(tracks@, id@, i as int),
        decreases tracks@.len() - i,
    {
        if str_eq(tracks[i].id.as_str(), id) {
            return Some(i);
        }
        i = i + 1;
    }
    None
}

/// `a * b`, or `usize::MAX` when it does not fit.
pub open spec fn saturating_product(a: nat, b: nat) -> nat {
    if a * b > usize::MAX {
        usize::MAX as nat
    } else {
        a * b
    }
}

/// The message for a length option naming an unknown track.
pub open spec fn unknown_track_message(option: Seq<char>, id: Seq<char>) -> Seq<char> {
    "scene :"@ + option + " references unknown track ':"@ + id + "'"@
}

/// The length of a scene: the length of the track of `:steps-of`; else
/// the `:loop-by` count times the length of its track (saturating); else
/// `:bars` times the steps of a bar (the length of the `:bar-steps-of`
/// track, else `:bar-steps`, else 16; saturating); `:bar-steps` without
/// `:bars` is refused; else the explicit `:steps`; else the length inferred
/// from the tracks.
pub open spec fn spec_scene_steps(o: SceneLengthOptions, t: Seq<TrackLength>) -> Result<nat, Seq<char>> {
    match o.steps_of {
        Some(id) => match track_steps_of(t, id@) {
            Some(n) => Ok(n),
            None => Err(unknown_track_message("steps-of"@, id@)),
        },
        None => match o.loop_by {
            Some((id, count)) => match track_steps_of(t, id@) {
                Some(n) => Ok(saturating_product(count as nat, n)),
                None => Err(unknown_track_message("loop-by"@, id@)),
            },
            None => match o.bars {
                Some(bars) => {
                    let per_bar = match o.bar_steps_of {
                        Some(id) => match track_steps_of(t, id@) {
                            Some(n) => Ok(n),
                            None => Err(unknown_track_message("bar-steps-of"@, id@)),
                        },
                        None => Ok(
                            match o.bar_steps {
                                Some(b) => b as nat,
                                None => 16nat,
                            },
                        ),
                    };
                    match per_bar {
                        Ok(p) => Ok(saturating_product(bars as nat, p)),
                        Err(e) => Err(e),
                    }
                },
                None => if o.bar_steps is Some || o.bar_steps_of is Some {
                    Err("scene :bar-steps requires :bars"@)
                } else if o.explicit_steps {
                    Ok(o.steps as nat)
                } else {
                    let s = t.map_values(|x: TrackLength| x.steps);
                    if s.len() == 0 {
                        Err("scene has nothing to play; add a track or set :steps explicitly"@)
                    } else {
                        Ok(
                            if fold_lcm(s, s.len()) >= 1 {
                                fold_lcm(s, s.len())
                            } else {
                                1
                            },
                        )
                    }
                },
            },
        },
    }
}

/// `a * b`, or `usize::MAX` when it does not fit.
fn sat_mul(a: usize, b: usize) -> (r: usize)
    ensures
        r == saturating_product(a as nat, b as nat),
{
    match a.checked_mul(b) {
        Some(p) => p,
        None => usize::MAX,
    }
}

fn unknown_track(option: &str, id: &str) -> (r: String)
    ensures
        r@ == unknown_track_message(option@, id@),
{
    let mut m = String::from_str("scene :");
    m.append(option);
    m.append(" references unknown track ':");
    m.append(id);
    m.append("'");
    m
}

/// The length of a scene (see `spec_scene_steps`).
pub fn scene_steps(o: &SceneLengthOptions, tracks: &[TrackLength]) -> (r: Result<usize, String>)
    requires
        fold_fits(tracks@.map_values(|t: TrackLength| t.steps)),
    ensures
        match spec_scene_steps(*o, tracks@) {
            Ok(n) => r == Ok::<usize, String>(n as usize),
            Err(m) => r matches Err(e) && e@ == m,
        },
{
    if let Some(id) = &o.steps_of {
        return match find_track(tracks, id.as_str()) {
            Some(k) => Ok(tracks[k].steps),
            None => Err(unknown_track("steps-of", id.as_str())),
        };
    }
    if let Some((id, count)) = &o.loop_by {
        return match find_track(tracks, id.as_str()) {
            Some(k) => Ok(sat_mul(*count, tracks[k].steps)),
            None => Err(unknown_track("loop-by", id.as_str())),
        };
    }
    if let Some(bars) = o.bars {
        let per_bar = match &o.bar_steps_of {
            Some(id) => match find_track(tracks, id.as_str()) {
                Some(k) => tracks[k].steps,
                None => {
                    return Err(unknown_track("bar-steps-of", id.as_str()));
                },
            },
            None => match o.bar_steps {
                Some(b) => b,
                None => 16,
            },
        };
        return Ok(sat_mul(bars, per_bar));
    }
    if o.bar_steps.is_some() || o.bar_steps_of.is_some() {
        return Err(String::from_str("scene :bar-steps requires :bars"));
    }
    if o.explicit_steps {
        return Ok(o.steps);
    }
    inferred_scene_steps(tracks)
}

/// How many times a scene plays: as given, except that a scene sized by
/// `:loop-by` that names a `:next` and gives no repeat count plays once.
pub fn scene_repeats(repeats: usize, explicit_repeats: bool, has_loop_by: bool, has_next: bool) -> (r:
    usize)
    ensures
        r == if has_loop_by && has_next && !explicit_repeats {
            1
        } else {
            repeats
        },
{
    if has_loop_by && has_next && !explicit_repeats {
        1
    } else {
        repeats
    }
}

} // verus!

use vstd::prelude::*;
use crate::forms::{Form, FormView, form_view, forms_view};
use crate::arith::decimal;
use crate::gate_forms::Reading;
use crate::options::{
    expect_arity, lemma_forms_view_index, lemma_forms_view_len, sample_track_items,
    spec_sample_track_items,
};
use crate::scene_def::{fold_fits, scene_repeats, scene_steps, TrackLength};
use crate::scene_options::{
    lemma_header_length, opt_view, scene_header, scene_length_of, scene_repeats_of,
    spec_scene_header,
};
use crate::track_params::{spec_track_scan, track_scan, TrackEntry, TrackParam};
use crate::values::{bool_value, spec_bool_value, spec_keyword_arg};
use crate::program::{
    form_head, lemma_flag_heads, lemma_track_id_index, play_scene, spec_form_head, spec_play_scene,
    spec_start_check, spec_track_target, start_check, track_id_index, track_target, FormHead,
};
use crate::scenes::{find_scene, lemma_scene_index, scene_index, SceneLink};
use crate::text::str_eq;

verus! {

/// The state that a program's top-level forms change, as plain values: the
/// defined tracks (each id once, with its mute and solo flags), the defined
/// scenes (their chain links and what their bodies hold, in step), how
/// many post-processing effects there are, whether the
/// transport runs, and the scene that plays, if any.
pub struct ProgramState {
    pub ids: Vec<String>,
    pub muted: Vec<bool>,
    pub solo: Vec<bool>,
    pub scenes: Vec<SceneLink>,
    pub bodies: Vec<SceneBody>,
    pub post_effects: usize,
    pub running: bool,
    pub playing: Option<String>,
}

/// What a scene holds besides its chain link: the tracks its body defines
/// (each id once, with its mute and solo flags) and how many
/// post-processing effects its body sets.
pub struct SceneBody {
    pub ids: Vec<String>,
    pub muted: Vec<bool>,
    pub solo: Vec<bool>,
    pub post_effects: usize,
}

/// Track lists that line up, with no id twice.
pub open spec fn tracks_wf(ids: Seq<String>, muted: Seq<bool>, solo: Seq<bool>) -> bool {
    &&& muted.len() == ids.len()
    &&& solo.len() == ids.len()
    &&& forall|i: int, j: int| 0 <= i < j < ids.len() ==> #[trigger] ids[i]@ != #[trigger] ids[j]@
}

impl SceneBody {
    pub open spec fn wf(&self) -> bool {
        tracks_wf(self.ids@, self.muted@, self.solo@)
    }
}

/// Two states hold the same values.
pub open spec fn same_state(a: ProgramState, b: ProgramState) -> bool {
    &&& a.ids@ == b.ids@
    &&& a.muted@ == b.muted@
    &&& a.solo@ == b.solo@
    &&& a.scenes@ == b.scenes@
    &&& a.bodies@ == b.bodies@
    &&& a.post_effects == b.post_effects
    &&& a.running == b.running
    &&& a.playing == b.playing
}

/// Two states differ at most in their tracks.
pub open spec fn same_but_tracks(a: ProgramState, b: ProgramState) -> bool {
    &&& a.scenes@ == b.scenes@
    &&& a.bodies@ == b.bodies@
    &&& a.post_effects == b.post_effects
    &&& a.running == b.running
    &&& a.playing == b.playing
}

/// Refused with `m`, the state left as it was.
pub open spec fn refused(a: ProgramState, b: ProgramState, r: Result<(), String>, m: Seq<char>) -> bool {
    r matches Err(e) && e@ == m && same_state(b, a)
}

/// What a top-level form with head `h` and items `items` does to state
/// `a`, giving state `b` and the result `r`.
pub open spec fn form_effect(
    a: ProgramState,
    b: ProgramState,
    items: Seq<FormView>,
    rs: Seq<Reading>,
    e: EngineReport,
    h: FormHead,
    r: Result<(), String>,
) -> bool {
    match h {
        FormHead::Bpm => if items.len() != 2 {
            refused(a, b, r, "bpm"@ + " expects exactly "@ + decimal(1) + " argument"@)
        } else {
            match e.error {
                Some(m) => refused(a, b, r, m@),
                None => r is Ok && same_state(b, a),
            }
        },
        FormHead::PlayNote => if items.len() != 2 {
            refused(a, b, r, "play-note"@ + " expects exactly "@ + decimal(1) + " argument"@)
        } else {
            match e.error {
                Some(m) => refused(a, b, r, m@),
                None => r is Ok && note_played(a, b),
            }
        },
        FormHead::PostFx => if items.len() != 2 {
            refused(a, b, r, items[0]->Symbol_0 + " expects exactly "@ + decimal(1) + " argument"@)
        } else {
            match e.error {
                Some(m) => refused(a, b, r, m@),
                None => r is Ok && same_state(b, ProgramState { post_effects: e.effects, ..a }),
            }
        },
        FormHead::Track => track_form_effect(a, b, items, rs, e.error, r),
        FormHead::Sample => match spec_sample_track_items(items) {
            Err(m) => refused(a, b, r, m),
            Ok(t) => track_form_effect(a, b, t, rs, e.error, r),
        },
        FormHead::Scene => scene_form_effect(a, b, items, rs, e, r),
        FormHead::PlayScene => match spec_play_scene(items, items[0]->Symbol_0, a.scenes@) {
            Ok(i) => r is Ok && scene_played(a, b, i),
            Err(m) => refused(a, b, r, m),
        },
        FormHead::Stop => if items.len() == 1 {
            r is Ok && same_state(
                b,
                ProgramState { running: false, playing: None, ..a },
            )
        } else {
            refused(a, b, r, "stop!"@ + " expects no arguments"@)
        },
        FormHead::Start => match spec_start_check(items.len(), a.ids@.len() > 0, a.scenes@.len() > 0) {
            Ok(_) => r is Ok && same_state(b, ProgramState { running: true, ..a }),
            Err(m) => refused(a, b, r, m),
        },
        FormHead::Clear => match spec_track_target(items, "clear"@, a.ids@) {
            Ok(i) => {
                &&& r is Ok
                &&& b.ids@ == a.ids@.remove(i)
                &&& b.muted@ == a.muted@.remove(i)
                &&& b.solo@ == a.solo@.remove(i)
                &&& same_but_tracks(a, b)
            },
            Err(m) => refused(a, b, r, m),
        },
        FormHead::ClearAll => if items.len() == 1 {
            &&& r is Ok
            &&& b.ids@.len() == 0
            &&& b.scenes@.len() == 0
            &&& b.post_effects == 0
            &&& !b.running
            &&& b.playing is None
        } else {
            refused(a, b, r, "clear-all"@ + " expects no arguments"@)
        },
        FormHead::Mute => flag_effect(a, b, items, "mute"@, true, false, r),
        FormHead::Unmute => flag_effect(a, b, items, "unmute"@, false, false, r),
        FormHead::Solo => flag_effect(a, b, items, "solo"@, true, true, r),
        FormHead::Unsolo => flag_effect(a, b, items, "unsolo"@, false, true, r),
    }
}

/// What the sound engine reports of a form, which it reads with numbers:
/// the first error among the form's values (a track's parameter values,
/// in order; `bpm`'s tempo; `play-note`'s frequency; a post-processing
/// chain; a scene body's forms, in order), if any; for `post-fx`, how many
/// effects its chain holds; for a scene form, what its body forms give,
/// evaluated one after the other from a program with nothing defined, and
/// the length of each track they define.
pub struct EngineReport {
    pub error: Option<String>,
    pub effects: usize,
    pub body: SceneBody,
    pub lengths: Vec<TrackLength>,
}

/// Track `id` is (re)defined in `b`: a track defined again keeps its mute
/// and solo flags unless `off` sets the mute flag; a new track comes last,
/// muted as `off` says (else not) and not soloed. Nothing else changes.
pub open spec fn track_defined(a: ProgramState, b: ProgramState, id: Seq<char>, off: Option<bool>) -> bool {
    &&& {
        let ids = a.ids@;
        if exists|j: int| 0 <= j < ids.len() && ids[j]@ == id {
            let j = choose|j: int| 0 <= j < ids.len() && ids[j]@ == id;
            &&& b.ids@ == ids
            &&& b.solo@ == a.solo@
            &&& b.muted@ == match off {
                Some(m) => a.muted@.update(j, m),
                None => a.muted@,
            }
        } else {
            &&& b.id_views() == a.id_views().push(id)
            &&& b.solo@ == a.solo@.push(false)
            &&& b.muted@ == a.muted@.push(
                match off {
                    Some(m) => m,
                    None => false,
                },
            )
        }
    }
    &&& same_but_tracks(a, b)
}

/// The mute setting that the entries of a track form from entry `i` on
/// leave, starting from `acc`: a bare `off` mutes, an `:off` value sets it
/// (see `spec_bool_value`); the first value that is no truth value stops
/// the reading with its error.
pub open spec fn mute_from(
    items: Seq<FormView>,
    rs: Seq<Reading>,
    es: Seq<TrackEntry>,
    i: int,
    acc: Option<bool>,
) -> Result<Option<bool>, Seq<char>>
    decreases es.len() - i,
{
    if i < 0 || i >= es.len() {
        Ok(acc)
    } else {
        match es[i] {
            TrackEntry::Mute => mute_from(items, rs, es, i + 1, Some(true)),
            TrackEntry::Param(TrackParam::Off, k) => if k < items.len() {
                match spec_bool_value(items[k as int], rs, "off"@) {
                    Err(m) => Err(m),
                    Ok(v) => mute_from(items, rs, es, i + 1, Some(v)),
                }
            } else {
                mute_from(items, rs, es, i + 1, acc)
            },
            _ => mute_from(items, rs, es, i + 1, acc),
        }
    }
}

/// What a track form does (see `spec_track_scan`): its id and entries are
/// read; then the first error among its values (`error`, as the engine
/// reports it, then an `:off` value that is no truth value), then the error
/// that stopped its reading, refuse it; else the track is defined.
pub open spec fn track_form_effect(
    a: ProgramState,
    b: ProgramState,
    items: Seq<FormView>,
    rs: Seq<Reading>,
    error: Option<String>,
    r: Result<(), String>,
) -> bool {
    match spec_track_scan(items) {
        Err(m) => refused(a, b, r, m),
        Ok((id, es, stop)) => match error {
            Some(m) => refused(a, b, r, m@),
            None => match mute_from(items, rs, es, 0, None) {
                Err(m) => refused(a, b, r, m),
                Ok(off) => match stop {
                    Some(m) => refused(a, b, r, m),
                    None => r is Ok && track_defined(a, b, id, off),
                },
            },
        },
    }
}

/// A scene's chain link holds these values.
pub open spec fn link_is(l: SceneLink, id: Seq<char>, steps: nat, repeats: nat, next: Option<Seq<char>>) -> bool {
    &&& l.id@ == id
    &&& l.steps == steps
    &&& l.repeats == repeats
    &&& opt_view(l.next) == next
}

/// Scene `id` is defined in `b` with these values and body: in place of a
/// scene of that name, else after the others. Nothing else changes.
pub open spec fn scene_put(
    a: ProgramState,
    b: ProgramState,
    id: Seq<char>,
    steps: nat,
    repeats: nat,
    next: Option<Seq<char>>,
    body: SceneBody,
) -> bool {
    let k = scene_index(a.scenes@, id);
    let at = if k >= 0 { k } else { a.scenes@.len() as int };
    &&& b.scenes@.len() == if k >= 0 { a.scenes@.len() } else { a.scenes@.len() + 1 }
    &&& forall|j: int| 0 <= j < a.scenes@.len() && j != at ==> #[trigger] b.scenes@[j] == a.scenes@[j]
    &&& link_is(b.scenes@[at], id, steps, repeats, next)
    &&& b.bodies@ == if k >= 0 { a.bodies@.update(k, body) } else { a.bodies@.push(body) }
    &&& b.ids@ == a.ids@
    &&& b.muted@ == a.muted@
    &&& b.solo@ == a.solo@
    &&& b.post_effects == a.post_effects
    &&& b.running == a.running
    &&& b.playing == a.playing
}

/// What a scene form does: its options are read (see
/// `spec_scene_header`); then the engine's error on its body, then the
/// error of its length (see `scene_length_of`), refuse it; else the scene
/// is defined with its length, its repeat count, its next scene and the
/// body the engine gives.
pub open spec fn scene_form_effect(
    a: ProgramState,
    b: ProgramState,
    items: Seq<FormView>,
    rs: Seq<Reading>,
    e: EngineReport,
    r: Result<(), String>,
) -> bool {
    match spec_scene_header(items, rs) {
        Err(m) => refused(a, b, r, m),
        Ok((id, st)) => match e.error {
            Some(m) => refused(a, b, r, m@),
            None => match scene_length_of(st, e.lengths@) {
                Err(m) => refused(a, b, r, m),
                Ok(n) => r is Ok && scene_put(a, b, id, n, scene_repeats_of(st) as nat, st.next, e.body),
            },
        },
    }
}

/// Scene `i` of `a` plays in `b`: its tracks and post-processing effects
/// become the program's, it is the scene that plays, and the transport
/// runs; the scenes stay.
pub open spec fn scene_played(a: ProgramState, b: ProgramState, i: int) -> bool {
    let body = a.bodies@[i];
    &&& b.id_views() == body.ids@.map_values(|s: String| s@)
    &&& b.muted@ == body.muted@
    &&& b.solo@ == body.solo@
    &&& b.post_effects == body.post_effects
    &&& b.playing_view() == Some(a.scenes@[i].id@)
    &&& b.running
    &&& b.scenes@ == a.scenes@
    &&& b.bodies@ == a.bodies@
}

/// A note is played in `b`: the track `tone` is (re)defined unmuted and
/// not soloed, and the transport runs.
pub open spec fn note_played(a: ProgramState, b: ProgramState) -> bool {
    &&& {
        let ids = a.ids@;
        if exists|j: int| 0 <= j < ids.len() && ids[j]@ == "tone"@ {
            let j = choose|j: int| 0 <= j < ids.len() && ids[j]@ == "tone"@;
            &&& b.ids@ == ids
            &&& b.solo@ == a.solo@.update(j, false)
            &&& b.muted@ == a.muted@.update(j, false)
        } else {
            &&& b.id_views() == a.id_views().push("tone"@)
            &&& b.solo@ == a.solo@.push(false)
            &&& b.muted@ == a.muted@.push(false)
        }
    }
    &&& b.running
    &&& b.scenes@ == a.scenes@
    &&& b.bodies@ == a.bodies@
    &&& b.post_effects == a.post_effects
    &&& b.playing == a.playing
}

/// What a mute or solo form named `form` does: sets that flag of the track
/// it names to `value`.
pub open spec fn flag_effect(
    a: ProgramState,
    b: ProgramState,
    items: Seq<FormView>,
    form: Seq<char>,
    value: bool,
    for_solo: bool,
    r: Result<(), String>,
) -> bool {
    match spec_track_target(items, form, a.ids@) {
        Ok(i) => {
            &&& r is Ok
            &&& b.ids@ == a.ids@
            &&& b.muted@ == if for_solo { a.muted@ } else { a.muted@.update(i, value) }
            &&& b.solo@ == if for_solo { a.solo@.update(i, value) } else { a.solo@ }
            &&& same_but_tracks(a, b)
        },
        Err(m) => refused(a, b, r, m),
    }
}

/// With unique ids, the track named `id` is found at its own index.
proof fn lemma_target_index(ids: Seq<String>, id: Seq<char>, j: int)
    requires
        0 <= j < ids.len(),
        ids[j]@ == id,
        forall|a: int, c: int| 0 <= a < c < ids.len() ==> #[trigger] ids[a]@ != #[trigger] ids[c]@,
    ensures
        track_id_index(ids, id, 0) == j,
{
    lemma_track_id_index(ids, id, 0);
    let k = track_id_index(ids, id, 0);
    if k < 0 {
        lemma_track_id_index_misses(ids, id, 0, j);
    } else if k < j {
        assert(ids[k]@ != ids[j]@);
    } else if k > j {
        assert(ids[j]@ != ids[k]@);
    }
}

proof fn lemma_track_id_index_misses(ids: Seq<String>, id: Seq<char>, i: int, j: int)
    requires
        0 <= i <= j < ids.len(),
        ids[j]@ == id,
    ensures
        track_id_index(ids, id, i) >= 0,
    decreases j - i,
{
    if ids[i]@ != id {
        lemma_track_id_index_misses(ids, id, i + 1, j);
    }
}

/// The flag forms on a defined track `:id` (at index `j`): `(mute :id)`
/// sets its mute flag, `(unmute :id)` clears it, `(solo :id)` sets its
/// solo flag and `(unsolo :id)` clears it; each leaves the other flag, the
/// other tracks, the scenes and the transport as they were.
pub proof fn lemma_flag_forms(
    a: ProgramState,
    b: ProgramState,
    rs: Seq<Reading>,
    e: EngineReport,
    r: Result<(), String>,
    name: Seq<char>,
    id: Seq<char>,
    j: int,
)
    requires
        a.wf(),
        0 <= j < a.ids@.len(),
        a.ids@[j]@ == id,
        name == "mute"@ || name == "unmute"@ || name == "solo"@ || name == "unsolo"@,
    ensures
        ({
            let items = seq![FormView::Symbol(name), FormView::Keyword(id)];
            &&& spec_form_head(FormView::List(items)) is Ok
            &&& form_effect(a, b, items, rs, e, spec_form_head(FormView::List(items))->Ok_0, r) ==> {
                &&& r is Ok
                &&& b.ids@ == a.ids@
                &&& same_but_tracks(a, b)
                &&& name == "mute"@ ==> b.muted@ == a.muted@.update(j, true) && b.solo@ == a.solo@
                &&& name == "unmute"@ ==> b.muted@ == a.muted@.update(j, false) && b.solo@ == a.solo@
                &&& name == "solo"@ ==> b.solo@ == a.solo@.update(j, true) && b.muted@ == a.muted@
                &&& name == "unsolo"@ ==> b.solo@ == a.solo@.update(j, false) && b.muted@ == a.muted@
            }
        }),
{
    let items = seq![FormView::Symbol(name), FormView::Keyword(id)];
    lemma_flag_heads();
    lemma_target_index(a.ids@, id, j);
    assert(spec_keyword_arg(items, 1, name) == Ok::<Seq<char>, Seq<char>>(id));
    assert(spec_track_target(items, name, a.ids@) == Ok::<int, Seq<char>>(j));
}

/// A copy of a list of strings, with the same texts.
fn copy_ids(v: &Vec<String>) -> (r: Vec<String>)
    ensures
        r@.len() == v@.len(),
        forall|j: int| 0 <= j < v@.len() ==> #[trigger] r@[j]@ == v@[j]@,
        r@.map_values(|s: String| s@) == v@.map_values(|s: String| s@),
{
    let mut out: Vec<String> = Vec::new();
    let mut i: usize = 0;
    while i < v.len()
        invariant
            i <= v@.len(),
            out@.len() == i,
            forall|j: int| 0 <= j < i ==> #[trigger] out@[j]@ == v@[j]@,
        decreases v@.len() - i,
    {
        out.push(String::from_str(v[i].as_str()));
        i = i + 1;
    }
    assert(out@.map_values(|s: String| s@) =~= v@.map_values(|s: String| s@));
    out
}

/// A copy of a list of flags.
fn copy_flags(v: &Vec<bool>) -> (r: Vec<bool>)
    ensures
        r@ == v@,
{
    let mut out: Vec<bool> = Vec::new();
    let mut i: usize = 0;
    while i < v.len()
        invariant
            i <= v@.len(),
            out@ == v@.subrange(0, i as int),
        decreases v@.len() - i,
    {
        out.push(v[i]);
        assert(out@ =~= v@.subrange(0, i + 1));
        i = i + 1;
    }
    assert(v@.subrange(0, v@.len() as int) =~= v@);
    out
}

/// The mute setting that a track form's entries leave (see `mute_from`).
fn mute_setting(items: &[Form], rs: &[Reading], entries: &Vec<TrackEntry>) -> (r: Result<
    Option<bool>,
    String,
>)
    ensures
        match mute_from(forms_view(items@), rs@, entries@, 0, None) {
            Ok(o) => r == Ok::<Option<bool>, String>(o),
            Err(m) => r matches Err(e) && e@ == m,
        },
{
    let ghost its = forms_view(items@);
    proof {
        lemma_forms_view_len(items@);
    }
    let mut acc: Option<bool> = None;
    let mut i: usize = 0;
    while i < entries.len()
        invariant
            i <= entries@.len(),
            its == forms_view(items@),
            its.len() == items@.len(),
            mute_from(its, rs@, entries@, 0, None) == mute_from(its, rs@, entries@, i as int, acc),
        decreases entries@.len() - i,
    {
        match entries[i] {
            TrackEntry::Mute => {
                acc = Some(true);
            },
            TrackEntry::Param(TrackParam::Off, k) => {
                if k < items.len() {
                    proof {
                        lemma_forms_view_index(items@, k as int);
                    }
                    match bool_value(&items[k], rs, "off") {
                        Ok(v) => {
                            acc = Some(v);
                        },
                        Err(m) => {
                            return Err(m);
                        },
                    }
                }
            },
            _ => {},
        }
        i = i + 1;
    }
    Ok(acc)
}

impl ProgramState {
    /// The three track lists line up, and no track id occurs twice.
    pub open spec fn wf(&self) -> bool {
        &&& self.muted@.len() == self.ids@.len()
        &&& self.solo@.len() == self.ids@.len()
        &&& forall|i: int, j: int|
            0 <= i < j < self.ids@.len() ==> #[trigger] self.ids@[i]@ != #[trigger] self.ids@[j]@
        &&& self.bodies@.len() == self.scenes@.len()
        &&& forall|i: int| 0 <= i < self.bodies@.len() ==> #[trigger] self.bodies@[i].wf()
    }

    /// The track ids, as plain values.
    pub open spec fn id_views(&self) -> Seq<Seq<char>> {
        self.ids@.map_values(|s: String| s@)
    }

    /// The scene that plays, as a plain value.
    pub open spec fn playing_view(&self) -> Option<Seq<char>> {
        match self.playing {
            Some(s) => Some(s@),
            None => None,
        }
    }

    /// A program before any form: nothing defined, stopped.
    pub fn new() -> (r: Self)
        ensures
            r.wf(),
            r.ids@.len() == 0,
            r.scenes@.len() == 0,
            r.post_effects == 0,
            !r.running,
            r.playing is None,
    {
        ProgramState {
            ids: Vec::new(),
            muted: Vec::new(),
            solo: Vec::new(),
            scenes: Vec::new(),
            bodies: Vec::new(),
            post_effects: 0,
            running: false,
            playing: None,
        }
    }

    /// `(stop!)`: stops the transport and the scene that plays; it takes no
    /// arguments.
    pub fn stop(&mut self, items: &[Form]) -> (r: Result<(), String>)
        ensures
            items@.len() == 1 ==> r is Ok && !final(self).running && final(self).playing is None,
            items@.len() != 1 ==> (r matches Err(m) && m@ == "stop!"@ + " expects no arguments"@
                && final(self).running == old(self).running && final(self).playing == old(self).playing),
            final(self).ids@ == old(self).ids@,
            final(self).muted@ == old(self).muted@,
            final(self).solo@ == old(self).solo@,
            final(self).scenes@ == old(self).scenes@,
            final(self).bodies@ == old(self).bodies@,
            final(self).post_effects == old(self).post_effects,
    {
        match expect_arity(items, "stop!", 1) {
            Ok(()) => {},
            Err(e) => {
                return Err(e);
            },
        }
        self.running = false;
        self.playing = None;
        Ok(())
    }

    /// `(start!)`: starts the transport when top-level tracks are defined
    /// (see `spec_start_check`); nothing else changes.
    pub fn start(&mut self, items: &[Form]) -> (r: Result<(), String>)
        ensures
            match spec_start_check(items@.len(), old(self).ids@.len() > 0, old(self).scenes@.len() > 0) {
                Ok(_) => r is Ok && final(self).running,
                Err(m) => r matches Err(e) && e@ == m && final(self).running == old(self).running,
            },
            final(self).ids@ == old(self).ids@,
            final(self).muted@ == old(self).muted@,
            final(self).solo@ == old(self).solo@,
            final(self).scenes@ == old(self).scenes@,
            final(self).bodies@ == old(self).bodies@,
            final(self).post_effects == old(self).post_effects,
            final(self).playing == old(self).playing,
    {
        let has_tracks = self.ids.len() > 0;
        let has_scenes = self.scenes.len() > 0;
        match start_check(items, has_tracks, has_scenes) {
            Ok(()) => {},
            Err(e) => {
                return Err(e);
            },
        }
        self.running = true;
        Ok(())
    }

    /// `(clear :id)`: removes the track the form names (see
    /// `spec_track_target`), with its flags.
    pub fn clear(&mut self, items: &[Form]) -> (r: Result<(), String>)
        requires
            old(self).wf(),
        ensures
            final(self).wf(),
            match spec_track_target(forms_view(items@), "clear"@, old(self).ids@) {
                Ok(i) => r is Ok && final(self).ids@ == old(self).ids@.remove(i)
                    && final(self).muted@ == old(self).muted@.remove(i)
                    && final(self).solo@ == old(self).solo@.remove(i),
                Err(m) => r matches Err(e) && e@ == m && final(self).ids@ == old(self).ids@
                    && final(self).muted@ == old(self).muted@ && final(self).solo@ == old(
                    self,
                ).solo@,
            },
            final(self).scenes@ == old(self).scenes@,
            final(self).bodies@ == old(self).bodies@,
            final(self).post_effects == old(self).post_effects,
            final(self).running == old(self).running,
            final(self).playing == old(self).playing,
    {
        let n = self.ids.len();
        let i = match track_target(items, "clear", self.ids.as_slice()) {
            Ok(i) => i,
            Err(e) => {
                return Err(e);
            },
        };
        assert(i < n);
        self.ids.remove(i);
        self.muted.remove(i);
        self.solo.remove(i);
        proof {
            assert forall|a: int, b: int| 0 <= a < b < self.ids@.len() implies #[trigger] self.ids@[a]@
                != #[trigger] self.ids@[b]@ by {
                let a0 = if a < i { a } else { a + 1 };
                let b0 = if b < i { b } else { b + 1 };
                assert(self.ids@[a] == old(self).ids@[a0]);
                assert(self.ids@[b] == old(self).ids@[b0]);
            }
        }
        Ok(())
    }

    /// `(clear-all)`: removes every track, scene and post-processing
    /// effect, and stops; it takes no arguments.
    pub fn clear_all(&mut self, items: &[Form]) -> (r: Result<(), String>)
        requires
            old(self).wf(),
        ensures
            final(self).wf(),
            items@.len() == 1 ==> {
                &&& r is Ok
                &&& final(self).ids@.len() == 0
                &&& final(self).scenes@.len() == 0
                &&& final(self).post_effects == 0
                &&& !final(self).running
                &&& final(self).playing is None
            },
            items@.len() != 1 ==> (r matches Err(m) && m@ == "clear-all"@ + " expects no arguments"@
                && final(self).ids@ == old(self).ids@ && final(self).muted@ == old(self).muted@
                && final(self).solo@ == old(self).solo@ && final(self).scenes@ == old(self).scenes@
                && final(self).bodies@ == old(self).bodies@
                && final(self).post_effects == old(self).post_effects
                && final(self).running == old(self).running
                && final(self).playing == old(self).playing),
    {
        match expect_arity(items, "clear-all", 1) {
            Ok(()) => {},
            Err(e) => {
                return Err(e);
            },
        }
        self.ids = Vec::new();
        self.muted = Vec::new();
        self.solo = Vec::new();
        self.scenes = Vec::new();
        self.bodies = Vec::new();
        self.post_effects = 0;
        self.playing = None;
        self.running = false;
        Ok(())
    }

    /// `(mute :id)`, `(unmute :id)`, `(solo :id)`, `(unsolo :id)`: sets the
    /// mute flag (or, with `for_solo`, the solo flag) of the track the form
    /// names to `value`.
    pub fn set_track_flag(&mut self, items: &[Form], form: &str, value: bool, for_solo: bool) -> (r: Result<(), String>)
        requires
            old(self).wf(),
        ensures
            final(self).wf(),
            final(self).ids@ == old(self).ids@,
            match spec_track_target(forms_view(items@), form@, old(self).ids@) {
                Ok(i) => {
                    &&& r is Ok
                    &&& for_solo ==> final(self).solo@ == old(self).solo@.update(i, value)
                        && final(self).muted@ == old(self).muted@
                    &&& !for_solo ==> final(self).muted@ == old(self).muted@.update(i, value)
                        && final(self).solo@ == old(self).solo@
                },
                Err(m) => r matches Err(e) && e@ == m && final(self).muted@ == old(self).muted@
                    && final(self).solo@ == old(self).solo@,
            },
            final(self).scenes@ == old(self).scenes@,
            final(self).bodies@ == old(self).bodies@,
            final(self).post_effects == old(self).post_effects,
            final(self).running == old(self).running,
            final(self).playing == old(self).playing,
    {
        let n = self.ids.len();
        let i = match track_target(items, form, self.ids.as_slice()) {
            Ok(i) => i,
            Err(e) => {
                return Err(e);
            },
        };
        assert(i < n);
        if for_solo {
            self.solo.set(i, value);
        } else {
            self.muted.set(i, value);
        }
        Ok(())
    }

    /// A `(play-note freq)` form that reads: the track `tone` is (re)defined
    /// unmuted and not soloed, and the transport runs.
    pub fn play_note(&mut self)
        requires
            old(self).wf(),
            old(self).ids@.len() < usize::MAX,
        ensures
            final(self).wf(),
            note_played(*old(self), *final(self)),
    {
        match self.find_track("tone") {
            Some(i) => {
                proof {
                    let j = choose|j: int| 0 <= j < old(self).ids@.len() && old(self).ids@[j]@ == "tone"@;
                    if j != i {
                        if j < i {
                            assert(old(self).ids@[j]@ != old(self).ids@[i as int]@);
                        } else {
                            assert(old(self).ids@[i as int]@ != old(self).ids@[j]@);
                        }
                    }
                }
                self.muted.set(i, false);
                self.solo.set(i, false);
            },
            None => {
                self.ids.push(String::from_str("tone"));
                self.muted.push(false);
                self.solo.push(false);
                proof {
                    assert(self.id_views() =~= old(self).id_views().push("tone"@));
                    assert forall|a: int, b: int| 0 <= a < b < self.ids@.len() implies #[trigger] self.ids@[a]@
                        != #[trigger] self.ids@[b]@ by {
                        assert(self.ids@[a] == old(self).ids@[a]);
                        if b < self.ids@.len() - 1 {
                            assert(self.ids@[b] == old(self).ids@[b]);
                        }
                    }
                }
            },
        }
        self.running = true;
    }

    /// A scene form that reads: scene `link.id` is defined with the chain
    /// link `link` and the body `body`, in place of a scene of that name
    /// already defined, else after the others.
    pub fn define_scene(&mut self, link: SceneLink, body: SceneBody)
        requires
            old(self).wf(),
            body.wf(),
            old(self).scenes@.len() < usize::MAX,
        ensures
            final(self).wf(),
            ({
                let k = scene_index(old(self).scenes@, link.id@);
                if k >= 0 {
                    &&& final(self).scenes@ == old(self).scenes@.update(k, link)
                    &&& final(self).bodies@ == old(self).bodies@.update(k, body)
                } else {
                    &&& final(self).scenes@ == old(self).scenes@.push(link)
                    &&& final(self).bodies@ == old(self).bodies@.push(body)
                }
            }),
            final(self).ids@ == old(self).ids@,
            final(self).muted@ == old(self).muted@,
            final(self).solo@ == old(self).solo@,
            final(self).post_effects == old(self).post_effects,
            final(self).running == old(self).running,
            final(self).playing == old(self).playing,
    {
        match find_scene(self.scenes.as_slice(), link.id.as_str()) {
            Some(k) => {
                self.scenes.set(k, link);
                self.bodies.set(k, body);
            },
            None => {
                self.scenes.push(link);
                self.bodies.push(body);
            },
        }
    }

    /// Cues the scene a `play-scene` (or `play-block`, `cue`) form names
    /// (see `spec_play_scene`): the scene's tracks and post-processing
    /// effects become the program's, the scene plays and the transport
    /// runs.
    pub fn play_scene(&mut self, items: &[Form], form: &str) -> (r: Result<(), String>)
        requires
            old(self).wf(),
        ensures
            final(self).wf(),
            match spec_play_scene(forms_view(items@), form@, old(self).scenes@) {
                Ok(i) => {
                    let b = old(self).bodies@[i];
                    &&& r is Ok
                    &&& final(self).id_views() == b.ids@.map_values(|s: String| s@)
                    &&& final(self).muted@ == b.muted@
                    &&& final(self).solo@ == b.solo@
                    &&& final(self).post_effects == b.post_effects
                    &&& final(self).playing_view() == Some(old(self).scenes@[i].id@)
                    &&& final(self).running
                    &&& final(self).scenes@ == old(self).scenes@
                    &&& final(self).bodies@ == old(self).bodies@
                },
                Err(m) => r matches Err(e) && e@ == m && same_state(*final(self), *old(self)),
            },
    {
        let n = self.scenes.len();
        let i = match play_scene(self.scenes.as_slice(), items, form) {
            Ok(i) => i,
            Err(e) => {
                return Err(e);
            },
        };
        assert(i < n);
        let ids = copy_ids(&self.bodies[i].ids);
        let muted = copy_flags(&self.bodies[i].muted);
        let solo = copy_flags(&self.bodies[i].solo);
        let post_effects = self.bodies[i].post_effects;
        let playing = String::from_str(self.scenes[i].id.as_str());
        proof {
            assert(self.bodies@[i as int].wf());
            let v = self.bodies@[i as int].ids@;
            assert forall|a: int, c: int| 0 <= a < c < ids@.len() implies #[trigger] ids@[a]@
                != #[trigger] ids@[c]@ by {
                assert(ids@[a]@ == v[a]@);
                assert(ids@[c]@ == v[c]@);
            }
        }
        self.ids = ids;
        self.muted = muted;
        self.solo = solo;
        self.post_effects = post_effects;
        self.playing = Some(playing);
        self.running = true;
        Ok(())
    }

    /// A track form (or the track form a `sample` form stands for) read
    /// against the state, `error` being the engine's first error among its
    /// values (see `track_form_effect`).
    pub fn define_track_form(&mut self, items: &[Form], rs: &[Reading], error: Option<String>) -> (r:
        Result<(), String>)
        requires
            old(self).wf(),
            old(self).ids@.len() < usize::MAX,
        ensures
            final(self).wf(),
            track_form_effect(*old(self), *final(self), forms_view(items@), rs@, error, r),
    {
        let scan = match track_scan(items) {
            Ok(s) => s,
            Err(m) => {
                return Err(m);
            },
        };
        match error {
            Some(m) => {
                return Err(m);
            },
            None => {},
        }
        let off = match mute_setting(items, rs, &scan.entries) {
            Ok(o) => o,
            Err(m) => {
                return Err(m);
            },
        };
        match scan.stop {
            Some(m) => {
                return Err(m);
            },
            None => {},
        }
        self.define_track(scan.id.as_str(), off);
        Ok(())
    }

    /// A scene form read against the state, with what the engine reports
    /// of its body (see `scene_form_effect`).
    pub fn define_scene_form(&mut self, items: &[Form], rs: &[Reading], report: EngineReport) -> (r:
        Result<(), String>)
        requires
            old(self).wf(),
            old(self).scenes@.len() < usize::MAX,
            report.body.wf(),
            fold_fits(report.lengths@.map_values(|t: TrackLength| t.steps)),
        ensures
            final(self).wf(),
            scene_form_effect(*old(self), *final(self), forms_view(items@), rs@, report, r),
    {
        let ghost rep = report;
        let header = match scene_header(items, rs) {
            Ok(h) => h,
            Err(m) => {
                return Err(m);
            },
        };
        let EngineReport { error, effects, body, lengths } = report;
        match error {
            Some(m) => {
                return Err(m);
            },
            None => {},
        }
        proof {
            let (id, st) = spec_scene_header(forms_view(items@), rs@)->Ok_0;
            lemma_header_length(header, id, st, lengths@);
        }
        let steps = match scene_steps(&header.length, lengths.as_slice()) {
            Ok(n) => n,
            Err(m) => {
                return Err(m);
            },
        };
        let repeats = scene_repeats(
            header.repeats,
            header.explicit_repeats,
            header.length.loop_by.is_some(),
            header.next.is_some(),
        );
        let ghost before = *self;
        let link = SceneLink { id: header.id, steps, repeats, next: header.next };
        self.define_scene(link, body);
        proof {
            let (id, st) = spec_scene_header(forms_view(items@), rs@)->Ok_0;
            assert(link.id@ == id);
            assert(steps == scene_length_of(st, rep.lengths@)->Ok_0);
            assert(repeats == scene_repeats_of(st));
            assert(opt_view(link.next) == st.next);
            assert(link_is(link, id, steps as nat, repeats as nat, st.next));
            let k = scene_index(before.scenes@, id);
            lemma_scene_index(before.scenes@, id);
            if k < 0 {
                assert(self.scenes@[before.scenes@.len() as int] == link);
            } else {
                assert(self.scenes@[k] == link);
            }
            assert(body == rep.body);
        }
        Ok(())
    }

    /// Evaluates a top-level form against the state (see `form_effect`),
    /// `report` being what the sound engine reports of the form's values.
    pub fn eval_form(&mut self, f: &Form, rs: &[Reading], report: EngineReport) -> (r: Result<(), String>)
        requires
            old(self).wf(),
            old(self).ids@.len() < usize::MAX,
            old(self).scenes@.len() < usize::MAX,
            report.body.wf(),
            fold_fits(report.lengths@.map_values(|t: TrackLength| t.steps)),
        ensures
            final(self).wf(),
            match spec_form_head(form_view(*f)) {
                Err(m) => refused(*old(self), *final(self), r, m),
                Ok(h) => form_effect(*old(self), *final(self), form_view(*f)->List_0, rs@, report, h, r),
            },
    {
        let head = match form_head(f) {
            Ok(h) => h,
            Err(e) => {
                return Err(e);
            },
        };
        let items = match f {
            Form::List(items) => items.as_slice(),
            _ => {
                return Err(String::from_str("top-level value must be a form"));
            },
        };
        proof {
            lemma_forms_view_len(items@);
            lemma_forms_view_index(items@, 0);
        }
        let name: &str = match &items[0] {
            Form::Symbol(n) => n.as_str(),
            _ => {
                return Err(String::from_str("form must start with a symbol"));
            },
        };
        match head {
            FormHead::Stop => self.stop(items),
            FormHead::Start => self.start(items),
            FormHead::Clear => self.clear(items),
            FormHead::ClearAll => self.clear_all(items),
            FormHead::Mute => self.set_track_flag(items, "mute", true, false),
            FormHead::Unmute => self.set_track_flag(items, "unmute", false, false),
            FormHead::Solo => self.set_track_flag(items, "solo", true, true),
            FormHead::Unsolo => self.set_track_flag(items, "unsolo", false, true),
            FormHead::Bpm => {
                match expect_arity(items, "bpm", 2) {
                    Ok(()) => {},
                    Err(m) => {
                        return Err(m);
                    },
                }
                match report.error {
                    Some(m) => Err(m),
                    None => Ok(()),
                }
            },
            FormHead::PlayNote => {
                match expect_arity(items, "play-note", 2) {
                    Ok(()) => {},
                    Err(m) => {
                        return Err(m);
                    },
                }
                match report.error {
                    Some(m) => Err(m),
                    None => {
                        self.play_note();
                        Ok(())
                    },
                }
            },
            FormHead::PostFx => {
                match expect_arity(items, name, 2) {
                    Ok(()) => {},
                    Err(m) => {
                        return Err(m);
                    },
                }
                match report.error {
                    Some(m) => Err(m),
                    None => {
                        self.post_effects = report.effects;
                        Ok(())
                    },
                }
            },
            FormHead::Track => self.define_track_form(items, rs, report.error),
            FormHead::Sample => {
                let track_items = match sample_track_items(items) {
                    Ok(t) => t,
                    Err(m) => {
                        return Err(m);
                    },
                };
                self.define_track_form(track_items.as_slice(), rs, report.error)
            },
            FormHead::Scene => self.define_scene_form(items, rs, report),
            FormHead::PlayScene => self.play_scene(items, name),
        }
    }

    /// The position of track `id`, if it is defined.
    fn find_track(&self, id: &str) -> (r: Option<usize>)
        requires
            self.wf(),
        ensures
            match r {
                Some(i) => i < self.ids@.len() && self.ids@[i as int]@ == id@,
                None => forall|j: int| 0 <= j < self.ids@.len() ==> self.ids@[j]@ != id@,
            },
    {
        let mut i: usize = 0;
        while i < self.ids.len()
            invariant
                i <= self.ids@.len(),
                forall|j: int| 0 <= j < i ==> self.ids@[j]@ != id@,
            decreases self.ids@.len() - i,
        {
            if str_eq(self.ids[i].as_str(), id) {
                return Some(i);
            }
            i = i + 1;
        }
        None
    }

    /// A track form `(d :id ..)` that reads: track `id` is (re)defined. A
    /// track defined again keeps its mute and solo flags, unless the form
    /// sets the mute flag (`off`, the last such setting of the form, when
    /// it has one); a new track starts unmuted (or as `off` says) and not
    /// soloed.
    pub fn define_track(&mut self, id: &str, off: Option<bool>)
        requires
            old(self).wf(),
            old(self).ids@.len() < usize::MAX,
        ensures
            final(self).wf(),
            track_defined(*old(self), *final(self), id@, off),
    {
        match self.find_track(id) {
            Some(i) => {
                proof {
                    let j = choose|j: int| 0 <= j < old(self).ids@.len() && old(self).ids@[j]@ == id@;
                    if j != i {
                        if j < i {
                            assert(old(self).ids@[j]@ != old(self).ids@[i as int]@);
                        } else {
                            assert(old(self).ids@[i as int]@ != old(self).ids@[j]@);
                        }
                    }
                }
                match off {
                    Some(m) => {
                        self.muted.set(i, m);
                    },
                    None => {},
                }
            },
            None => {
                self.ids.push(String::from_str(id));
                self.muted.push(
                    match off {
                        Some(m) => m,
                        None => false,
                    },
                );
                self.solo.push(false);
                proof {
                    assert(self.id_views() =~= old(self).id_views().push(id@));
                    assert forall|a: int, b: int| 0 <= a < b < self.ids@.len() implies #[trigger] self.ids@[a]@
                        != #[trigger] self.ids@[b]@ by {
                        if b == self.ids@.len() - 1 {
                            assert(self.ids@[a] == old(self).ids@[a]);
                        } else {
                            assert(self.ids@[a] == old(self).ids@[a]);
                            assert(self.ids@[b] == old(self).ids@[b]);
                        }
                    }
                }
            },
        }
    }
}

} // verus!

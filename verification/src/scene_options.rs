use vstd::prelude::*;
use crate::forms::{Form, FormView, forms_view};
use crate::gate_forms::{
    positive_usize_value, spec_positive_usize_value, spec_usize_value, usize_value, Reading,
};
use crate::language::{scene_option_canonical_key, spec_scene_option_canonical_key};
use crate::options::{lemma_forms_view_index, lemma_forms_view_len};
use crate::scene_def::{
    fold_lcm, saturating_product, spec_scene_steps, track_steps_of, unknown_track_message,
    SceneLengthOptions, TrackLength,
};
use crate::text::str_eq;
use crate::values::{keyword_arg, loop_true_value, spec_keyword_arg, spec_loop_true_value};

verus! {

/// What a scene option asks for, by its name.
pub enum SceneOption {
    Repeat,
    Loop,
    Steps,
    Bars,
    BarSteps,
    BarStepsOf,
    StepsOf,
    LoopBy,
    Next,
    Unknown,
}

/// The option a scene option name stands for.
pub open spec fn spec_scene_option(key: Seq<char>) -> SceneOption {
    if key == "repeat"@ || key == "repeats"@ || key == "times"@ {
        SceneOption::Repeat
    } else if key == "loop"@ {
        SceneOption::Loop
    } else if key == "steps"@ || key == "length"@ {
        SceneOption::Steps
    } else if key == "bars"@ {
        SceneOption::Bars
    } else if key == "bar-steps"@ || key == "bar-length"@ {
        SceneOption::BarSteps
    } else if key == "bar-steps-of"@ || key == "bar-length-of"@ {
        SceneOption::BarStepsOf
    } else if key == "steps-of"@ || key == "length-of"@ {
        SceneOption::StepsOf
    } else if key == "loop-by"@ {
        SceneOption::LoopBy
    } else if key == "next"@ {
        SceneOption::Next
    } else {
        SceneOption::Unknown
    }
}

/// Classifies a scene option name.
pub fn scene_option(key: &str) -> (r: SceneOption)
    ensures
        r == spec_scene_option(key@),
{
    if str_eq(key, "repeat") || str_eq(key, "repeats") || str_eq(key, "times") {
        SceneOption::Repeat
    } else if str_eq(key, "loop") {
        SceneOption::Loop
    } else if str_eq(key, "steps") || str_eq(key, "length") {
        SceneOption::Steps
    } else if str_eq(key, "bars") {
        SceneOption::Bars
    } else if str_eq(key, "bar-steps") || str_eq(key, "bar-length") {
        SceneOption::BarSteps
    } else if str_eq(key, "bar-steps-of") || str_eq(key, "bar-length-of") {
        SceneOption::BarStepsOf
    } else if str_eq(key, "steps-of") || str_eq(key, "length-of") {
        SceneOption::StepsOf
    } else if str_eq(key, "loop-by") {
        SceneOption::LoopBy
    } else if str_eq(key, "next") {
        SceneOption::Next
    } else {
        SceneOption::Unknown
    }
}

/// The options of a scene read so far: its repeat count (and whether one
/// was given), the options that decide its length, the scene to play next,
/// the canonical names already seen, and where reading goes on.
pub ghost struct OptState {
    pub repeats: usize,
    pub explicit_repeats: bool,
    pub steps: usize,
    pub explicit_steps: bool,
    pub steps_of: Option<Seq<char>>,
    pub loop_by: Option<(Seq<char>, usize)>,
    pub bars: Option<usize>,
    pub bar_steps: Option<usize>,
    pub bar_steps_of: Option<Seq<char>>,
    pub next: Option<Seq<char>>,
    pub seen: Seq<Seq<char>>,
    pub index: int,
}

/// Nothing read yet: options start after the head and the scene id.
pub open spec fn opt_start() -> OptState {
    OptState {
        repeats: 0,
        explicit_repeats: false,
        steps: 0,
        explicit_steps: false,
        steps_of: None,
        loop_by: None,
        bars: None,
        bar_steps: None,
        bar_steps_of: None,
        next: None,
        seen: Seq::empty(),
        index: 2,
    }
}

/// The error for an option given without its value.
pub open spec fn missing_value(key: Seq<char>) -> Seq<char> {
    "scene :"@ + key + " requires a value"@
}

/// Reads the option at `st.index` (named `key`, its canonical name already
/// recorded), moving past it and its value.
pub open spec fn scene_option_step(items: Seq<FormView>, rs: Seq<Reading>, key: Seq<char>, st: OptState) -> Result<
    OptState,
    Seq<char>,
> {
    let i = st.index;
    let has_value = i + 1 < items.len();
    match spec_scene_option(key) {
        SceneOption::Repeat => if !has_value {
            Err(missing_value("repeat"@))
        } else {
            match spec_usize_value(items[i + 1], rs, "repeat"@) {
                Err(e) => Err(e),
                Ok(n) => Ok(OptState { repeats: n, explicit_repeats: true, index: i + 2, ..st }),
            }
        },
        SceneOption::Loop => if !has_value {
            Err(missing_value("loop"@))
        } else {
            match spec_loop_true_value(items[i + 1], rs) {
                Err(e) => Err(e),
                Ok(_) => Ok(OptState { repeats: 0, explicit_repeats: true, index: i + 2, ..st }),
            }
        },
        SceneOption::Steps => if !has_value {
            Err(missing_value("steps"@))
        } else {
            match spec_positive_usize_value(items[i + 1], rs, "steps"@) {
                Err(e) => Err(e),
                Ok(n) => Ok(OptState { steps: n, explicit_steps: true, index: i + 2, ..st }),
            }
        },
        SceneOption::Bars => if !has_value {
            Err(missing_value("bars"@))
        } else {
            match spec_positive_usize_value(items[i + 1], rs, "bars"@) {
                Err(e) => Err(e),
                Ok(n) => Ok(OptState { bars: Some(n), explicit_steps: true, index: i + 2, ..st }),
            }
        },
        SceneOption::BarSteps => if !has_value {
            Err(missing_value("bar-steps"@))
        } else {
            match spec_positive_usize_value(items[i + 1], rs, "bar-steps"@) {
                Err(e) => Err(e),
                Ok(n) => Ok(OptState { bar_steps: Some(n), index: i + 2, ..st }),
            }
        },
        SceneOption::BarStepsOf => match spec_keyword_arg(items, i + 1, "scene :bar-steps-of"@) {
            Err(e) => Err(e),
            Ok(k) => Ok(OptState { bar_steps_of: Some(k), index: i + 2, ..st }),
        },
        SceneOption::StepsOf => match spec_keyword_arg(items, i + 1, "scene :steps-of"@) {
            Err(e) => Err(e),
            Ok(k) => Ok(OptState { steps_of: Some(k), index: i + 2, ..st }),
        },
        SceneOption::LoopBy => match spec_keyword_arg(items, i + 1, "scene :loop-by"@) {
            Err(e) => Err(e),
            Ok(k) => if i + 2 >= items.len() {
                Err("scene :loop-by requires a count"@)
            } else {
                match spec_positive_usize_value(items[i + 2], rs, "loop-by"@) {
                    Err(e) => Err(e),
                    Ok(n) => Ok(OptState { loop_by: Some((k, n)), index: i + 3, ..st }),
                }
            },
        },
        SceneOption::Next => match spec_keyword_arg(items, i + 1, "scene :next"@) {
            Err(e) => Err(e),
            Ok(k) => Ok(OptState { next: Some(k), index: i + 2, ..st }),
        },
        SceneOption::Unknown => Err("unknown scene option ':"@ + key + "'"@),
    }
}

/// Reads scene options from `st.index` on, while the items are keywords:
/// a second option with the same canonical name is refused.
pub open spec fn scene_opts_from(items: Seq<FormView>, rs: Seq<Reading>, st: OptState) -> Result<
    OptState,
    Seq<char>,
>
    decreases items.len() - st.index,
{
    let i = st.index;
    if i < 0 || i >= items.len() || !(items[i] is Keyword) {
        Ok(st)
    } else {
        let key = items[i]->Keyword_0;
        let canon = spec_scene_option_canonical_key(key);
        if st.seen.contains(canon) {
            Err("duplicate scene option ':"@ + key + "'"@)
        } else {
            match scene_option_step(items, rs, key, OptState { seen: st.seen.push(canon), ..st }) {
                Err(e) => Err(e),
                Ok(next) => if next.index > i {
                    scene_opts_from(items, rs, next)
                } else {
                    Ok(next)
                },
            }
        }
    }
}

/// The id of a scene form and its options, or the error that refuses it.
pub open spec fn spec_scene_header(items: Seq<FormView>, rs: Seq<Reading>) -> Result<
    (Seq<char>, OptState),
    Seq<char>,
> {
    if items.len() < 2 {
        Err("scene requires a scene id"@)
    } else if !(items[1] is Keyword) {
        Err("scene id must be a keyword"@)
    } else {
        match scene_opts_from(items, rs, opt_start()) {
            Err(e) => Err(e),
            Ok(st) => Ok((items[1]->Keyword_0, st)),
        }
    }
}

/// What the head of a scene form gives: its id, the options that decide
/// its length, its repeat count (and whether one was given), the scene to
/// play next, and the index of the first form of its body.
pub struct SceneHeader {
    pub id: String,
    pub length: SceneLengthOptions,
    pub repeats: usize,
    pub explicit_repeats: bool,
    pub next: Option<String>,
    pub body_start: usize,
}

/// The text of an optional string.
pub open spec fn opt_view(o: Option<String>) -> Option<Seq<char>> {
    match o {
        Some(s) => Some(s@),
        None => None,
    }
}

/// The track and count of an optional `:loop-by`, as plain values.
pub open spec fn loop_by_view(o: Option<(String, usize)>) -> Option<(Seq<char>, usize)> {
    match o {
        Some((k, n)) => Some((k@, n)),
        None => None,
    }
}

/// Whether a header holds what was read: the id and the final state.
pub open spec fn header_is(h: SceneHeader, id: Seq<char>, st: OptState) -> bool {
    &&& h.id@ == id
    &&& h.repeats == st.repeats
    &&& h.explicit_repeats == st.explicit_repeats
    &&& h.length.steps == st.steps
    &&& h.length.explicit_steps == st.explicit_steps
    &&& opt_view(h.length.steps_of) == st.steps_of
    &&& loop_by_view(h.length.loop_by) == st.loop_by
    &&& h.length.bars == st.bars
    &&& h.length.bar_steps == st.bar_steps
    &&& opt_view(h.length.bar_steps_of) == st.bar_steps_of
    &&& opt_view(h.next) == st.next
    &&& h.body_start == st.index
}

/// The length of a scene whose options read as `st`, its body's tracks
/// being `t` (see `spec_scene_steps`).
pub open spec fn scene_length_of(st: OptState, t: Seq<TrackLength>) -> Result<nat, Seq<char>> {
    match st.steps_of {
        Some(id) => match track_steps_of(t, id) {
            Some(n) => Ok(n),
            None => Err(unknown_track_message("steps-of"@, id)),
        },
        None => match st.loop_by {
            Some((id, count)) => match track_steps_of(t, id) {
                Some(n) => Ok(saturating_product(count as nat, n)),
                None => Err(unknown_track_message("loop-by"@, id)),
            },
            None => match st.bars {
                Some(bars) => {
                    let per_bar = match st.bar_steps_of {
                        Some(id) => match track_steps_of(t, id) {
                            Some(n) => Ok(n),
                            None => Err(unknown_track_message("bar-steps-of"@, id)),
                        },
                        None => Ok(
                            match st.bar_steps {
                                Some(b) => b as nat,
                                None => 16nat,
                            },
                        ),
                    };
                    match per_bar {
                        Ok(p) => Ok(saturating_product(bars as nat, p)),
                        Err(e) => Err(e),
                    }
                },
                None => if st.bar_steps is Some || st.bar_steps_of is Some {
                    Err("scene :bar-steps requires :bars"@)
                } else if st.explicit_steps {
                    Ok(st.steps as nat)
                } else {
                    let s = t.map_values(|x: TrackLength| x.steps);
                    if s.len() == 0 {
                        Err("scene has nothing to play; add a track or set :steps explicitly"@)
                    } else {
                        Ok(
                            if fold_lcm(s, s.len()) >= 1 {
                                fold_lcm(s, s.len())
                            } else {
                                1
                            },
                        )
                    }
                },
            },
        },
    }
}

/// How many times a scene whose options read as `st` plays (see
/// `scene_repeats`).
pub open spec fn scene_repeats_of(st: OptState) -> usize {
    if st.loop_by is Some && st.next is Some && !st.explicit_repeats {
        1
    } else {
        st.repeats
    }
}

/// A header's length options give the length that its options do.
pub proof fn lemma_header_length(h: SceneHeader, id: Seq<char>, st: OptState, t: Seq<TrackLength>)
    requires
        header_is(h, id, st),
    ensures
        spec_scene_steps(h.length, t) == scene_length_of(st, t),
{
}

/// The texts of a list of strings.
pub open spec fn seen_view(seen: Seq<String>) -> Seq<Seq<char>> {
    seen.map_values(|s: String| s@)
}

fn seen_contains(seen: &Vec<String>, canon: &str) -> (r: bool)
    ensures
        r == seen_view(seen@).contains(canon@),
{
    let mut i: usize = 0;
    while i < seen.len()
        invariant
            i <= seen@.len(),
            forall|j: int| 0 <= j < i ==> #[trigger] seen@[j]@ != canon@,
        decreases seen@.len() - i,
    {
        if str_eq(seen[i].as_str(), canon) {
            assert(seen_view(seen@)[i as int] == canon@);
            return true;
        }
        i = i + 1;
    }
    assert forall|j: int| 0 <= j < seen@.len() implies #[trigger] seen_view(seen@)[j]
        != canon@ by {
        assert(seen_view(seen@)[j] == seen@[j]@);
    }
    false
}

fn missing(key: &str) -> (r: String)
    ensures
        r@ == missing_value(key@),
{
    let mut m = String::from_str("scene :");
    m.append(key);
    m.append(" requires a value");
    m
}

/// Reads the id and options of a scene form (`(scene :id :opt v .. body)`),
/// stopping at the first item that is no keyword.
pub fn scene_header(items: &[Form], rs: &[Reading]) -> (r: Result<SceneHeader, String>)
    ensures
        match spec_scene_header(forms_view(items@), rs@) {
            Ok((id, st)) => r matches Ok(h) && header_is(h, id, st),
            Err(m) => r matches Err(e) && e@ == m,
        },
{
    let ghost its = forms_view(items@);
    proof {
        lemma_forms_view_len(items@);
    }
    if items.len() < 2 {
        return Err(String::from_str("scene requires a scene id"));
    }
    proof {
        lemma_forms_view_index(items@, 1);
    }
    let id = match &items[1] {
        Form::Keyword(k) => k.clone(),
        _ => {
            return Err(String::from_str("scene id must be a keyword"));
        },
    };
    let mut repeats: usize = 0;
    let mut explicit_repeats = false;
    let mut steps: usize = 0;
    let mut explicit_steps = false;
    let mut steps_of: Option<String> = None;
    let mut loop_by: Option<(String, usize)> = None;
    let mut bars: Option<usize> = None;
    let mut bar_steps: Option<usize> = None;
    let mut bar_steps_of: Option<String> = None;
    let mut next: Option<String> = None;
    let mut seen: Vec<String> = Vec::new();
    let mut index: usize = 2;
    assert(seen_view(seen@) =~= Seq::<Seq<char>>::empty());
    loop
        invariant
            its == forms_view(items@),
            its.len() == items@.len(),
            2 <= index <= items@.len(),
            items@.len() >= 2,
            its[1] == FormView::Keyword(id@),
            spec_scene_header(its, rs@) == match scene_opts_from(
                its,
                rs@,
                OptState {
                    repeats,
                    explicit_repeats,
                    steps,
                    explicit_steps,
                    steps_of: opt_view(steps_of),
                    loop_by: loop_by_view(loop_by),
                    bars,
                    bar_steps,
                    bar_steps_of: opt_view(bar_steps_of),
                    next: opt_view(next),
                    seen: seen_view(seen@),
                    index: index as int,
                },
            ) {
                Err(e) => Err(e),
                Ok(st) => Ok((id@, st)),
            },
        ensures
            its == forms_view(items@),
            its.len() == items@.len(),
            2 <= index <= items@.len(),
            items@.len() >= 2,
            its[1] == FormView::Keyword(id@),
            spec_scene_header(its, rs@) == match scene_opts_from(
                its,
                rs@,
                OptState {
                    repeats,
                    explicit_repeats,
                    steps,
                    explicit_steps,
                    steps_of: opt_view(steps_of),
                    loop_by: loop_by_view(loop_by),
                    bars,
                    bar_steps,
                    bar_steps_of: opt_view(bar_steps_of),
                    next: opt_view(next),
                    seen: seen_view(seen@),
                    index: index as int,
                },
            ) {
                Err(e) => Err(e),
                Ok(st) => Ok((id@, st)),
            },
            index >= items@.len() || !(its[index as int] is Keyword),
        decreases items@.len() - index,
    {
        let ghost st0 = OptState {
            repeats,
            explicit_repeats,
            steps,
            explicit_steps,
            steps_of: opt_view(steps_of),
            loop_by: loop_by_view(loop_by),
            bars,
            bar_steps,
            bar_steps_of: opt_view(bar_steps_of),
            next: opt_view(next),
            seen: seen_view(seen@),
            index: index as int,
        };
        if index >= items.len() {
            break;
        }
        proof {
            lemma_forms_view_index(items@, index as int);
        }
        let key: &str = match &items[index] {
            Form::Keyword(k) => k.as_str(),
            _ => {
                break;
            },
        };
        let canon = scene_option_canonical_key(key);
        if seen_contains(&seen, canon) {
            let mut m = String::from_str("duplicate scene option ':");
            m.append(key);
            m.append("'");
            return Err(m);
        }
        let ghost seen0 = seen@;
        seen.push(String::from_str(canon));
        assert(seen_view(seen@) =~= seen_view(seen0).push(canon@));
        let has_value = index + 1 < items.len();
        if has_value {
            proof {
                lemma_forms_view_index(items@, index + 1);
            }
        }
        match scene_option(key) {
            SceneOption::Repeat => {
                if !has_value {
                    return Err(missing("repeat"));
                }
                repeats = usize_value(&items[index + 1], rs, "repeat")?;
                explicit_repeats = true;
                index = index + 2;
            },
            SceneOption::Loop => {
                if !has_value {
                    return Err(missing("loop"));
                }
                loop_true_value(&items[index + 1], rs)?;
                repeats = 0;
                explicit_repeats = true;
                index = index + 2;
            },
            SceneOption::Steps => {
                if !has_value {
                    return Err(missing("steps"));
                }
                steps = positive_usize_value(&items[index + 1], rs, "steps")?;
                explicit_steps = true;
                index = index + 2;
            },
            SceneOption::Bars => {
                if !has_value {
                    return Err(missing("bars"));
                }
                bars = Some(positive_usize_value(&items[index + 1], rs, "bars")?);
                explicit_steps = true;
                index = index + 2;
            },
            SceneOption::BarSteps => {
                if !has_value {
                    return Err(missing("bar-steps"));
                }
                bar_steps = Some(positive_usize_value(&items[index + 1], rs, "bar-steps")?);
                index = index + 2;
            },
            SceneOption::BarStepsOf => {
                bar_steps_of = Some(keyword_arg(items, index + 1, "scene :bar-steps-of")?);
                index = index + 2;
            },
            SceneOption::StepsOf => {
                steps_of = Some(keyword_arg(items, index + 1, "scene :steps-of")?);
                index = index + 2;
            },
            SceneOption::LoopBy => {
                let track = keyword_arg(items, index + 1, "scene :loop-by")?;
                if index + 2 >= items.len() {
                    return Err(String::from_str("scene :loop-by requires a count"));
                }
                proof {
                    lemma_forms_view_index(items@, index + 2);
                }
                let count = positive_usize_value(&items[index + 2], rs, "loop-by")?;
                loop_by = Some((track, count));
                index = index + 3;
            },
            SceneOption::Next => {
                next = Some(keyword_arg(items, index + 1, "scene :next")?);
                index = index + 2;
            },
            SceneOption::Unknown => {
                let mut m = String::from_str("unknown scene option ':");
                m.append(key);
                m.append("'");
                return Err(m);
            },
        }
    }
    proof {
        let stf = OptState {
            repeats,
            explicit_repeats,
            steps,
            explicit_steps,
            steps_of: opt_view(steps_of),
            loop_by: loop_by_view(loop_by),
            bars,
            bar_steps,
            bar_steps_of: opt_view(bar_steps_of),
            next: opt_view(next),
            seen: seen_view(seen@),
            index: index as int,
        };
        assert(scene_opts_from(its, rs@, stf) == Ok::<OptState, Seq<char>>(stf));
    }
    Ok(
        SceneHeader {
            id,
            length: SceneLengthOptions {
                steps,
                explicit_steps,
                steps_of,
                loop_by,
                bars,
                bar_steps,
                bar_steps_of,
            },
            repeats,
            explicit_repeats,
            next,
            body_start: index,
        },
    )
}

/// Whether no name occurs twice in a list of names.
pub open spec fn distinct_names(s: Seq<Seq<char>>) -> bool {
    forall|i: int, j: int| 0 <= i < j < s.len() ==> #[trigger] s[i] != #[trigger] s[j]
}

proof fn lemma_step_keeps_seen(items: Seq<FormView>, rs: Seq<Reading>, key: Seq<char>, st: OptState)
    ensures
        scene_option_step(items, rs, key, st) matches Ok(n) ==> n.seen == st.seen,
{
}

proof fn lemma_opts_distinct(items: Seq<FormView>, rs: Seq<Reading>, st: OptState)
    requires
        distinct_names(st.seen),
    ensures
        scene_opts_from(items, rs, st) matches Ok(fin) ==> distinct_names(fin.seen),
    decreases items.len() - st.index,
{
    let i = st.index;
    if !(i < 0 || i >= items.len() || !(items[i] is Keyword)) {
        let key = items[i]->Keyword_0;
        let canon = spec_scene_option_canonical_key(key);
        if !st.seen.contains(canon) {
            let st1 = OptState { seen: st.seen.push(canon), ..st };
            assert(distinct_names(st1.seen)) by {
                assert forall|a: int, b: int| 0 <= a < b < st1.seen.len() implies #[trigger] st1.seen[a]
                    != #[trigger] st1.seen[b] by {
                    if b == st.seen.len() {
                        assert(st1.seen[a] == st.seen[a]);
                    } else {
                        assert(st1.seen[a] == st.seen[a]);
                        assert(st1.seen[b] == st.seen[b]);
                    }
                }
            }
            lemma_step_keeps_seen(items, rs, key, st1);
            match scene_option_step(items, rs, key, st1) {
                Ok(next) => {
                    if next.index > i {
                        lemma_opts_distinct(items, rs, next);
                    }
                },
                Err(_) => {},
            }
        }
    }
}

/// A scene form gives each option at most once, under any of its
/// spellings: the canonical names of the options it reads are distinct.
pub proof fn lemma_scene_options_once(items: Seq<FormView>, rs: Seq<Reading>)
    ensures
        spec_scene_header(items, rs) matches Ok((id, st)) ==> distinct_names(st.seen),
{
    lemma_opts_distinct(items, rs, opt_start());
}

} // verus!

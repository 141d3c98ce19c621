use vstd::prelude::*;
use crate::forms::{Form, FormView, form_view, forms_view};
use crate::options::{expect_arity, lemma_forms_view_index, lemma_forms_view_len};
use crate::arith::decimal;
use crate::scenes::{
    apply_scene, chain_problem, lemma_scene_index, scene_index, unknown_scene_message, SceneLink,
};
use crate::text::str_eq;
use crate::values::{keyword_arg, spec_keyword_arg};

verus! {

/// The top-level forms of a program.
#[derive(Clone, Copy, Debug, PartialEq, Eq, Structural)]
pub enum FormHead {
    Bpm,
    Start,
    Stop,
    Scene,
    Sample,
    PlayScene,
    PlayNote,
    PostFx,
    Track,
    Clear,
    ClearAll,
    Mute,
    Unmute,
    Solo,
    Unsolo,
}

/// The top-level form a head symbol names, if any.
pub open spec fn spec_head_named(name: Seq<char>) -> Option<FormHead> {
    if name == "bpm"@ {
        Some(FormHead::Bpm)
    } else if name == "start!"@ {
        Some(FormHead::Start)
    } else if name == "stop!"@ {
        Some(FormHead::Stop)
    } else if name == "block"@ || name == "scene"@ {
        Some(FormHead::Scene)
    } else if name == "sample"@ {
        Some(FormHead::Sample)
    } else if name == "play-block"@ || name == "play-scene"@ || name == "cue"@ {
        Some(FormHead::PlayScene)
    } else if name == "play-note"@ {
        Some(FormHead::PlayNote)
    } else if name == "post-fx"@ || name == "master-fx"@ {
        Some(FormHead::PostFx)
    } else if name == "d"@ {
        Some(FormHead::Track)
    } else if name == "clear"@ {
        Some(FormHead::Clear)
    } else if name == "clear-all"@ {
        Some(FormHead::ClearAll)
    } else if name == "mute"@ {
        Some(FormHead::Mute)
    } else if name == "unmute"@ {
        Some(FormHead::Unmute)
    } else if name == "solo"@ {
        Some(FormHead::Solo)
    } else if name == "unsolo"@ {
        Some(FormHead::Unsolo)
    } else {
        None
    }
}

/// The four flag forms are told apart by their heads: `mute`, `unmute`,
/// `solo` and `unsolo` name the mute, unmute, solo and unsolo forms.
pub proof fn lemma_flag_heads()
    ensures
        spec_head_named("mute"@) == Some(FormHead::Mute),
        spec_head_named("unmute"@) == Some(FormHead::Unmute),
        spec_head_named("solo"@) == Some(FormHead::Solo),
        spec_head_named("unsolo"@) == Some(FormHead::Unsolo),
{
    assert(spec_head_named("mute"@) == Some(FormHead::Mute)) by {
        reveal_strlit("bpm");
        reveal_strlit("start!");
        reveal_strlit("stop!");
        reveal_strlit("block");
        reveal_strlit("scene");
        reveal_strlit("sample");
        reveal_strlit("play-block");
        reveal_strlit("play-scene");
        reveal_strlit("cue");
        reveal_strlit("play-note");
        reveal_strlit("post-fx");
        reveal_strlit("master-fx");
        reveal_strlit("d");
        reveal_strlit("clear");
        reveal_strlit("clear-all");
        reveal_strlit("mute");
        reveal_strlit("unmute");
        reveal_strlit("solo");
        reveal_strlit("unsolo");
        assert("mute"@.len() == 4);
        assert("mute"@[0] == 'm');
        assert("mute"@[1] == 'u');
        assert("mute"@[2] == 't');
        assert("mute"@[3] == 'e');
    }
    assert(spec_head_named("unmute"@) == Some(FormHead::Unmute)) by {
        reveal_strlit("bpm");
        reveal_strlit("start!");
        reveal_strlit("stop!");
        reveal_strlit("block");
        reveal_strlit("scene");
        reveal_strlit("sample");
        reveal_strlit("play-block");
        reveal_strlit("play-scene");
        reveal_strlit("cue");
        reveal_strlit("play-note");
        reveal_strlit("post-fx");
        reveal_strlit("master-fx");
        reveal_strlit("d");
        reveal_strlit("clear");
        reveal_strlit("clear-all");
        reveal_strlit("mute");
        reveal_strlit("unmute");
        reveal_strlit("solo");
        reveal_strlit("unsolo");
        assert("unmute"@.len() == 6);
        assert("unmute"@[0] == 'u');
        assert("unmute"@[1] == 'n');
        assert("unmute"@[2] == 'm');
        assert("unmute"@[3] == 'u');
        assert("unmute"@[4] == 't');
        assert("unmute"@[5] == 'e');
    }
    assert(spec_head_named("solo"@) == Some(FormHead::Solo)) by {
        reveal_strlit("bpm");
        reveal_strlit("start!");
        reveal_strlit("stop!");
        reveal_strlit("block");
        reveal_strlit("scene");
        reveal_strlit("sample");
        reveal_strlit("play-block");
        reveal_strlit("play-scene");
        reveal_strlit("cue");
        reveal_strlit("play-note");
        reveal_strlit("post-fx");
        reveal_strlit("master-fx");
        reveal_strlit("d");
        reveal_strlit("clear");
        reveal_strlit("clear-all");
        reveal_strlit("mute");
        reveal_strlit("unmute");
        reveal_strlit("solo");
        reveal_strlit("unsolo");
        assert("solo"@.len() == 4);
        assert("solo"@[0] == 's');
        assert("solo"@[1] == 'o');
        assert("solo"@[2] == 'l');
        assert("solo"@[3] == 'o');
    }
    assert(spec_head_named("unsolo"@) == Some(FormHead::Unsolo)) by {
        reveal_strlit("bpm");
        reveal_strlit("start!");
        reveal_strlit("stop!");
        reveal_strlit("block");
        reveal_strlit("scene");
        reveal_strlit("sample");
        reveal_strlit("play-block");
        reveal_strlit("play-scene");
        reveal_strlit("cue");
        reveal_strlit("play-note");
        reveal_strlit("post-fx");
        reveal_strlit("master-fx");
        reveal_strlit("d");
        reveal_strlit("clear");
        reveal_strlit("clear-all");
        reveal_strlit("mute");
        reveal_strlit("unmute");
        reveal_strlit("solo");
        reveal_strlit("unsolo");
        assert("unsolo"@.len() == 6);
        assert("unsolo"@[0] == 'u');
        assert("unsolo"@[1] == 'n');
        assert("unsolo"@[2] == 's');
        assert("unsolo"@[3] == 'o');
        assert("unsolo"@[4] == 'l');
        assert("unsolo"@[5] == 'o');
    }
}

fn head_named(name: &str) -> (r: Option<FormHead>)
    ensures
        r == spec_head_named(name@),
{
    if str_eq(name, "bpm") {
        Some(FormHead::Bpm)
    } else if str_eq(name, "start!") {
        Some(FormHead::Start)
    } else if str_eq(name, "stop!") {
        Some(FormHead::Stop)
    } else if str_eq(name, "block") || str_eq(name, "scene") {
        Some(FormHead::Scene)
    } else if str_eq(name, "sample") {
        Some(FormHead::Sample)
    } else if str_eq(name, "play-block") || str_eq(name, "play-scene") || str_eq(name, "cue") {
        Some(FormHead::PlayScene)
    } else if str_eq(name, "play-note") {
        Some(FormHead::PlayNote)
    } else if str_eq(name, "post-fx") || str_eq(name, "master-fx") {
        Some(FormHead::PostFx)
    } else if str_eq(name, "d") {
        Some(FormHead::Track)
    } else if str_eq(name, "clear") {
        Some(FormHead::Clear)
    } else if str_eq(name, "clear-all") {
        Some(FormHead::ClearAll)
    } else if str_eq(name, "mute") {
        Some(FormHead::Mute)
    } else if str_eq(name, "unmute") {
        Some(FormHead::Unmute)
    } else if str_eq(name, "solo") {
        Some(FormHead::Solo)
    } else if str_eq(name, "unsolo") {
        Some(FormHead::Unsolo)
    } else {
        None
    }
}

/// Which top-level form a form is, or why it is none.
pub open spec fn spec_form_head(f: FormView) -> Result<FormHead, Seq<char>> {
    match f {
        FormView::List(items) => if items.len() > 0 && items[0] is Symbol {
            match spec_head_named(items[0]->Symbol_0) {
                Some(h) => Ok(h),
                None => Err("unsupported form '"@ + items[0]->Symbol_0 + "'"@),
            }
        } else {
            Err("form must start with a symbol"@)
        },
        _ => Err("top-level value must be a form"@),
    }
}

/// Tells which top-level form a form is: a list headed by one of the
/// program's form names.
pub fn form_head(f: &Form) -> (r: Result<FormHead, String>)
    ensures
        match spec_form_head(form_view(*f)) {
            Ok(h) => r == Ok::<FormHead, String>(h),
            Err(m) => r matches Err(e) && e@ == m,
        },
{
    match f {
        Form::List(items) => {
            proof {
                lemma_forms_view_len(items@);
            }
            if items.len() == 0 {
                return Err(String::from_str("form must start with a symbol"));
            }
            proof {
                lemma_forms_view_index(items@, 0);
            }
            match &items[0] {
                Form::Symbol(name) => match head_named(name.as_str()) {
                    Some(h) => Ok(h),
                    None => {
                        let mut m = String::from_str("unsupported form '");
                        m.append(name.as_str());
                        m.append("'");
                        Err(m)
                    },
                },
                _ => Err(String::from_str("form must start with a symbol")),
            }
        },
        _ => Err(String::from_str("top-level value must be a form")),
    }
}

/// What `(start!)` decides: it takes no arguments, and starts only when
/// there are top-level tracks.
pub open spec fn spec_start_check(n_items: nat, has_tracks: bool, has_scenes: bool) -> Result<
    (),
    Seq<char>,
> {
    if n_items != 1 {
        Err("start!"@ + " expects no arguments"@)
    } else if !has_tracks {
        if !has_scenes {
            Err("start! requires at least one top-level track"@)
        } else {
            Err("start! only starts top-level tracks; use (play-scene :scene-name) for scenes"@)
        }
    } else {
        Ok(())
    }
}

/// Checks a `(start!)` form against what the program has defined.
pub fn start_check(items: &[Form], has_tracks: bool, has_scenes: bool) -> (r: Result<(), String>)
    ensures
        match spec_start_check(items@.len(), has_tracks, has_scenes) {
            Ok(_) => r is Ok,
            Err(m) => r matches Err(e) && e@ == m,
        },
{
    expect_arity(items, "start!", 1)?;
    if !has_tracks {
        if !has_scenes {
            return Err(String::from_str("start! requires at least one top-level track"));
        }
        return Err(
            String::from_str(
                "start! only starts top-level tracks; use (play-scene :scene-name) for scenes",
            ),
        );
    }
    Ok(())
}

/// The index of the first track id equal to `id`, or -1.
pub open spec fn track_id_index(ids: Seq<String>, id: Seq<char>, i: int) -> int
    decreases ids.len() - i,
{
    if i < 0 || i >= ids.len() {
        -1
    } else if ids[i]@ == id {
        i
    } else {
        track_id_index(ids, id, i + 1)
    }
}

pub proof fn lemma_track_id_index(ids: Seq<String>, id: Seq<char>, i: int)
    requires
        0 <= i <= ids.len(),
    ensures
        track_id_index(ids, id, i) == -1 || (i <= track_id_index(ids, id, i) < ids.len()
            && ids[track_id_index(ids, id, i)]@ == id),
    decreases ids.len() - i,
{
    if i < ids.len() && ids[i]@ != id {
        lemma_track_id_index(ids, id, i + 1);
    }
}

/// The track that `(mute :id)`, `(unmute :id)`, `(solo :id)`, `(unsolo
/// :id)` or `(clear :id)` names: exactly one keyword argument, naming a
/// defined track; its index among `ids`.
pub open spec fn spec_track_target(items: Seq<FormView>, form: Seq<char>, ids: Seq<String>) -> Result<
    int,
    Seq<char>,
> {
    if items.len() != 2 {
        Err(form + " expects exactly "@ + decimal(1) + " argument"@)
    } else {
        match spec_keyword_arg(items, 1, form) {
            Err(e) => Err(e),
            Ok(id) => if track_id_index(ids, id, 0) < 0 {
                Err("unknown track ':"@ + id + "'"@)
            } else {
                Ok(track_id_index(ids, id, 0))
            },
        }
    }
}

/// Finds the track a track command names (see `spec_track_target`).
pub fn track_target(items: &[Form], form: &str, ids: &[String]) -> (r: Result<usize, String>)
    ensures
        match spec_track_target(forms_view(items@), form@, ids@) {
            Ok(i) => 0 <= i < ids@.len() && r == Ok::<usize, String>(i as usize),
            Err(m) => r matches Err(e) && e@ == m,
        },
{
    proof {
        lemma_forms_view_len(items@);
    }
    expect_arity(items, form, 2)?;
    let id = keyword_arg(items, 1, form)?;
    proof {
        lemma_track_id_index(ids@, id@, 0);
    }
    let mut i: usize = 0;
    while i < ids.len()
        invariant
            i <= ids@.len(),
            items@.len() == 2,
            forms_view(items@).len() == 2,
            spec_keyword_arg(forms_view(items@), 1, form@) == Ok::<Seq<char>, Seq<char>>(id@),
            track_id_index(ids@, id@, 0) == track_id_index(ids@, id@, i as int),
        decreases ids@.len() - i,
    {
        if str_eq(ids[i].as_str(), id.as_str()) {
            assert(track_id_index(ids@, id@, i as int) == i);
            return Ok(i);
        }
        i = i + 1;
    }
    let mut m = String::from_str("unknown track ':");
    m.append(id.as_str());
    m.append("'");
    Err(m)
}

/// What cueing a scene from a `(play-scene :id)` form gives: one keyword
/// argument, then the scene must exist with a sound `:next` chain; the
/// index of the scene to load.
pub open spec fn spec_play_scene(items: Seq<FormView>, form: Seq<char>, g: Seq<SceneLink>) -> Result<
    int,
    Seq<char>,
> {
    if items.len() > 2 {
        Err(form + " expects exactly one scene keyword"@)
    } else {
        match spec_keyword_arg(items, 1, form) {
            Err(e) => Err(e),
            Ok(id) => if scene_index(g, id) < 0 {
                Err(unknown_scene_message(id))
            } else {
                match chain_problem(g, id, g.len() + 1) {
                    Some(m) => Err(m),
                    None => Ok(scene_index(g, id)),
                }
            },
        }
    }
}

/// Cues the scene a `play-scene` (or `play-block`, `cue`) form names.
pub fn play_scene(scenes: &[SceneLink], items: &[Form], form: &str) -> (r: Result<usize, String>)
    ensures
        match spec_play_scene(forms_view(items@), form@, scenes@) {
            Ok(i) => 0 <= i < scenes@.len() && r == Ok::<usize, String>(i as usize),
            Err(m) => r matches Err(e) && e@ == m,
        },
{
    proof {
        lemma_forms_view_len(items@);
    }
    if items.len() > 2 {
        let mut m = String::from_str(form);
        m.append(" expects exactly one scene keyword");
        return Err(m);
    }
    let id = keyword_arg(items, 1, form)?;
    proof {
        lemma_scene_index(scenes@, id@);
    }
    apply_scene(scenes, id.as_str())
}

} // verus!

use vstd::prelude::*;
use crate::forms::{Form, FormView, forms_view};
use crate::language::{
    spec_track_param_canonical_key, spec_unary_track_flag, track_param_canonical_key,
    unary_track_flag,
};
use crate::options::{is_null, lemma_forms_view_index, lemma_forms_view_len, null_value};
use crate::scene_options::seen_view;
use crate::text::str_eq;

verus! {

/// The parameters a track form (`d`) knows, each with its spellings.
#[derive(Clone, Copy, Debug, PartialEq, Eq, Structural)]
pub enum TrackParam {
    Src,
    Note,
    Gate,
    Detune,
    Phase,
    PulseWidth,
    Morph,
    Gain,
    Unison,
    UnisonDetune,
    UnisonSpread,
    FmRatio,
    FmDepth,
    Harmonics,
    SamplePath,
    SampleData,
    Every,
    Offset,
    Drunk,
    Off,
    Choke,
    Amp,
    Dur,
    Fx,
    Unknown,
}

/// The parameter a track parameter name stands for.
pub open spec fn spec_track_param(key: Seq<char>) -> TrackParam {
    if key == "src"@ {
        TrackParam::Src
    } else if key == "note"@ {
        TrackParam::Note
    } else if key == "gate"@ {
        TrackParam::Gate
    } else if key == "detune"@ || key == "detune-cents"@ {
        TrackParam::Detune
    } else if key == "phase"@ {
        TrackParam::Phase
    } else if key == "pulse-width"@ || key == "pulse_width"@ || key == "pw"@ {
        TrackParam::PulseWidth
    } else if key == "morph"@ || key == "morph-pos"@ || key == "morph_pos"@ {
        TrackParam::Morph
    } else if key == "gain"@ {
        TrackParam::Gain
    } else if key == "unison"@ {
        TrackParam::Unison
    } else if key == "unison-detune"@ || key == "unison_detune"@ {
        TrackParam::UnisonDetune
    } else if key == "unison-spread"@ || key == "unison_spread"@ || key == "spread"@ {
        TrackParam::UnisonSpread
    } else if key == "fm-ratio"@ || key == "fm_ratio"@ {
        TrackParam::FmRatio
    } else if key == "fm-depth"@ || key == "fm_depth"@ {
        TrackParam::FmDepth
    } else if key == "harmonics"@ {
        TrackParam::Harmonics
    } else if key == "sample"@ || key == "sample-path"@ || key == "sample_path"@ {
        TrackParam::SamplePath
    } else if key == "sample-data"@ || key == "sample_data"@ {
        TrackParam::SampleData
    } else if key == "every"@ {
        TrackParam::Every
    } else if key == "offset"@ {
        TrackParam::Offset
    } else if key == "drunk"@ {
        TrackParam::Drunk
    } else if key == "off"@ {
        TrackParam::Off
    } else if key == "choke"@ || key == "cut"@ {
        TrackParam::Choke
    } else if key == "amp"@ {
        TrackParam::Amp
    } else if key == "dur"@ {
        TrackParam::Dur
    } else if key == "fx"@ {
        TrackParam::Fx
    } else {
        TrackParam::Unknown
    }
}

/// Classifies a track parameter name.
pub fn track_param(key: &str) -> (r: TrackParam)
    ensures
        r == spec_track_param(key@),
{
    if str_eq(key, "src") {
        TrackParam::Src
    } else if str_eq(key, "note") {
        TrackParam::Note
    } else if str_eq(key, "gate") {
        TrackParam::Gate
    } else if str_eq(key, "detune") || str_eq(key, "detune-cents") {
        TrackParam::Detune
    } else if str_eq(key, "phase") {
        TrackParam::Phase
    } else if str_eq(key, "pulse-width") || str_eq(key, "pulse_width") || str_eq(key, "pw") {
        TrackParam::PulseWidth
    } else if str_eq(key, "morph") || str_eq(key, "morph-pos") || str_eq(key, "morph_pos") {
        TrackParam::Morph
    } else if str_eq(key, "gain") {
        TrackParam::Gain
    } else if str_eq(key, "unison") {
        TrackParam::Unison
    } else if str_eq(key, "unison-detune") || str_eq(key, "unison_detune") {
        TrackParam::UnisonDetune
    } else if str_eq(key, "unison-spread") || str_eq(key, "unison_spread") || str_eq(key, "spread") {
        TrackParam::UnisonSpread
    } else if str_eq(key, "fm-ratio") || str_eq(key, "fm_ratio") {
        TrackParam::FmRatio
    } else if str_eq(key, "fm-depth") || str_eq(key, "fm_depth") {
        TrackParam::FmDepth
    } else if str_eq(key, "harmonics") {
        TrackParam::Harmonics
    } else if str_eq(key, "sample") || str_eq(key, "sample-path") || str_eq(key, "sample_path") {
        TrackParam::SamplePath
    } else if str_eq(key, "sample-data") || str_eq(key, "sample_data") {
        TrackParam::SampleData
    } else if str_eq(key, "every") {
        TrackParam::Every
    } else if str_eq(key, "offset") {
        TrackParam::Offset
    } else if str_eq(key, "drunk") {
        TrackParam::Drunk
    } else if str_eq(key, "off") {
        TrackParam::Off
    } else if str_eq(key, "choke") || str_eq(key, "cut") {
        TrackParam::Choke
    } else if str_eq(key, "amp") {
        TrackParam::Amp
    } else if str_eq(key, "dur") {
        TrackParam::Dur
    } else if str_eq(key, "fx") {
        TrackParam::Fx
    } else {
        TrackParam::Unknown
    }
}

/// One thing a track form sets: a flag written without a value (`:off`
/// mutes, `:choke`/`:cut` chokes), or a parameter with the index of its
/// value among the form's items.
#[derive(Clone, Copy, Debug, PartialEq, Eq, Structural)]
pub enum TrackEntry {
    Mute,
    Choke,
    Param(TrackParam, usize),
}

/// The entry of a flag written without a value.
pub open spec fn flag_entry(key: Seq<char>) -> Seq<TrackEntry> {
    if key == "off"@ {
        seq![TrackEntry::Mute]
    } else if key == "choke"@ || key == "cut"@ {
        seq![TrackEntry::Choke]
    } else {
        Seq::empty()
    }
}

/// `e` before the entries of `r`, keeping the error of `r`.
pub open spec fn prepend_entries(e: Seq<TrackEntry>, r: (Seq<TrackEntry>, Option<Seq<char>>)) -> (
    Seq<TrackEntry>,
    Option<Seq<char>>,
) {
    (e + r.0, r.1)
}

/// The entries of a track form from item `i` on, `seen` holding the
/// canonical names met so far, and the error that stops the reading, if
/// any: an item that is no keyword, a parameter given twice under any of
/// its spellings, a parameter without its value, or an unknown parameter.
/// A flag that is last or followed by a keyword takes no value; a `nil` or
/// `null` value leaves its parameter unset, whatever its name.
pub open spec fn track_scan_from(items: Seq<FormView>, i: int, seen: Seq<Seq<char>>) -> (
    Seq<TrackEntry>,
    Option<Seq<char>>,
)
    decreases items.len() - i,
{
    if i < 0 || i >= items.len() {
        (Seq::empty(), None)
    } else if !(items[i] is Keyword) {
        (Seq::empty(), Some("track parameters must be keyword/value pairs"@))
    } else {
        let key = items[i]->Keyword_0;
        let canon = spec_track_param_canonical_key(key);
        if seen.contains(canon) {
            (Seq::empty(), Some("duplicate track parameter ':"@ + key + "'"@))
        } else if spec_unary_track_flag(key) && (i + 1 >= items.len() || items[i + 1] is Keyword) {
            prepend_entries(flag_entry(key), track_scan_from(items, i + 1, seen.push(canon)))
        } else if i + 1 >= items.len() {
            (Seq::empty(), Some("track parameter ':"@ + key + "' requires a value"@))
        } else if is_null(items[i + 1]) {
            track_scan_from(items, i + 2, seen.push(canon))
        } else if spec_track_param(key) == TrackParam::Unknown {
            (Seq::empty(), Some("unknown track parameter ':"@ + key + "'"@))
        } else {
            prepend_entries(
                seq![TrackEntry::Param(spec_track_param(key), (i + 1) as usize)],
                track_scan_from(items, i + 2, seen.push(canon)),
            )
        }
    }
}

/// The id of a track form, its entries, and the error that stops it.
pub open spec fn spec_track_scan(items: Seq<FormView>) -> Result<
    (Seq<char>, Seq<TrackEntry>, Option<Seq<char>>),
    Seq<char>,
> {
    if items.len() < 2 {
        Err("d requires a track id"@)
    } else if !(items[1] is Keyword) {
        Err("d track id must be a keyword"@)
    } else {
        let r = track_scan_from(items, 2, Seq::empty());
        Ok((items[1]->Keyword_0, r.0, r.1))
    }
}

/// What the head of a track form gives: the track's id, what it sets in
/// order, and the error that ends the form early, if any. A track form
/// fails with the first error among its entries' values, read in order,
/// and then `stop`.
pub struct TrackScan {
    pub id: String,
    pub entries: Vec<TrackEntry>,
    pub stop: Option<String>,
}

pub(crate) fn seen_has(seen: &Vec<String>, canon: &str) -> (r: bool)
    ensures
        r == seen_view(seen@).contains(canon@),
{
    let mut i: usize = 0;
    while i < seen.len()
        invariant
            i <= seen@.len(),
            forall|j: int| 0 <= j < i ==> #[trigger] seen@[j]@ != canon@,
        decreases seen@.len() - i,
    {
        if str_eq(seen[i].as_str(), canon) {
            assert(seen_view(seen@)[i as int] == canon@);
            return true;
        }
        i = i + 1;
    }
    assert forall|j: int| 0 <= j < seen@.len() implies #[trigger] seen_view(seen@)[j] != canon@ by {
        assert(seen_view(seen@)[j] == seen@[j]@);
    }
    false
}

/// Reads the id and the parameters of a track form (`(d :id :key value
/// ..)`), in order (see `track_scan_from`).
pub fn track_scan(items: &[Form]) -> (r: Result<TrackScan, String>)
    ensures
        match spec_track_scan(forms_view(items@)) {
            Ok((id, es, stop)) => r matches Ok(s) && s.id@ == id && s.entries@ == es && match s.stop {
                Some(m) => stop == Some(m@),
                None => stop is None,
            },
            Err(m) => r matches Err(e) && e@ == m,
        },
{
    let ghost its = forms_view(items@);
    proof {
        lemma_forms_view_len(items@);
    }
    if items.len() < 2 {
        return Err(String::from_str("d requires a track id"));
    }
    proof {
        lemma_forms_view_index(items@, 1);
    }
    let id = match &items[1] {
        Form::Keyword(k) => k.clone(),
        _ => {
            return Err(String::from_str("d track id must be a keyword"));
        },
    };
    let mut entries: Vec<TrackEntry> = Vec::new();
    let mut seen: Vec<String> = Vec::new();
    let mut index: usize = 2;
    let ghost whole = track_scan_from(its, 2, Seq::empty());
    assert(seen_view(seen@) =~= Seq::<Seq<char>>::empty());
    assert(prepend_entries(entries@, whole) =~= whole);
    while index < items.len()
        invariant
            its == forms_view(items@),
            its.len() == items@.len(),
            2 <= index,
            items@.len() >= 2,
            its[1] == FormView::Keyword(id@),
            whole == track_scan_from(its, 2, Seq::empty()),
            whole == prepend_entries(entries@, track_scan_from(its, index as int, seen_view(seen@))),
        decreases items@.len() - index,
    {
        let ghost rest = track_scan_from(its, index as int, seen_view(seen@));
        proof {
            lemma_forms_view_index(items@, index as int);
        }
        let key: &str = match &items[index] {
            Form::Keyword(k) => k.as_str(),
            _ => {
                proof {
                    assert(entries@ + Seq::<TrackEntry>::empty() =~= entries@);
                }
                return Ok(
                    TrackScan {
                        id,
                        entries,
                        stop: Some(String::from_str("track parameters must be keyword/value pairs")),
                    },
                );
            },
        };
        let canon = track_param_canonical_key(key);
        if seen_has(&seen, canon) {
            let mut m = String::from_str("duplicate track parameter ':");
            m.append(key);
            m.append("'");
            proof {
                assert(entries@ + Seq::<TrackEntry>::empty() =~= entries@);
            }
            return Ok(TrackScan { id, entries, stop: Some(m) });
        }
        let ghost seen0 = seen@;
        seen.push(String::from_str(canon));
        assert(seen_view(seen@) =~= seen_view(seen0).push(canon@));
        let next_is_keyword = if index + 1 < items.len() {
            proof {
                lemma_forms_view_index(items@, index + 1);
            }
            match &items[index + 1] {
                Form::Keyword(_) => true,
                _ => false,
            }
        } else {
            false
        };
        if unary_track_flag(key) && (index + 1 >= items.len() || next_is_keyword) {
            let ghost before = entries@;
            if str_eq(key, "off") {
                entries.push(TrackEntry::Mute);
            } else if str_eq(key, "choke") || str_eq(key, "cut") {
                entries.push(TrackEntry::Choke);
            }
            proof {
                assert(entries@ =~= before + flag_entry(its[index as int]->Keyword_0));
                let r2 = track_scan_from(its, index + 1, seen_view(seen@));
                assert(before + (flag_entry(its[index as int]->Keyword_0) + r2.0) =~= entries@ + r2.0);
            }
            index = index + 1;
        } else {
            if index + 1 >= items.len() {
                let mut m = String::from_str("track parameter ':");
                m.append(key);
                m.append("' requires a value");
                proof {
                assert(entries@ + Seq::<TrackEntry>::empty() =~= entries@);
            }
            return Ok(TrackScan { id, entries, stop: Some(m) });
            }
            if null_value(&items[index + 1]) {
                index = index + 2;
            } else {
                let p = track_param(key);
                if p == TrackParam::Unknown {
                    let mut m = String::from_str("unknown track parameter ':");
                    m.append(key);
                    m.append("'");
                    proof {
                assert(entries@ + Seq::<TrackEntry>::empty() =~= entries@);
            }
            return Ok(TrackScan { id, entries, stop: Some(m) });
                }
                let ghost before = entries@;
                entries.push(TrackEntry::Param(p, index + 1));
                proof {
                    let r2 = track_scan_from(its, index + 2, seen_view(seen@));
                    assert(before + (seq![TrackEntry::Param(p, (index + 1) as usize)] + r2.0)
                        =~= entries@ + r2.0);
                }
                index = index + 2;
            }
        }
    }
    proof {
        assert(entries@ + Seq::<TrackEntry>::empty() =~= entries@);
    }
    Ok(TrackScan { id, entries, stop: None })
}

/// The canonical name of the parameter that an entry sets, read from the
/// keyword before its value.
pub open spec fn param_key(items: Seq<FormView>, e: TrackEntry) -> Option<Seq<char>> {
    match e {
        TrackEntry::Param(_, k) => if 1 <= k <= items.len() && items[k - 1] is Keyword {
            Some(spec_track_param_canonical_key(items[k - 1]->Keyword_0))
        } else {
            None
        },
        _ => None,
    }
}

/// Whether an entry sets a parameter whose canonical name is not in
/// `seen`.
pub open spec fn key_fresh(items: Seq<FormView>, e: TrackEntry, seen: Seq<Seq<char>>) -> bool {
    param_key(items, e) matches Some(c) && !seen.contains(c)
}

proof fn lemma_scan_keys(items: Seq<FormView>, i: int, seen: Seq<Seq<char>>)
    requires
        0 <= i,
        items.len() <= usize::MAX,
    ensures
        ({
            let es = track_scan_from(items, i, seen).0;
            &&& forall|a: int|
                0 <= a < es.len() && #[trigger] es[a] is Param ==> key_fresh(items, es[a], seen)
            &&& forall|a: int, b: int|
                0 <= a < b < es.len() && #[trigger] es[a] is Param && #[trigger] es[b] is Param
                    ==> param_key(items, es[a]) != param_key(items, es[b])
        }),
    decreases items.len() - i,
{
    if i < items.len() && items[i] is Keyword {
        let key = items[i]->Keyword_0;
        let canon = spec_track_param_canonical_key(key);
        if !seen.contains(canon) {
            let seen2 = seen.push(canon);
            if spec_unary_track_flag(key) && (i + 1 >= items.len() || items[i + 1] is Keyword) {
                lemma_scan_keys(items, i + 1, seen2);
                let rest = track_scan_from(items, i + 1, seen2).0;
                let es = track_scan_from(items, i, seen).0;
                let fe = flag_entry(key);
                assert(es == fe + rest);
                assert forall|a: int| 0 <= a < es.len() && #[trigger] es[a] is Param implies key_fresh(items, es[a], seen) by {
                    assert(a >= fe.len());
                    assert(es[a] == rest[a - fe.len()]);
                    let c = param_key(items, es[a])->Some_0;
                    if seen.contains(c) {
                        let j = choose|j: int| 0 <= j < seen.len() && seen[j] == c;
                        assert(seen2[j] == c);
                    }
                }
                assert forall|a: int, b: int|
                    0 <= a < b < es.len() && #[trigger] es[a] is Param && #[trigger] es[b] is Param
                        implies param_key(items, es[a]) != param_key(items, es[b]) by {
                    assert(a >= fe.len());
                    assert(es[a] == rest[a - fe.len()]);
                    assert(es[b] == rest[b - fe.len()]);
                }
            } else if i + 1 < items.len() && is_null(items[i + 1]) {
                lemma_scan_keys(items, i + 2, seen2);
                let es = track_scan_from(items, i + 2, seen2).0;
                assert forall|a: int| 0 <= a < es.len() && #[trigger] es[a] is Param implies key_fresh(items, es[a], seen) by {
                    let c = param_key(items, es[a])->Some_0;
                    if seen.contains(c) {
                        let j = choose|j: int| 0 <= j < seen.len() && seen[j] == c;
                        assert(seen2[j] == c);
                    }
                }
            } else if i + 1 < items.len() && spec_track_param(key) != TrackParam::Unknown {
                lemma_scan_keys(items, i + 2, seen2);
                let rest = track_scan_from(items, i + 2, seen2).0;
                let e = TrackEntry::Param(spec_track_param(key), (i + 1) as usize);
                let es = track_scan_from(items, i, seen).0;
                assert(es == seq![e] + rest);
                assert(param_key(items, e) == Some(canon));
                assert forall|a: int| 0 <= a < es.len() && #[trigger] es[a] is Param implies key_fresh(items, es[a], seen) by {
                    if a > 0 {
                        assert(es[a] == rest[a - 1]);
                        let c = param_key(items, es[a])->Some_0;
                        if seen.contains(c) {
                            let j = choose|j: int| 0 <= j < seen.len() && seen[j] == c;
                            assert(seen2[j] == c);
                        }
                    }
                }
                assert forall|a: int, b: int|
                    0 <= a < b < es.len() && #[trigger] es[a] is Param && #[trigger] es[b] is Param
                        implies param_key(items, es[a]) != param_key(items, es[b]) by {
                    assert(es[b] == rest[b - 1]);
                    if a == 0 {
                        assert(seen2[seen.len() as int] == canon);
                    } else {
                        assert(es[a] == rest[a - 1]);
                    }
                }
            }
        }
    }
}

/// A track form sets each parameter at most once: no two of its entries
/// set the same parameter, under any of its spellings.
pub proof fn lemma_track_params_set_once(items: Seq<FormView>)
    requires
        items.len() <= usize::MAX,
        spec_track_scan(items) is Ok,
    ensures
        ({
            let es = spec_track_scan(items)->Ok_0.1;
            forall|a: int, b: int|
                0 <= a < b < es.len() && #[trigger] es[a] is Param && #[trigger] es[b] is Param
                    ==> param_key(items, es[a]) is Some && param_key(items, es[a]) != param_key(
                    items,
                    es[b],
                )
        }),
{
    lemma_scan_keys(items, 2, Seq::empty());
}

} // verus!

use vstd::prelude::*;
use crate::effect_args::{effect_args_from, effect_args_scan};
use crate::forms::{Form, FormView, form_view, forms_view};
use crate::gate_forms::{Reading, gate_subdivision_pattern, spec_gate_pattern, widths_fit};
use crate::gates::bool_grid;
use crate::language::{live_effect_param_keys, spec_live_effect_param_keys};
use crate::options::{all_effect_params_null, all_null_scan, lemma_forms_view_index, lemma_forms_view_len};
use crate::text::str_eq;

verus! {

/// What a track's effect form asks for, as plain values.
pub ghost enum EffectPlanView {
    Skipped,
    Whole,
    On { gate: Option<Seq<Seq<bool>>>, effect: int },
    RefusedAfter { effect: int, error: Seq<char> },
}

/// What a track's effect form asks for once its shape is checked.
pub enum TrackEffectPlan {
    /// Every parameter is `nil`: the track has no such effect.
    Skipped,
    /// The whole form is one effect with no gate.
    Whole,
    /// An `on` form: the effect form at index `effect` of it, opened and
    /// closed by gate rows, when a `:gate` gives them.
    On { gate: Option<Vec<Vec<bool>>>, effect: usize },
    /// An `on` form whose effect form at index `effect` is read first; when
    /// that reading succeeds the form still fails with `error`.
    RefusedAfter { effect: usize, error: String },
}

impl TrackEffectPlan {
    pub open spec fn view(&self) -> EffectPlanView {
        match self {
            TrackEffectPlan::Skipped => EffectPlanView::Skipped,
            TrackEffectPlan::Whole => EffectPlanView::Whole,
            TrackEffectPlan::On { gate, effect } => EffectPlanView::On {
                gate: match gate {
                    Some(g) => Some(bool_grid(g@)),
                    None => None,
                },
                effect: *effect as int,
            },
            TrackEffectPlan::RefusedAfter { effect, error } => EffectPlanView::RefusedAfter {
                effect: *effect as int,
                error: error@,
            },
        }
    }
}

/// The error of an effect form whose parameters are all `nil`: what the
/// reading of its parameters stops at, when the track-effect table knows
/// its name.
pub open spec fn null_effect_stop(es: Seq<FormView>) -> Option<Seq<char>> {
    if es.len() > 0 && es[0] is Symbol {
        match spec_live_effect_param_keys(es[0]->Symbol_0) {
            Some(keys) => effect_args_from(es, es[0]->Symbol_0, keys, 1, Seq::empty()).1,
            None => None,
        }
    } else {
        None
    }
}

/// Refusing an `on` form with `m`: after the effect form already read, if
/// any.
pub open spec fn refused_after(effect: Option<Option<int>>, m: Seq<char>) -> Result<EffectPlanView, Seq<char>> {
    match effect {
        Some(Some(e)) => Ok(EffectPlanView::RefusedAfter { effect: e, error: m }),
        _ => Err(m),
    }
}

/// The message for an item of an `on` form that is neither `:gate` nor an
/// effect form.
pub open spec fn on_shape_message() -> Seq<char> {
    "on expects :gate PATTERN followed by one effect form"@
}

/// Reading an `on` form from index `i` on, with any gate rows and the
/// effect form met so far (`Some(None)` for one whose parameters are all
/// `nil`).
pub open spec fn on_scan(
    items: Seq<FormView>,
    rs: Seq<Reading>,
    i: int,
    gate: Option<Seq<Seq<bool>>>,
    effect: Option<Option<int>>,
) -> Result<EffectPlanView, Seq<char>>
    decreases items.len() - i,
{
    if i < 1 || i >= items.len() {
        match effect {
            Some(Some(e)) => Ok(EffectPlanView::On { gate, effect: e }),
            Some(None) => Ok(EffectPlanView::Skipped),
            None => Err("on requires an effect form"@),
        }
    } else {
        match items[i] {
            FormView::Keyword(k) => if k != "gate"@ {
                refused_after(effect, on_shape_message())
            } else if gate is Some {
                refused_after(effect, "on expects only one :gate pattern"@)
            } else if i + 1 >= items.len() {
                refused_after(effect, "on :gate requires a gate pattern"@)
            } else {
                match spec_gate_pattern(items[i + 1], rs) {
                    Err(m) => refused_after(effect, m),
                    Ok(p) => on_scan(items, rs, i + 2, Some(p.gates), effect),
                }
            },
            FormView::List(es) => if effect is Some {
                refused_after(effect, "on expects exactly one effect form"@)
            } else if all_null_scan(es, 1, false) {
                match null_effect_stop(es) {
                    Some(m) => Err(m),
                    None => on_scan(items, rs, i + 1, gate, Some(None)),
                }
            } else {
                on_scan(items, rs, i + 1, gate, Some(Some(i)))
            },
            _ => refused_after(effect, on_shape_message()),
        }
    }
}

/// What a track's effect form asks for. A form that does not start with a
/// symbol, or whose parameters are not all `nil`, is one effect. An `on`
/// form takes at most one `:gate` pattern and exactly one effect form.
pub open spec fn spec_track_effect_plan(f: FormView, rs: Seq<Reading>) -> Result<EffectPlanView, Seq<char>> {
    match f {
        FormView::List(items) => if items.len() == 0 || !(items[0] is Symbol) {
            Ok(EffectPlanView::Whole)
        } else if items[0]->Symbol_0 != "on"@ {
            if all_null_scan(items, 1, false) {
                match null_effect_stop(items) {
                    Some(m) => Err(m),
                    None => Ok(EffectPlanView::Skipped),
                }
            } else {
                Ok(EffectPlanView::Whole)
            }
        } else {
            on_scan(items, rs, 1, None, None)
        },
        _ => Err("effect must be a form"@),
    }
}

/// Every value after a `:gate` inside the form is a pattern narrow enough
/// to read (see `widths_fit`).
pub open spec fn gate_values_fit(f: FormView, rs: Seq<Reading>) -> bool {
    f matches FormView::List(items) ==> forall|i: int|
        1 <= i && i + 1 < items.len() && items[i] == FormView::Keyword("gate"@) ==> #[trigger] widths_fit(
            items[i + 1],
            rs,
        )
}

/// The error of an effect form whose parameters are all `nil` (see
/// `null_effect_stop`).
fn null_effect_check(es: &Vec<Form>) -> (r: Option<String>)
    ensures
        match null_effect_stop(forms_view(es@)) {
            Some(m) => r matches Some(e) && e@ == m,
            None => r is None,
        },
{
    proof {
        lemma_forms_view_len(es@);
    }
    if es.len() == 0 {
        return None;
    }
    proof {
        lemma_forms_view_index(es@, 0);
    }
    match &es[0] {
        Form::Symbol(name) => match live_effect_param_keys(name.as_str()) {
            Some(keys) => effect_args_scan(es.as_slice(), name.as_str(), keys.as_slice()).stop,
            None => None,
        },
        _ => None,
    }
}

/// Gate rows read so far, as plain values.
pub open spec fn gate_view(g: Option<Vec<Vec<bool>>>) -> Option<Seq<Seq<bool>>> {
    match g {
        Some(g) => Some(bool_grid(g@)),
        None => None,
    }
}

/// The effect form met so far, as plain values.
pub open spec fn effect_view(e: Option<Option<usize>>) -> Option<Option<int>> {
    match e {
        Some(Some(i)) => Some(Some(i as int)),
        Some(None) => Some(None),
        None => None,
    }
}

/// Refuses an `on` form with `m` (see `refused_after`).
fn refuse(effect: Option<Option<usize>>, m: String) -> (r: Result<TrackEffectPlan, String>)
    ensures
        match refused_after(effect_view(effect), m@) {
            Ok(p) => r matches Ok(x) && x.view() == p,
            Err(e) => r matches Err(x) && x@ == e,
        },
{
    match effect {
        Some(Some(e)) => Ok(TrackEffectPlan::RefusedAfter { effect: e, error: m }),
        _ => Err(m),
    }
}

/// Checks the shape of a track's effect form (see `spec_track_effect_plan`):
/// what it asks for, or the error that refuses it.
pub fn track_effect_plan(f: &Form, rs: &[Reading]) -> (r: Result<TrackEffectPlan, String>)
    requires
        gate_values_fit(form_view(*f), rs@),
    ensures
        match spec_track_effect_plan(form_view(*f), rs@) {
            Ok(p) => r matches Ok(x) && x.view() == p,
            Err(m) => r matches Err(e) && e@ == m,
        },
{
    let items = match f {
        Form::List(items) => items,
        _ => {
            return Err(String::from_str("effect must be a form"));
        },
    };
    let ghost its = forms_view(items@);
    proof {
        lemma_forms_view_len(items@);
    }
    if items.len() == 0 {
        return Ok(TrackEffectPlan::Whole);
    }
    proof {
        lemma_forms_view_index(items@, 0);
    }
    let name = match &items[0] {
        Form::Symbol(n) => n,
        _ => {
            return Ok(TrackEffectPlan::Whole);
        },
    };
    if !str_eq(name.as_str(), "on") {
        if all_effect_params_null(items.as_slice()) {
            return match null_effect_check(items) {
                Some(e) => Err(e),
                None => Ok(TrackEffectPlan::Skipped),
            };
        }
        return Ok(TrackEffectPlan::Whole);
    }
    let ghost whole = on_scan(its, rs@, 1, None, None);
    assert(whole == spec_track_effect_plan(form_view(*f), rs@));
    let mut gate: Option<Vec<Vec<bool>>> = None;
    let mut effect: Option<Option<usize>> = None;
    let mut index: usize = 1;
    while index < items.len()
        invariant
            its == forms_view(items@),
            its.len() == items@.len(),
            form_view(*f) == FormView::List(its),
            gate_values_fit(form_view(*f), rs@),
            1 <= index,
            whole == spec_track_effect_plan(form_view(*f), rs@),
            whole == on_scan(its, rs@, index as int, gate_view(gate), effect_view(effect)),
        decreases items@.len() - index,
    {
        proof {
            lemma_forms_view_index(items@, index as int);
        }
        match &items[index] {
            Form::Keyword(k) => {
                if !str_eq(k.as_str(), "gate") {
                    return refuse(effect, String::from_str("on expects :gate PATTERN followed by one effect form"));
                }
                if gate.is_some() {
                    return refuse(effect, String::from_str("on expects only one :gate pattern"));
                }
                if index + 1 >= items.len() {
                    return refuse(effect, String::from_str("on :gate requires a gate pattern"));
                }
                proof {
                    lemma_forms_view_index(items@, index + 1);
                    assert(its[index as int] == FormView::Keyword("gate"@));
                    assert(widths_fit(its[index + 1], rs@));
                }
                match gate_subdivision_pattern(&items[index + 1], rs) {
                    Err(m) => {
                        return refuse(effect, m);
                    },
                    Ok(g) => {
                        gate = Some(g);
                        index = index + 2;
                    },
                }
            },
            Form::List(es) => {
                if effect.is_some() {
                    return refuse(effect, String::from_str("on expects exactly one effect form"));
                }
                if all_effect_params_null(es.as_slice()) {
                    match null_effect_check(es) {
                        Some(m) => {
                            return Err(m);
                        },
                        None => {
                            effect = Some(None);
                        },
                    }
                } else {
                    effect = Some(Some(index));
                }
                index = index + 1;
            },
            _ => {
                return refuse(effect, String::from_str("on expects :gate PATTERN followed by one effect form"));
            },
        }
    }
    match effect {
        Some(Some(e)) => Ok(TrackEffectPlan::On { gate, effect: e }),
        Some(None) => Ok(TrackEffectPlan::Skipped),
        None => Err(String::from_str("on requires an effect form")),
    }
}

} // verus!

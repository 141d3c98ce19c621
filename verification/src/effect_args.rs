use vstd::prelude::*;
use crate::forms::{Form, FormView, forms_view};
use crate::language::{effect_param_canonical_key, spec_effect_param_canonical_key};
use crate::options::{lemma_forms_view_index, lemma_forms_view_len};
use crate::scene_options::seen_view;
use crate::text::{contains_str, str_views};
use crate::track_params::seen_has;

verus! {

/// The parameters of an effect form named `name`, read from index `i` on:
/// the indices of the keywords that pass the structural checks, in order,
/// and the error that ends the reading, if any. Each parameter is a keyword
/// that `allowed` names, followed by a value, and its canonical name (see
/// `spec_effect_param_canonical_key`) is not in `seen` yet.
pub open spec fn effect_args_from(
    items: Seq<FormView>,
    name: Seq<char>,
    allowed: Seq<Seq<char>>,
    i: int,
    seen: Seq<Seq<char>>,
) -> (Seq<usize>, Option<Seq<char>>)
    decreases items.len() - i,
{
    if i < 1 || i >= items.len() {
        (Seq::empty(), None)
    } else {
        match items[i] {
            FormView::Keyword(k) => if i + 1 >= items.len() {
                (Seq::empty(), Some(name + " :"@ + k + " requires a value"@))
            } else if !allowed.contains(k) {
                (Seq::empty(), Some("unknown "@ + name + " parameter ':"@ + k + "'"@))
            } else if seen.contains(spec_effect_param_canonical_key(name, k)) {
                (Seq::empty(), Some("duplicate "@ + name + " parameter ':"@ + k + "'"@))
            } else {
                let r = effect_args_from(
                    items,
                    name,
                    allowed,
                    i + 2,
                    seen.push(spec_effect_param_canonical_key(name, k)),
                );
                (seq![i as usize] + r.0, r.1)
            },
            _ => (Seq::empty(), Some(name + " parameters must be keyword/value pairs"@)),
        }
    }
}

/// The parameters of an effect form: the index of each parameter's keyword,
/// in order, and the error that ends the reading. An effect form fails with
/// the first error among its parameters' values, read in that order, and
/// then `stop`; a form whose values are all `nil` fails with `stop` alone.
pub struct EffectArgsScan {
    pub entries: Vec<usize>,
    pub stop: Option<String>,
}

/// Reads the parameters of the effect form `items`, named `form_name`, which
/// accepts the parameter names `allowed` (see `effect_args_from`).
pub fn effect_args_scan(items: &[Form], form_name: &str, allowed: &[&str]) -> (r: EffectArgsScan)
    ensures
        ({
            let s = effect_args_from(forms_view(items@), form_name@, str_views(allowed@), 1, Seq::empty());
            &&& r.entries@ == s.0
            &&& match r.stop {
                Some(m) => s.1 == Some(m@),
                None => s.1 is None,
            }
        }),
{
    let ghost its = forms_view(items@);
    let ghost keys = str_views(allowed@);
    proof {
        lemma_forms_view_len(items@);
    }
    let ghost whole = effect_args_from(its, form_name@, keys, 1, Seq::empty());
    let mut entries: Vec<usize> = Vec::new();
    let mut seen: Vec<String> = Vec::new();
    let mut index: usize = 1;
    assert(seen_view(seen@) =~= Seq::<Seq<char>>::empty());
    assert(entries@ + whole.0 =~= whole.0);
    while index < items.len()
        invariant
            its == forms_view(items@),
            its.len() == items@.len(),
            keys == str_views(allowed@),
            1 <= index,
            whole == effect_args_from(its, form_name@, keys, 1, Seq::empty()),
            ({
                let rest = effect_args_from(its, form_name@, keys, index as int, seen_view(seen@));
                whole.0 == entries@ + rest.0 && whole.1 == rest.1
            }),
        decreases items@.len() - index,
    {
        proof {
            lemma_forms_view_index(items@, index as int);
        }
        let key: &str = match &items[index] {
            Form::Keyword(k) => k.as_str(),
            _ => {
                let mut m = String::from_str(form_name);
                m.append(" parameters must be keyword/value pairs");
                assert(entries@ + Seq::<usize>::empty() =~= entries@);
                return EffectArgsScan { entries, stop: Some(m) };
            },
        };
        if index + 1 >= items.len() {
            let mut m = String::from_str(form_name);
            m.append(" :");
            m.append(key);
            m.append(" requires a value");
            assert(entries@ + Seq::<usize>::empty() =~= entries@);
            return EffectArgsScan { entries, stop: Some(m) };
        }
        if !contains_str(allowed, key) {
            let mut m = String::from_str("unknown ");
            m.append(form_name);
            m.append(" parameter ':");
            m.append(key);
            m.append("'");
            assert(entries@ + Seq::<usize>::empty() =~= entries@);
            return EffectArgsScan { entries, stop: Some(m) };
        }
        let canon = effect_param_canonical_key(form_name, key);
        if seen_has(&seen, canon) {
            let mut m = String::from_str("duplicate ");
            m.append(form_name);
            m.append(" parameter ':");
            m.append(key);
            m.append("'");
            assert(entries@ + Seq::<usize>::empty() =~= entries@);
            return EffectArgsScan { entries, stop: Some(m) };
        }
        let ghost seen0 = seen@;
        let ghost before = entries@;
        seen.push(String::from_str(canon));
        assert(seen_view(seen@) =~= seen_view(seen0).push(canon@));
        entries.push(index);
        proof {
            let r2 = effect_args_from(its, form_name@, keys, index + 2, seen_view(seen@));
            assert(before + (seq![index] + r2.0) =~= entries@ + r2.0);
        }
        index = index + 2;
    }
    assert(entries@ + Seq::<usize>::empty() =~= entries@);
    EffectArgsScan { entries, stop: None }
}

} // verus!

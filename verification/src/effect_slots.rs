use vstd::prelude::*;
use crate::forms::{Form, FormView, form_view, forms_view};
use crate::gate_forms::{positive_usize_value, spec_positive_usize_value, wrap_then_message, Reading};
use crate::language::{numeric_pattern_form, spec_numeric_pattern_form};
use crate::options::{copy_form, copy_forms, lemma_forms_view_index, lemma_forms_view_len};
use crate::patterns::repeat_seq;
use crate::text::str_eq;

verus! {

/// The effect forms, one per slot, that an effect pattern stands for: a
/// vector lists them; `(times N X)` repeats the slots of `X`; `(then X Y
/// ..)` plays them one after the other; `(rev X)`/`(reverse X)` backwards;
/// a wrapping form such as `(g X)` stands for `X`; a list whose head is no
/// symbol stands for its only item; any other list is one effect. `name`
/// names the form in errors.
pub open spec fn spec_effect_pattern_slots(f: FormView, name: Seq<char>, rs: Seq<Reading>) -> Result<
    Seq<FormView>,
    Seq<char>,
>
    decreases f,
{
    match f {
        FormView::Vector(values) => Ok(values),
        FormView::List(items) => if !(items.len() > 0 && items[0] is Symbol) {
            if items.len() == 1 {
                spec_effect_pattern_slots(items[0], name, rs)
            } else {
                Err(name + " requires effect forms"@)
            }
        } else {
            let form_name = items[0]->Symbol_0;
            if form_name == "times"@ {
                if items.len() < 2 {
                    Err("times requires a count"@)
                } else if items.len() < 3 {
                    Err("times requires a pattern"@)
                } else if items.len() > 3 {
                    Err("times expects count and one pattern"@)
                } else {
                    match spec_positive_usize_value(items[1], rs, "times"@) {
                        Err(e) => Err(e),
                        Ok(n) => match spec_effect_pattern_slots(items[2], "times"@, rs) {
                            Err(e) => Err(e),
                            Ok(p) => Ok(repeat_seq(p, n as nat)),
                        },
                    }
                }
            } else if form_name == "then"@ {
                if items.len() < 3 {
                    Err("then expects at least two patterns"@)
                } else {
                    spec_then_slots(items.subrange(1, items.len() as int), rs)
                }
            } else if form_name == "rev"@ || form_name == "reverse"@ {
                if items.len() > 2 {
                    Err("reverse expects one pattern"@)
                } else if items.len() < 2 {
                    Err("reverse requires a pattern"@)
                } else {
                    match spec_effect_pattern_slots(items[1], "reverse"@, rs) {
                        Err(e) => Err(e),
                        Ok(s) => Ok(s.reverse()),
                    }
                }
            } else if spec_numeric_pattern_form(form_name) {
                if items.len() < 2 {
                    Err(form_name + " requires a pattern"@)
                } else if items.len() > 2 {
                    if exists|i: int| 2 <= i < items.len() && #[trigger] items[i] == FormView::Symbol("then"@) {
                        Err(wrap_then_message(form_name))
                    } else {
                        Err(form_name + " expects one pattern"@)
                    }
                } else {
                    spec_effect_pattern_slots(items[1], form_name, rs)
                }
            } else {
                Ok(seq![f])
            }
        },
        _ => Err(name + " requires effect forms"@),
    }
}

/// The slots of the stages of a `then`, one stage after the other; the
/// first error stops the reading.
pub open spec fn spec_then_slots(stages: Seq<FormView>, rs: Seq<Reading>) -> Result<
    Seq<FormView>,
    Seq<char>,
>
    decreases stages,
{
    if stages.len() == 0 {
        Ok(Seq::empty())
    } else {
        match spec_then_slots(stages.drop_last(), rs) {
            Err(e) => Err(e),
            Ok(prev) => match spec_effect_pattern_slots(stages.last(), "then"@, rs) {
                Err(e) => Err(e),
                Ok(s) => Ok(prev + s),
            },
        }
    }
}

/// Whether a slots result is the one a spec result names.
pub open spec fn same_forms(r: Result<Vec<Form>, String>, s: Result<Seq<FormView>, Seq<char>>) -> bool {
    match s {
        Ok(v) => r matches Ok(x) && forms_view(x@) == v,
        Err(m) => r matches Err(e) && e@ == m,
    }
}

proof fn lemma_views_push(s: Seq<Form>, f: Form)
    ensures
        forms_view(s.push(f)) == forms_view(s).push(form_view(f)),
{
    assert(s.push(f).drop_last() =~= s);
}

proof fn lemma_views_concat(a: Seq<Form>, b: Seq<Form>)
    ensures
        forms_view(a + b) == forms_view(a) + forms_view(b),
    decreases b.len(),
{
    if b.len() == 0 {
        assert(a + b =~= a);
        assert(forms_view(a) + forms_view(b) =~= forms_view(a));
    } else {
        lemma_views_concat(a, b.drop_last());
        assert((a + b).drop_last() =~= a + b.drop_last());
        assert((a + b).last() == b.last());
        assert(forms_view(a) + forms_view(b) =~= (forms_view(a) + forms_view(b.drop_last())).push(
            form_view(b.last()),
        ));
    }
}

fn append_copies(out: &mut Vec<Form>, v: &Vec<Form>)
    ensures
        forms_view(final(out)@) == forms_view(old(out)@) + forms_view(v@),
{
    let ghost a = out@;
    let mut c = copy_forms(v);
    let ghost b = c@;
    out.append(&mut c);
    proof {
        lemma_views_concat(a, b);
    }
}

fn reversed_forms(v: Vec<Form>) -> (r: Vec<Form>)
    ensures
        forms_view(r@) == forms_view(v@).reverse(),
{
    let ghost orig = v@;
    proof {
        lemma_forms_view_len(orig);
    }
    let mut v = v;
    let mut out: Vec<Form> = Vec::new();
    while v.len() > 0
        invariant
            v@.len() + out@.len() == orig.len(),
            v@ == orig.subrange(0, v@.len() as int),
            out@ == orig.reverse().subrange(0, out@.len() as int),
        decreases v@.len(),
    {
        match v.pop() {
            Some(x) => {
                out.push(x);
            },
            None => {},
        }
        assert(out@ =~= orig.reverse().subrange(0, out@.len() as int));
    }
    assert(out@ =~= orig.reverse());
    proof {
        lemma_views_reverse(orig);
    }
    out
}

proof fn lemma_views_reverse(s: Seq<Form>)
    ensures
        forms_view(s.reverse()) == forms_view(s).reverse(),
{
    lemma_forms_view_len(s);
    lemma_forms_view_len(s.reverse());
    assert forall|i: int| 0 <= i < s.len() implies #[trigger] forms_view(s.reverse())[i]
        == forms_view(s).reverse()[i] by {
        lemma_forms_view_index(s.reverse(), i);
        lemma_forms_view_index(s, s.len() - 1 - i);
    }
    assert(forms_view(s.reverse()) =~= forms_view(s).reverse());
}

proof fn lemma_then_err_stays(vs: Seq<FormView>, rs: Seq<Reading>, j: int, m: Seq<char>)
    requires
        0 <= j <= vs.len(),
        spec_then_slots(vs.subrange(0, j), rs) == Err::<Seq<FormView>, Seq<char>>(m),
    ensures
        spec_then_slots(vs, rs) == Err::<Seq<FormView>, Seq<char>>(m),
    decreases vs.len(),
{
    if j < vs.len() {
        assert(vs.drop_last().subrange(0, j) =~= vs.subrange(0, j));
        lemma_then_err_stays(vs.drop_last(), rs, j, m);
    } else {
        assert(vs.subrange(0, j) =~= vs);
    }
}

fn then_slots(items: &Vec<Form>, rs: &[Reading]) -> (r: Result<Vec<Form>, String>)
    requires
        items@.len() >= 1,
    ensures
        same_forms(r, spec_then_slots(forms_view(items@).subrange(1, items@.len() as int), rs@)),
    decreases items,
{
    let ghost its = forms_view(items@);
    proof {
        lemma_forms_view_len(items@);
    }
    let mut out: Vec<Form> = Vec::new();
    let mut i: usize = 1;
    assert(its.subrange(1, 1) =~= Seq::<FormView>::empty());
    assert(forms_view(out@) =~= Seq::<FormView>::empty());
    while i < items.len()
        invariant
            1 <= i <= items@.len(),
            its == forms_view(items@),
            its.len() == items@.len(),
            spec_then_slots(its.subrange(1, i as int), rs@) == Ok::<Seq<FormView>, Seq<char>>(
                forms_view(out@),
            ),
        decreases items@.len() - i,
    {
        proof {
            lemma_forms_view_index(items@, i as int);
            assert(its.subrange(1, i + 1).drop_last() =~= its.subrange(1, i as int));
            assert(its.subrange(1, i + 1).last() == its[i as int]);
        }
        assert(decreases_to!(items => items@[i as int]));
        let s = match effect_pattern_slots(&items[i], "then", rs) {
            Ok(s) => s,
            Err(e) => {
                proof {
                    let vs = its.subrange(1, its.len() as int);
                    assert(vs.subrange(0, i as int) =~= its.subrange(1, i + 1));
                    lemma_then_err_stays(vs, rs@, i as int, e@);
                }
                return Err(e);
            },
        };
        append_copies(&mut out, &s);
        i = i + 1;
    }
    Ok(out)
}

fn has_then_symbol(items: &Vec<Form>) -> (r: bool)
    ensures
        r == exists|i: int|
            2 <= i < forms_view(items@).len() && #[trigger] forms_view(items@)[i]
                == FormView::Symbol("then"@),
{
    let ghost its = forms_view(items@);
    proof {
        lemma_forms_view_len(items@);
    }
    let mut i: usize = 2;
    while i < items.len()
        invariant
            2 <= i,
            its == forms_view(items@),
            its.len() == items@.len(),
            forall|j: int| 2 <= j < i && j < its.len() ==> #[trigger] its[j] != FormView::Symbol("then"@),
        decreases items@.len() - i,
    {
        proof {
            lemma_forms_view_index(items@, i as int);
        }
        match &items[i] {
            Form::Symbol(n) => {
                if str_eq(n.as_str(), "then") {
                    return true;
                }
            },
            _ => {},
        }
        i = i + 1;
    }
    false
}

/// Reads an effect pattern into its slots (see `spec_effect_pattern_slots`).
pub fn effect_pattern_slots(f: &Form, name: &str, rs: &[Reading]) -> (r: Result<Vec<Form>, String>)
    ensures
        same_forms(r, spec_effect_pattern_slots(form_view(*f), name@, rs@)),
    decreases f,
{
    match f {
        Form::Vector(values) => Ok(copy_forms(values)),
        Form::List(items) => {
            proof {
                lemma_forms_view_len(items@);
            }
            let head: Option<&str> = if items.len() > 0 {
                proof {
                    lemma_forms_view_index(items@, 0);
                }
                match &items[0] {
                    Form::Symbol(s) => Some(s.as_str()),
                    _ => None,
                }
            } else {
                None
            };
            let form_name = match head {
                Some(h) => h,
                None => {
                    if items.len() == 1 {
                        assert(decreases_to!(items => items@[0]));
                        return effect_pattern_slots(&items[0], name, rs);
                    }
                    let mut m = String::from_str(name);
                    m.append(" requires effect forms");
                    return Err(m);
                },
            };
            if str_eq(form_name, "times") {
                if items.len() < 2 {
                    return Err(String::from_str("times requires a count"));
                }
                if items.len() < 3 {
                    return Err(String::from_str("times requires a pattern"));
                }
                if items.len() > 3 {
                    return Err(String::from_str("times expects count and one pattern"));
                }
                proof {
                    lemma_forms_view_index(items@, 1);
                    lemma_forms_view_index(items@, 2);
                }
                let count = positive_usize_value(&items[1], rs, "times")?;
                assert(decreases_to!(items => items@[2]));
                let pattern = effect_pattern_slots(&items[2], "times", rs)?;
                let ghost pv = forms_view(pattern@);
                let mut slots: Vec<Form> = Vec::new();
                let mut k: usize = 0;
                assert(forms_view(slots@) =~= repeat_seq(pv, 0));
                while k < count
                    invariant
                        k <= count,
                        pv == forms_view(pattern@),
                        forms_view(slots@) == repeat_seq(pv, k as nat),
                    decreases count - k,
                {
                    append_copies(&mut slots, &pattern);
                    k = k + 1;
                }
                Ok(slots)
            } else if str_eq(form_name, "then") {
                if items.len() < 3 {
                    return Err(String::from_str("then expects at least two patterns"));
                }
                then_slots(items, rs)
            } else if str_eq(form_name, "rev") || str_eq(form_name, "reverse") {
                if items.len() > 2 {
                    return Err(String::from_str("reverse expects one pattern"));
                }
                if items.len() < 2 {
                    return Err(String::from_str("reverse requires a pattern"));
                }
                proof {
                    lemma_forms_view_index(items@, 1);
                }
                assert(decreases_to!(items => items@[1]));
                let s = effect_pattern_slots(&items[1], "reverse", rs)?;
                Ok(reversed_forms(s))
            } else if numeric_pattern_form(form_name) {
                if items.len() < 2 {
                    let mut m = String::from_str(form_name);
                    m.append(" requires a pattern");
                    return Err(m);
                }
                if items.len() > 2 {
                    if has_then_symbol(items) {
                        let mut m = String::from_str(form_name);
                        m.append(" wraps exactly one pattern; use (");
                        m.append(form_name);
                        m.append(" (then A B)) instead of (");
                        m.append(form_name);
                        m.append(" A then B)");
                        return Err(m);
                    }
                    let mut m = String::from_str(form_name);
                    m.append(" expects one pattern");
                    return Err(m);
                }
                proof {
                    lemma_forms_view_index(items@, 1);
                }
                assert(decreases_to!(items => items@[1]));
                effect_pattern_slots(&items[1], form_name, rs)
            } else {
                let c = copy_form(f);
                let v = vec![c];
                proof {
                    lemma_views_push(Seq::<Form>::empty(), c);
                    assert(v@ =~= Seq::<Form>::empty().push(c));
                }
                Ok(v)
            }
        },
        _ => {
            let mut m = String::from_str(name);
            m.append(" requires effect forms");
            Err(m)
        },
    }
}

} // verus!

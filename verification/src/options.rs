use vstd::prelude::*;
use crate::arith::{decimal, push_decimal};
use crate::forms::{Form, FormView, form_view, forms_view};
use crate::language::{numeric_pattern_form, spec_numeric_pattern_form, spec_unary_track_flag, unary_track_flag};
use crate::text::{str_eq, str_views};
use crate::values::{options_contain, options_contain_any, track_options_contain, track_options_contain_any};

verus! {

/// Whether a form is `nil` or `null`, which leaves a parameter unset.
pub open spec fn is_null(f: FormView) -> bool {
    f matches FormView::Symbol(n) && (n == "nil"@ || n == "null"@)
}

/// Whether a form is `nil` or `null`.
pub fn null_value(f: &Form) -> (r: bool)
    ensures
        r == is_null(form_view(*f)),
{
    match f {
        Form::Symbol(n) => str_eq(n.as_str(), "nil") || str_eq(n.as_str(), "null"),
        _ => false,
    }
}

/// The views of a sequence of forms are the views of its forms, in order.
pub proof fn lemma_forms_view_index(s: Seq<Form>, i: int)
    requires
        0 <= i < s.len(),
    ensures
        forms_view(s).len() == s.len(),
        forms_view(s)[i] == form_view(s[i]),
    decreases s.len(),
{
    if i < s.len() - 1 {
        lemma_forms_view_index(s.drop_last(), i);
    } else {
        lemma_forms_view_len(s.drop_last());
    }
}

/// A sequence of forms has as many views as forms.
pub proof fn lemma_forms_view_len(s: Seq<Form>)
    ensures
        forms_view(s).len() == s.len(),
    decreases s.len(),
{
    if s.len() > 0 {
        lemma_forms_view_len(s.drop_last());
    }
}

/// Checks that a form has `expected` items, its head counted: the error
/// counts the arguments after the head.
pub fn expect_arity(items: &[Form], form: &str, expected: usize) -> (r: Result<(), String>)
    requires
        items@.len() == expected || expected >= 1,
    ensures
        items@.len() == expected ==> r is Ok,
        items@.len() != expected && expected == 1 ==> (r matches Err(m) && m@ == form@
            + " expects no arguments"@),
        items@.len() != expected && expected != 1 ==> (r matches Err(m) && m@ == form@
            + " expects exactly "@ + decimal((expected - 1) as nat) + " argument"@),
{
    if items.len() == expected {
        Ok(())
    } else if expected == 1 {
        let mut m = String::from_str(form);
        m.append(" expects no arguments");
        Err(m)
    } else {
        let mut m = String::from_str(form);
        m.append(" expects exactly ");
        push_decimal(&mut m, expected - 1);
        m.append(" argument");
        Err(m)
    }
}

/// The value of option `:key` among the keyword/value pairs that follow a
/// form's head: the first pair naming it decides; `nil` leaves it unset;
/// a keyword or symbol gives its name; anything else is refused.
pub open spec fn keyword_scan(items: Seq<FormView>, key: Seq<char>, index: int) -> Result<
    Option<Seq<char>>,
    Seq<char>,
>
    decreases items.len() - index,
{
    if index < 0 || index + 1 >= items.len() {
        Ok(None)
    } else if items[index] == FormView::Keyword(key) {
        if is_null(items[index + 1]) {
            Ok(None)
        } else {
            match items[index + 1] {
                FormView::Keyword(v) => Ok(Some(v)),
                FormView::Symbol(v) => Ok(Some(v)),
                _ => Err(":"@ + key + " expected keyword or symbol"@),
            }
        }
    } else {
        keyword_scan(items, key, index + 2)
    }
}

/// The keyword or symbol given for option `:key` (see `keyword_scan`).
pub fn keyword_param(items: &[Form], key: &str) -> (r: Result<Option<String>, String>)
    ensures
        match keyword_scan(forms_view(items@), key@, 1) {
            Ok(Some(v)) => r matches Ok(Some(x)) && x@ == v,
            Ok(None) => r matches Ok(None),
            Err(m) => r matches Err(e) && e@ == m,
        },
{
    let ghost fv = forms_view(items@);
    proof {
        lemma_forms_view_len(items@);
    }
    let mut index: usize = 1;
    while index < items.len() && index + 1 < items.len()
        invariant
            1 <= index,
            fv == forms_view(items@),
            fv.len() == items@.len(),
            keyword_scan(fv, key@, 1) == keyword_scan(fv, key@, index as int),
        decreases items@.len() - index,
    {
        proof {
            lemma_forms_view_index(items@, index as int);
            lemma_forms_view_index(items@, index + 1);
        }
        let is_key = match &items[index] {
            Form::Keyword(v) => str_eq(v.as_str(), key),
            _ => false,
        };
        if is_key {
            if null_value(&items[index + 1]) {
                return Ok(None);
            }
            return match &items[index + 1] {
                Form::Keyword(v) => Ok(Some(v.clone())),
                Form::Symbol(v) => Ok(Some(v.clone())),
                _ => {
                    let mut m = String::from_str(":");
                    m.append(key);
                    m.append(" expected keyword or symbol");
                    Err(m)
                },
            };
        }
        index = index + 2;
    }
    Ok(None)
}

/// Checks the options of a `sample` form from `index` on: keyword/value
/// pairs, where a flag (`:off`, `:choke`, `:cut`) may stand alone.
pub open spec fn sample_options_scan(items: Seq<FormView>, index: int) -> Option<Seq<char>>
    decreases items.len() - index,
{
    if index < 0 || index >= items.len() {
        None
    } else {
        match items[index] {
            FormView::Keyword(key) => if spec_unary_track_flag(key) && (index + 1 >= items.len()
                || items[index + 1] is Keyword) {
                sample_options_scan(items, index + 1)
            } else if index + 1 >= items.len() {
                Some("sample :"@ + key + " requires a value"@)
            } else {
                sample_options_scan(items, index + 2)
            },
            _ => Some("sample options must be keyword/value pairs"@),
        }
    }
}

/// Checks the options of a `sample` form (see `sample_options_scan`).
pub fn validate_sample_options(items: &[Form], start: usize) -> (r: Result<(), String>)
    ensures
        match sample_options_scan(forms_view(items@), start as int) {
            None => r is Ok,
            Some(m) => r matches Err(e) && e@ == m,
        },
{
    let ghost fv = forms_view(items@);
    proof {
        lemma_forms_view_len(items@);
    }
    let mut index = start;
    while index < items.len()
        invariant
            fv == forms_view(items@),
            fv.len() == items@.len(),
            sample_options_scan(fv, start as int) == sample_options_scan(fv, index as int),
        decreases items@.len() - index,
    {
        proof {
            lemma_forms_view_index(items@, index as int);
            if index + 1 < items@.len() {
                lemma_forms_view_index(items@, index + 1);
            }
        }
        let key = match &items[index] {
            Form::Keyword(k) => k,
            _ => {
                return Err(String::from_str("sample options must be keyword/value pairs"));
            },
        };
        if unary_track_flag(key.as_str()) {
            let next_is_keyword = index + 1 < items.len() && match &items[index + 1] {
                Form::Keyword(_) => true,
                _ => false,
            };
            if index + 1 >= items.len() || next_is_keyword {
                index = index + 1;
                continue;
            }
        }
        if index + 1 >= items.len() {
            let mut m = String::from_str("sample :");
            m.append(key.as_str());
            m.append(" requires a value");
            return Err(m);
        }
        index = index + 2;
    }
    Ok(())
}

/// Whether a form is a pattern form that an effect parameter can take:
/// a list headed by a pattern wrapper, `then`, `times`, `rev` or `reverse`.
pub open spec fn spec_effect_pattern_form(f: FormView) -> bool {
    match f {
        FormView::List(items) => items.len() > 0 && match items[0] {
            FormView::Symbol(name) => spec_numeric_pattern_form(name) || name == "then"@ || name
                == "times"@ || name == "rev"@ || name == "reverse"@,
            _ => false,
        },
        _ => false,
    }
}

/// Whether a form is a pattern form (see `spec_effect_pattern_form`).
pub fn effect_pattern_form(f: &Form) -> (r: bool)
    ensures
        r == spec_effect_pattern_form(form_view(*f)),
{
    match f {
        Form::List(items) => {
            if items.len() == 0 {
                proof {
                    lemma_forms_view_len(items@);
                }
                return false;
            }
            proof {
                lemma_forms_view_index(items@, 0);
            }
            match &items[0] {
                Form::Symbol(name) => {
                    let n = name.as_str();
                    numeric_pattern_form(n) || str_eq(n, "then") || str_eq(n, "times") || str_eq(
                        n,
                        "rev",
                    ) || str_eq(n, "reverse")
                },
                _ => false,
            }
        },
        _ => false,
    }
}

/// Whether every parameter of an effect form is set to `nil`: the items
/// after the head are keyword/value pairs, at least one, all valued `nil`.
pub open spec fn all_null_scan(items: Seq<FormView>, index: int, saw: bool) -> bool
    decreases items.len() - index,
{
    if index < 0 || index + 1 >= items.len() {
        saw && index == items.len()
    } else if items[index] is Keyword {
        is_null(items[index + 1]) && all_null_scan(items, index + 2, true)
    } else {
        false
    }
}

/// Whether every parameter of an effect form is `nil` (see
/// `all_null_scan`).
pub fn all_effect_params_null(items: &[Form]) -> (r: bool)
    ensures
        r == all_null_scan(forms_view(items@), 1, false),
{
    let ghost fv = forms_view(items@);
    proof {
        lemma_forms_view_len(items@);
    }
    let mut saw = false;
    let mut index: usize = 1;
    while index < items.len() && index + 1 < items.len()
        invariant
            1 <= index,
            fv == forms_view(items@),
            fv.len() == items@.len(),
            all_null_scan(fv, 1, false) == all_null_scan(fv, index as int, saw),
        decreases items@.len() - index,
    {
        proof {
            lemma_forms_view_index(items@, index as int);
            lemma_forms_view_index(items@, index + 1);
        }
        match &items[index] {
            Form::Keyword(_) => {
                saw = true;
                if !null_value(&items[index + 1]) {
                    return false;
                }
            },
            _ => {
                return false;
            },
        }
        index = index + 2;
    }
    saw && index == items.len()
}


proof fn lemma_view_push(s: Seq<Form>, f: Form)
    ensures
        forms_view(s.push(f)) == forms_view(s).push(form_view(f)),
{
    assert(s.push(f).drop_last() =~= s);
}

/// A copy of a form.
pub fn copy_form(f: &Form) -> (r: Form)
    ensures
        form_view(r) == form_view(*f),
    decreases f,
{
    match f {
        Form::List(v) => Form::List(copy_forms(v)),
        Form::Vector(v) => Form::Vector(copy_forms(v)),
        Form::Symbol(s) => Form::Symbol(s.clone()),
        Form::Keyword(s) => Form::Keyword(s.clone()),
        Form::Number(s) => Form::Number(s.clone()),
        Form::Str(s) => Form::Str(s.clone()),
    }
}

/// A copy of a sequence of forms.
pub fn copy_forms(v: &Vec<Form>) -> (r: Vec<Form>)
    ensures
        forms_view(r@) == forms_view(v@),
    decreases v,
{
    let mut out: Vec<Form> = Vec::new();
    let mut i: usize = 0;
    assert(forms_view(out@) =~= forms_view(v@.subrange(0, 0)));
    while i < v.len()
        invariant
            i <= v@.len(),
            forms_view(out@) == forms_view(v@.subrange(0, i as int)),
        decreases v@.len() - i,
    {
        assert(decreases_to!(v => v@[i as int]));
        let f = copy_form(&v[i]);
        let ghost before = out@;
        out.push(f);
        proof {
            assert(out@.drop_last() =~= before);
            assert(v@.subrange(0, i + 1).drop_last() =~= v@.subrange(0, i as int));
        }
        i = i + 1;
    }
    assert(v@.subrange(0, v@.len() as int) =~= v@);
    out
}

/// The options of a track form from `index` on, each flag that stands
/// alone given the value `true`: keyword/value pairs, or the refusal of a
/// non-keyword or of a missing value.
pub open spec fn track_options_scan(items: Seq<FormView>, index: int) -> Result<Seq<FormView>, Seq<char>>
    decreases items.len() - index,
{
    if index < 0 || index >= items.len() {
        Ok(Seq::empty())
    } else {
        match items[index] {
            FormView::Keyword(key) => if spec_unary_track_flag(key) && (index + 1 >= items.len()
                || items[index + 1] is Keyword) {
                match track_options_scan(items, index + 1) {
                    Ok(rest) => Ok(seq![FormView::Keyword(key), FormView::Symbol("true"@)] + rest),
                    Err(e) => Err(e),
                }
            } else if index + 1 >= items.len() {
                Err("track parameter ':"@ + key + "' requires a value"@)
            } else {
                match track_options_scan(items, index + 2) {
                    Ok(rest) => Ok(seq![FormView::Keyword(key), items[index + 1]] + rest),
                    Err(e) => Err(e),
                }
            },
            _ => Err("track parameters must be keyword/value pairs"@),
        }
    }
}

/// The options of a track form (see `track_options_scan`).
pub fn normalized_track_options(items: &[Form], start: usize) -> (r: Result<Vec<Form>, String>)
    ensures
        match track_options_scan(forms_view(items@), start as int) {
            Ok(o) => r matches Ok(v) && forms_view(v@) == o,
            Err(m) => r matches Err(e) && e@ == m,
        },
{
    let ghost fv = forms_view(items@);
    proof {
        lemma_forms_view_len(items@);
    }
    let mut out: Vec<Form> = Vec::new();
    let mut index = start;
    assert(forms_view(out@) =~= Seq::<FormView>::empty());
    while index < items.len()
        invariant
            fv == forms_view(items@),
            fv.len() == items@.len(),
            match track_options_scan(fv, start as int) {
                Ok(o) => match track_options_scan(fv, index as int) {
                    Ok(rest) => o == forms_view(out@) + rest,
                    Err(_) => false,
                },
                Err(m) => track_options_scan(fv, index as int) == Err::<Seq<FormView>, Seq<char>>(m),
            },
        decreases items@.len() - index,
    {
        proof {
            lemma_forms_view_index(items@, index as int);
            if index + 1 < items@.len() {
                lemma_forms_view_index(items@, index + 1);
            }
        }
        let key = match &items[index] {
            Form::Keyword(k) => k,
            _ => {
                return Err(String::from_str("track parameters must be keyword/value pairs"));
            },
        };
        if unary_track_flag(key.as_str()) {
            let next_is_keyword = index + 1 < items.len() && match &items[index + 1] {
                Form::Keyword(_) => true,
                _ => false,
            };
            if index + 1 >= items.len() || next_is_keyword {
                let ghost before = out@;
                out.push(Form::Keyword(key.clone()));
                out.push(Form::Symbol(String::from_str("true")));
                proof {
                    let mid = before.push(out@[before.len() as int]);
                    assert(out@ =~= mid.push(out@[before.len() + 1int]));
                    lemma_view_push(before, out@[before.len() as int]);
                    lemma_view_push(mid, out@[before.len() + 1int]);
                    assert(forms_view(out@) =~= forms_view(before) + seq![
                        FormView::Keyword(key@),
                        FormView::Symbol("true"@),
                    ]);
                }
                index = index + 1;
                continue;
            }
        }
        if index + 1 >= items.len() {
            let mut m = String::from_str("track parameter ':");
            m.append(key.as_str());
            m.append("' requires a value");
            return Err(m);
        }
        let ghost before = out@;
        out.push(Form::Keyword(key.clone()));
        out.push(copy_form(&items[index + 1]));
        proof {
            let mid = before.push(out@[before.len() as int]);
            assert(out@ =~= mid.push(out@[before.len() + 1int]));
            lemma_view_push(before, out@[before.len() as int]);
            lemma_view_push(mid, out@[before.len() + 1int]);
            assert(forms_view(out@) =~= forms_view(before) + seq![
                FormView::Keyword(key@),
                fv[index + 1],
            ]);
        }
        index = index + 2;
    }
    assert(forms_view(out@) + Seq::<FormView>::empty() =~= forms_view(out@));
    Ok(out)
}

proof fn lemma_views_concat(a: Seq<Form>, b: Seq<Form>)
    ensures
        forms_view(a + b) == forms_view(a) + forms_view(b),
    decreases b.len(),
{
    if b.len() == 0 {
        assert(a + b =~= a);
        assert(forms_view(a) + forms_view(b) =~= forms_view(a));
    } else {
        lemma_views_concat(a, b.drop_last());
        assert((a + b).drop_last() =~= a + b.drop_last());
        assert((a + b).last() == b.last());
        assert(forms_view(a) + forms_view(b) =~= (forms_view(a) + forms_view(b.drop_last())).push(
            form_view(b.last()),
        ));
    }
}

/// Appends a form to a list of forms.
fn push_form(out: &mut Vec<Form>, f: Form)
    ensures
        forms_view(final(out)@) == forms_view(old(out)@).push(form_view(f)),
{
    let ghost before = out@;
    out.push(f);
    proof {
        lemma_view_push(before, f);
    }
}

/// A default for a sample track: `:key value`, unless the options set the
/// key.
pub open spec fn default_pair(options: Seq<FormView>, key: Seq<char>, value: FormView) -> Seq<
    FormView,
> {
    if options_contain(options, key) {
        Seq::empty()
    } else {
        seq![FormView::Keyword(key), value]
    }
}

/// The defaults of a sample track, written `:note c3 :gate 1 :dur 1 :amp 1`,
/// each left out when the options set it.
pub open spec fn sample_defaults(options: Seq<FormView>) -> Seq<FormView> {
    default_pair(options, "note"@, FormView::Symbol("c3"@)) + default_pair(
        options,
        "gate"@,
        FormView::Number("1"@),
    ) + default_pair(options, "dur"@, FormView::Number("1"@)) + default_pair(
        options,
        "amp"@,
        FormView::Number("1"@),
    )
}

/// The option names that give a sample its sound.
pub open spec fn sample_source_keys() -> Seq<Seq<char>> {
    seq!["sample-data"@, "sample_data"@, "sample"@, "sample-path"@, "sample_path"@]
}

/// The track form that a `sample` form stands for: `(sample :id "path"
/// opts..)` or `(sample :id opts..)` becomes `(d :id :src :sample
/// [:sample-path "path"] defaults.. opts..)`, each lone flag of the options
/// given the value `true`; without a path the options must name the sound.
pub open spec fn spec_sample_track_items(items: Seq<FormView>) -> Result<Seq<FormView>, Seq<char>> {
    if items.len() < 2 {
        Err("sample requires a track id"@)
    } else if !(items[1] is Keyword) {
        Err("sample track id must be a keyword"@)
    } else if items.len() < 3 {
        Err("sample requires a wav path or :sample-data"@)
    } else {
        let inline = items[2] is Keyword;
        let start: int = if inline {
            2
        } else {
            3
        };
        match sample_options_scan(items, start) {
            Some(e) => Err(e),
            None => match track_options_scan(items, start) {
                Err(e) => Err(e),
                Ok(options) => if inline && !options_contain_any(options, sample_source_keys()) {
                    Err("sample requires a wav path or :sample-data"@)
                } else {
                    Ok(
                        seq![
                            FormView::Symbol("d"@),
                            items[1],
                            FormView::Keyword("src"@),
                            FormView::Keyword("sample"@),
                        ] + (if inline {
                            Seq::empty()
                        } else {
                            seq![FormView::Keyword("sample-path"@), items[2]]
                        }) + sample_defaults(options) + options,
                    )
                },
            },
        }
    }
}

fn push_default(out: &mut Vec<Form>, options: &Vec<Form>, key: &str, value: Form)
    ensures
        forms_view(final(out)@) == forms_view(old(out)@) + default_pair(
            forms_view(options@),
            key@,
            form_view(value),
        ),
{
    if track_options_contain(options.as_slice(), key) {
        assert(forms_view(out@) + Seq::<FormView>::empty() =~= forms_view(out@));
    } else {
        let ghost before = forms_view(out@);
        push_form(out, Form::Keyword(String::from_str(key)));
        push_form(out, value);
        assert(forms_view(out@) =~= before + seq![FormView::Keyword(key@), form_view(value)]);
    }
}

/// Rewrites a `sample` form into the track form it stands for (see
/// `spec_sample_track_items`).
pub fn sample_track_items(items: &[Form]) -> (r: Result<Vec<Form>, String>)
    ensures
        match spec_sample_track_items(forms_view(items@)) {
            Ok(v) => r matches Ok(x) && forms_view(x@) == v,
            Err(m) => r matches Err(e) && e@ == m,
        },
{
    let ghost its = forms_view(items@);
    proof {
        lemma_forms_view_len(items@);
    }
    if items.len() < 2 {
        return Err(String::from_str("sample requires a track id"));
    }
    proof {
        lemma_forms_view_index(items@, 1);
    }
    match &items[1] {
        Form::Keyword(_) => {},
        _ => {
            return Err(String::from_str("sample track id must be a keyword"));
        },
    }
    if items.len() < 3 {
        return Err(String::from_str("sample requires a wav path or :sample-data"));
    }
    proof {
        lemma_forms_view_index(items@, 2);
    }
    let inline = match &items[2] {
        Form::Keyword(_) => true,
        _ => false,
    };
    let start: usize = if inline {
        2
    } else {
        3
    };
    validate_sample_options(items, start)?;
    let options = normalized_track_options(items, start)?;
    let mut out: Vec<Form> = Vec::new();
    assert(forms_view(out@) =~= Seq::<FormView>::empty());
    push_form(&mut out, Form::Symbol(String::from_str("d")));
    push_form(&mut out, copy_form(&items[1]));
    push_form(&mut out, Form::Keyword(String::from_str("src")));
    push_form(&mut out, Form::Keyword(String::from_str("sample")));
    let ghost head = forms_view(out@);
    assert(head =~= seq![
        FormView::Symbol("d"@),
        its[1],
        FormView::Keyword("src"@),
        FormView::Keyword("sample"@),
    ]);
    if !inline {
        push_form(&mut out, Form::Keyword(String::from_str("sample-path")));
        push_form(&mut out, copy_form(&items[2]));
        assert(forms_view(out@) =~= head + seq![FormView::Keyword("sample-path"@), its[2]]);
    } else {
        assert(forms_view(out@) =~= head + Seq::<FormView>::empty());
    }
    let ghost with_path = forms_view(out@);
    let ghost ov = forms_view(options@);
    push_default(&mut out, &options, "note", Form::Symbol(String::from_str("c3")));
    push_default(&mut out, &options, "gate", Form::Number(String::from_str("1")));
    push_default(&mut out, &options, "dur", Form::Number(String::from_str("1")));
    push_default(&mut out, &options, "amp", Form::Number(String::from_str("1")));
    assert(forms_view(out@) =~= with_path + sample_defaults(ov));
    let names: Vec<&str> = vec!["sample-data", "sample_data", "sample", "sample-path", "sample_path"];
    assert(str_views(names@) =~= sample_source_keys());
    if inline && !track_options_contain_any(options.as_slice(), names.as_slice()) {
        return Err(String::from_str("sample requires a wav path or :sample-data"));
    }
    let ghost a = out@;
    let mut rest = copy_forms(&options);
    let ghost b = rest@;
    out.append(&mut rest);
    proof {
        lemma_views_concat(a, b);
    }
    Ok(out)
}

} // verus!

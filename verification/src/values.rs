use vstd::prelude::*;
use crate::forms::{Form, FormView, form_view, forms_view};
use crate::gate_forms::{find_reading, reading_of, same, Reading};
use crate::options::{lemma_forms_view_index, lemma_forms_view_len};
use crate::model::{spec_waveform_named, waveform_named, Waveform};
use crate::text::{contains_str, str_eq, str_views};

verus! {

/// The keyword at `index` of a form's items, or the error naming `form`.
pub open spec fn spec_keyword_arg(items: Seq<FormView>, index: int, form: Seq<char>) -> Result<
    Seq<char>,
    Seq<char>,
> {
    if 0 <= index < items.len() && items[index] is Keyword {
        Ok(items[index]->Keyword_0)
    } else {
        Err(form + " requires a keyword argument"@)
    }
}

/// Reads the keyword argument at `index` (its name, without the colon).
pub fn keyword_arg(items: &[Form], index: usize, form: &str) -> (r: Result<String, String>)
    ensures
        match spec_keyword_arg(forms_view(items@), index as int, form@) {
            Ok(k) => r matches Ok(x) && x@ == k,
            Err(m) => r matches Err(e) && e@ == m,
        },
{
    proof {
        lemma_forms_view_len(items@);
    }
    if index < items.len() {
        proof {
            lemma_forms_view_index(items@, index as int);
        }
        match &items[index] {
            Form::Keyword(v) => {
                return Ok(v.clone());
            },
            _ => {},
        }
    }
    let mut m = String::from_str(form);
    m.append(" requires a keyword argument");
    Err(m)
}

/// The text of a string form.
pub open spec fn spec_string_value(f: FormView) -> Result<Seq<char>, Seq<char>> {
    match f {
        FormView::Str(s) => Ok(s),
        _ => Err("expected string"@),
    }
}

/// Reads a string form's text.
pub fn string_value(f: &Form) -> (r: Result<&str, String>)
    ensures
        match spec_string_value(form_view(*f)) {
            Ok(s) => r matches Ok(x) && x@ == s,
            Err(m) => r matches Err(e) && e@ == m,
        },
{
    match f {
        Form::Str(s) => Ok(s.as_str()),
        _ => Err(String::from_str("expected string")),
    }
}

/// The truth a form stands for: `true`, `false`, or a number (true unless
/// it is zero).
pub open spec fn spec_bool_value(f: FormView, rs: Seq<Reading>, name: Seq<char>) -> Result<
    bool,
    Seq<char>,
> {
    match f {
        FormView::Symbol(s) => if s == "true"@ {
            Ok(true)
        } else if s == "false"@ {
            Ok(false)
        } else {
            Err(name + " must be true or false"@)
        },
        FormView::Number(t) => Ok(reading_of(rs, t).bit != Some(false)),
        _ => Err(name + " must be true or false"@),
    }
}

/// Reads a form as a truth value; `name` goes into the error.
pub fn bool_value(f: &Form, rs: &[Reading], name: &str) -> (r: Result<bool, String>)
    ensures
        same(r, spec_bool_value(form_view(*f), rs@, name@)),
{
    match f {
        Form::Symbol(s) => {
            if str_eq(s.as_str(), "true") {
                return Ok(true);
            }
            if str_eq(s.as_str(), "false") {
                return Ok(false);
            }
        },
        Form::Number(t) => {
            return match find_reading(rs, t.as_str()) {
                Some(i) => Ok(!matches!(rs[i].bit, Some(false))),
                None => Ok(true),
            };
        },
        _ => {},
    }
    let mut m = String::from_str(name);
    m.append(" must be true or false");
    Err(m)
}

/// What a scene's `:loop` value gives: only a true value is accepted.
pub open spec fn spec_loop_true_value(f: FormView, rs: Seq<Reading>) -> Result<(), Seq<char>> {
    match spec_bool_value(f, rs, "loop"@) {
        Ok(true) => Ok(()),
        Ok(false) => Err("scene :loop only accepts true; use :repeat N for finite scenes"@),
        Err(e) => Err(e),
    }
}

/// Checks a scene's `:loop` value, which can only be true.
pub fn loop_true_value(f: &Form, rs: &[Reading]) -> (r: Result<(), String>)
    ensures
        same(r, spec_loop_true_value(form_view(*f), rs@)),
{
    if bool_value(f, rs, "loop")? {
        Ok(())
    } else {
        Err(String::from_str("scene :loop only accepts true; use :repeat N for finite scenes"))
    }
}

/// Whether one of the keys (the items at even positions) of a list of
/// options is the keyword `key`.
pub open spec fn options_contain(options: Seq<FormView>, key: Seq<char>) -> bool {
    exists|i: int| 0 <= i < options.len() && i % 2 == 0 && #[trigger] options[i] == FormView::Keyword(key)
}

/// Whether the options name the key `key`.
pub fn track_options_contain(options: &[Form], key: &str) -> (r: bool)
    ensures
        r == options_contain(forms_view(options@), key@),
{
    let ghost os = forms_view(options@);
    proof {
        lemma_forms_view_len(options@);
    }
    let mut i: usize = 0;
    while i < options.len()
        invariant
            i <= options@.len(),
            os == forms_view(options@),
            os.len() == options@.len(),
            forall|j: int| 0 <= j < i && j % 2 == 0 ==> #[trigger] os[j] != FormView::Keyword(key@),
        decreases options@.len() - i,
    {
        proof {
            lemma_forms_view_index(options@, i as int);
        }
        if i % 2 == 0 {
            match &options[i] {
                Form::Keyword(n) => {
                    if str_eq(n.as_str(), key) {
                        return true;
                    }
                },
                _ => {},
            }
        }
        i = i + 1;
    }
    false
}

/// Whether one of the keys of a list of options is a keyword named in
/// `keys`.
pub open spec fn options_contain_any(options: Seq<FormView>, keys: Seq<Seq<char>>) -> bool {
    exists|i: int|
        0 <= i < options.len() && i % 2 == 0 && #[trigger] options[i] is Keyword && keys.contains(
            options[i]->Keyword_0,
        )
}

/// Whether the options name any of `keys`.
pub fn track_options_contain_any(options: &[Form], keys: &[&str]) -> (r: bool)
    ensures
        r == options_contain_any(forms_view(options@), str_views(keys@)),
{
    let ghost os = forms_view(options@);
    proof {
        lemma_forms_view_len(options@);
    }
    let mut i: usize = 0;
    while i < options.len()
        invariant
            i <= options@.len(),
            os == forms_view(options@),
            os.len() == options@.len(),
            forall|j: int|
                0 <= j < i && j % 2 == 0 ==> !(#[trigger] os[j] is Keyword
                    && str_views(keys@).contains(os[j]->Keyword_0)),
        decreases options@.len() - i,
    {
        proof {
            lemma_forms_view_index(options@, i as int);
        }
        if i % 2 == 0 {
            match &options[i] {
                Form::Keyword(n) => {
                    if contains_str(keys, n.as_str()) {
                        return true;
                    }
                },
                _ => {},
            }
        }
        i = i + 1;
    }
    false
}

/// The source a track's `:src` form names: a keyword or a symbol naming a
/// source (see `spec_waveform_named`).
pub open spec fn spec_waveform(f: FormView) -> Result<Waveform, Seq<char>> {
    match f {
        FormView::Keyword(n) | FormView::Symbol(n) => match spec_waveform_named(n) {
            Some(w) => Ok(w),
            None => Err("unsupported source ':"@ + n + "'"@),
        },
        _ => Err("source must be a keyword"@),
    }
}

/// Reads the source of a track's `:src` form.
pub fn waveform(f: &Form) -> (r: Result<Waveform, String>)
    ensures
        match spec_waveform(form_view(*f)) {
            Ok(w) => r == Ok::<Waveform, String>(w),
            Err(m) => r matches Err(e) && e@ == m,
        },
{
    match f {
        Form::Keyword(n) => waveform_named(n.as_str()),
        Form::Symbol(n) => waveform_named(n.as_str()),
        _ => Err(String::from_str("source must be a keyword")),
    }
}

} // verus!

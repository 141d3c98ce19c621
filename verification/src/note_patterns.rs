use vstd::prelude::*;
use crate::arith::{decimal, push_decimal};
use crate::forms::{Form, FormView, form_view, forms_view};
use crate::gate_forms::{
    find_reading, positive_usize_value, reading_of, spec_positive_usize_value, spec_usize_value,
    usize_value, Reading,
};
use crate::language::{
    bounded_usize_value, numeric_pattern_form, numeric_pattern_mode, spec_numeric_pattern_form,
    spec_numeric_pattern_mode,
};
use crate::model::{EffectParamPatternMode, NoteMode};
use crate::notes::{note_number, spec_note_number};
use crate::options::{lemma_forms_view_index, lemma_forms_view_len};
use crate::patterns::repeat_seq;
use crate::text::str_eq;

verus! {

broadcast use vstd::seq_lib::group_seq_properties;

/// One value of a note or number pattern: a number, kept as its literal,
/// or a note, by its number (see `spec_note_number`).
#[derive(Clone, Debug, PartialEq)]
pub enum PatternValue {
    Number(String),
    Note(i64),
}

/// A pattern value as plain values.
pub ghost enum ValueView {
    Number(Seq<char>),
    Note(i64),
}

impl PatternValue {
    pub open spec fn view(&self) -> ValueView {
        match self {
            PatternValue::Number(t) => ValueView::Number(t@),
            PatternValue::Note(n) => ValueView::Note(*n),
        }
    }

    /// A copy of the value.
    pub fn duplicate(&self) -> (r: PatternValue)
        ensures
            r.view() == self.view(),
    {
        match self {
            PatternValue::Number(t) => PatternValue::Number(t.clone()),
            PatternValue::Note(n) => PatternValue::Note(*n),
        }
    }
}

/// The plain values of a list of pattern values.
pub open spec fn values_view(v: Seq<PatternValue>) -> Seq<ValueView> {
    v.map_values(|x: PatternValue| x.view())
}

/// The plain values of a list of chords.
pub open spec fn chords_view(c: Seq<Vec<PatternValue>>) -> Seq<Seq<ValueView>> {
    c.map_values(|v: Vec<PatternValue>| values_view(v@))
}

/// The value a form stands for where a note or a number is expected: a
/// number, a note name, or a vector of exactly one of them.
pub open spec fn spec_number_value(f: FormView) -> Result<ValueView, Seq<char>>
    decreases f,
{
    match f {
        FormView::Number(t) => Ok(ValueView::Number(t)),
        FormView::Symbol(n) => match spec_note_number(n) {
            Some(m) => Ok(ValueView::Note(m as i64)),
            None => Err("unknown symbol '"@ + n + "'"@),
        },
        FormView::Vector(vs) => if vs.len() == 1 {
            spec_number_value(vs[0])
        } else {
            Err("expected one number or note, got vector with "@ + decimal(vs.len()) + " values"@)
        },
        _ => Err("expected number or note"@),
    }
}

/// Whether a value result is the one a spec result names.
pub open spec fn same_value(r: Result<PatternValue, String>, s: Result<ValueView, Seq<char>>) -> bool {
    match s {
        Ok(v) => r matches Ok(x) && x.view() == v,
        Err(m) => r matches Err(e) && e@ == m,
    }
}

/// Reads a note or a number (see `spec_number_value`).
pub fn number_value(f: &Form) -> (r: Result<PatternValue, String>)
    ensures
        same_value(r, spec_number_value(form_view(*f))),
    decreases f,
{
    match f {
        Form::Number(t) => Ok(PatternValue::Number(t.clone())),
        Form::Symbol(n) => match note_number(n.as_str()) {
            Some(m) => Ok(PatternValue::Note(m)),
            None => {
                let mut e = String::from_str("unknown symbol '");
                e.append(n.as_str());
                e.append("'");
                Err(e)
            },
        },
        Form::Vector(vs) => {
            proof {
                lemma_forms_view_len(vs@);
            }
            if vs.len() == 1 {
                proof {
                    lemma_forms_view_index(vs@, 0);
                }
                assert(decreases_to!(vs => vs@[0]));
                number_value(&vs[0])
            } else {
                let mut e = String::from_str("expected one number or note, got vector with ");
                push_decimal(&mut e, vs.len());
                e.append(" values");
                Err(e)
            }
        },
        _ => Err(String::from_str("expected number or note")),
    }
}

/// The number a form stands for where only a number is expected.
pub open spec fn spec_numeric_only(f: FormView) -> Result<ValueView, Seq<char>> {
    match f {
        FormView::Number(t) => Ok(ValueView::Number(t)),
        _ => Err("expected numeric pattern value"@),
    }
}

/// Reads a number where only a number is expected.
pub fn numeric_only(f: &Form) -> (r: Result<PatternValue, String>)
    ensures
        same_value(r, spec_numeric_only(form_view(*f))),
{
    match f {
        Form::Number(t) => Ok(PatternValue::Number(t.clone())),
        _ => Err(String::from_str("expected numeric pattern value")),
    }
}

/// A value of a note pattern (`notes`) or of a number pattern.
pub open spec fn spec_pattern_value(f: FormView, notes: bool) -> Result<ValueView, Seq<char>> {
    if notes {
        spec_number_value(f)
    } else {
        spec_numeric_only(f)
    }
}

fn pattern_value(f: &Form, notes: bool) -> (r: Result<PatternValue, String>)
    ensures
        same_value(r, spec_pattern_value(form_view(*f), notes)),
{
    if notes {
        number_value(f)
    } else {
        numeric_only(f)
    }
}

/// The values of the forms of a vector, in order; the first error stops
/// the reading.
pub open spec fn spec_values_of(vs: Seq<FormView>, notes: bool) -> Result<Seq<ValueView>, Seq<char>>
    decreases vs.len(),
{
    if vs.len() == 0 {
        Ok(Seq::empty())
    } else {
        match spec_values_of(vs.drop_last(), notes) {
            Err(e) => Err(e),
            Ok(prev) => match spec_pattern_value(vs.last(), notes) {
                Err(e) => Err(e),
                Ok(v) => Ok(prev.push(v)),
            },
        }
    }
}

proof fn lemma_values_err_stays(vs: Seq<FormView>, notes: bool, j: int, m: Seq<char>)
    requires
        0 <= j <= vs.len(),
        spec_values_of(vs.subrange(0, j), notes) == Err::<Seq<ValueView>, Seq<char>>(m),
    ensures
        spec_values_of(vs, notes) == Err::<Seq<ValueView>, Seq<char>>(m),
    decreases vs.len(),
{
    if j < vs.len() {
        assert(vs.drop_last().subrange(0, j) =~= vs.subrange(0, j));
        lemma_values_err_stays(vs.drop_last(), notes, j, m);
    } else {
        assert(vs.subrange(0, j) =~= vs);
    }
}

/// Whether a values result is the one a spec result names.
pub open spec fn same_values(r: Result<Vec<PatternValue>, String>, s: Result<Seq<ValueView>, Seq<char>>) -> bool {
    match s {
        Ok(v) => r matches Ok(x) && values_view(x@) == v,
        Err(m) => r matches Err(e) && e@ == m,
    }
}

/// Reads the values of the forms of a vector (see `spec_values_of`).
pub fn values_of(values: &Vec<Form>, notes: bool) -> (r: Result<Vec<PatternValue>, String>)
    ensures
        same_values(r, spec_values_of(forms_view(values@), notes)),
{
    let ghost vs = forms_view(values@);
    proof {
        lemma_forms_view_len(values@);
    }
    let mut out: Vec<PatternValue> = Vec::new();
    let mut i: usize = 0;
    assert(vs.subrange(0, 0) =~= Seq::<FormView>::empty());
    assert(values_view(out@) =~= Seq::<ValueView>::empty());
    while i < values.len()
        invariant
            i <= values@.len(),
            vs == forms_view(values@),
            vs.len() == values@.len(),
            spec_values_of(vs.subrange(0, i as int), notes) == Ok::<Seq<ValueView>, Seq<char>>(
                values_view(out@),
            ),
        decreases values@.len() - i,
    {
        proof {
            lemma_forms_view_index(values@, i as int);
            assert(vs.subrange(0, i + 1).drop_last() =~= vs.subrange(0, i as int));
        }
        let v = match pattern_value(&values[i], notes) {
            Ok(v) => v,
            Err(e) => {
                proof {
                    lemma_values_err_stays(vs, notes, i + 1, e@);
                }
                return Err(e);
            },
        };
        let ghost before = out@;
        out.push(v);
        assert(values_view(out@) =~= values_view(before).push(v.view()));
        i = i + 1;
    }
    assert(vs.subrange(0, vs.len() as int) =~= vs);
    Ok(out)
}

/// The chords of the values of a note vector: a vector inside it is one
/// chord of its notes, any other value a chord of one.
pub open spec fn spec_chords_from_values(vs: Seq<FormView>) -> Result<Seq<Seq<ValueView>>, Seq<char>>
    decreases vs.len(),
{
    if vs.len() == 0 {
        Ok(Seq::empty())
    } else {
        match spec_chords_from_values(vs.drop_last()) {
            Err(e) => Err(e),
            Ok(prev) => match vs.last() {
                FormView::Vector(notes) => match spec_values_of(notes, true) {
                    Err(e) => Err(e),
                    Ok(c) => Ok(prev.push(c)),
                },
                _ => match spec_number_value(vs.last()) {
                    Err(e) => Err(e),
                    Ok(v) => Ok(prev.push(seq![v])),
                },
            },
        }
    }
}

proof fn lemma_chords_err_stays(vs: Seq<FormView>, j: int, m: Seq<char>)
    requires
        0 <= j <= vs.len(),
        spec_chords_from_values(vs.subrange(0, j)) == Err::<Seq<Seq<ValueView>>, Seq<char>>(m),
    ensures
        spec_chords_from_values(vs) == Err::<Seq<Seq<ValueView>>, Seq<char>>(m),
    decreases vs.len(),
{
    if j < vs.len() {
        assert(vs.drop_last().subrange(0, j) =~= vs.subrange(0, j));
        lemma_chords_err_stays(vs.drop_last(), j, m);
    } else {
        assert(vs.subrange(0, j) =~= vs);
    }
}

/// Whether a chords result is the one a spec result names.
pub open spec fn same_chords(r: Result<Vec<Vec<PatternValue>>, String>, s: Result<Seq<Seq<ValueView>>, Seq<char>>) -> bool {
    match s {
        Ok(v) => r matches Ok(x) && chords_view(x@) == v,
        Err(m) => r matches Err(e) && e@ == m,
    }
}

/// Reads the chords of a note vector (see `spec_chords_from_values`).
pub fn note_chords_from_values(values: &Vec<Form>) -> (r: Result<Vec<Vec<PatternValue>>, String>)
    ensures
        same_chords(r, spec_chords_from_values(forms_view(values@))),
{
    let ghost vs = forms_view(values@);
    proof {
        lemma_forms_view_len(values@);
    }
    let mut out: Vec<Vec<PatternValue>> = Vec::new();
    let mut i: usize = 0;
    assert(vs.subrange(0, 0) =~= Seq::<FormView>::empty());
    assert(chords_view(out@) =~= Seq::<Seq<ValueView>>::empty());
    while i < values.len()
        invariant
            i <= values@.len(),
            vs == forms_view(values@),
            vs.len() == values@.len(),
            spec_chords_from_values(vs.subrange(0, i as int)) == Ok::<Seq<Seq<ValueView>>, Seq<char>>(
                chords_view(out@),
            ),
        decreases values@.len() - i,
    {
        proof {
            lemma_forms_view_index(values@, i as int);
            assert(vs.subrange(0, i + 1).drop_last() =~= vs.subrange(0, i as int));
            assert(vs.subrange(0, i + 1).last() == vs[i as int]);
        }
        let chord: Result<Vec<PatternValue>, String> = match &values[i] {
            Form::Vector(notes) => values_of(notes, true),
            _ => match number_value(&values[i]) {
                Ok(v) => {
                    let ghost vv = v.view();
                    let c = vec![v];
                    assert(values_view(c@) =~= seq![vv]);
                    Ok(c)
                },
                Err(e) => Err(e),
            },
        };
        let c = match chord {
            Ok(c) => c,
            Err(e) => {
                proof {
                    lemma_chords_err_stays(vs, i + 1, e@);
                }
                return Err(e);
            },
        };
        let ghost before = out@;
        let ghost cv = values_view(c@);
        out.push(c);
        assert(chords_view(out@) =~= chords_view(before).push(cv));
        i = i + 1;
    }
    assert(vs.subrange(0, vs.len() as int) =~= vs);
    Ok(out)
}

/// All the values of a list of chords, chord after chord.
pub fn flatten_note_chords(chords: &Vec<Vec<PatternValue>>) -> (r: Vec<PatternValue>)
    ensures
        values_view(r@) == chords_view(chords@).flatten(),
{
    let mut out: Vec<PatternValue> = Vec::new();
    let mut i: usize = 0;
    assert(chords_view(chords@).subrange(0, 0).flatten() =~= Seq::<ValueView>::empty());
    while i < chords.len()
        invariant
            i <= chords@.len(),
            values_view(out@) == chords_view(chords@).subrange(0, i as int).flatten(),
        decreases chords@.len() - i,
    {
        let ghost before = values_view(out@);
        let c = &chords[i];
        let mut j: usize = 0;
        while j < c.len()
            invariant
                j <= c@.len(),
                values_view(out@) == before + values_view(c@).subrange(0, j as int),
            decreases c@.len() - j,
        {
            let ghost b2 = out@;
            out.push(c[j].duplicate());
            assert(values_view(out@) =~= values_view(b2).push(c@[j as int].view()));
            assert(values_view(c@).subrange(0, j + 1) =~= values_view(c@).subrange(0, j as int).push(
                c@[j as int].view(),
            ));
            j = j + 1;
        }
        proof {
            let cv = chords_view(chords@);
            assert(values_view(c@).subrange(0, c@.len() as int) =~= values_view(c@));
            assert(cv[i as int] == values_view(c@));
            assert(cv.subrange(0, i + 1) =~= cv.subrange(0, i as int).push(values_view(c@)));
            cv.subrange(0, i as int).lemma_flatten_push(values_view(c@));
        }
        i = i + 1;
    }
    assert(chords_view(chords@).subrange(0, chords@.len() as int) =~= chords_view(chords@));
    out
}

/// The chords of a chord pattern: a vector of notes and chords, `(times N
/// X)`, `(then X Y ..)`, `(rev X)`/`(reverse X)`, or a wrapping form around
/// one pattern. `name` names the form in errors.
pub open spec fn spec_chord_pattern(f: FormView, name: Seq<char>, rs: Seq<Reading>) -> Result<
    Seq<Seq<ValueView>>,
    Seq<char>,
>
    decreases f,
{
    match f {
        FormView::Vector(values) => spec_chords_from_values(values),
        FormView::List(items) => if !(items.len() > 0 && items[0] is Symbol) {
            Err(name + " requires a vector"@)
        } else {
            let form_name = items[0]->Symbol_0;
            if form_name == "times"@ {
                if items.len() < 2 {
                    Err("times requires a count"@)
                } else if items.len() < 3 {
                    Err("times requires a pattern"@)
                } else if items.len() > 3 {
                    Err("times expects count and one pattern"@)
                } else {
                    match spec_positive_usize_value(items[1], rs, "times"@) {
                        Err(e) => Err(e),
                        Ok(n) => match spec_chord_pattern(items[2], "times"@, rs) {
                            Err(e) => Err(e),
                            Ok(p) => Ok(repeat_seq(p, n as nat)),
                        },
                    }
                }
            } else if form_name == "then"@ {
                if items.len() < 3 {
                    Err("then expects at least two patterns"@)
                } else {
                    spec_chord_then(items.subrange(1, items.len() as int), rs)
                }
            } else if form_name == "rev"@ || form_name == "reverse"@ {
                if items.len() > 2 {
                    Err("reverse expects one pattern"@)
                } else if items.len() < 2 {
                    Err("reverse requires a pattern"@)
                } else {
                    match spec_chord_pattern(items[1], "reverse"@, rs) {
                        Err(e) => Err(e),
                        Ok(c) => Ok(c.reverse()),
                    }
                }
            } else if spec_numeric_pattern_form(form_name) {
                spec_chord_wrapped(items, form_name, rs)
            } else {
                Err(name + " requires a vector"@)
            }
        },
        _ => Err(name + " requires a vector"@),
    }
}

/// The chords of a wrapping form `(name X)` around one pattern.
pub open spec fn spec_chord_wrapped(items: Seq<FormView>, name: Seq<char>, rs: Seq<Reading>) -> Result<
    Seq<Seq<ValueView>>,
    Seq<char>,
>
    decreases items,
{
    if items.len() > 2 {
        Err(name + " expects one vector"@)
    } else if items.len() < 2 {
        Err(name + " requires a vector"@)
    } else {
        spec_chord_pattern(items[1], name, rs)
    }
}

/// The chords of the stages of a `then`, one stage after the other.
pub open spec fn spec_chord_then(stages: Seq<FormView>, rs: Seq<Reading>) -> Result<
    Seq<Seq<ValueView>>,
    Seq<char>,
>
    decreases stages,
{
    if stages.len() == 0 {
        Ok(Seq::empty())
    } else {
        match spec_chord_then(stages.drop_last(), rs) {
            Err(e) => Err(e),
            Ok(prev) => match spec_chord_pattern(stages.last(), "then"@, rs) {
                Err(e) => Err(e),
                Ok(c) => Ok(prev + c),
            },
        }
    }
}

proof fn lemma_chord_then_err_stays(vs: Seq<FormView>, rs: Seq<Reading>, j: int, m: Seq<char>)
    requires
        0 <= j <= vs.len(),
        spec_chord_then(vs.subrange(0, j), rs) == Err::<Seq<Seq<ValueView>>, Seq<char>>(m),
    ensures
        spec_chord_then(vs, rs) == Err::<Seq<Seq<ValueView>>, Seq<char>>(m),
    decreases vs.len(),
{
    if j < vs.len() {
        assert(vs.drop_last().subrange(0, j) =~= vs.subrange(0, j));
        lemma_chord_then_err_stays(vs.drop_last(), rs, j, m);
    } else {
        assert(vs.subrange(0, j) =~= vs);
    }
}

fn copy_chord(c: &Vec<PatternValue>) -> (r: Vec<PatternValue>)
    ensures
        values_view(r@) == values_view(c@),
{
    let mut out: Vec<PatternValue> = Vec::new();
    let mut j: usize = 0;
    while j < c.len()
        invariant
            j <= c@.len(),
            values_view(out@) == values_view(c@).subrange(0, j as int),
        decreases c@.len() - j,
    {
        let ghost before = out@;
        out.push(c[j].duplicate());
        assert(values_view(out@) =~= values_view(before).push(c@[j as int].view()));
        assert(values_view(c@).subrange(0, j + 1) =~= values_view(c@).subrange(0, j as int).push(
            c@[j as int].view(),
        ));
        j = j + 1;
    }
    assert(values_view(c@).subrange(0, c@.len() as int) =~= values_view(c@));
    out
}

fn append_chords(out: &mut Vec<Vec<PatternValue>>, c: &Vec<Vec<PatternValue>>)
    ensures
        chords_view(final(out)@) == chords_view(old(out)@) + chords_view(c@),
{
    let ghost start = chords_view(out@);
    let mut i: usize = 0;
    while i < c.len()
        invariant
            i <= c@.len(),
            chords_view(out@) == start + chords_view(c@).subrange(0, i as int),
        decreases c@.len() - i,
    {
        let ghost before = out@;
        let x = copy_chord(&c[i]);
        let ghost xv = values_view(x@);
        out.push(x);
        assert(chords_view(out@) =~= chords_view(before).push(xv));
        assert(chords_view(c@).subrange(0, i + 1) =~= chords_view(c@).subrange(0, i as int).push(xv));
        i = i + 1;
    }
    assert(chords_view(c@).subrange(0, c@.len() as int) =~= chords_view(c@));
}

fn reversed_chords(c: Vec<Vec<PatternValue>>) -> (r: Vec<Vec<PatternValue>>)
    ensures
        chords_view(r@) == chords_view(c@).reverse(),
{
    let ghost orig = c@;
    let mut v = c;
    let mut out: Vec<Vec<PatternValue>> = Vec::new();
    while v.len() > 0
        invariant
            v@.len() + out@.len() == orig.len(),
            v@ == orig.subrange(0, v@.len() as int),
            out@ == orig.reverse().subrange(0, out@.len() as int),
        decreases v@.len(),
    {
        match v.pop() {
            Some(x) => {
                out.push(x);
            },
            None => {},
        }
        assert(out@ =~= orig.reverse().subrange(0, out@.len() as int));
    }
    assert(out@ =~= orig.reverse());
    assert(chords_view(out@) =~= chords_view(orig).reverse());
    out
}

/// Reads a chord pattern (see `spec_chord_pattern`).
pub fn note_chord_pattern_values(f: &Form, name: &str, rs: &[Reading]) -> (r: Result<
    Vec<Vec<PatternValue>>,
    String,
>)
    ensures
        same_chords(r, spec_chord_pattern(form_view(*f), name@, rs@)),
    decreases f,
{
    match f {
        Form::Vector(values) => note_chords_from_values(values),
        Form::List(items) => {
            proof {
                lemma_forms_view_len(items@);
            }
            let head: Option<&str> = if items.len() > 0 {
                proof {
                    lemma_forms_view_index(items@, 0);
                }
                match &items[0] {
                    Form::Symbol(s) => Some(s.as_str()),
                    _ => None,
                }
            } else {
                None
            };
            let form_name = match head {
                Some(h) => h,
                None => {
                    let mut m = String::from_str(name);
                    m.append(" requires a vector");
                    return Err(m);
                },
            };
            if str_eq(form_name, "times") {
                if items.len() < 2 {
                    return Err(String::from_str("times requires a count"));
                }
                if items.len() < 3 {
                    return Err(String::from_str("times requires a pattern"));
                }
                if items.len() > 3 {
                    return Err(String::from_str("times expects count and one pattern"));
                }
                proof {
                    lemma_forms_view_index(items@, 1);
                    lemma_forms_view_index(items@, 2);
                }
                let count = positive_usize_value(&items[1], rs, "times")?;
                assert(decreases_to!(items => items@[2]));
                let pattern = note_chord_pattern_values(&items[2], "times", rs)?;
                let ghost pv = chords_view(pattern@);
                let mut chords: Vec<Vec<PatternValue>> = Vec::new();
                let mut k: usize = 0;
                assert(chords_view(chords@) =~= repeat_seq(pv, 0));
                while k < count
                    invariant
                        k <= count,
                        pv == chords_view(pattern@),
                        chords_view(chords@) == repeat_seq(pv, k as nat),
                    decreases count - k,
                {
                    append_chords(&mut chords, &pattern);
                    k = k + 1;
                }
                Ok(chords)
            } else if str_eq(form_name, "then") {
                if items.len() < 3 {
                    return Err(String::from_str("then expects at least two patterns"));
                }
                chord_then(items, rs)
            } else if str_eq(form_name, "rev") || str_eq(form_name, "reverse") {
                if items.len() > 2 {
                    return Err(String::from_str("reverse expects one pattern"));
                }
                if items.len() < 2 {
                    return Err(String::from_str("reverse requires a pattern"));
                }
                proof {
                    lemma_forms_view_index(items@, 1);
                }
                assert(decreases_to!(items => items@[1]));
                let c = note_chord_pattern_values(&items[1], "reverse", rs)?;
                Ok(reversed_chords(c))
            } else if numeric_pattern_form(form_name) {
                note_chord_wrapped_pattern_values(items, form_name, rs)
            } else {
                let mut m = String::from_str(name);
                m.append(" requires a vector");
                Err(m)
            }
        },
        _ => {
            let mut m = String::from_str(name);
            m.append(" requires a vector");
            Err(m)
        },
    }
}

/// Reads the chords of a wrapping form around one pattern.
pub fn note_chord_wrapped_pattern_values(items: &Vec<Form>, name: &str, rs: &[Reading]) -> (r: Result<
    Vec<Vec<PatternValue>>,
    String,
>)
    ensures
        same_chords(r, spec_chord_wrapped(forms_view(items@), name@, rs@)),
    decreases items,
{
    proof {
        lemma_forms_view_len(items@);
    }
    if items.len() > 2 {
        let mut m = String::from_str(name);
        m.append(" expects one vector");
        return Err(m);
    }
    if items.len() < 2 {
        let mut m = String::from_str(name);
        m.append(" requires a vector");
        return Err(m);
    }
    proof {
        lemma_forms_view_index(items@, 1);
    }
    assert(decreases_to!(items => items@[1]));
    note_chord_pattern_values(&items[1], name, rs)
}

fn chord_then(items: &Vec<Form>, rs: &[Reading]) -> (r: Result<Vec<Vec<PatternValue>>, String>)
    requires
        items@.len() >= 1,
    ensures
        same_chords(r, spec_chord_then(forms_view(items@).subrange(1, items@.len() as int), rs@)),
    decreases items,
{
    let ghost its = forms_view(items@);
    proof {
        lemma_forms_view_len(items@);
    }
    let mut out: Vec<Vec<PatternValue>> = Vec::new();
    let mut i: usize = 1;
    assert(its.subrange(1, 1) =~= Seq::<FormView>::empty());
    assert(chords_view(out@) =~= Seq::<Seq<ValueView>>::empty());
    while i < items.len()
        invariant
            1 <= i <= items@.len(),
            its == forms_view(items@),
            its.len() == items@.len(),
            spec_chord_then(its.subrange(1, i as int), rs@) == Ok::<Seq<Seq<ValueView>>, Seq<char>>(
                chords_view(out@),
            ),
        decreases items@.len() - i,
    {
        proof {
            lemma_forms_view_index(items@, i as int);
            assert(its.subrange(1, i + 1).drop_last() =~= its.subrange(1, i as int));
            assert(its.subrange(1, i + 1).last() == its[i as int]);
        }
        assert(decreases_to!(items => items@[i as int]));
        let c = match note_chord_pattern_values(&items[i], "then", rs) {
            Ok(c) => c,
            Err(e) => {
                proof {
                    let vs = its.subrange(1, its.len() as int);
                    assert(vs.subrange(0, i as int) =~= its.subrange(1, i + 1));
                    lemma_chord_then_err_stays(vs, rs@, i as int, e@);
                }
                return Err(e);
            },
        };
        append_chords(&mut out, &c);
        i = i + 1;
    }
    Ok(out)
}

/// The values of a number (or note, `notes`) pattern: a vector of values,
/// `(times N X)`, `(then X Y ..)`, `(rev X)`/`(reverse X)`, or a wrapping
/// form around one pattern. `name` names the form in errors.
pub open spec fn spec_expanded_values(f: FormView, notes: bool, name: Seq<char>, rs: Seq<Reading>) -> Result<
    Seq<ValueView>,
    Seq<char>,
>
    decreases f,
{
    match f {
        FormView::Vector(values) => spec_values_of(values, notes),
        FormView::List(items) => if !(items.len() > 0 && items[0] is Symbol) {
            Err(name + " requires a vector"@)
        } else {
            let form_name = items[0]->Symbol_0;
            if form_name == "times"@ {
                if items.len() < 2 {
                    Err("times requires a count"@)
                } else if items.len() < 3 {
                    Err("times requires a pattern"@)
                } else if items.len() > 3 {
                    Err("times expects count and one pattern"@)
                } else {
                    match spec_positive_usize_value(items[1], rs, "times"@) {
                        Err(e) => Err(e),
                        Ok(n) => match spec_expanded_values(items[2], notes, "times"@, rs) {
                            Err(e) => Err(e),
                            Ok(p) => Ok(repeat_seq(p, n as nat)),
                        },
                    }
                }
            } else if form_name == "then"@ {
                if items.len() < 3 {
                    Err("then expects at least two patterns"@)
                } else {
                    spec_expanded_then(items.subrange(1, items.len() as int), notes, rs)
                }
            } else if form_name == "rev"@ || form_name == "reverse"@ {
                if items.len() > 2 {
                    Err("reverse expects one pattern"@)
                } else if items.len() < 2 {
                    Err("reverse requires a pattern"@)
                } else {
                    match spec_expanded_values(items[1], notes, "reverse"@, rs) {
                        Err(e) => Err(e),
                        Ok(v) => Ok(v.reverse()),
                    }
                }
            } else if spec_numeric_pattern_form(form_name) {
                spec_wrapped_values(items, notes, form_name, rs)
            } else {
                Err(name + " requires a vector"@)
            }
        },
        _ => Err(name + " requires a vector"@),
    }
}

/// The values of a wrapping form `(name X)` around one pattern.
pub open spec fn spec_wrapped_values(items: Seq<FormView>, notes: bool, name: Seq<char>, rs: Seq<Reading>) -> Result<
    Seq<ValueView>,
    Seq<char>,
>
    decreases items,
{
    if items.len() > 2 {
        Err(name + " expects one vector"@)
    } else if items.len() < 2 {
        Err(name + " requires a vector"@)
    } else {
        spec_expanded_values(items[1], notes, name, rs)
    }
}

/// The values of the stages of a `then`, one stage after the other.
pub open spec fn spec_expanded_then(stages: Seq<FormView>, notes: bool, rs: Seq<Reading>) -> Result<
    Seq<ValueView>,
    Seq<char>,
>
    decreases stages,
{
    if stages.len() == 0 {
        Ok(Seq::empty())
    } else {
        match spec_expanded_then(stages.drop_last(), notes, rs) {
            Err(e) => Err(e),
            Ok(prev) => match spec_expanded_values(stages.last(), notes, "then"@, rs) {
                Err(e) => Err(e),
                Ok(v) => Ok(prev + v),
            },
        }
    }
}

/// Whether a list is headed by a symbol that `p` accepts.
pub open spec fn headed_by(items: Seq<FormView>, p: spec_fn(Seq<char>) -> bool) -> bool {
    items.len() > 0 && items[0] is Symbol && p(items[0]->Symbol_0)
}

/// The values of a number (or note) parameter: a wrapping form, a reversed
/// pattern, a vector of values, or a single value.
pub open spec fn spec_number_pattern(f: FormView, notes: bool, rs: Seq<Reading>) -> Result<
    Seq<ValueView>,
    Seq<char>,
>
    decreases f,
{
    match f {
        FormView::List(items) => if headed_by(items, |n: Seq<char>| spec_numeric_pattern_form(n)) {
            spec_wrapped_values(items, notes, items[0]->Symbol_0, rs)
        } else if headed_by(items, |n: Seq<char>| n == "rev"@ || n == "reverse"@) {
            if items.len() > 2 {
                Err("reverse expects one pattern"@)
            } else if items.len() < 2 {
                Err("reverse requires a pattern"@)
            } else {
                match spec_number_pattern(items[1], notes, rs) {
                    Err(e) => Err(e),
                    Ok(v) => Ok(v.reverse()),
                }
            }
        } else {
            match spec_pattern_value(f, notes) {
                Err(e) => Err(e),
                Ok(v) => Ok(seq![v]),
            }
        },
        FormView::Vector(values) => spec_values_of(values, notes),
        _ => match spec_pattern_value(f, notes) {
            Err(e) => Err(e),
            Ok(v) => Ok(seq![v]),
        },
    }
}

proof fn lemma_expanded_then_err_stays(vs: Seq<FormView>, notes: bool, rs: Seq<Reading>, j: int, m: Seq<char>)
    requires
        0 <= j <= vs.len(),
        spec_expanded_then(vs.subrange(0, j), notes, rs) == Err::<Seq<ValueView>, Seq<char>>(m),
    ensures
        spec_expanded_then(vs, notes, rs) == Err::<Seq<ValueView>, Seq<char>>(m),
    decreases vs.len(),
{
    if j < vs.len() {
        assert(vs.drop_last().subrange(0, j) =~= vs.subrange(0, j));
        lemma_expanded_then_err_stays(vs.drop_last(), notes, rs, j, m);
    } else {
        assert(vs.subrange(0, j) =~= vs);
    }
}

fn append_values(out: &mut Vec<PatternValue>, v: &Vec<PatternValue>)
    ensures
        values_view(final(out)@) == values_view(old(out)@) + values_view(v@),
{
    let ghost start = values_view(out@);
    let mut i: usize = 0;
    while i < v.len()
        invariant
            i <= v@.len(),
            values_view(out@) == start + values_view(v@).subrange(0, i as int),
        decreases v@.len() - i,
    {
        let ghost before = out@;
        out.push(v[i].duplicate());
        assert(values_view(out@) =~= values_view(before).push(v@[i as int].view()));
        assert(values_view(v@).subrange(0, i + 1) =~= values_view(v@).subrange(0, i as int).push(
            v@[i as int].view(),
        ));
        i = i + 1;
    }
    assert(values_view(v@).subrange(0, v@.len() as int) =~= values_view(v@));
}

fn reversed_values(c: Vec<PatternValue>) -> (r: Vec<PatternValue>)
    ensures
        values_view(r@) == values_view(c@).reverse(),
{
    let ghost orig = c@;
    let mut v = c;
    let mut out: Vec<PatternValue> = Vec::new();
    while v.len() > 0
        invariant
            v@.len() + out@.len() == orig.len(),
            v@ == orig.subrange(0, v@.len() as int),
            out@ == orig.reverse().subrange(0, out@.len() as int),
        decreases v@.len(),
    {
        match v.pop() {
            Some(x) => {
                out.push(x);
            },
            None => {},
        }
        assert(out@ =~= orig.reverse().subrange(0, out@.len() as int));
    }
    assert(out@ =~= orig.reverse());
    assert(values_view(out@) =~= values_view(orig).reverse());
    out
}

fn requires_vector(name: &str) -> (r: String)
    ensures
        r@ == name@ + " requires a vector"@,
{
    let mut m = String::from_str(name);
    m.append(" requires a vector");
    m
}

/// Reads the values of a number (or note) pattern (see
/// `spec_expanded_values`).
pub fn expanded_pattern_values(f: &Form, notes: bool, name: &str, rs: &[Reading]) -> (r: Result<
    Vec<PatternValue>,
    String,
>)
    ensures
        same_values(r, spec_expanded_values(form_view(*f), notes, name@, rs@)),
    decreases f,
{
    match f {
        Form::Vector(values) => values_of(values, notes),
        Form::List(items) => {
            proof {
                lemma_forms_view_len(items@);
            }
            let head: Option<&str> = if items.len() > 0 {
                proof {
                    lemma_forms_view_index(items@, 0);
                }
                match &items[0] {
                    Form::Symbol(s) => Some(s.as_str()),
                    _ => None,
                }
            } else {
                None
            };
            let form_name = match head {
                Some(h) => h,
                None => {
                    return Err(requires_vector(name));
                },
            };
            if str_eq(form_name, "times") {
                if items.len() < 2 {
                    return Err(String::from_str("times requires a count"));
                }
                if items.len() < 3 {
                    return Err(String::from_str("times requires a pattern"));
                }
                if items.len() > 3 {
                    return Err(String::from_str("times expects count and one pattern"));
                }
                proof {
                    lemma_forms_view_index(items@, 1);
                    lemma_forms_view_index(items@, 2);
                }
                let count = positive_usize_value(&items[1], rs, "times")?;
                assert(decreases_to!(items => items@[2]));
                let pattern = expanded_pattern_values(&items[2], notes, "times", rs)?;
                let ghost pv = values_view(pattern@);
                let mut values: Vec<PatternValue> = Vec::new();
                let mut k: usize = 0;
                assert(values_view(values@) =~= repeat_seq(pv, 0));
                while k < count
                    invariant
                        k <= count,
                        pv == values_view(pattern@),
                        values_view(values@) == repeat_seq(pv, k as nat),
                    decreases count - k,
                {
                    append_values(&mut values, &pattern);
                    k = k + 1;
                }
                Ok(values)
            } else if str_eq(form_name, "then") {
                if items.len() < 3 {
                    return Err(String::from_str("then expects at least two patterns"));
                }
                expanded_then(items, notes, rs)
            } else if str_eq(form_name, "rev") || str_eq(form_name, "reverse") {
                if items.len() > 2 {
                    return Err(String::from_str("reverse expects one pattern"));
                }
                if items.len() < 2 {
                    return Err(String::from_str("reverse requires a pattern"));
                }
                proof {
                    lemma_forms_view_index(items@, 1);
                }
                assert(decreases_to!(items => items@[1]));
                let v = expanded_pattern_values(&items[1], notes, "reverse", rs)?;
                Ok(reversed_values(v))
            } else if numeric_pattern_form(form_name) {
                wrapped_pattern_values(items, notes, form_name, rs)
            } else {
                Err(requires_vector(name))
            }
        },
        _ => Err(requires_vector(name)),
    }
}

/// Reads the values of a wrapping form around one pattern.
pub fn wrapped_pattern_values(items: &Vec<Form>, notes: bool, name: &str, rs: &[Reading]) -> (r: Result<
    Vec<PatternValue>,
    String,
>)
    ensures
        same_values(r, spec_wrapped_values(forms_view(items@), notes, name@, rs@)),
    decreases items,
{
    proof {
        lemma_forms_view_len(items@);
    }
    if items.len() > 2 {
        let mut m = String::from_str(name);
        m.append(" expects one vector");
        return Err(m);
    }
    if items.len() < 2 {
        return Err(requires_vector(name));
    }
    proof {
        lemma_forms_view_index(items@, 1);
    }
    assert(decreases_to!(items => items@[1]));
    expanded_pattern_values(&items[1], notes, name, rs)
}

fn expanded_then(items: &Vec<Form>, notes: bool, rs: &[Reading]) -> (r: Result<Vec<PatternValue>, String>)
    requires
        items@.len() >= 1,
    ensures
        same_values(r, spec_expanded_then(forms_view(items@).subrange(1, items@.len() as int), notes, rs@)),
    decreases items,
{
    let ghost its = forms_view(items@);
    proof {
        lemma_forms_view_len(items@);
    }
    let mut out: Vec<PatternValue> = Vec::new();
    let mut i: usize = 1;
    assert(its.subrange(1, 1) =~= Seq::<FormView>::empty());
    assert(values_view(out@) =~= Seq::<ValueView>::empty());
    while i < items.len()
        invariant
            1 <= i <= items@.len(),
            its == forms_view(items@),
            its.len() == items@.len(),
            spec_expanded_then(its.subrange(1, i as int), notes, rs@) == Ok::<Seq<ValueView>, Seq<char>>(
                values_view(out@),
            ),
        decreases items@.len() - i,
    {
        proof {
            lemma_forms_view_index(items@, i as int);
            assert(its.subrange(1, i + 1).drop_last() =~= its.subrange(1, i as int));
            assert(its.subrange(1, i + 1).last() == its[i as int]);
        }
        assert(decreases_to!(items => items@[i as int]));
        let v = match expanded_pattern_values(&items[i], notes, "then", rs) {
            Ok(v) => v,
            Err(e) => {
                proof {
                    let vs = its.subrange(1, its.len() as int);
                    assert(vs.subrange(0, i as int) =~= its.subrange(1, i + 1));
                    lemma_expanded_then_err_stays(vs, notes, rs@, i as int, e@);
                }
                return Err(e);
            },
        };
        append_values(&mut out, &v);
        i = i + 1;
    }
    Ok(out)
}

/// Reads the values of a number (or note) parameter (see
/// `spec_number_pattern`).
pub fn number_pattern(f: &Form, notes: bool, rs: &[Reading]) -> (r: Result<Vec<PatternValue>, String>)
    ensures
        same_values(r, spec_number_pattern(form_view(*f), notes, rs@)),
    decreases f,
{
    match f {
        Form::List(items) => {
            proof {
                lemma_forms_view_len(items@);
            }
            let head: Option<&str> = if items.len() > 0 {
                proof {
                    lemma_forms_view_index(items@, 0);
                }
                match &items[0] {
                    Form::Symbol(s) => Some(s.as_str()),
                    _ => None,
                }
            } else {
                None
            };
            if let Some(h) = head {
                if numeric_pattern_form(h) {
                    return wrapped_pattern_values(items, notes, h, rs);
                }
                if str_eq(h, "rev") || str_eq(h, "reverse") {
                    if items.len() > 2 {
                        return Err(String::from_str("reverse expects one pattern"));
                    }
                    if items.len() < 2 {
                        return Err(String::from_str("reverse requires a pattern"));
                    }
                    proof {
                        lemma_forms_view_index(items@, 1);
                    }
                    assert(decreases_to!(items => items@[1]));
                    let v = number_pattern(&items[1], notes, rs)?;
                    return Ok(reversed_values(v));
                }
            }
            let v = pattern_value(f, notes)?;
            let ghost vv = v.view();
            let out = vec![v];
            assert(values_view(out@) =~= seq![vv]);
            Ok(out)
        },
        Form::Vector(values) => values_of(values, notes),
        _ => {
            let v = pattern_value(f, notes)?;
            let ghost vv = v.view();
            let out = vec![v];
            assert(values_view(out@) =~= seq![vv]);
            Ok(out)
        },
    }
}

/// The notes, chords and advance mode of chords read under mode `m`.
pub open spec fn with_mode(c: Result<Seq<Seq<ValueView>>, Seq<char>>, m: NoteMode) -> Result<
    (Seq<ValueView>, Seq<Seq<ValueView>>, NoteMode),
    Seq<char>,
> {
    match c {
        Err(e) => Err(e),
        Ok(c) => Ok((c.flatten(), c, m)),
    }
}

/// Notes that are no chords: each value its own chord, advancing every
/// step.
pub open spec fn single_notes(f: FormView, rs: Seq<Reading>) -> Result<
    (Seq<ValueView>, Seq<Seq<ValueView>>, NoteMode),
    Seq<char>,
> {
    match spec_number_pattern(f, true, rs) {
        Err(e) => Err(e),
        Ok(v) => Ok((v, v.map_values(|x: ValueView| seq![x]), NoteMode::Step)),
    }
}

/// The notes of a track: `(p X)` advances every step, `(s X)` every hit,
/// `(g X)` (or `gs`, `gate-seq`, `gate_seq`) every tick, each over the
/// chords of a chord pattern; `(rev X)`/`(reverse X)` plays the chords of
/// `X` backwards in its mode; a vector of notes and chords advances every
/// hit; anything else is a number pattern of single notes advancing every
/// step. Gives all the notes, the chords, and the mode.
pub open spec fn spec_note_pattern(f: FormView, rs: Seq<Reading>) -> Result<
    (Seq<ValueView>, Seq<Seq<ValueView>>, NoteMode),
    Seq<char>,
>
    decreases f,
{
    match f {
        FormView::List(items) => if headed_by(items, |n: Seq<char>| n == "p"@) {
            with_mode(spec_chord_wrapped(items, "p"@, rs), NoteMode::Step)
        } else if headed_by(items, |n: Seq<char>| n == "s"@) {
            with_mode(spec_chord_wrapped(items, "s"@, rs), NoteMode::Hit)
        } else if headed_by(
            items,
            |n: Seq<char>| n == "g"@ || n == "gs"@ || n == "gate-seq"@ || n == "gate_seq"@,
        ) {
            with_mode(spec_chord_wrapped(items, items[0]->Symbol_0, rs), NoteMode::Tick)
        } else if headed_by(items, |n: Seq<char>| n == "rev"@ || n == "reverse"@) {
            if items.len() > 2 {
                Err("reverse expects one pattern"@)
            } else if items.len() < 2 {
                Err("reverse requires a pattern"@)
            } else {
                match spec_note_pattern(items[1], rs) {
                    Err(e) => Err(e),
                    Ok((_, c, m)) => Ok((c.reverse().flatten(), c.reverse(), m)),
                }
            }
        } else {
            single_notes(f, rs)
        },
        FormView::Vector(values) => with_mode(spec_chords_from_values(values), NoteMode::Hit),
        _ => single_notes(f, rs),
    }
}

/// Whether a note pattern result is the one a spec result names.
pub open spec fn same_notes(
    r: Result<(Vec<PatternValue>, Vec<Vec<PatternValue>>, NoteMode), String>,
    s: Result<(Seq<ValueView>, Seq<Seq<ValueView>>, NoteMode), Seq<char>>,
) -> bool {
    match s {
        Ok((n, c, m)) => r matches Ok(x) && values_view(x.0@) == n && chords_view(x.1@) == c && x.2
            == m,
        Err(e) => r matches Err(x) && x@ == e,
    }
}

fn chords_with_mode(c: Result<Vec<Vec<PatternValue>>, String>, m: NoteMode) -> (r: Result<
    (Vec<PatternValue>, Vec<Vec<PatternValue>>, NoteMode),
    String,
>)
    ensures
        match c {
            Ok(x) => r matches Ok(y) && values_view(y.0@) == chords_view(x@).flatten() && chords_view(
                y.1@,
            ) == chords_view(x@) && y.2 == m,
            Err(e) => r == Err::<(Vec<PatternValue>, Vec<Vec<PatternValue>>, NoteMode), String>(e),
        },
{
    match c {
        Ok(x) => {
            let flat = flatten_note_chords(&x);
            Ok((flat, x, m))
        },
        Err(e) => Err(e),
    }
}

/// Reads the notes of a track (see `spec_note_pattern`).
pub fn note_pattern(f: &Form, rs: &[Reading]) -> (r: Result<
    (Vec<PatternValue>, Vec<Vec<PatternValue>>, NoteMode),
    String,
>)
    ensures
        same_notes(r, spec_note_pattern(form_view(*f), rs@)),
    decreases f,
{
    match f {
        Form::List(items) => {
            proof {
                lemma_forms_view_len(items@);
            }
            let head: Option<&str> = if items.len() > 0 {
                proof {
                    lemma_forms_view_index(items@, 0);
                }
                match &items[0] {
                    Form::Symbol(s) => Some(s.as_str()),
                    _ => None,
                }
            } else {
                None
            };
            if let Some(h) = head {
                if str_eq(h, "p") {
                    return chords_with_mode(
                        note_chord_wrapped_pattern_values(items, "p", rs),
                        NoteMode::Step,
                    );
                }
                if str_eq(h, "s") {
                    return chords_with_mode(
                        note_chord_wrapped_pattern_values(items, "s", rs),
                        NoteMode::Hit,
                    );
                }
                if str_eq(h, "g") || str_eq(h, "gs") || str_eq(h, "gate-seq") || str_eq(h, "gate_seq") {
                    return chords_with_mode(
                        note_chord_wrapped_pattern_values(items, h, rs),
                        NoteMode::Tick,
                    );
                }
                if str_eq(h, "rev") || str_eq(h, "reverse") {
                    if items.len() > 2 {
                        return Err(String::from_str("reverse expects one pattern"));
                    }
                    if items.len() < 2 {
                        return Err(String::from_str("reverse requires a pattern"));
                    }
                    proof {
                        lemma_forms_view_index(items@, 1);
                    }
                    assert(decreases_to!(items => items@[1]));
                    let (_, chords, mode) = note_pattern(&items[1], rs)?;
                    let rev = reversed_chords(chords);
                    let flat = flatten_note_chords(&rev);
                    return Ok((flat, rev, mode));
                }
            }
            single_note_values(f, rs)
        },
        Form::Vector(values) => chords_with_mode(note_chords_from_values(values), NoteMode::Hit),
        _ => single_note_values(f, rs),
    }
}

fn single_note_values(f: &Form, rs: &[Reading]) -> (r: Result<
    (Vec<PatternValue>, Vec<Vec<PatternValue>>, NoteMode),
    String,
>)
    ensures
        same_notes(r, single_notes(form_view(*f), rs@)),
{
    let values = number_pattern(f, true, rs)?;
    let ghost vv = values_view(values@);
    let mut chords: Vec<Vec<PatternValue>> = Vec::new();
    let mut i: usize = 0;
    while i < values.len()
        invariant
            i <= values@.len(),
            vv == values_view(values@),
            chords_view(chords@) == vv.subrange(0, i as int).map_values(|x: ValueView| seq![x]),
        decreases values@.len() - i,
    {
        let ghost before = chords@;
        let x = values[i].duplicate();
        let ghost xv = x.view();
        let c = vec![x];
        assert(values_view(c@) =~= seq![xv]);
        chords.push(c);
        assert(chords_view(chords@) =~= chords_view(before).push(seq![xv]));
        assert(vv.subrange(0, i + 1).map_values(|x: ValueView| seq![x]) =~= vv.subrange(
            0,
            i as int,
        ).map_values(|x: ValueView| seq![x]).push(seq![xv]));
        i = i + 1;
    }
    assert(vv.subrange(0, vv.len() as int) =~= vv);
    Ok((values, chords, NoteMode::Step))
}

/// The values of a parameter written as a pattern (a wrapping form, a
/// reversed pattern, or a vector), or none for a plain value; the caller
/// scales each value as the parameter needs.
pub open spec fn spec_numeric_param_pattern(f: FormView, rs: Seq<Reading>) -> Result<
    Option<Seq<ValueView>>,
    Seq<char>,
> {
    let is_pattern = match f {
        FormView::List(items) => headed_by(items, |n: Seq<char>| spec_numeric_pattern_form(n))
            || headed_by(items, |n: Seq<char>| n == "rev"@ || n == "reverse"@),
        FormView::Vector(_) => true,
        _ => false,
    };
    if is_pattern {
        match spec_number_pattern(f, false, rs) {
            Err(e) => Err(e),
            Ok(v) => Ok(Some(v)),
        }
    } else {
        Ok(None)
    }
}

fn is_param_pattern(f: &Form) -> (r: bool)
    ensures
        r == match form_view(*f) {
            FormView::List(items) => headed_by(items, |n: Seq<char>| spec_numeric_pattern_form(n))
                || headed_by(items, |n: Seq<char>| n == "rev"@ || n == "reverse"@),
            FormView::Vector(_) => true,
            _ => false,
        },
{
    match f {
        Form::List(items) => {
            proof {
                lemma_forms_view_len(items@);
            }
            if items.len() == 0 {
                return false;
            }
            proof {
                lemma_forms_view_index(items@, 0);
            }
            match &items[0] {
                Form::Symbol(n) => numeric_pattern_form(n.as_str()) || str_eq(n.as_str(), "rev")
                    || str_eq(n.as_str(), "reverse"),
                _ => false,
            }
        },
        Form::Vector(_) => true,
        _ => false,
    }
}

/// Reads a parameter's pattern, if it is written as one (see
/// `spec_numeric_param_pattern`).
pub fn numeric_param_pattern(f: &Form, rs: &[Reading]) -> (r: Result<Option<Vec<PatternValue>>, String>)
    ensures
        match spec_numeric_param_pattern(form_view(*f), rs@) {
            Ok(Some(v)) => r matches Ok(Some(x)) && values_view(x@) == v,
            Ok(None) => r matches Ok(None),
            Err(m) => r matches Err(e) && e@ == m,
        },
{
    if is_param_pattern(f) {
        let v = number_pattern(f, false, rs)?;
        Ok(Some(v))
    } else {
        Ok(None)
    }
}

/// The advance mode and values of an effect parameter written as a pattern:
/// `p` steps, `s` hits, `g` and its kin follow gates; a reversed pattern
/// or a vector steps; anything else is no pattern.
pub open spec fn spec_numeric_effect_param_pattern(f: FormView, rs: Seq<Reading>) -> Result<
    Option<(EffectParamPatternMode, Seq<ValueView>)>,
    Seq<char>,
> {
    let mode: Option<EffectParamPatternMode> = match f {
        FormView::List(items) => if items.len() > 0 && items[0] is Symbol {
            match spec_numeric_pattern_mode(items[0]->Symbol_0) {
                Some(m) => Some(m),
                None => if items[0]->Symbol_0 == "rev"@ || items[0]->Symbol_0 == "reverse"@ {
                    Some(EffectParamPatternMode::Step)
                } else {
                    None
                },
            }
        } else {
            None
        },
        FormView::Vector(_) => Some(EffectParamPatternMode::Step),
        _ => None,
    };
    match mode {
        None => Ok(None),
        Some(m) => match spec_number_pattern(f, false, rs) {
            Err(e) => Err(e),
            Ok(v) => Ok(Some((m, v))),
        },
    }
}

/// Reads an effect parameter's pattern, if it is written as one (see
/// `spec_numeric_effect_param_pattern`).
pub fn numeric_effect_param_pattern(f: &Form, rs: &[Reading]) -> (r: Result<
    Option<(EffectParamPatternMode, Vec<PatternValue>)>,
    String,
>)
    ensures
        match spec_numeric_effect_param_pattern(form_view(*f), rs@) {
            Ok(Some((m, v))) => r matches Ok(Some(x)) && x.0 == m && values_view(x.1@) == v,
            Ok(None) => r matches Ok(None),
            Err(m) => r matches Err(e) && e@ == m,
        },
{
    let mode: Option<EffectParamPatternMode> = match f {
        Form::List(items) => {
            proof {
                lemma_forms_view_len(items@);
            }
            if items.len() == 0 {
                None
            } else {
                proof {
                    lemma_forms_view_index(items@, 0);
                }
                match &items[0] {
                    Form::Symbol(n) => match numeric_pattern_mode(n.as_str()) {
                        Some(m) => Some(m),
                        None => if str_eq(n.as_str(), "rev") || str_eq(n.as_str(), "reverse") {
                            Some(EffectParamPatternMode::Step)
                        } else {
                            None
                        },
                    },
                    _ => None,
                }
            }
        },
        Form::Vector(_) => Some(EffectParamPatternMode::Step),
        _ => None,
    };
    match mode {
        None => Ok(None),
        Some(m) => {
            let v = number_pattern(f, false, rs)?;
            Ok(Some((m, v)))
        },
    }
}

/// A whole-number parameter: a pattern of values, or one value.
pub enum UsizeParam {
    Pattern(Vec<usize>),
    Scalar(usize),
}

/// A whole-number parameter as plain values.
pub ghost enum UsizeParamView {
    Pattern(Seq<usize>),
    Scalar(usize),
}

impl UsizeParam {
    pub open spec fn view(&self) -> UsizeParamView {
        match self {
            UsizeParam::Pattern(v) => UsizeParamView::Pattern(v@),
            UsizeParam::Scalar(n) => UsizeParamView::Scalar(*n),
        }
    }
}

/// The message for a whole number outside `min..=max`.
pub open spec fn bounded_message(name: Seq<char>, min: usize, max: usize, value: usize) -> Seq<char> {
    name + " must be between "@ + decimal(min as nat) + " and "@ + decimal(max as nat) + ", got "@
        + decimal(value as nat)
}

/// A pattern value read as a whole number within `min..=max`.
pub open spec fn bounded_value(v: ValueView, rs: Seq<Reading>, min: usize, max: usize, name: Seq<char>) -> Result<
    usize,
    Seq<char>,
> {
    let whole = match v {
        ValueView::Number(t) => reading_of(rs, t).whole,
        ValueView::Note(_) => None,
    };
    match whole {
        None => Err(name + " must be a non-negative integer"@),
        Some(n) => if min <= n <= max {
            Ok(n)
        } else {
            Err(bounded_message(name, min, max, n))
        },
    }
}

/// The whole numbers of a pattern's values, in order, the first error
/// stopping the reading.
pub open spec fn bounded_values(vs: Seq<ValueView>, rs: Seq<Reading>, min: usize, max: usize, name: Seq<char>) -> Result<
    Seq<usize>,
    Seq<char>,
>
    decreases vs.len(),
{
    if vs.len() == 0 {
        Ok(Seq::empty())
    } else {
        match bounded_values(vs.drop_last(), rs, min, max, name) {
            Err(e) => Err(e),
            Ok(prev) => match bounded_value(vs.last(), rs, min, max, name) {
                Err(e) => Err(e),
                Ok(n) => Ok(prev.push(n)),
            },
        }
    }
}

/// A whole-number parameter within `min..=max`: a pattern of such numbers,
/// each error of the pattern prefixed by `:name `, or one such number.
pub open spec fn spec_bounded_usize_param(f: FormView, rs: Seq<Reading>, min: usize, max: usize, name: Seq<char>) -> Result<
    UsizeParamView,
    Seq<char>,
> {
    match spec_numeric_param_pattern(f, rs) {
        Err(e) => Err(":"@ + name + " "@ + e),
        Ok(Some(vs)) => match bounded_values(vs, rs, min, max, name) {
            Err(e) => Err(":"@ + name + " "@ + e),
            Ok(ns) => Ok(UsizeParamView::Pattern(ns)),
        },
        Ok(None) => match spec_usize_value(f, rs, name) {
            Err(e) => Err(e),
            Ok(n) => if min <= n <= max {
                Ok(UsizeParamView::Scalar(n))
            } else {
                Err(bounded_message(name, min, max, n))
            },
        },
    }
}

proof fn lemma_bounded_err_stays(vs: Seq<ValueView>, rs: Seq<Reading>, min: usize, max: usize, name: Seq<char>, j: int, m: Seq<char>)
    requires
        0 <= j <= vs.len(),
        bounded_values(vs.subrange(0, j), rs, min, max, name) == Err::<Seq<usize>, Seq<char>>(m),
    ensures
        bounded_values(vs, rs, min, max, name) == Err::<Seq<usize>, Seq<char>>(m),
    decreases vs.len(),
{
    if j < vs.len() {
        assert(vs.drop_last().subrange(0, j) =~= vs.subrange(0, j));
        lemma_bounded_err_stays(vs.drop_last(), rs, min, max, name, j, m);
    } else {
        assert(vs.subrange(0, j) =~= vs);
    }
}

fn prefixed(name: &str, e: String) -> (r: String)
    ensures
        r@ == ":"@ + name@ + " "@ + e@,
{
    let mut m = String::from_str(":");
    m.append(name);
    m.append(" ");
    m.append(e.as_str());
    m
}

/// Reads a whole-number parameter within `min..=max` (see
/// `spec_bounded_usize_param`).
pub fn bounded_usize_param(f: &Form, rs: &[Reading], min: usize, max: usize, name: &str) -> (r: Result<
    UsizeParam,
    String,
>)
    ensures
        match spec_bounded_usize_param(form_view(*f), rs@, min, max, name@) {
            Ok(v) => r matches Ok(x) && x.view() == v,
            Err(m) => r matches Err(e) && e@ == m,
        },
{
    let pattern = match numeric_param_pattern(f, rs) {
        Ok(p) => p,
        Err(e) => {
            return Err(prefixed(name, e));
        },
    };
    match pattern {
        Some(values) => {
            let ghost vs = values_view(values@);
            let mut out: Vec<usize> = Vec::new();
            let mut i: usize = 0;
            assert(vs.subrange(0, 0) =~= Seq::<ValueView>::empty());
            while i < values.len()
                invariant
                    i <= values@.len(),
                    vs == values_view(values@),
                    spec_numeric_param_pattern(form_view(*f), rs@) == Ok::<
                        Option<Seq<ValueView>>,
                        Seq<char>,
                    >(Some(vs)),
                    bounded_values(vs.subrange(0, i as int), rs@, min, max, name@) == Ok::<
                        Seq<usize>,
                        Seq<char>,
                    >(out@),
                decreases values@.len() - i,
            {
                proof {
                    assert(vs.subrange(0, i + 1).drop_last() =~= vs.subrange(0, i as int));
                    assert(vs.subrange(0, i + 1).last() == values@[i as int].view());
                }
                let whole: Option<usize> = match &values[i] {
                    PatternValue::Number(t) => match find_reading(rs, t.as_str()) {
                        Some(k) => rs[k].whole,
                        None => None,
                    },
                    PatternValue::Note(_) => None,
                };
                let n = match whole {
                    None => {
                        let mut m = String::from_str(name);
                        m.append(" must be a non-negative integer");
                        proof {
                            lemma_bounded_err_stays(vs, rs@, min, max, name@, i + 1, m@);
                        }
                        return Err(prefixed(name, m));
                    },
                    Some(n) => n,
                };
                let n = match bounded_usize_value(n, min, max, name) {
                    Ok(n) => n,
                    Err(m) => {
                        proof {
                            lemma_bounded_err_stays(vs, rs@, min, max, name@, i + 1, m@);
                        }
                        return Err(prefixed(name, m));
                    },
                };
                out.push(n);
                i = i + 1;
            }
            assert(vs.subrange(0, vs.len() as int) =~= vs);
            Ok(UsizeParam::Pattern(out))
        },
        None => {
            let n = usize_value(f, rs, name)?;
            let n = bounded_usize_value(n, min, max, name)?;
            Ok(UsizeParam::Scalar(n))
        },
    }
}

proof fn lemma_flatten_singletons(v: Seq<ValueView>)
    ensures
        v.map_values(|x: ValueView| seq![x]).flatten() == v,
    decreases v.len(),
{
    let c = v.map_values(|x: ValueView| seq![x]);
    if v.len() > 0 {
        lemma_flatten_singletons(v.drop_first());
        assert(c.drop_first() =~= v.drop_first().map_values(|x: ValueView| seq![x]));
        assert(c.first() == seq![v[0]]);
        assert(seq![v[0]] + v.drop_first() =~= v);
    } else {
        assert(c.flatten() =~= v);
    }
}

/// `(rev X)` as a form.
pub open spec fn rev_form(x: FormView) -> FormView {
    FormView::List(seq![FormView::Symbol("rev"@), x])
}

/// Reversing a note pattern twice gives back its notes, its chords and its
/// mode (or its error).
pub proof fn lemma_note_reverse_twice(x: FormView, rs: Seq<Reading>)
    ensures
        spec_note_pattern(rev_form(rev_form(x)), rs) == spec_note_pattern(x, rs),
{
    reveal_strlit("rev");
    reveal_strlit("p");
    reveal_strlit("s");
    reveal_strlit("g");
    reveal_strlit("gs");
    reveal_strlit("gate-seq");
    reveal_strlit("gate_seq");
    let inner = rev_form(x);
    let outer = rev_form(inner);
    assert(spec_note_pattern(inner, rs) == match spec_note_pattern(x, rs) {
        Err(e) => Err(e),
        Ok((_, c, m)) => Ok((c.reverse().flatten(), c.reverse(), m)),
    });
    match spec_note_pattern(x, rs) {
        Err(e) => {},
        Ok((n, c, m)) => {
            assert(c.reverse().reverse() =~= c);
            assert(n == c.flatten()) by {
                match x {
                    FormView::List(items) => {
                        if !(headed_by(items, |n: Seq<char>| n == "p"@) || headed_by(
                            items,
                            |n: Seq<char>| n == "s"@,
                        ) || headed_by(
                            items,
                            |n: Seq<char>| n == "g"@ || n == "gs"@ || n == "gate-seq"@ || n
                                == "gate_seq"@,
                        ) || headed_by(items, |n: Seq<char>| n == "rev"@ || n == "reverse"@)) {
                            let v = spec_number_pattern(x, true, rs)->Ok_0;
                            lemma_flatten_singletons(v);
                        }
                    },
                    FormView::Vector(_) => {},
                    _ => {
                        let v = spec_number_pattern(x, true, rs)->Ok_0;
                        lemma_flatten_singletons(v);
                    },
                }
            }
        },
    }
}

} // verus!

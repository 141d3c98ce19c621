use vstd::prelude::*;
use crate::arith::{
    checked_lcm, digits_value, lcm, lemma_lcm_is_common_multiple, parses_as_usize, spec_lcm, unsigned_digits,
};
use crate::forms::{Form, FormView, form_view, forms_view};
use crate::gates::{
    bool_grid, expand_gate_cell, holds_on_hits, lemma_expand_gate_cell_even, lemma_zero_holds_on_hits, gate_cell_preview, gate_pattern_from_steps,
    parse_gate_repeat_token, slot_cells, slot_gates, ParsedGatePattern,
    slot_grid, slot_holds,
    spec_expand_gate_cell, spec_gate_cell_preview, spec_parse_gate_repeat_token, GateSlot,
    SlotView, silent_slot, slot_views,
};
use crate::language::{gate_sustain_amount, numeric_pattern_form, spec_numeric_pattern_form};
use crate::patterns::{
    PatternView, built, chain_gate_patterns, concat_cells, concat_gates, concat_holds,
    euclid_gate_pattern, pattern_view, repeat_gate_pattern, repeat_seq, result_is,
    reverse_gate_pattern,
};
use crate::sequencer::spec_euclid;
use crate::model::{CellView, GateCell, HALF_CHANCE_PPM};
use crate::options::{lemma_forms_view_index, lemma_forms_view_len};
use crate::text::{chars_of, push_char, str_eq};
use vstd::arithmetic::div_mod::{lemma_fundamental_div_mod, lemma_mod_multiples_basic, lemma_small_mod};

verus! {

/// What the floating-point value that the reader gives a text says, in the
/// terms gate patterns use: whether the text parses as a number at
/// all, its value as a whole number when it is a non-negative one without
/// a fraction, whether it is above zero, whether it is exactly 0 or 1, and,
/// when it lies between 0 and 100, that percentage as a chance in parts
/// per million.
pub struct Reading {
    pub text: String,
    pub parsed: bool,
    pub whole: Option<usize>,
    pub positive: bool,
    pub bit: Option<bool>,
    pub percent_ppm: Option<u32>,
}

/// A reading without its text.
pub ghost struct ReadingView {
    pub parsed: bool,
    pub whole: Option<usize>,
    pub positive: bool,
    pub bit: Option<bool>,
    pub percent_ppm: Option<u32>,
}

impl Reading {
    pub open spec fn view(&self) -> ReadingView {
        ReadingView {
            parsed: self.parsed,
            whole: self.whole,
            positive: self.positive,
            bit: self.bit,
            percent_ppm: self.percent_ppm,
        }
    }
}

/// The reading of a text that does not parse as a number.
pub open spec fn unread() -> ReadingView {
    ReadingView { parsed: false, whole: None, positive: false, bit: None, percent_ppm: None }
}

/// The first reading of `t` in `rs` from index `i` on, or `unread()`.
pub open spec fn reading_from(rs: Seq<Reading>, t: Seq<char>, i: int) -> ReadingView
    decreases rs.len() - i,
{
    if i < 0 || i >= rs.len() {
        unread()
    } else if rs[i].text@ == t {
        rs[i].view()
    } else {
        reading_from(rs, t, i + 1)
    }
}

/// The reading that a table gives a text: its first entry for the text,
/// or `unread()` when it has none.
pub open spec fn reading_of(rs: Seq<Reading>, t: Seq<char>) -> ReadingView {
    reading_from(rs, t, 0)
}

/// Looks up the reading of `t`: the index of its first entry.
pub fn find_reading(rs: &[Reading], t: &str) -> (r: Option<usize>)
    ensures
        match r {
            Some(i) => i < rs@.len() && reading_of(rs@, t@) == rs@[i as int].view(),
            None => reading_of(rs@, t@) == unread(),
        },
{
    let mut i: usize = 0;
    while i < rs.len()
        invariant
            i <= rs@.len(),
            reading_of(rs@, t@) == reading_from(rs@, t@, i as int),
        decreases rs@.len() - i,
    {
        if str_eq(rs[i].text.as_str(), t) {
            return Some(i);
        }
        i = i + 1;
    }
    None
}

/// Whether a result of the library is the one a spec result names.
pub open spec fn same<T>(r: Result<T, String>, s: Result<T, Seq<char>>) -> bool {
    match s {
        Ok(v) => r == Ok::<T, String>(v),
        Err(m) => r matches Err(e) && e@ == m,
    }
}

/// The whole number a number form stands for.
pub open spec fn spec_usize_value(f: FormView, rs: Seq<Reading>, name: Seq<char>) -> Result<
    usize,
    Seq<char>,
> {
    match f {
        FormView::Number(t) => match reading_of(rs, t).whole {
            Some(n) => Ok(n),
            None => Err(name + " must be a non-negative integer"@),
        },
        _ => Err("expected numeric pattern value"@),
    }
}

/// Reads a number form as a non-negative whole number; `name` goes into
/// the error.
pub fn usize_value(f: &Form, rs: &[Reading], name: &str) -> (r: Result<usize, String>)
    ensures
        same(r, spec_usize_value(form_view(*f), rs@, name@)),
{
    match f {
        Form::Number(t) => match find_reading(rs, t.as_str()) {
            Some(i) => match rs[i].whole {
                Some(n) => Ok(n),
                None => {
                    let mut m = String::from_str(name);
                    m.append(" must be a non-negative integer");
                    Err(m)
                },
            },
            None => {
                let mut m = String::from_str(name);
                m.append(" must be a non-negative integer");
                Err(m)
            },
        },
        _ => Err(String::from_str("expected numeric pattern value")),
    }
}

/// The positive whole number a number form stands for.
pub open spec fn spec_positive_usize_value(f: FormView, rs: Seq<Reading>, name: Seq<char>) -> Result<
    usize,
    Seq<char>,
> {
    match spec_usize_value(f, rs, name) {
        Ok(n) => if n == 0 {
            Err(name + " must be greater than zero"@)
        } else {
            Ok(n)
        },
        Err(e) => Err(e),
    }
}

/// Reads a number form as a positive whole number.
pub fn positive_usize_value(f: &Form, rs: &[Reading], name: &str) -> (r: Result<usize, String>)
    ensures
        same(r, spec_positive_usize_value(form_view(*f), rs@, name@)),
{
    let n = usize_value(f, rs, name)?;
    if n == 0 {
        let mut m = String::from_str(name);
        m.append(" must be greater than zero");
        return Err(m);
    }
    Ok(n)
}

/// Whether a symbol begins with `c`.
pub open spec fn starts_with_char(n: Seq<char>, c: char) -> bool {
    n.len() > 0 && n[0] == c
}

fn first_char_is(n: &str, c: char) -> (r: bool)
    ensures
        r == starts_with_char(n@, c),
{
    let chars = chars_of(n);
    chars.len() > 0 && chars[0] == c
}

fn contains_char(n: &str, c: char) -> (r: bool)
    ensures
        r == n@.contains(c),
{
    let chars = chars_of(n);
    let mut i: usize = 0;
    while i < chars.len()
        invariant
            i <= chars@.len(),
            chars@ == n@,
            forall|j: int| 0 <= j < i ==> chars@[j] != c,
        decreases chars@.len() - i,
    {
        if chars[i] == c {
            return true;
        }
        i = i + 1;
    }
    false
}

/// The text of a symbol after its first character.
fn after_first(n: &str) -> (r: String)
    requires
        n@.len() > 0,
    ensures
        r@ == n@.drop_first(),
{
    let chars = chars_of(n);
    let mut out = String::new();
    let mut i: usize = 1;
    while i < chars.len()
        invariant
            1 <= i <= chars@.len(),
            chars@ == n@,
            out@ == chars@.subrange(1, i as int),
        decreases chars@.len() - i,
    {
        push_char(&mut out, chars[i]);
        assert(chars@.subrange(1, i + 1) =~= chars@.subrange(1, i as int).push(chars@[i as int]));
        i = i + 1;
    }
    out
}

/// The chance of a chance gate symbol: `?` is one half, `?P` is P percent
/// for P from 0 to 100, in parts per million.
pub open spec fn spec_chance_gate_percent(n: Seq<char>, rs: Seq<Reading>) -> Result<u32, Seq<char>> {
    if n == seq!['?'] {
        Ok(HALF_CHANCE_PPM)
    } else if !starts_with_char(n, '?') || !reading_of(rs, n.drop_first()).parsed {
        Err("chance gate must be ? or ?0 through ?100"@)
    } else {
        match reading_of(rs, n.drop_first()).percent_ppm {
            Some(p) => Ok(p),
            None => Err("chance gate must be between ?0 and ?100"@),
        }
    }
}

/// Reads the chance of a chance gate symbol such as `?` or `?25`.
pub fn chance_gate_percent(n: &str, rs: &[Reading]) -> (r: Result<u32, String>)
    ensures
        same(r, spec_chance_gate_percent(n@, rs@)),
{
    let chars = chars_of(n);
    if chars.len() == 1 && chars[0] == '?' {
        assert(n@ =~= seq!['?']);
        return Ok(HALF_CHANCE_PPM);
    }
    assert(n@ != seq!['?']);
    if !(chars.len() > 0 && chars[0] == '?') {
        return Err(String::from_str("chance gate must be ? or ?0 through ?100"));
    }
    let rest = after_first(n);
    match find_reading(rs, rest.as_str()) {
        None => Err(String::from_str("chance gate must be ? or ?0 through ?100")),
        Some(i) => {
            if !rs[i].parsed {
                return Err(String::from_str("chance gate must be ? or ?0 through ?100"));
            }
            match rs[i].percent_ppm {
                Some(p) => Ok(p),
                None => Err(String::from_str("chance gate must be between ?0 and ?100")),
            }
        },
    }
}

/// The chance of a form when it is a chance gate symbol.
pub open spec fn spec_chance_gate_value(f: FormView, rs: Seq<Reading>) -> Result<
    Option<u32>,
    Seq<char>,
> {
    match f {
        FormView::Symbol(n) => if starts_with_char(n, '?') {
            match spec_chance_gate_percent(n, rs) {
                Ok(p) => Ok(Some(p)),
                Err(e) => Err(e),
            }
        } else {
            Ok(None)
        },
        _ => Ok(None),
    }
}

/// Reads a form as a chance gate, when it is one.
pub fn chance_gate_value(f: &Form, rs: &[Reading]) -> (r: Result<Option<u32>, String>)
    ensures
        same(r, spec_chance_gate_value(form_view(*f), rs@)),
{
    match f {
        Form::Symbol(n) => {
            if first_char_is(n.as_str(), '?') {
                let p = chance_gate_percent(n.as_str(), rs)?;
                Ok(Some(p))
            } else {
                Ok(None)
            }
        },
        _ => Ok(None),
    }
}

/// The cell a single gate value stands for: a number fires when above
/// zero, `?..` is a chance, `1%0%..` a repeat; a sustain is refused here.
pub open spec fn spec_gate_cell(f: FormView, rs: Seq<Reading>) -> Result<CellView, Seq<char>> {
    match f {
        FormView::Symbol(n) => if starts_with_char(n, '~') {
            Err("gate sustain must follow a hit inside a vector pattern"@)
        } else if starts_with_char(n, '?') {
            match spec_chance_gate_percent(n, rs) {
                Ok(p) => Ok(CellView::Chance(p)),
                Err(e) => Err(e),
            }
        } else if n.contains('%') {
            match spec_parse_gate_repeat_token(n) {
                Ok(v) => Ok(CellView::Repeat(v)),
                Err(e) => Err(e),
            }
        } else {
            Err("expected numeric pattern value"@)
        },
        FormView::Number(t) => Ok(CellView::Static(reading_of(rs, t).positive)),
        _ => Err("expected numeric pattern value"@),
    }
}

/// Whether a cell result is the one a spec result names.
pub open spec fn same_cell(r: Result<GateCell, String>, s: Result<CellView, Seq<char>>) -> bool {
    match s {
        Ok(v) => r matches Ok(c) && c.view() == v,
        Err(m) => r matches Err(e) && e@ == m,
    }
}

/// Reads a single gate value into its cell.
pub fn gate_cell(f: &Form, rs: &[Reading]) -> (r: Result<GateCell, String>)
    ensures
        same_cell(r, spec_gate_cell(form_view(*f), rs@)),
{
    match f {
        Form::Symbol(n) => {
            if first_char_is(n.as_str(), '~') {
                Err(String::from_str("gate sustain must follow a hit inside a vector pattern"))
            } else if first_char_is(n.as_str(), '?') {
                let p = chance_gate_percent(n.as_str(), rs)?;
                Ok(GateCell::Chance(p))
            } else if contains_char(n.as_str(), '%') {
                let v = parse_gate_repeat_token(n.as_str())?;
                Ok(GateCell::Repeat(v))
            } else {
                Err(String::from_str("expected numeric pattern value"))
            }
        },
        Form::Number(t) => match find_reading(rs, t.as_str()) {
            Some(i) => Ok(GateCell::Static(rs[i].positive)),
            None => Ok(GateCell::Static(false)),
        },
        _ => Err(String::from_str("expected numeric pattern value")),
    }
}

/// Whether a list's head is the symbol `name`.
pub open spec fn is_headed(items: Seq<FormView>, name: Seq<char>) -> bool {
    items.len() > 0 && items[0] == FormView::Symbol(name)
}

/// Whether the first form of `items` is the symbol `name`.
fn head_is(items: &Vec<Form>, name: &str) -> (r: bool)
    ensures
        r == is_headed(forms_view(items@), name@),
{
    proof {
        lemma_forms_view_len(items@);
    }
    if items.len() == 0 {
        return false;
    }
    proof {
        lemma_forms_view_index(items@, 0);
    }
    match &items[0] {
        Form::Symbol(n) => str_eq(n.as_str(), name),
        _ => false,
    }
}

/// The on/off value of a `gate-repeat` element: exactly 0 or exactly 1.
pub open spec fn bit_of(f: FormView, rs: Seq<Reading>) -> Option<bool> {
    match f {
        FormView::Number(t) => reading_of(rs, t).bit,
        _ => None,
    }
}

/// The values of a `gate-repeat` vector: a non-empty vector of zeros and
/// ones.
pub open spec fn spec_gate_repeat_values(f: FormView, rs: Seq<Reading>) -> Result<
    Seq<bool>,
    Seq<char>,
> {
    match f {
        FormView::Vector(items) => if items.len() == 0 {
            Err("gate-repeat vector cannot be empty"@)
        } else if forall|i: int| 0 <= i < items.len() ==> bit_of(#[trigger] items[i], rs) is Some {
            Ok(Seq::new(items.len(), |i: int| bit_of(items[i], rs)->0))
        } else {
            Err("gate-repeat only accepts 0 and 1 values"@)
        },
        _ => Err("gate-repeat expects a vector"@),
    }
}

/// Reads the vector of a `gate-repeat` form.
pub fn gate_repeat_values(f: &Form, rs: &[Reading]) -> (r: Result<Vec<bool>, String>)
    ensures
        match spec_gate_repeat_values(form_view(*f), rs@) {
            Ok(v) => r matches Ok(x) && x@ == v,
            Err(m) => r matches Err(e) && e@ == m,
        },
{
    match f {
        Form::Vector(items) => {
            let ghost vs = forms_view(items@);
            proof {
                lemma_forms_view_len(items@);
            }
            if items.len() == 0 {
                return Err(String::from_str("gate-repeat vector cannot be empty"));
            }
            let mut out: Vec<bool> = Vec::new();
            let mut i: usize = 0;
            while i < items.len()
                invariant
                    i <= items@.len(),
                    vs == forms_view(items@),
                    form_view(*f) == FormView::Vector(vs),
                    vs.len() == items@.len(),
                    out@.len() == i,
                    forall|j: int| 0 <= j < i ==> bit_of(#[trigger] vs[j], rs@) == Some(out@[j]),
                decreases items@.len() - i,
            {
                proof {
                    lemma_forms_view_index(items@, i as int);
                }
                let bit = match &items[i] {
                    Form::Number(t) => match find_reading(rs, t.as_str()) {
                        Some(k) => rs[k].bit,
                        None => None,
                    },
                    _ => None,
                };
                match bit {
                    Some(b) => {
                        out.push(b);
                    },
                    None => {
                        assert(bit_of(vs[i as int], rs@) is None);
                        assert(!(forall|j: int| 0 <= j < vs.len() ==> bit_of(#[trigger] vs[j], rs@) is Some));
                        return Err(String::from_str("gate-repeat only accepts 0 and 1 values"));
                    },
                }
                i = i + 1;
            }
            assert(out@ =~= Seq::new(vs.len(), |j: int| bit_of(vs[j], rs@)->0));
            Ok(out)
        },
        _ => Err(String::from_str("gate-repeat expects a vector")),
    }
}

/// The amount of a `~N` sustain.
pub open spec fn spec_gate_sustain_amount(t: Seq<char>) -> Result<usize, Seq<char>> {
    if !parses_as_usize(t) {
        Err("gate sustain must be written like ~12"@)
    } else if digits_value(unsigned_digits(t)) == 0 {
        Err("gate sustain must be greater than zero"@)
    } else {
        Ok(digits_value(unsigned_digits(t)) as usize)
    }
}

/// How many silent steps a sustain form adds: `~N`, or `(gate-sustain N)`
/// with N positive; other forms are no sustain.
pub open spec fn spec_gate_sustain_value(f: FormView, rs: Seq<Reading>) -> Result<
    Option<usize>,
    Seq<char>,
> {
    match f {
        FormView::Symbol(n) => if starts_with_char(n, '~') {
            match spec_gate_sustain_amount(n.drop_first()) {
                Ok(a) => Ok(Some(a)),
                Err(e) => Err(e),
            }
        } else {
            Ok(None)
        },
        FormView::List(items) => if is_headed(items, "gate-sustain"@) {
            if items.len() != 2 {
                Err("gate-sustain expects one amount"@)
            } else {
                match spec_positive_usize_value(items[1], rs, "gate-sustain"@) {
                    Ok(a) => Ok(Some(a)),
                    Err(e) => Err(e),
                }
            }
        } else {
            Ok(None)
        },
        _ => Ok(None),
    }
}

/// Reads a form as a sustain, when it is one.
pub fn gate_sustain_value(f: &Form, rs: &[Reading]) -> (r: Result<Option<usize>, String>)
    ensures
        same(r, spec_gate_sustain_value(form_view(*f), rs@)),
{
    match f {
        Form::Symbol(n) => {
            if first_char_is(n.as_str(), '~') {
                let rest = after_first(n.as_str());
                let a = gate_sustain_amount(rest.as_str())?;
                Ok(Some(a))
            } else {
                Ok(None)
            }
        },
        Form::List(items) => {
            if head_is(items, "gate-sustain") {
                proof {
                    lemma_forms_view_len(items@);
                }
                if items.len() != 2 {
                    return Err(String::from_str("gate-sustain expects one amount"));
                }
                proof {
                    lemma_forms_view_index(items@, 1);
                }
                let a = positive_usize_value(&items[1], rs, "gate-sustain")?;
                Ok(Some(a))
            } else {
                Ok(None)
            }
        },
        _ => Ok(None),
    }
}

/// The slot of a `(gate-hold N)` form: one hit held for N extra steps,
/// N being 1 when left out.
pub open spec fn spec_gate_hold(items: Seq<FormView>, rs: Seq<Reading>) -> Result<
    Seq<SlotView>,
    Seq<char>,
> {
    let hold: Result<usize, Seq<char>> = if items.len() > 1 {
        spec_usize_value(items[1], rs, "gate-hold"@)
    } else {
        Ok(1usize)
    };
    match hold {
        Err(e) => Err(e),
        Ok(h) => if h == 0 {
            Err("gate-hold must be greater than zero"@)
        } else if items.len() > 2 {
            Err("gate-hold expects zero or one amount"@)
        } else {
            Ok(seq![SlotView { gate: true, cell: CellView::Static(true), hold: h }])
        },
    }
}

/// The slot of a `(gate-repeat [..])` form.
pub open spec fn spec_gate_repeat_step(items: Seq<FormView>, rs: Seq<Reading>) -> Result<
    Seq<SlotView>,
    Seq<char>,
> {
    if items.len() != 2 {
        Err("gate-repeat expects one vector"@)
    } else {
        match spec_gate_repeat_values(items[1], rs) {
            Err(e) => Err(e),
            Ok(v) => Ok(
                seq![SlotView {
                gate: v.len() > 0 && v[0],
                cell: CellView::Repeat(v),
                hold: 0,
            }],
            ),
        }
    }
}

/// The slot of a single gate value.
pub open spec fn spec_cell_step(f: FormView, rs: Seq<Reading>) -> Result<Seq<SlotView>, Seq<char>> {
    match spec_gate_cell(f, rs) {
        Err(e) => Err(e),
        Ok(c) => Ok(seq![SlotView { gate: spec_gate_cell_preview(c), cell: c, hold: 0 }]),
    }
}

/// The slots of one step of a gate pattern: a hold, a repeat, a vector of
/// subdivisions (each child widened to the least common multiple of the
/// children's lengths, see `spec_expand_gate_cell`), or a single value.
pub open spec fn spec_gate_step(f: FormView, rs: Seq<Reading>) -> Result<Seq<SlotView>, Seq<char>>
    decreases f,
{
    match f {
        FormView::List(items) => if is_headed(items, "gate-hold"@) {
            spec_gate_hold(items, rs)
        } else if is_headed(items, "gate-repeat"@) {
            spec_gate_repeat_step(items, rs)
        } else {
            spec_cell_step(f, rs)
        },
        FormView::Vector(vs) => if vs.len() == 0 {
            Ok(seq![silent_slot()])
        } else {
            match spec_step_children(vs, rs) {
                Err(e) => Err(e),
                Ok(ch) => Ok(
                    expand_children(ch, children_width(ch, ch.len() as int), ch.len() as int),
                ),
            }
        },
        _ => spec_cell_step(f, rs),
    }
}

/// The slots of each subdivision of a vector step, in order; the first
/// error stops the reading.
pub open spec fn spec_step_children(vs: Seq<FormView>, rs: Seq<Reading>) -> Result<
    Seq<Seq<SlotView>>,
    Seq<char>,
>
    decreases vs,
{
    if vs.len() == 0 {
        Ok(Seq::empty())
    } else {
        match spec_step_children(vs.drop_last(), rs) {
            Err(e) => Err(e),
            Ok(prev) => match spec_gate_step(vs.last(), rs) {
                Err(e) => Err(e),
                Ok(c) => Ok(prev.push(c)),
            },
        }
    }
}

/// The least common multiple of the lengths (each at least one) of the
/// first `k` children.
pub open spec fn children_width(ch: Seq<Seq<SlotView>>, k: int) -> nat
    decreases k,
{
    if k <= 0 {
        1
    } else {
        spec_lcm(children_width(ch, k - 1), ch[k - 1].len())
    }
}

/// The first `k` children widened to `w` slots each, one after the other.
pub open spec fn expand_children(ch: Seq<Seq<SlotView>>, w: nat, k: int) -> Seq<SlotView>
    decreases k,
{
    if k <= 0 {
        Seq::empty()
    } else {
        expand_children(ch, w, k - 1) + spec_expand_gate_cell(ch[k - 1], w)
    }
}

/// Every vector step inside `f` is narrow enough that its width (the least
/// common multiple of its children's lengths) fits in a `usize`.
pub open spec fn widths_fit(f: FormView, rs: Seq<Reading>) -> bool
    decreases f,
{
    match f {
        FormView::List(items) => all_fit(items, rs),
        FormView::Vector(vs) => all_fit(vs, rs) && match spec_step_children(vs, rs) {
            Ok(ch) => children_width(ch, ch.len() as int) <= usize::MAX,
            Err(_) => true,
        },
        _ => true,
    }
}

/// `widths_fit` for each form of a sequence.
pub open spec fn all_fit(vs: Seq<FormView>, rs: Seq<Reading>) -> bool
    decreases vs,
{
    vs.len() == 0 || (all_fit(vs.drop_last(), rs) && widths_fit(vs.last(), rs))
}

proof fn lemma_all_fit_index(vs: Seq<FormView>, rs: Seq<Reading>, i: int)
    requires
        all_fit(vs, rs),
        0 <= i < vs.len(),
    ensures
        widths_fit(vs[i], rs),
    decreases vs.len(),
{
    if i < vs.len() - 1 {
        lemma_all_fit_index(vs.drop_last(), rs, i);
    }
}

proof fn lemma_lcm_at_least(a: nat, b: nat)
    requires
        a >= 1,
    ensures
        spec_lcm(a, b) >= a,
        spec_lcm(a, b) >= 1,
{
    lemma_lcm_is_common_multiple(a, b);
    let l = spec_lcm(a, b);
    if l < a {
        lemma_small_mod(l, a);
    }
}

proof fn lemma_children_width_mono(ch: Seq<Seq<SlotView>>, a: int, b: int)
    requires
        0 <= a <= b,
    ensures
        children_width(ch, a) <= children_width(ch, b),
        children_width(ch, b) >= 1,
    decreases b,
{
    if b > 0 {
        lemma_children_width_mono(ch, if a < b { a } else { b - 1 }, b - 1);
        lemma_lcm_at_least(children_width(ch, b - 1), ch[b - 1].len());
    }
}

/// Whether a slots result is the one a spec result names.
pub open spec fn same_slots(r: Result<Vec<GateSlot>, String>, s: Result<Seq<SlotView>, Seq<char>>) -> bool {
    match s {
        Ok(v) => r matches Ok(x) && slot_views(x@) == v,
        Err(m) => r matches Err(e) && e@ == m,
    }
}

fn silent() -> (r: GateSlot)
    ensures
        r.view() == silent_slot(),
{
    GateSlot { gate: false, cell: GateCell::Static(false), hold: 0 }
}

fn gate_hold_step(items: &Vec<Form>, rs: &[Reading]) -> (r: Result<Vec<GateSlot>, String>)
    ensures
        same_slots(r, spec_gate_hold(forms_view(items@), rs@)),
{
    proof {
        lemma_forms_view_len(items@);
    }
    let hold = if items.len() > 1 {
        proof {
            lemma_forms_view_index(items@, 1);
        }
        usize_value(&items[1], rs, "gate-hold")?
    } else {
        1
    };
    if hold == 0 {
        return Err(String::from_str("gate-hold must be greater than zero"));
    }
    if items.len() > 2 {
        return Err(String::from_str("gate-hold expects zero or one amount"));
    }
    let out = vec![GateSlot { gate: true, cell: GateCell::Static(true), hold }];
    assert(slot_views(out@) =~= seq![SlotView { gate: true, cell: CellView::Static(true), hold }]);
    Ok(out)
}

fn gate_repeat_step(items: &Vec<Form>, rs: &[Reading]) -> (r: Result<Vec<GateSlot>, String>)
    ensures
        same_slots(r, spec_gate_repeat_step(forms_view(items@), rs@)),
{
    proof {
        lemma_forms_view_len(items@);
    }
    if items.len() != 2 {
        return Err(String::from_str("gate-repeat expects one vector"));
    }
    proof {
        lemma_forms_view_index(items@, 1);
    }
    let values = gate_repeat_values(&items[1], rs)?;
    let gate = values.len() > 0 && values[0];
    let out = vec![GateSlot { gate, cell: GateCell::Repeat(values), hold: 0 }];
    assert(slot_views(out@) =~= seq![SlotView { gate, cell: CellView::Repeat(values@), hold: 0 }]);
    Ok(out)
}

fn cell_step(f: &Form, rs: &[Reading]) -> (r: Result<Vec<GateSlot>, String>)
    ensures
        same_slots(r, spec_cell_step(form_view(*f), rs@)),
{
    let cell = gate_cell(f, rs)?;
    let gate = gate_cell_preview(&cell);
    let ghost cv = cell.view();
    let out = vec![GateSlot { gate, cell, hold: 0 }];
    assert(slot_views(out@) =~= seq![SlotView { gate, cell: cv, hold: 0 }]);
    Ok(out)
}

proof fn lemma_views_push(s: Seq<Form>, f: Form)
    ensures
        forms_view(s.push(f)) == forms_view(s).push(form_view(f)),
{
    assert(s.push(f).drop_last() =~= s);
}

/// Reads one step of a gate pattern into its slots (see `spec_gate_step`).
pub fn gate_step_pattern(f: &Form, rs: &[Reading]) -> (r: Result<Vec<GateSlot>, String>)
    requires
        widths_fit(form_view(*f), rs@),
    ensures
        same_slots(r, spec_gate_step(form_view(*f), rs@)),
    decreases f,
{
    match f {
        Form::List(items) => {
            if head_is(items, "gate-hold") {
                return gate_hold_step(items, rs);
            }
            if head_is(items, "gate-repeat") {
                return gate_repeat_step(items, rs);
            }
            cell_step(f, rs)
        },
        Form::Vector(values) => {
            let ghost vs = forms_view(values@);
            proof {
                lemma_forms_view_len(values@);
            }
            if values.len() == 0 {
                let out = vec![silent()];
                assert(slot_views(out@) =~= seq![silent_slot()]);
                return Ok(out);
            }
            let children = step_children(values, rs)?;
            let ghost ch = slot_grid(children@);
            let n = children.len();
            let mut width: usize = 1;
            let mut k: usize = 0;
            while k < n
                invariant
                    k <= n,
                    n == children@.len(),
                    ch == slot_grid(children@),
                    children_width(ch, n as int) <= usize::MAX,
                    width == children_width(ch, k as int),
                decreases n - k,
            {
                let len = children[k].len();
                let m = if len > 1 {
                    len
                } else {
                    1
                };
                proof {
                    lemma_children_width_mono(ch, k + 1, n as int);
                    assert(ch[k as int].len() == len);
                }
                width = lcm(width, m);
                k = k + 1;
            }
            let mut flat: Vec<GateSlot> = Vec::new();
            let mut k: usize = 0;
            while k < n
                invariant
                    k <= n,
                    n == children@.len(),
                    ch == slot_grid(children@),
                    width == children_width(ch, n as int),
                    slot_views(flat@) == expand_children(ch, width as nat, k as int),
                decreases n - k,
            {
                let mut e = expand_gate_cell(children[k].as_slice(), width);
                let ghost before = flat@;
                let ghost ev = e@;
                flat.append(&mut e);
                assert(slot_views(flat@) =~= slot_views(before) + slot_views(ev));
                k = k + 1;
            }
            Ok(flat)
        },
        _ => cell_step(f, rs),
    }
}

proof fn lemma_views_sub(s: Seq<Form>, j: int)
    requires
        0 <= j <= s.len(),
    ensures
        forms_view(s.subrange(0, j)) == forms_view(s).subrange(0, j),
    decreases s.len(),
{
    if j < s.len() {
        assert(s.drop_last().subrange(0, j) =~= s.subrange(0, j));
        lemma_views_sub(s.drop_last(), j);
        lemma_forms_view_len(s.drop_last());
        assert(forms_view(s).drop_last() =~= forms_view(s.drop_last()));
        assert(forms_view(s).subrange(0, j) =~= forms_view(s.drop_last()).subrange(0, j));
    } else {
        assert(s.subrange(0, j) =~= s);
        lemma_forms_view_len(s);
        assert(forms_view(s).subrange(0, j) =~= forms_view(s));
    }
}

proof fn lemma_children_err_stays(vs: Seq<FormView>, rs: Seq<Reading>, j: int, m: Seq<char>)
    requires
        0 <= j <= vs.len(),
        spec_step_children(vs.subrange(0, j), rs) == Err::<Seq<Seq<SlotView>>, Seq<char>>(m),
    ensures
        spec_step_children(vs, rs) == Err::<Seq<Seq<SlotView>>, Seq<char>>(m),
    decreases vs.len(),
{
    if j < vs.len() {
        assert(vs.drop_last().subrange(0, j) =~= vs.subrange(0, j));
        lemma_children_err_stays(vs.drop_last(), rs, j, m);
    } else {
        assert(vs.subrange(0, j) =~= vs);
    }
}

/// Reads the subdivisions of a vector step, in order.
fn step_children(values: &Vec<Form>, rs: &[Reading]) -> (r: Result<Vec<Vec<GateSlot>>, String>)
    requires
        all_fit(forms_view(values@), rs@),
    ensures
        match spec_step_children(forms_view(values@), rs@) {
            Ok(ch) => r matches Ok(x) && slot_grid(x@) == ch,
            Err(m) => r matches Err(e) && e@ == m,
        },
    decreases values,
{
    let mut out: Vec<Vec<GateSlot>> = Vec::new();
    let mut i: usize = 0;
    proof {
        lemma_forms_view_len(values@);
        assert(values@.subrange(0, 0) =~= Seq::<Form>::empty());
        assert(slot_grid(out@) =~= Seq::<Seq<SlotView>>::empty());
    }
    while i < values.len()
        invariant
            i <= values@.len(),
            all_fit(forms_view(values@), rs@),
            forms_view(values@).len() == values@.len(),
            out@.len() == i,
            spec_step_children(forms_view(values@.subrange(0, i as int)), rs@) == Ok::<
                Seq<Seq<SlotView>>,
                Seq<char>,
            >(slot_grid(out@)),
        decreases values@.len() - i,
    {
        proof {
            lemma_forms_view_index(values@, i as int);
            lemma_all_fit_index(forms_view(values@), rs@, i as int);
            assert(values@.subrange(0, i + 1) =~= values@.subrange(0, i as int).push(values@[i as int]));
            lemma_views_push(values@.subrange(0, i as int), values@[i as int]);
            let pre = forms_view(values@.subrange(0, i as int));
            assert(pre.push(form_view(values@[i as int])).drop_last() =~= pre);
        }
        assert(decreases_to!(values => values@[i as int]));
        let step = match gate_step_pattern(&values[i], rs) {
            Ok(x) => x,
            Err(e) => {
                proof {
                    lemma_forms_view_len(values@.subrange(0, i + 1));
                    assert(values@.subrange(0, i + 1).subrange(0, i + 1) =~= values@.subrange(0, i + 1));
                    lemma_views_sub(values@, i + 1);
                    lemma_children_err_stays(forms_view(values@), rs@, i + 1, e@);
                }
                return Err(e);
            },
        };
        let ghost before = out@;
        out.push(step);
        assert(slot_grid(out@) =~= slot_grid(before).push(slot_views(out@[i as int]@)));
        i = i + 1;
    }
    assert(values@.subrange(0, values@.len() as int) =~= values@);
    Ok(out)
}

/// A slot after a chance prefix: a hit becomes a chance cell, previewed as
/// a hit when the chance is at least one half; other slots stay.
pub open spec fn chance_slot(s: SlotView, c: u32) -> SlotView {
    if s.gate {
        SlotView { gate: c >= HALF_CHANCE_PPM, cell: CellView::Chance(c), hold: s.hold }
    } else {
        s
    }
}

/// The slots of a step written after a chance prefix such as `?50 [1 1]`.
pub open spec fn spec_chance_prefixed(c: u32, f: FormView, rs: Seq<Reading>) -> Result<
    Seq<SlotView>,
    Seq<char>,
> {
    match spec_gate_step(f, rs) {
        Err(e) => Err(e),
        Ok(v) => Ok(v.map_values(|s: SlotView| chance_slot(s, c))),
    }
}

/// Reads a step and gives each of its hits the chance `chance`.
pub fn chance_prefixed_gate_step(chance: u32, f: &Form, rs: &[Reading]) -> (r: Result<
    Vec<GateSlot>,
    String,
>)
    requires
        widths_fit(form_view(*f), rs@),
    ensures
        same_slots(r, spec_chance_prefixed(chance, form_view(*f), rs@)),
{
    let mut slots = gate_step_pattern(f, rs)?;
    let ghost orig = slot_views(slots@);
    let mut k: usize = 0;
    while k < slots.len()
        invariant
            k <= slots@.len(),
            orig.len() == slots@.len(),
            forall|j: int| 0 <= j < k ==> (#[trigger] slots@[j]).view() == chance_slot(orig[j], chance),
            forall|j: int| k <= j < slots@.len() ==> (#[trigger] slots@[j]).view() == orig[j],
        decreases slots@.len() - k,
    {
        if slots[k].gate {
            let hold = slots[k].hold;
            slots.set(k, GateSlot { gate: chance >= HALF_CHANCE_PPM, cell: GateCell::Chance(chance), hold });
        }
        k = k + 1;
    }
    assert(slot_views(slots@) =~= orig.map_values(|s: SlotView| chance_slot(s, chance)));
    Ok(slots)
}

/// Whether some slot of a step fires.
pub open spec fn any_gate(step: Seq<SlotView>) -> bool {
    exists|k: int| 0 <= k < step.len() && (#[trigger] step[k]).gate
}

/// `n` steps of one silent slot each.
pub open spec fn sustain_steps(n: nat) -> Seq<Seq<SlotView>> {
    Seq::new(n, |i: int| seq![silent_slot()])
}

/// `d` followed by the steps of `r`, or the error of `r`.
pub open spec fn prepend(d: Seq<Seq<SlotView>>, r: Result<Seq<Seq<SlotView>>, Seq<char>>) -> Result<
    Seq<Seq<SlotView>>,
    Seq<char>,
> {
    match r {
        Ok(x) => Ok(d + x),
        Err(e) => Err(e),
    }
}

/// The steps of the values of a vector pattern from index `i` on, `hit`
/// telling whether a hit came before: a sustain adds silent steps after a
/// hit, a chance prefix followed by a vector reads that vector with the
/// chance, anything else is one step.
pub open spec fn steps_from(vs: Seq<FormView>, rs: Seq<Reading>, i: int, hit: bool) -> Result<
    Seq<Seq<SlotView>>,
    Seq<char>,
>
    decreases vs.len() - i,
{
    if i < 0 || i >= vs.len() {
        Ok(Seq::empty())
    } else {
        match spec_gate_sustain_value(vs[i], rs) {
            Err(e) => Err(e),
            Ok(Some(a)) => if !hit {
                Err("gate sustain must follow a hit"@)
            } else {
                prepend(sustain_steps(a as nat), steps_from(vs, rs, i + 1, hit))
            },
            Ok(None) => match spec_chance_gate_value(vs[i], rs) {
                Err(e) => Err(e),
                Ok(c) => if c is Some && i + 1 < vs.len() && vs[i + 1] is Vector {
                    match spec_chance_prefixed(c->0, vs[i + 1], rs) {
                        Err(e) => Err(e),
                        Ok(step) => prepend(
                            seq![step],
                            steps_from(vs, rs, i + 2, hit || any_gate(step)),
                        ),
                    }
                } else {
                    match spec_gate_step(vs[i], rs) {
                        Err(e) => Err(e),
                        Ok(step) => prepend(
                            seq![step],
                            steps_from(vs, rs, i + 1, hit || any_gate(step)),
                        ),
                    }
                },
            },
        }
    }
}

/// The steps of the values of a vector pattern.
pub open spec fn spec_gate_steps_from_values(vs: Seq<FormView>, rs: Seq<Reading>) -> Result<
    Seq<Seq<SlotView>>,
    Seq<char>,
> {
    steps_from(vs, rs, 0, false)
}

fn step_has_gate(step: &Vec<GateSlot>) -> (r: bool)
    ensures
        r == any_gate(slot_views(step@)),
{
    let mut k: usize = 0;
    while k < step.len()
        invariant
            k <= step@.len(),
            forall|j: int| 0 <= j < k ==> !(#[trigger] step@[j]).gate,
        decreases step@.len() - k,
    {
        if step[k].gate {
            assert(slot_views(step@)[k as int].gate);
            return true;
        }
        k = k + 1;
    }
    assert forall|j: int| 0 <= j < slot_views(step@).len() implies !(#[trigger] slot_views(step@)[j]).gate by {
        assert(slot_views(step@)[j] == step@[j].view());
    }
    false
}

/// Reads the values of a vector pattern into steps (see `steps_from`).
pub fn gate_steps_from_values(values: &Vec<Form>, rs: &[Reading]) -> (r: Result<
    Vec<Vec<GateSlot>>,
    String,
>)
    requires
        all_fit(forms_view(values@), rs@),
    ensures
        match spec_gate_steps_from_values(forms_view(values@), rs@) {
            Ok(g) => r matches Ok(x) && slot_grid(x@) == g,
            Err(m) => r matches Err(e) && e@ == m,
        },
{
    let ghost vs = forms_view(values@);
    proof {
        lemma_forms_view_len(values@);
    }
    let mut steps: Vec<Vec<GateSlot>> = Vec::new();
    let mut index: usize = 0;
    let mut hit = false;
    assert(slot_grid(steps@) =~= Seq::<Seq<SlotView>>::empty());
    assert(prepend(Seq::empty(), steps_from(vs, rs@, 0, false)) =~= steps_from(vs, rs@, 0, false)) by {
        match steps_from(vs, rs@, 0, false) {
            Ok(x) => {
                assert(Seq::<Seq<SlotView>>::empty() + x =~= x);
            },
            Err(e) => {},
        }
    }
    while index < values.len()
        invariant
            index <= values@.len(),
            vs == forms_view(values@),
            vs.len() == values@.len(),
            all_fit(vs, rs@),
            spec_gate_steps_from_values(vs, rs@) == prepend(
                slot_grid(steps@),
                steps_from(vs, rs@, index as int, hit),
            ),
        decreases values@.len() - index,
    {
        proof {
            lemma_forms_view_index(values@, index as int);
            lemma_all_fit_index(vs, rs@, index as int);
        }
        let ghost g0 = slot_grid(steps@);
        let ghost i = index as int;
        match gate_sustain_value(&values[index], rs)? {
            Some(amount) => {
                if !hit {
                    return Err(String::from_str("gate sustain must follow a hit"));
                }
                let mut k: usize = 0;
                while k < amount
                    invariant
                        k <= amount,
                        slot_grid(steps@) == g0 + sustain_steps(k as nat),
                    decreases amount - k,
                {
                    let ghost before = steps@;
                    let row = vec![silent()];
                    assert(slot_views(row@) =~= seq![silent_slot()]);
                    steps.push(row);
                    assert(slot_grid(steps@) =~= slot_grid(before).push(seq![silent_slot()]));
                    assert(sustain_steps((k + 1) as nat) =~= sustain_steps(k as nat).push(
                        seq![silent_slot()],
                    ));
                    k = k + 1;
                }
                proof {
                    match steps_from(vs, rs@, i + 1, hit) {
                        Ok(x) => {
                            assert(g0 + (sustain_steps(amount as nat) + x) =~= (g0 + sustain_steps(
                                amount as nat,
                            )) + x);
                        },
                        Err(e) => {},
                    }
                }
                index = index + 1;
            },
            None => {
                let chance = chance_gate_value(&values[index], rs)?;
                let prefixed = match chance {
                    Some(c) => {
                        if index + 1 < values.len() {
                            proof {
                                lemma_forms_view_index(values@, index + 1);
                            }
                            match &values[index + 1] {
                                Form::Vector(_) => Some(c),
                                _ => None,
                            }
                        } else {
                            None
                        }
                    },
                    None => None,
                };
                let ghost c0 = chance;
                match prefixed {
                    Some(c) => {
                        proof {
                            lemma_all_fit_index(vs, rs@, index + 1);
                        }
                        let step = chance_prefixed_gate_step(c, &values[index + 1], rs)?;
                        let h = step_has_gate(&step);
                        let ghost sv = slot_views(step@);
                        let ghost before = steps@;
                        steps.push(step);
                        proof {
                            assert(slot_grid(steps@) =~= slot_grid(before).push(sv));
                            match steps_from(vs, rs@, i + 2, hit || h) {
                                Ok(x) => {
                                    assert(g0 + (seq![sv] + x) =~= g0.push(sv) + x);
                                },
                                Err(e) => {},
                            }
                        }
                        hit = hit || h;
                        index = index + 2;
                    },
                    None => {
                        let step = gate_step_pattern(&values[index], rs)?;
                        let h = step_has_gate(&step);
                        let ghost sv = slot_views(step@);
                        let ghost before = steps@;
                        steps.push(step);
                        proof {
                            assert(slot_grid(steps@) =~= slot_grid(before).push(sv));
                            match steps_from(vs, rs@, i + 1, hit || h) {
                                Ok(x) => {
                                    assert(g0 + (seq![sv] + x) =~= g0.push(sv) + x);
                                },
                                Err(e) => {},
                            }
                        }
                        hit = hit || h;
                        index = index + 1;
                    },
                }
            },
        }
    }
    assert(slot_grid(steps@) + Seq::<Seq<SlotView>>::empty() =~= slot_grid(steps@));
    Ok(steps)
}

/// What the head symbol of a gate pattern list asks for.
pub enum PatternHead {
    Euclid,
    EuclidRot,
    Reverse,
    Times,
    Then,
    Wrap,
    Other,
}

/// The kind of gate pattern list that a head symbol starts.
pub open spec fn spec_pattern_head(name: Seq<char>) -> PatternHead {
    if name == "euclid"@ {
        PatternHead::Euclid
    } else if name == "euclid-rot"@ {
        PatternHead::EuclidRot
    } else if name == "rev"@ || name == "reverse"@ {
        PatternHead::Reverse
    } else if name == "times"@ {
        PatternHead::Times
    } else if name == "then"@ {
        PatternHead::Then
    } else if spec_numeric_pattern_form(name) {
        PatternHead::Wrap
    } else {
        PatternHead::Other
    }
}

/// `(rev X)` and `(reverse X)` read as `X` played backwards: whenever `X`
/// reads as a pattern, the steps of the reversed pattern are the steps of
/// `X` in reverse order (gates, cells and holds alike) and its loop
/// restarts at the start; it is refused only when a reversed hold no longer
/// falls on a hit.
pub proof fn lemma_reverse_pattern(x: FormView, rs: Seq<Reading>, name: Seq<char>)
    requires
        name == "rev"@ || name == "reverse"@,
        spec_gate_pattern(x, rs) is Ok,
    ensures
        ({
            let p = spec_gate_pattern(x, rs)->Ok_0;
            let q = spec_gate_pattern(FormView::List(seq![FormView::Symbol(name), x]), rs);
            if holds_on_hits(p.gates.reverse(), p.holds.reverse()) {
                q matches Ok(v) && {
                    &&& v.gates.len() == p.gates.len()
                    &&& v.cells.len() == p.cells.len()
                    &&& v.holds.len() == p.holds.len()
                    &&& forall|i: int| 0 <= i < p.gates.len() ==> #[trigger] v.gates[i] == p.gates[p.gates.len() - 1 - i]
                    &&& forall|i: int| 0 <= i < p.cells.len() ==> #[trigger] v.cells[i] == p.cells[p.cells.len() - 1 - i]
                    &&& forall|i: int| 0 <= i < p.holds.len() ==> #[trigger] v.holds[i] == p.holds[p.holds.len() - 1 - i]
                    &&& v.loop_start == 0
                }
            } else {
                q == Err::<PatternView, Seq<char>>("gate hold can only be attached to a hit"@)
            }
        }),
{
    if name == "rev"@ {
        assert(spec_pattern_head(name) == PatternHead::Reverse) by {
            reveal_strlit("euclid");
            reveal_strlit("euclid-rot");
            reveal_strlit("rev");
            reveal_strlit("reverse");
            assert(name.len() == 3);
            assert(name[0] == 'r');
            assert(name[1] == 'e');
            assert(name[2] == 'v');
        }
    } else {
        assert(spec_pattern_head(name) == PatternHead::Reverse) by {
            reveal_strlit("euclid");
            reveal_strlit("euclid-rot");
            reveal_strlit("rev");
            reveal_strlit("reverse");
            assert(name.len() == 7);
            assert(name[0] == 'r');
            assert(name[1] == 'e');
            assert(name[2] == 'v');
            assert(name[3] == 'e');
            assert(name[4] == 'r');
            assert(name[5] == 's');
            assert(name[6] == 'e');
        }
    }
    let items = seq![FormView::Symbol(name), x];
    assert(items[0] is Symbol);
    assert(items[1] == x);
}

/// Classifies the head symbol of a gate pattern list.
pub fn pattern_head(name: &str) -> (r: PatternHead)
    ensures
        r == spec_pattern_head(name@),
{
    if str_eq(name, "euclid") {
        PatternHead::Euclid
    } else if str_eq(name, "euclid-rot") {
        PatternHead::EuclidRot
    } else if str_eq(name, "rev") || str_eq(name, "reverse") {
        PatternHead::Reverse
    } else if str_eq(name, "times") {
        PatternHead::Times
    } else if str_eq(name, "then") {
        PatternHead::Then
    } else if numeric_pattern_form(name) {
        PatternHead::Wrap
    } else {
        PatternHead::Other
    }
}

/// The Euclidean rhythm as a pattern: one static gate per step, no holds.
pub open spec fn euclid_view(pulses: nat, steps: nat, rotation: nat) -> PatternView {
    let e = spec_euclid(pulses, steps, rotation);
    PatternView {
        gates: e.map_values(|g: bool| seq![g]),
        cells: e.map_values(|g: bool| seq![CellView::Static(g)]),
        holds: e.map_values(|g: bool| seq![0usize]),
        loop_start: 0,
    }
}

/// A pattern played backwards, the loop restarting at the start.
pub open spec fn reverse_view(p: PatternView) -> PatternView {
    PatternView {
        gates: p.gates.reverse(),
        cells: p.cells.reverse(),
        holds: p.holds.reverse(),
        loop_start: 0,
    }
}

/// A pattern played `n` times, the loop restarting at the start.
pub open spec fn repeat_view(p: PatternView, n: nat) -> PatternView {
    PatternView {
        gates: repeat_seq(p.gates, n),
        cells: repeat_seq(p.cells, n),
        holds: repeat_seq(p.holds, n),
        loop_start: 0,
    }
}

/// Patterns played one after the other; the loop restarts at the last one,
/// or at the start when the last one is a `times`.
pub open spec fn chain_view(vs: Seq<PatternView>, last_is_times: bool) -> PatternView {
    PatternView {
        gates: concat_gates(vs),
        cells: concat_cells(vs),
        holds: concat_holds(vs),
        loop_start: if last_is_times {
            0
        } else {
            concat_gates(vs.drop_last()).len()
        },
    }
}

/// The pattern of a grid of steps, the loop restarting at the start.
pub open spec fn from_steps(g: Seq<Seq<SlotView>>) -> Result<PatternView, Seq<char>> {
    built(
        PatternView {
            gates: slot_gates(g),
            cells: slot_cells(g),
            holds: slot_holds(g),
            loop_start: 0,
        },
    )
}

/// The pattern of the values of a vector.
pub open spec fn steps_pattern(values: Seq<FormView>, rs: Seq<Reading>) -> Result<
    PatternView,
    Seq<char>,
> {
    match spec_gate_steps_from_values(values, rs) {
        Err(e) => Err(e),
        Ok(g) => from_steps(g),
    }
}

/// The pattern of a form that is no pattern list: a vector of steps, or a
/// single step.
pub open spec fn plain_pattern(f: FormView, rs: Seq<Reading>) -> Result<PatternView, Seq<char>> {
    match f {
        FormView::Vector(values) => steps_pattern(values, rs),
        _ => match spec_gate_step(f, rs) {
            Err(e) => Err(e),
            Ok(step) => from_steps(seq![step]),
        },
    }
}

/// Whether a stage of `then` is a `(times ..)` list.
pub open spec fn stage_is_times(f: FormView) -> bool {
    f matches FormView::List(si) && is_headed(si, "times"@)
}

/// The error for a wrapping form given `then` as a sibling.
pub open spec fn wrap_then_message(name: Seq<char>) -> Seq<char> {
    name + " wraps exactly one pattern; use ("@ + name + " (then A B)) instead of ("@ + name
        + " A then B)"@
}

/// The pattern of `(euclid P S)`.
pub open spec fn spec_euclid_form(items: Seq<FormView>, rs: Seq<Reading>) -> Result<
    PatternView,
    Seq<char>,
> {
    if items.len() != 3 {
        Err("euclid expects pulses and steps"@)
    } else {
        match spec_usize_value(items[1], rs, "euclid pulses"@) {
            Err(e) => Err(e),
            Ok(p) => match spec_positive_usize_value(items[2], rs, "euclid steps"@) {
                Err(e) => Err(e),
                Ok(n) => Ok(euclid_view(p as nat, n as nat, 0)),
            },
        }
    }
}

/// The pattern of `(euclid-rot P S R)`.
pub open spec fn spec_euclid_rot_form(items: Seq<FormView>, rs: Seq<Reading>) -> Result<
    PatternView,
    Seq<char>,
> {
    if items.len() != 4 {
        Err("euclid-rot expects pulses, steps, and rotation"@)
    } else {
        match spec_usize_value(items[1], rs, "euclid-rot pulses"@) {
            Err(e) => Err(e),
            Ok(p) => match spec_positive_usize_value(items[2], rs, "euclid-rot steps"@) {
                Err(e) => Err(e),
                Ok(n) => match spec_usize_value(items[3], rs, "euclid-rot rotation"@) {
                    Err(e) => Err(e),
                    Ok(r) => Ok(euclid_view(p as nat, n as nat, r as nat)),
                },
            },
        }
    }
}

/// The pattern of gates a form stands for: `(euclid P S)`, `(euclid-rot P S R)`,
/// `(rev X)`/`(reverse X)`, `(times N X)`, `(then X Y ..)`, a wrapping form
/// such as `(g X)` around one pattern, a vector of steps, or a single step.
pub open spec fn spec_gate_pattern(f: FormView, rs: Seq<Reading>) -> Result<PatternView, Seq<char>>
    decreases f,
{
    match f {
        FormView::List(items) => if items.len() > 0 && items[0] is Symbol {
            let name = items[0]->Symbol_0;
            match spec_pattern_head(name) {
                PatternHead::Euclid => spec_euclid_form(items, rs),
                PatternHead::EuclidRot => spec_euclid_rot_form(items, rs),
                PatternHead::Reverse => if items.len() > 2 {
                    Err("reverse expects one pattern"@)
                } else if items.len() < 2 {
                    Err("reverse requires a pattern"@)
                } else {
                    match spec_gate_pattern(items[1], rs) {
                        Err(e) => Err(e),
                        Ok(p) => built(reverse_view(p)),
                    }
                },
                PatternHead::Times => if items.len() < 2 {
                    Err("times requires a count"@)
                } else if items.len() < 3 {
                    Err("times requires a pattern"@)
                } else if items.len() > 3 {
                    Err("times expects count and one pattern"@)
                } else {
                    match spec_positive_usize_value(items[1], rs, "times"@) {
                        Err(e) => Err(e),
                        Ok(n) => match spec_gate_pattern(items[2], rs) {
                            Err(e) => Err(e),
                            Ok(p) => built(repeat_view(p, n as nat)),
                        },
                    }
                },
                PatternHead::Then => if items.len() < 3 {
                    Err("then expects at least two patterns"@)
                } else {
                    match spec_then_stages(items.subrange(1, items.len() as int), rs) {
                        Err(e) => Err(e),
                        Ok(vs) => built(chain_view(vs, stage_is_times(items.last()))),
                    }
                },
                PatternHead::Wrap => if items.len() < 2 {
                    Err(name + " requires a pattern"@)
                } else if items.len() > 2 {
                    if exists|i: int| 2 <= i < items.len() && #[trigger] items[i] == FormView::Symbol("then"@) {
                        Err(wrap_then_message(name))
                    } else {
                        Err(name + " expects one pattern"@)
                    }
                } else {
                    match items[1] {
                        FormView::Vector(values) => steps_pattern(values, rs),
                        _ => spec_gate_pattern(items[1], rs),
                    }
                },
                PatternHead::Other => plain_pattern(f, rs),
            }
        } else {
            plain_pattern(f, rs)
        },
        _ => plain_pattern(f, rs),
    }
}

/// The patterns of the stages of a `then`, in order; the first error stops
/// the reading.
pub open spec fn spec_then_stages(stages: Seq<FormView>, rs: Seq<Reading>) -> Result<
    Seq<PatternView>,
    Seq<char>,
>
    decreases stages,
{
    if stages.len() == 0 {
        Ok(Seq::empty())
    } else {
        match spec_then_stages(stages.drop_last(), rs) {
            Err(e) => Err(e),
            Ok(prev) => match spec_gate_pattern(stages.last(), rs) {
                Err(e) => Err(e),
                Ok(p) => Ok(prev.push(p)),
            },
        }
    }
}

fn euclid_form(items: &Vec<Form>, rs: &[Reading]) -> (r: Result<ParsedGatePattern, String>)
    ensures
        result_is(r, spec_euclid_form(forms_view(items@), rs@)),
{
    proof {
        lemma_forms_view_len(items@);
    }
    if items.len() != 3 {
        return Err(String::from_str("euclid expects pulses and steps"));
    }
    proof {
        lemma_forms_view_index(items@, 1);
        lemma_forms_view_index(items@, 2);
    }
    let pulses = usize_value(&items[1], rs, "euclid pulses")?;
    let steps = positive_usize_value(&items[2], rs, "euclid steps")?;
    let p = euclid_gate_pattern(pulses, steps, 0);
    assert(pattern_view(p) == euclid_view(pulses as nat, steps as nat, 0));
    Ok(p)
}

fn euclid_rot_form(items: &Vec<Form>, rs: &[Reading]) -> (r: Result<ParsedGatePattern, String>)
    ensures
        result_is(r, spec_euclid_rot_form(forms_view(items@), rs@)),
{
    proof {
        lemma_forms_view_len(items@);
    }
    if items.len() != 4 {
        return Err(String::from_str("euclid-rot expects pulses, steps, and rotation"));
    }
    proof {
        lemma_forms_view_index(items@, 1);
        lemma_forms_view_index(items@, 2);
        lemma_forms_view_index(items@, 3);
    }
    let pulses = usize_value(&items[1], rs, "euclid-rot pulses")?;
    let steps = positive_usize_value(&items[2], rs, "euclid-rot steps")?;
    let rotation = usize_value(&items[3], rs, "euclid-rot rotation")?;
    let p = euclid_gate_pattern(pulses, steps, rotation);
    assert(pattern_view(p) == euclid_view(pulses as nat, steps as nat, rotation as nat));
    Ok(p)
}

fn steps_to_pattern(values: &Vec<Form>, rs: &[Reading]) -> (r: Result<ParsedGatePattern, String>)
    requires
        all_fit(forms_view(values@), rs@),
    ensures
        result_is(r, steps_pattern(forms_view(values@), rs@)),
{
    let steps = gate_steps_from_values(values, rs)?;
    gate_pattern_from_steps(steps)
}

fn plain_to_pattern(f: &Form, rs: &[Reading]) -> (r: Result<ParsedGatePattern, String>)
    requires
        widths_fit(form_view(*f), rs@),
    ensures
        result_is(r, plain_pattern(form_view(*f), rs@)),
{
    match f {
        Form::Vector(values) => steps_to_pattern(values, rs),
        _ => {
            let step = gate_step_pattern(f, rs)?;
            let ghost sv = slot_views(step@);
            let steps = vec![step];
            assert(slot_grid(steps@) =~= seq![sv]);
            gate_pattern_from_steps(steps)
        },
    }
}

fn has_then_symbol(items: &Vec<Form>) -> (r: bool)
    ensures
        r == exists|i: int|
            2 <= i < forms_view(items@).len() && #[trigger] forms_view(items@)[i]
                == FormView::Symbol("then"@),
{
    let ghost its = forms_view(items@);
    proof {
        lemma_forms_view_len(items@);
    }
    let mut i: usize = 2;
    while i < items.len()
        invariant
            2 <= i,
            its == forms_view(items@),
            its.len() == items@.len(),
            forall|j: int| 2 <= j < i && j < its.len() ==> #[trigger] its[j] != FormView::Symbol("then"@),
        decreases items@.len() - i,
    {
        proof {
            lemma_forms_view_index(items@, i as int);
        }
        match &items[i] {
            Form::Symbol(n) => {
                if str_eq(n.as_str(), "then") {
                    return true;
                }
            },
            _ => {},
        }
        i = i + 1;
    }
    false
}

fn stage_times(items: &Vec<Form>) -> (r: bool)
    requires
        items@.len() > 0,
    ensures
        r == stage_is_times(forms_view(items@).last()),
{
    proof {
        lemma_forms_view_len(items@);
        lemma_forms_view_index(items@, items@.len() - 1);
    }
    match &items[items.len() - 1] {
        Form::List(si) => head_is(si, "times"),
        _ => false,
    }
}

proof fn lemma_stages_len(vs: Seq<FormView>, rs: Seq<Reading>)
    ensures
        spec_then_stages(vs, rs) matches Ok(x) ==> x.len() == vs.len(),
    decreases vs.len(),
{
    if vs.len() > 0 {
        lemma_stages_len(vs.drop_last(), rs);
    }
}

proof fn lemma_stages_err_stays(vs: Seq<FormView>, rs: Seq<Reading>, j: int, m: Seq<char>)
    requires
        0 <= j <= vs.len(),
        spec_then_stages(vs.subrange(0, j), rs) == Err::<Seq<PatternView>, Seq<char>>(m),
    ensures
        spec_then_stages(vs, rs) == Err::<Seq<PatternView>, Seq<char>>(m),
    decreases vs.len(),
{
    if j < vs.len() {
        assert(vs.drop_last().subrange(0, j) =~= vs.subrange(0, j));
        lemma_stages_err_stays(vs.drop_last(), rs, j, m);
    } else {
        assert(vs.subrange(0, j) =~= vs);
    }
}

/// Reads the stages of a `then` list (its items after the head), in order.
fn then_stages(items: &Vec<Form>, rs: &[Reading]) -> (r: Result<Vec<ParsedGatePattern>, String>)
    requires
        items@.len() >= 1,
        all_fit(forms_view(items@), rs@),
    ensures
        match spec_then_stages(forms_view(items@).subrange(1, items@.len() as int), rs@) {
            Ok(vs) => r matches Ok(x) && x@.map_values(|p: ParsedGatePattern| pattern_view(p)) == vs,
            Err(m) => r matches Err(e) && e@ == m,
        },
    decreases items,
{
    let ghost its = forms_view(items@);
    proof {
        lemma_forms_view_len(items@);
    }
    let mut out: Vec<ParsedGatePattern> = Vec::new();
    let mut i: usize = 1;
    assert(its.subrange(1, 1) =~= Seq::<FormView>::empty());
    assert(out@.map_values(|p: ParsedGatePattern| pattern_view(p)) =~= Seq::<PatternView>::empty());
    while i < items.len()
        invariant
            1 <= i <= items@.len(),
            its == forms_view(items@),
            its.len() == items@.len(),
            all_fit(its, rs@),
            spec_then_stages(its.subrange(1, i as int), rs@) == Ok::<Seq<PatternView>, Seq<char>>(
                out@.map_values(|p: ParsedGatePattern| pattern_view(p)),
            ),
        decreases items@.len() - i,
    {
        proof {
            lemma_forms_view_index(items@, i as int);
            lemma_all_fit_index(its, rs@, i as int);
            assert(its.subrange(1, i + 1).drop_last() =~= its.subrange(1, i as int));
            assert(its.subrange(1, i + 1).last() == its[i as int]);
        }
        assert(decreases_to!(items => items@[i as int]));
        let p = match gate_pattern(&items[i], rs) {
            Ok(p) => p,
            Err(e) => {
                proof {
                    let vs = its.subrange(1, its.len() as int);
                    assert(vs.subrange(0, i as int) =~= its.subrange(1, i + 1));
                    lemma_stages_err_stays(vs, rs@, i as int, e@);
                }
                return Err(e);
            },
        };
        let ghost before = out@;
        out.push(p);
        assert(out@.map_values(|p: ParsedGatePattern| pattern_view(p)) =~= before.map_values(
            |p: ParsedGatePattern| pattern_view(p),
        ).push(pattern_view(p)));
        i = i + 1;
    }
    Ok(out)
}

/// Reads a form into a gate pattern (see `spec_gate_pattern`).
pub fn gate_pattern(f: &Form, rs: &[Reading]) -> (r: Result<ParsedGatePattern, String>)
    requires
        widths_fit(form_view(*f), rs@),
    ensures
        result_is(r, spec_gate_pattern(form_view(*f), rs@)),
    decreases f,
{
    match f {
        Form::List(items) => {
            let ghost its = forms_view(items@);
            proof {
                lemma_forms_view_len(items@);
            }
            if items.len() > 0 {
                proof {
                    lemma_forms_view_index(items@, 0);
                }
                match &items[0] {
                    Form::Symbol(name) => {
                        match pattern_head(name.as_str()) {
                            PatternHead::Euclid => {
                                return euclid_form(items, rs);
                            },
                            PatternHead::EuclidRot => {
                                return euclid_rot_form(items, rs);
                            },
                            PatternHead::Reverse => {
                                if items.len() > 2 {
                                    return Err(String::from_str("reverse expects one pattern"));
                                }
                                if items.len() < 2 {
                                    return Err(String::from_str("reverse requires a pattern"));
                                }
                                proof {
                                    lemma_forms_view_index(items@, 1);
                                    lemma_all_fit_index(its, rs@, 1);
                                }
                                assert(decreases_to!(items => items@[1]));
                                let p = gate_pattern(&items[1], rs)?;
                                return reverse_gate_pattern(p);
                            },
                            PatternHead::Times => {
                                if items.len() < 2 {
                                    return Err(String::from_str("times requires a count"));
                                }
                                if items.len() < 3 {
                                    return Err(String::from_str("times requires a pattern"));
                                }
                                if items.len() > 3 {
                                    return Err(String::from_str("times expects count and one pattern"));
                                }
                                proof {
                                    lemma_forms_view_index(items@, 1);
                                    lemma_forms_view_index(items@, 2);
                                    lemma_all_fit_index(its, rs@, 2);
                                }
                                let count = positive_usize_value(&items[1], rs, "times")?;
                                assert(decreases_to!(items => items@[2]));
                                let p = gate_pattern(&items[2], rs)?;
                                return repeat_gate_pattern(&p, count);
                            },
                            PatternHead::Then => {
                                if items.len() < 3 {
                                    return Err(String::from_str("then expects at least two patterns"));
                                }
                                let last_is_times = stage_times(items);
                                let stages = then_stages(items, rs)?;
                                proof {
                                    lemma_stages_len(its.subrange(1, its.len() as int), rs@);
                                }
                                return chain_gate_patterns(stages, last_is_times);
                            },
                            PatternHead::Wrap => {
                                if items.len() < 2 {
                                    let mut m = String::from_str(name.as_str());
                                    m.append(" requires a pattern");
                                    return Err(m);
                                }
                                if items.len() > 2 {
                                    if has_then_symbol(items) {
                                        let mut m = String::from_str(name.as_str());
                                        m.append(" wraps exactly one pattern; use (");
                                        m.append(name.as_str());
                                        m.append(" (then A B)) instead of (");
                                        m.append(name.as_str());
                                        m.append(" A then B)");
                                        return Err(m);
                                    }
                                    let mut m = String::from_str(name.as_str());
                                    m.append(" expects one pattern");
                                    return Err(m);
                                }
                                proof {
                                    lemma_forms_view_index(items@, 1);
                                    lemma_all_fit_index(its, rs@, 1);
                                }
                                match &items[1] {
                                    Form::Vector(values) => {
                                        return steps_to_pattern(values, rs);
                                    },
                                    _ => {
                                        assert(decreases_to!(items => items@[1]));
                                        return gate_pattern(&items[1], rs);
                                    },
                                }
                            },
                            PatternHead::Other => {},
                        }
                    },
                    _ => {},
                }
            }
            plain_to_pattern(f, rs)
        },
        _ => plain_to_pattern(f, rs),
    }
}

/// The subdivided gates of a gate pattern form.
pub fn gate_subdivision_pattern(f: &Form, rs: &[Reading]) -> (r: Result<Vec<Vec<bool>>, String>)
    requires
        widths_fit(form_view(*f), rs@),
    ensures
        match spec_gate_pattern(form_view(*f), rs@) {
            Ok(v) => r matches Ok(g) && bool_grid(g@) == v.gates,
            Err(m) => r matches Err(e) && e@ == m,
        },
{
    let p = gate_pattern(f, rs)?;
    Ok(p.gates)
}

/// `all_fit` holds exactly when each form of the sequence fits.
proof fn lemma_all_fit_each(vs: Seq<FormView>, rs: Seq<Reading>)
    ensures
        all_fit(vs, rs) == forall|i: int| 0 <= i < vs.len() ==> #[trigger] widths_fit(vs[i], rs),
    decreases vs.len(),
{
    if vs.len() > 0 {
        lemma_all_fit_each(vs.drop_last(), rs);
        if forall|i: int| 0 <= i < vs.len() ==> #[trigger] widths_fit(vs[i], rs) {
            assert forall|i: int| 0 <= i < vs.drop_last().len() implies #[trigger] widths_fit(
                vs.drop_last()[i],
                rs,
            ) by {
                assert(vs.drop_last()[i] == vs[i]);
            }
            assert(widths_fit(vs[vs.len() - 1], rs));
        }
        if all_fit(vs, rs) {
            assert forall|i: int| 0 <= i < vs.len() implies #[trigger] widths_fit(vs[i], rs) by {
                if i < vs.len() - 1 {
                    assert(vs.drop_last()[i] == vs[i]);
                }
            }
        }
    }
}

/// Whether every form of `values` passes [`gate_widths_fit`].
fn all_gate_widths_fit(values: &Vec<Form>, rs: &[Reading]) -> (r: bool)
    ensures
        r == all_fit(forms_view(values@), rs@),
    decreases values,
{
    let ghost vs = forms_view(values@);
    proof {
        lemma_forms_view_len(values@);
        lemma_all_fit_each(vs, rs@);
    }
    let mut i: usize = 0;
    while i < values.len()
        invariant
            i <= values@.len(),
            vs == forms_view(values@),
            vs.len() == values@.len(),
            forall|j: int| 0 <= j < i ==> #[trigger] widths_fit(vs[j], rs@),
        decreases values@.len() - i,
    {
        proof {
            lemma_forms_view_index(values@, i as int);
        }
        assert(decreases_to!(values => values@[i as int]));
        if !gate_widths_fit(&values[i], rs) {
            proof {
                lemma_all_fit_each(vs, rs@);
            }
            return false;
        }
        i = i + 1;
    }
    proof {
        lemma_all_fit_each(vs, rs@);
    }
    true
}

/// Whether every vector step inside `f` is narrow enough that its width
/// (the least common multiple of its children's lengths) fits in a `usize`:
/// the condition under which [`gate_pattern`] reads `f`.
pub fn gate_widths_fit(f: &Form, rs: &[Reading]) -> (r: bool)
    ensures
        r == widths_fit(form_view(*f), rs@),
    decreases f,
{
    match f {
        Form::List(items) => all_gate_widths_fit(items, rs),
        Form::Vector(values) => {
            if !all_gate_widths_fit(values, rs) {
                return false;
            }
            let children = match step_children(values, rs) {
                Ok(c) => c,
                Err(_) => return true,
            };
            let ghost ch = slot_grid(children@);
            let n = children.len();
            let mut width: usize = 1;
            let mut k: usize = 0;
            while k < n
                invariant
                    k <= n,
                    n == children@.len(),
                    ch == slot_grid(children@),
                    width == children_width(ch, k as int),
                    form_view(*f) == FormView::Vector(forms_view(values@)),
                    all_fit(forms_view(values@), rs@),
                    spec_step_children(forms_view(values@), rs@) == Ok::<Seq<Seq<SlotView>>, Seq<char>>(ch),
                decreases n - k,
            {
                let len = children[k].len();
                assert(ch[k as int].len() == len);
                match checked_lcm(width, len) {
                    Some(w) => {
                        width = w;
                    },
                    None => {
                        proof {
                            assert(children_width(ch, k + 1) == spec_lcm(width as nat, len as nat));
                            lemma_children_width_mono(ch, k + 1, n as int);
                            assert(ch.len() == n);
                            assert(children_width(ch, ch.len() as int) > usize::MAX);
                        }
                        return false;
                    },
                }
                k = k + 1;
            }
            assert(ch.len() == n);
            true
        },
        _ => true,
    }
}

/// Reads a form into a gate pattern when its vector steps are narrow
/// enough (see [`gate_widths_fit`]); none when one of them is too wide.
pub fn checked_gate_pattern(f: &Form, rs: &[Reading]) -> (r: Option<Result<ParsedGatePattern, String>>)
    ensures
        r is None <==> !widths_fit(form_view(*f), rs@),
        r matches Some(x) ==> result_is(x, spec_gate_pattern(form_view(*f), rs@)),
{
    if gate_widths_fit(f, rs) {
        Some(gate_pattern(f, rs))
    } else {
        None
    }
}

/// The step that a number gives inside a vector pattern: one static slot,
/// firing when the number is above zero.
pub open spec fn number_step(rs: Seq<Reading>, t: Seq<char>) -> Seq<SlotView> {
    seq![
        SlotView {
            gate: reading_of(rs, t).positive,
            cell: CellView::Static(reading_of(rs, t).positive),
            hold: 0,
        },
    ]
}

proof fn lemma_numbers_steps_from(ts: Seq<Seq<char>>, rs: Seq<Reading>, i: int, hit: bool)
    requires
        0 <= i <= ts.len(),
    ensures
        steps_from(ts.map_values(|t: Seq<char>| FormView::Number(t)), rs, i, hit) == Ok::<
            Seq<Seq<SlotView>>,
            Seq<char>,
        >(Seq::new((ts.len() - i) as nat, |k: int| number_step(rs, ts[i + k]))),
    decreases ts.len() - i,
{
    let vs = ts.map_values(|t: Seq<char>| FormView::Number(t));
    if i < ts.len() {
        let step = number_step(rs, ts[i]);
        assert(vs[i] == FormView::Number(ts[i]));
        assert(spec_gate_step(vs[i], rs) == Ok::<Seq<SlotView>, Seq<char>>(step));
        lemma_numbers_steps_from(ts, rs, i + 1, hit || any_gate(step));
        assert(seq![step] + Seq::new((ts.len() - (i + 1)) as nat, |k: int| number_step(rs, ts[i + 1 + k]))
            =~= Seq::new((ts.len() - i) as nat, |k: int| number_step(rs, ts[i + k])));
    } else {
        assert(Seq::new((ts.len() - i) as nat, |k: int| number_step(rs, ts[i + k])) =~= Seq::<
            Seq<SlotView>,
        >::empty());
    }
}

/// A vector of numbers is a pattern of one step per number, each step one
/// static slot that fires when its number is above zero, with no holds and
/// the loop restarting at the start.
pub proof fn lemma_number_vector_pattern(ts: Seq<Seq<char>>, rs: Seq<Reading>)
    ensures
        spec_gate_pattern(FormView::Vector(ts.map_values(|t: Seq<char>| FormView::Number(t))), rs)
            == Ok::<PatternView, Seq<char>>(
            PatternView {
                gates: ts.map_values(|t: Seq<char>| seq![reading_of(rs, t).positive]),
                cells: ts.map_values(
                    |t: Seq<char>| seq![CellView::Static(reading_of(rs, t).positive)],
                ),
                holds: ts.map_values(|t: Seq<char>| seq![0usize]),
                loop_start: 0,
            },
        ),
{
    let vs = ts.map_values(|t: Seq<char>| FormView::Number(t));
    lemma_numbers_steps_from(ts, rs, 0, false);
    let g = Seq::new(ts.len(), |k: int| number_step(rs, ts[0 + k]));
    assert(spec_gate_steps_from_values(vs, rs) == Ok::<Seq<Seq<SlotView>>, Seq<char>>(g));
    let v = PatternView {
        gates: ts.map_values(|t: Seq<char>| seq![reading_of(rs, t).positive]),
        cells: ts.map_values(|t: Seq<char>| seq![CellView::Static(reading_of(rs, t).positive)]),
        holds: ts.map_values(|t: Seq<char>| seq![0usize]),
        loop_start: 0,
    };
    assert(slot_gates(g) =~= v.gates) by {
        assert forall|k: int| 0 <= k < g.len() implies slot_gates(g)[k] =~= v.gates[k] by {}
    }
    assert(slot_cells(g) =~= v.cells) by {
        assert forall|k: int| 0 <= k < g.len() implies slot_cells(g)[k] =~= v.cells[k] by {}
    }
    assert(slot_holds(g) =~= v.holds) by {
        assert forall|k: int| 0 <= k < g.len() implies slot_holds(g)[k] =~= v.holds[k] by {}
    }
    lemma_zero_holds_on_hits(v.gates, v.holds);
}

proof fn lemma_divides_trans(a: nat, b: nat, c: nat)
    requires
        b > 0,
        c > 0,
        a % b == 0,
        b % c == 0,
    ensures
        a % c == 0,
{
    lemma_fundamental_div_mod(a as int, b as int);
    lemma_fundamental_div_mod(b as int, c as int);
    let q1 = a / b;
    let q2 = b / c;
    assert(a == (q2 * q1) * c) by (nonlinear_arith)
        requires
            a == b * q1,
            b == c * q2,
    ;
    lemma_mod_multiples_basic((q2 * q1) as int, c as int);
}

proof fn lemma_multiple_at_least(a: nat, b: nat)
    requires
        a > 0,
        b > 0,
        a % b == 0,
    ensures
        a >= b,
{
    if a < b {
        lemma_small_mod(a, b);
    }
}

proof fn lemma_children_width_multiple(ch: Seq<Seq<SlotView>>, k: int, n: int)
    requires
        0 <= k < n,
    ensures
        children_width(ch, n) % (if ch[k].len() == 0 { 1 } else { ch[k].len() }) == 0,
    decreases n,
{
    lemma_children_width_mono(ch, 0, n - 1);
    lemma_lcm_is_common_multiple(children_width(ch, n - 1), ch[n - 1].len());
    if k < n - 1 {
        lemma_children_width_multiple(ch, k, n - 1);
        lemma_divides_trans(
            children_width(ch, n),
            children_width(ch, n - 1),
            if ch[k].len() == 0 { 1 } else { ch[k].len() },
        );
    }
}

proof fn lemma_children_len(vs: Seq<FormView>, rs: Seq<Reading>)
    ensures
        spec_step_children(vs, rs) matches Ok(ch) ==> ch.len() == vs.len(),
    decreases vs.len(),
{
    if vs.len() > 0 {
        lemma_children_len(vs.drop_last(), rs);
    }
}

proof fn lemma_expand_children_layout(ch: Seq<Seq<SlotView>>, w: nat, n: int)
    requires
        w >= 1,
        0 <= n <= ch.len(),
        forall|k: int| 0 <= k < n ==> #[trigger] spec_expand_gate_cell(ch[k], w).len() == w,
    ensures
        expand_children(ch, w, n).len() == n * w,
        forall|k: int, j: int|
            0 <= k < n && 0 <= j < w ==> #[trigger] expand_children(ch, w, n)[k * w + j]
                == spec_expand_gate_cell(ch[k], w)[j],
    decreases n,
{
    if n > 0 {
        lemma_expand_children_layout(ch, w, n - 1);
        assert(spec_expand_gate_cell(ch[n - 1], w).len() == w);
        assert(expand_children(ch, w, n) == expand_children(ch, w, n - 1) + spec_expand_gate_cell(
            ch[n - 1],
            w,
        ));
        assert((n - 1) * w + w == n * w) by (nonlinear_arith);
        assert forall|k: int, j: int| 0 <= k < n && 0 <= j < w implies #[trigger] expand_children(
            ch,
            w,
            n,
        )[k * w + j] == spec_expand_gate_cell(ch[k], w)[j] by {
            if k < n - 1 {
                assert(k * w + j < (n - 1) * w) by (nonlinear_arith)
                    requires
                        k < n - 1,
                        j < w,
                        0 <= k,
                ;
            } else {
                assert(k * w == (n - 1) * w);
            }
        }
    } else {
        assert(n * w == 0) by (nonlinear_arith)
            requires
                n == 0,
        ;
    }
}

/// Subdividing a step keeps each subdivision's hits in place: a vector
/// step of `n` subdivisions that all read has `n * w` slots, `w` being the
/// least common multiple of their lengths, and subdivision `k` fills slots
/// `k * w` up to `(k + 1) * w`, each of its firing slots `idx` landing at
/// `k * w + idx * (w / len)`, every other slot silent.
pub proof fn lemma_vector_step_layout(vs: Seq<FormView>, rs: Seq<Reading>)
    requires
        vs.len() > 0,
        spec_step_children(vs, rs) is Ok,
    ensures
        ({
            let ch = spec_step_children(vs, rs)->Ok_0;
            let w = children_width(ch, ch.len() as int);
            spec_gate_step(FormView::Vector(vs), rs) matches Ok(x) && x.len() == vs.len() * w
                && forall|k: int, j: int|
                0 <= k < vs.len() && 0 <= j < w ==> #[trigger] x[k * w + j] == if ch[k].len() > 0
                    && j % (w / ch[k].len()) as int == 0 && ch[k][j / (w / ch[k].len()) as int].gate {
                    ch[k][j / (w / ch[k].len()) as int]
                } else {
                    silent_slot()
                }
        }),
{
    let ch = spec_step_children(vs, rs)->Ok_0;
    let n = ch.len() as int;
    let w = children_width(ch, n);
    lemma_children_len(vs, rs);
    lemma_children_width_mono(ch, 0, n);
    assert forall|k: int| 0 <= k < n implies #[trigger] spec_expand_gate_cell(ch[k], w).len() == w by {
        lemma_children_width_multiple(ch, k, n);
        if ch[k].len() > 0 {
            lemma_multiple_at_least(w, ch[k].len());
            lemma_expand_gate_cell_even(ch[k], w);
        }
    }
    lemma_expand_children_layout(ch, w, n);
    let x = expand_children(ch, w, n);
    assert forall|k: int, j: int| 0 <= k < vs.len() && 0 <= j < w implies #[trigger] x[k * w + j]
        == if ch[k].len() > 0 && j % (w / ch[k].len()) as int == 0 && ch[k][j / (w
        / ch[k].len()) as int].gate {
        ch[k][j / (w / ch[k].len()) as int]
    } else {
        silent_slot()
    } by {
        lemma_children_width_multiple(ch, k, n);
        if ch[k].len() > 0 {
            lemma_multiple_at_least(w, ch[k].len());
            lemma_expand_gate_cell_even(ch[k], w);
        }
    }
}

} // verus!

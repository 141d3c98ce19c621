use vstd::prelude::*;
use crate::editor::views;
use crate::language::{tokenize, spec_tokens_from};
use crate::text::chars_of;

verus! {

/// Whether `c` is an ASCII decimal digit.
pub open spec fn is_digit(c: char) -> bool {
    '0' <= c && c <= '9'
}

/// Whether `c` marks an exponent.
pub open spec fn is_exp(c: char) -> bool {
    c == 'e' || c == 'E'
}

/// Whether `c` is a sign.
pub open spec fn is_sign(c: char) -> bool {
    c == '+' || c == '-'
}

/// The number of `.` in `s`.
pub open spec fn dot_count(s: Seq<char>) -> nat
    decreases s.len(),
{
    if s.len() == 0 {
        0
    } else {
        dot_count(s.drop_last()) + if s.last() == '.' {
            1nat
        } else {
            0nat
        }
    }
}

/// Digits with at most one `.` among them, and at least one digit.
pub open spec fn mantissa_ok(m: Seq<char>) -> bool {
    &&& forall|i: int| 0 <= i < m.len() ==> is_digit(#[trigger] m[i]) || m[i] == '.'
    &&& (dot_count(m) == 0 && m.len() >= 1) || (dot_count(m) == 1 && m.len() >= 2)
}

/// An optional sign followed by at least one digit.
pub open spec fn exponent_ok(x: Seq<char>) -> bool {
    let y = if x.len() > 0 && is_sign(x[0]) {
        x.drop_first()
    } else {
        x
    };
    y.len() >= 1 && all_digits(y)
}

/// Whether every character of `y` is a digit.
pub open spec fn all_digits(y: Seq<char>) -> bool {
    forall|i: int| 0 <= i < y.len() ==> is_digit(#[trigger] y[i])
}

/// The index of the first exponent mark of `s` at or after `i`, or -1.
pub open spec fn first_exp_from(s: Seq<char>, i: int) -> int
    decreases s.len() - i,
{
    if i < 0 || i >= s.len() {
        -1
    } else if is_exp(s[i]) {
        i
    } else {
        first_exp_from(s, i + 1)
    }
}

/// A decimal number: a mantissa, and an exponent after its first `e`.
pub open spec fn number_ok(s: Seq<char>) -> bool {
    let e = first_exp_from(s, 0);
    if e < 0 {
        mantissa_ok(s)
    } else {
        mantissa_ok(s.subrange(0, e)) && exponent_ok(s.subrange(e + 1, s.len() as int))
    }
}

/// `c` in lower case, for ASCII letters.
pub open spec fn ascii_lower(c: char) -> char {
    if 'A' <= c && c <= 'Z' {
        ((c as u32) + 32) as char
    } else {
        c
    }
}

/// Whether `s` equals the lower-case word `w` when ASCII letters are
/// lowered.
pub open spec fn lower_eq(s: Seq<char>, w: Seq<char>) -> bool {
    s.len() == w.len() && forall|i: int| 0 <= i < s.len() ==> ascii_lower(#[trigger] s[i]) == w[i]
}

/// Whether `t` is a floating-point literal as `f32::from_str` accepts it:
/// an optional sign, then `inf`, `infinity` or `nan` in any case, or a
/// decimal number with an optional exponent.
pub open spec fn float_literal(t: Seq<char>) -> bool {
    let u = if t.len() > 0 && is_sign(t[0]) {
        t.drop_first()
    } else {
        t
    };
    lower_eq(u, "inf"@) || lower_eq(u, "infinity"@) || lower_eq(u, "nan"@) || number_ok(u)
}

/// `c` in lower case, for ASCII letters (`char::to_ascii_lowercase`).
pub fn to_ascii_lower(c: char) -> (r: char)
    ensures
        r == ascii_lower(c),
{
    if 'A' <= c && c <= 'Z' {
        let code: u32 = (c as u32) + 32;
        assert(code < 0xD800);
        char_from_ascii(code)
    } else {
        c
    }
}

fn char_from_ascii(code: u32) -> (r: char)
    requires
        code < 0x80,
    ensures
        r == code as char,
{
    let b: u8 = code as u8;
    b as char
}

fn lower_matches(s: &[char], w: &str) -> (r: bool)
    ensures
        r == lower_eq(s@, w@),
{
    let wc = chars_of(w);
    if s.len() != wc.len() {
        return false;
    }
    let mut i: usize = 0;
    while i < s.len()
        invariant
            i <= s@.len(),
            s@.len() == wc@.len(),
            wc@ == w@,
            forall|j: int| 0 <= j < i ==> ascii_lower(#[trigger] s@[j]) == w@[j],
        decreases s@.len() - i,
    {
        if to_ascii_lower(s[i]) != wc[i] {
            return false;
        }
        i = i + 1;
    }
    true
}

fn mantissa_matches(s: &[char], a: usize, b: usize) -> (r: bool)
    requires
        a <= b <= s@.len(),
    ensures
        r == mantissa_ok(s@.subrange(a as int, b as int)),
{
    let ghost m = s@.subrange(a as int, b as int);
    let mut dots: usize = 0;
    let mut i: usize = a;
    while i < b
        invariant
            a <= i <= b <= s@.len(),
            m == s@.subrange(a as int, b as int),
            dots == dot_count(s@.subrange(a as int, i as int)),
            dots <= i - a,
            forall|j: int| 0 <= j < i - a ==> is_digit(#[trigger] m[j]) || m[j] == '.',
        decreases b - i,
    {
        let c = s[i];
        if c == '.' {
            dots = dots + 1;
        } else if !('0' <= c && c <= '9') {
            assert(!(is_digit(m[i - a]) || m[i - a] == '.'));
            return false;
        }
        assert(s@.subrange(a as int, i + 1).drop_last() =~= s@.subrange(a as int, i as int));
        i = i + 1;
    }
    assert(s@.subrange(a as int, b as int) =~= m);
    (dots == 0 && b - a >= 1) || (dots == 1 && b - a >= 2)
}

fn exponent_matches(s: &[char], a: usize) -> (r: bool)
    requires
        a <= s@.len(),
    ensures
        r == exponent_ok(s@.subrange(a as int, s@.len() as int)),
{
    let ghost x = s@.subrange(a as int, s@.len() as int);
    let start = if a < s.len() && (s[a] == '+' || s[a] == '-') {
        a + 1
    } else {
        a
    };
    let ghost y = if x.len() > 0 && is_sign(x[0]) {
        x.drop_first()
    } else {
        x
    };
    assert(y =~= s@.subrange(start as int, s@.len() as int));
    if start >= s.len() {
        return false;
    }
    let mut i: usize = start;
    while i < s.len()
        invariant
            start <= i <= s@.len(),
            x == s@.subrange(a as int, s@.len() as int),
            y == (if x.len() > 0 && is_sign(x[0]) {
                x.drop_first()
            } else {
                x
            }),
            y == s@.subrange(start as int, s@.len() as int),
            forall|j: int| 0 <= j < i - start ==> is_digit(#[trigger] y[j]),
        decreases s@.len() - i,
    {
        if !('0' <= s[i] && s[i] <= '9') {
            assert(!is_digit(y[i - start]));
            assert(!all_digits(y));
            return false;
        }
        i = i + 1;
    }
    true
}

/// Whether `token` is a floating-point literal (see `float_literal`).
pub fn is_float_literal(token: &str) -> (r: bool)
    ensures
        r == float_literal(token@),
{
    let t = chars_of(token);
    let start = if t.len() > 0 && (t[0] == '+' || t[0] == '-') {
        1
    } else {
        0
    };
    let mut u: Vec<char> = Vec::new();
    let mut i: usize = start;
    while i < t.len()
        invariant
            start <= i <= t@.len(),
            u@ == t@.subrange(start as int, i as int),
        decreases t@.len() - i,
    {
        u.push(t[i]);
        assert(t@.subrange(start as int, i + 1) =~= t@.subrange(start as int, i as int).push(
            t@[i as int],
        ));
        i = i + 1;
    }
    let ghost uu = if t@.len() > 0 && is_sign(t@[0]) {
        t@.drop_first()
    } else {
        t@
    };
    assert(u@ =~= uu);
    if lower_matches(u.as_slice(), "inf") || lower_matches(u.as_slice(), "infinity")
        || lower_matches(u.as_slice(), "nan") {
        return true;
    }
    let mut e: usize = 0;
    while e < u.len()
        invariant
            e <= u@.len(),
            first_exp_from(u@, 0) == first_exp_from(u@, e as int),
        ensures
            e <= u@.len(),
            first_exp_from(u@, 0) == first_exp_from(u@, e as int),
            e < u@.len() ==> is_exp(u@[e as int]),
        decreases u@.len() - e,
    {
        if u[e] == 'e' || u[e] == 'E' {
            break ;
        }
        e = e + 1;
    }
    if e >= u.len() {
        assert(u@.subrange(0, u@.len() as int) =~= u@);
        mantissa_matches(u.as_slice(), 0, u.len())
    } else {
        mantissa_matches(u.as_slice(), 0, e) && exponent_matches(u.as_slice(), e + 1)
    }
}


/// A form of the language as the reader gives it: a list `( .. )`, a
/// vector `[ .. ]`, a symbol, a keyword (its name, after the colons), a
/// number (its literal), or a string (its text, inside the quotes).
#[derive(Debug)]
pub enum Form {
    List(Vec<Form>),
    Vector(Vec<Form>),
    Symbol(String),
    Keyword(String),
    Number(String),
    Str(String),
}

/// A form as plain values.
pub enum FormView {
    List(Seq<FormView>),
    Vector(Seq<FormView>),
    Symbol(Seq<char>),
    Keyword(Seq<char>),
    Number(Seq<char>),
    Str(Seq<char>),
}

/// The plain value of a form.
pub open spec fn form_view(f: Form) -> FormView
    decreases f,
{
    match f {
        Form::List(v) => FormView::List(forms_view(v@)),
        Form::Vector(v) => FormView::Vector(forms_view(v@)),
        Form::Symbol(s) => FormView::Symbol(s@),
        Form::Keyword(s) => FormView::Keyword(s@),
        Form::Number(s) => FormView::Number(s@),
        Form::Str(s) => FormView::Str(s@),
    }
}

/// The plain values of a sequence of forms.
pub open spec fn forms_view(s: Seq<Form>) -> Seq<FormView>
    decreases s,
{
    if s.len() == 0 {
        Seq::empty()
    } else {
        forms_view(s.drop_last()).push(form_view(s.last()))
    }
}

/// How many times `c` repeats at the start of `t`.
pub open spec fn leading_run(t: Seq<char>, c: char) -> nat
    decreases t.len(),
{
    if t.len() > 0 && t[0] == c {
        leading_run(t.drop_first(), c) + 1
    } else {
        0
    }
}

/// How many times `c` repeats at the end of `t`.
pub open spec fn trailing_run(t: Seq<char>, c: char) -> nat
    decreases t.len(),
{
    if t.len() > 0 && t.last() == c {
        trailing_run(t.drop_last(), c) + 1
    } else {
        0
    }
}

/// `t` without the quotes at either end (`str::trim_matches('"')`).
pub open spec fn trim_quotes(t: Seq<char>) -> Seq<char> {
    let a = leading_run(t, '"');
    if a >= t.len() {
        Seq::empty()
    } else {
        t.subrange(a as int, t.len() - trailing_run(t, '"'))
    }
}

/// The form a token stands for, when it is not a bracket: a string when it
/// is quoted, a keyword after a colon, a number when it is a floating-point
/// literal, else a symbol.
pub open spec fn atom(t: Seq<char>) -> FormView {
    if t.len() > 0 && t[0] == '"' && t.last() == '"' {
        FormView::Str(trim_quotes(t))
    } else if t.len() > 0 && t[0] == ':' {
        FormView::Keyword(t.subrange(leading_run(t, ':') as int, t.len() as int))
    } else if float_literal(t) {
        FormView::Number(t)
    } else {
        FormView::Symbol(t)
    }
}

/// Where reading stands: the kind of the innermost open bracket (none at
/// the top level; `true` for a list, `false` for a vector), the forms read
/// inside it so far, and the same for each enclosing bracket, outermost
/// first.
pub struct ReadState {
    pub kind: Option<bool>,
    pub items: Seq<FormView>,
    pub saved: Seq<(Option<bool>, Seq<FormView>)>,
}

/// Reading one token: an opening bracket opens a form, a closing bracket
/// closes the innermost form when it is of its kind and is refused
/// otherwise, and any other token is read as an atom.
pub open spec fn read_token(st: Result<ReadState, Seq<char>>, tok: Seq<char>) -> Result<
    ReadState,
    Seq<char>,
> {
    match st {
        Err(e) => Err(e),
        Ok(s) => if tok == "("@ || tok == "["@ {
            Ok(
                ReadState {
                    kind: Some(tok == "("@),
                    items: Seq::empty(),
                    saved: s.saved.push((s.kind, s.items)),
                },
            )
        } else if tok == ")"@ || tok == "]"@ {
            if s.kind == Some(tok == ")"@) && s.saved.len() > 0 {
                let outer = s.saved.last();
                let closed = if tok == ")"@ {
                    FormView::List(s.items)
                } else {
                    FormView::Vector(s.items)
                };
                Ok(
                    ReadState {
                        kind: outer.0,
                        items: outer.1.push(closed),
                        saved: s.saved.drop_last(),
                    },
                )
            } else {
                Err("unexpected '"@ + tok + "'"@)
            }
        } else {
            Ok(ReadState { items: s.items.push(atom(tok)), ..s })
        },
    }
}

/// Reading the first `k` tokens from the top level.
pub open spec fn read_tokens(toks: Seq<Seq<char>>, k: nat) -> Result<ReadState, Seq<char>>
    decreases k,
{
    if k == 0 || k > toks.len() {
        Ok(ReadState { kind: None, items: Seq::empty(), saved: Seq::empty() })
    } else {
        read_token(read_tokens(toks, (k - 1) as nat), toks[k - 1])
    }
}

/// The forms of a token sequence: every bracket must be closed by one of
/// its kind.
pub open spec fn read_program(toks: Seq<Seq<char>>) -> Result<Seq<FormView>, Seq<char>> {
    match read_tokens(toks, toks.len()) {
        Err(e) => Err(e),
        Ok(s) => match s.kind {
            None => Ok(s.items),
            Some(true) => Err("missing ')'"@),
            Some(false) => Err("missing ']'"@),
        },
    }
}

/// The plain values of the saved frames of the reader.
pub open spec fn saved_view(v: Seq<(Option<bool>, Vec<Form>)>) -> Seq<(Option<bool>, Seq<FormView>)> {
    v.map_values(|p: (Option<bool>, Vec<Form>)| (p.0, forms_view(p.1@)))
}

proof fn lemma_forms_view_push(s: Seq<Form>, f: Form)
    ensures
        forms_view(s.push(f)) == forms_view(s).push(form_view(f)),
{
    assert(s.push(f).drop_last() =~= s);
}

/// The number of leading `c` of `t`, counted.
fn leading_count(t: &[char], c: char) -> (r: usize)
    ensures
        r == leading_run(t@, c),
        r <= t@.len(),
{
    let mut i: usize = 0;
    assert(t@.subrange(0, t@.len() as int) =~= t@);
    while i < t.len() && t[i] == c
        invariant
            i <= t@.len(),
            leading_run(t@, c) == i + leading_run(t@.subrange(i as int, t@.len() as int), c),
        decreases t@.len() - i,
    {
        assert(t@.subrange(i as int, t@.len() as int).drop_first() =~= t@.subrange(
            i + 1,
            t@.len() as int,
        ));
        i = i + 1;
    }
    assert(t@.subrange(0, t@.len() as int) =~= t@);
    i
}

/// The number of trailing `c` of `t`, counted.
fn trailing_count(t: &[char], c: char) -> (r: usize)
    ensures
        r == trailing_run(t@, c),
        r <= t@.len(),
{
    let mut k: usize = t.len();
    assert(t@.subrange(0, t@.len() as int) =~= t@);
    while k > 0 && t[k - 1] == c
        invariant
            k <= t@.len(),
            trailing_run(t@, c) == (t@.len() - k) + trailing_run(t@.subrange(0, k as int), c),
        decreases k,
    {
        assert(t@.subrange(0, k as int).drop_last() =~= t@.subrange(0, k - 1));
        k = k - 1;
    }
    t.len() - k
}

/// The characters of `t` from `a` up to `b`, as a string.
fn string_range(t: &[char], a: usize, b: usize) -> (r: String)
    requires
        a <= b <= t@.len(),
    ensures
        r@ == t@.subrange(a as int, b as int),
{
    let mut out = String::new();
    let mut i: usize = a;
    while i < b
        invariant
            a <= i <= b <= t@.len(),
            out@ == t@.subrange(a as int, i as int),
        decreases b - i,
    {
        crate::text::push_char(&mut out, t[i]);
        assert(t@.subrange(a as int, i + 1) =~= t@.subrange(a as int, i as int).push(t@[i as int]));
        i = i + 1;
    }
    out
}

/// The form a non-bracket token stands for (see `atom`).
pub fn read_atom(token: &str) -> (r: Form)
    ensures
        form_view(r) == atom(token@),
{
    let t = chars_of(token);
    let n = t.len();
    if n > 0 && t[0] == '"' && t[n - 1] == '"' {
        let a = leading_count(t.as_slice(), '"');
        if a >= n {
            Form::Str(String::new())
        } else {
            let b = trailing_count(t.as_slice(), '"');
            proof {
                lemma_runs_fit(t@, '"');
            }
            Form::Str(string_range(t.as_slice(), a, n - b))
        }
    } else if n > 0 && t[0] == ':' {
        let a = leading_count(t.as_slice(), ':');
        Form::Keyword(string_range(t.as_slice(), a, n))
    } else if is_float_literal(token) {
        Form::Number(String::from_str(token))
    } else {
        Form::Symbol(String::from_str(token))
    }
}

/// Where the text is not all `c`, the leading and the trailing runs of `c`
/// do not overlap.
proof fn lemma_runs_fit(t: Seq<char>, c: char)
    requires
        leading_run(t, c) < t.len(),
    ensures
        leading_run(t, c) + trailing_run(t, c) < t.len(),
    decreases t.len(),
{
    if t.len() > 0 && t[0] == c {
        let u = t.drop_first();
        lemma_runs_fit(u, c);
        lemma_trailing_drop_first(t, c);
    } else {
        lemma_trailing_below(t, c);
    }
}

proof fn lemma_trailing_drop_first(t: Seq<char>, c: char)
    requires
        t.len() > 0,
        leading_run(t, c) < t.len(),
        t[0] == c,
    ensures
        trailing_run(t, c) == trailing_run(t.drop_first(), c),
    decreases t.len(),
{
    let u = t.drop_first();
    if t.len() > 1 && t.last() == c {
        assert(u.len() > 0 && u.last() == c);
        assert(t.drop_last().drop_first() =~= u.drop_last());
        if t.drop_last().len() > 0 && t.drop_last()[0] == c {
            lemma_leading_drop_last(t, c);
            lemma_trailing_drop_first(t.drop_last(), c);
        }
    } else if t.len() == 1 {
        assert(leading_run(t, c) == 1) by {
            assert(t.drop_first().len() == 0);
        }
    }
}

proof fn lemma_leading_drop_last(t: Seq<char>, c: char)
    requires
        t.len() > 1,
        t.last() == c,
        leading_run(t, c) < t.len(),
    ensures
        leading_run(t.drop_last(), c) < t.drop_last().len(),
    decreases t.len(),
{
    if t[0] == c {
        let u = t.drop_first();
        assert(t.drop_last().drop_first() =~= u.drop_last());
        if u.len() > 1 {
            lemma_leading_drop_last(u, c);
        } else {
            assert(u.len() == 1);
            assert(u[0] == c);
            assert(leading_run(u.drop_first(), c) == 0);
            assert(leading_run(u, c) == 1);
        }
    }
}

proof fn lemma_trailing_below(t: Seq<char>, c: char)
    requires
        t.len() > 0 ==> t[0] != c,
    ensures
        trailing_run(t, c) < t.len() || t.len() == 0,
    decreases t.len(),
{
    if t.len() > 1 && t.last() == c {
        lemma_trailing_below(t.drop_last(), c);
    }
}



/// A token sequence without brackets reads as one atom per token.
pub proof fn lemma_read_atoms(toks: Seq<Seq<char>>)
    requires
        forall|i: int|
            0 <= i < toks.len() ==> #[trigger] toks[i] != "("@ && toks[i] != "["@ && toks[i]
                != ")"@ && toks[i] != "]"@,
    ensures
        read_program(toks) == Ok::<Seq<FormView>, Seq<char>>(
            Seq::new(toks.len(), |i: int| atom(toks[i])),
        ),
{
    lemma_read_atoms_upto(toks, toks.len());
    assert(read_tokens(toks, toks.len())->Ok_0.items =~= Seq::new(
        toks.len(),
        |i: int| atom(toks[i]),
    ));
}

proof fn lemma_read_atoms_upto(toks: Seq<Seq<char>>, k: nat)
    requires
        k <= toks.len(),
        forall|i: int|
            0 <= i < toks.len() ==> #[trigger] toks[i] != "("@ && toks[i] != "["@ && toks[i]
                != ")"@ && toks[i] != "]"@,
    ensures
        read_tokens(toks, k) matches Ok(s) && s.kind is None && s.saved.len() == 0 && s.items
            =~= Seq::new(k, |i: int| atom(toks[i])),
    decreases k,
{
    if k > 0 {
        lemma_read_atoms_upto(toks, (k - 1) as nat);
        assert(toks[k - 1] != "("@);
    }
}

/// Reads a token sequence into forms (see `read_program`).
pub fn read_forms(tokens: &[String]) -> (r: Result<Vec<Form>, String>)
    ensures
        match read_program(views(tokens@)) {
            Ok(fs) => r matches Ok(v) && forms_view(v@) == fs,
            Err(m) => r matches Err(e) && e@ == m,
        },
{
    let ghost toks = views(tokens@);
    let mut kind: Option<bool> = None;
    let mut cur: Vec<Form> = Vec::new();
    let mut saved: Vec<(Option<bool>, Vec<Form>)> = Vec::new();
    let mut i: usize = 0;
    assert(saved_view(saved@) =~= Seq::<(Option<bool>, Seq<FormView>)>::empty());
    assert(forms_view(cur@) =~= Seq::<FormView>::empty());
    while i < tokens.len()
        invariant
            i <= tokens@.len(),
            toks == views(tokens@),
            read_tokens(toks, i as nat) == Ok::<ReadState, Seq<char>>(
                ReadState { kind, items: forms_view(cur@), saved: saved_view(saved@) },
            ),
        decreases tokens@.len() - i,
    {
        let tok = tokens[i].as_str();
        assert(toks[i as int] == tok@);
        let ghost before = ReadState {
            kind,
            items: forms_view(cur@),
            saved: saved_view(saved@),
        };
        let is_open_paren = crate::text::str_eq(tok, "(");
        let is_open_bracket = crate::text::str_eq(tok, "[");
        let is_close_paren = crate::text::str_eq(tok, ")");
        let is_close_bracket = crate::text::str_eq(tok, "]");
        if is_open_paren || is_open_bracket {
            let ghost old_saved = saved@;
            saved.push((kind, cur));
            kind = Some(is_open_paren);
            cur = Vec::new();
            assert(saved_view(saved@) =~= saved_view(old_saved).push((before.kind, before.items)));
            assert(forms_view(cur@) =~= Seq::<FormView>::empty());
        } else if is_close_paren || is_close_bracket {
            if kind == Some(is_close_paren) && saved.len() > 0 {
                let ghost old_saved = saved@;
                let (outer_kind, mut outer_items) = match saved.pop() {
                    Some(p) => p,
                    None => {
                        return Err(String::new());
                    },
                };
                let closed = if is_close_paren {
                    Form::List(cur)
                } else {
                    Form::Vector(cur)
                };
                proof {
                    lemma_forms_view_push(outer_items@, closed);
                }
                outer_items.push(closed);
                kind = outer_kind;
                cur = outer_items;
                assert(saved_view(saved@) =~= saved_view(old_saved).drop_last());
                assert(saved_view(old_saved).last() == (outer_kind, forms_view(old_saved.last().1@)));
            } else {
                let mut m = String::from_str("unexpected '");
                m.append(tok);
                m.append("'");
                proof {
                    assert(read_tokens(toks, (i + 1) as nat) == Err::<ReadState, Seq<char>>(m@));
                    lemma_read_err_stays(toks, (i + 1) as nat, m@);
                }
                return Err(m);
            }
        } else {
            let f = read_atom(tok);
            proof {
                lemma_forms_view_push(cur@, f);
            }
            cur.push(f);
        }
        i = i + 1;
    }
    match kind {
        None => Ok(cur),
        Some(true) => Err(String::from_str("missing ')'")),
        Some(false) => Err(String::from_str("missing ']'")),
    }
}

/// Once reading has failed, it stays failed with the same message.
proof fn lemma_read_err_stays(toks: Seq<Seq<char>>, k: nat, m: Seq<char>)
    requires
        k <= toks.len(),
        read_tokens(toks, k) == Err::<ReadState, Seq<char>>(m),
    ensures
        read_tokens(toks, toks.len()) == Err::<ReadState, Seq<char>>(m),
    decreases toks.len() - k,
{
    if k < toks.len() {
        lemma_read_err_stays(toks, k + 1, m);
    }
}

/// Reads the forms of a source text.
pub fn parse_program(source: &str) -> (r: Result<Vec<Form>, String>)
    ensures
        match read_program(spec_tokens_from(source@, 0)) {
            Ok(fs) => r matches Ok(v) && forms_view(v@) == fs,
            Err(m) => r matches Err(e) && e@ == m,
        },
{
    let tokens = tokenize(source);
    read_forms(tokens.as_slice())
}

} // verus!

use vstd::prelude::*;
use crate::editor::views;
use crate::forms::{parse_program, read_program, Form, FormView, form_view, forms_view};
use crate::gate_forms::{find_reading, reading_of, Reading};
use crate::language::{spec_tokens_from, tokenize};
use crate::options::{lemma_forms_view_index, lemma_forms_view_len};
use crate::text::{contains_str, has_prefix, str_eq, str_starts_with, str_views};

verus! {

/// The helper forms that only the Clojure compiler expands.
pub open spec fn compiler_heads() -> Seq<Seq<char>> {
    seq![
        "def"@, "tracks"@, "with"@, "section"@, "by-scene"@, "+"@, "-"@, "*"@, "/"@, "and"@,
        "or"@, "not"@, "map"@, "range"@, "repeat"@, "take"@, "rotate"@, "interleave"@,
        "every-n"@, "choose"@, "rand-range"@, "scale"@, "chord"@, "shape"@, "arpeggio"@,
        "arp"@, "transpose"@,
    ]
}

/// Whether a `times` count is a positive whole number.
pub open spec fn positive_whole(f: FormView, rs: Seq<Reading>) -> bool {
    f matches FormView::Number(t) && reading_of(rs, t).whole matches Some(n) && n > 0
}

/// Whether a form needs the compiler: a `p` form with other than one
/// argument or with `:repeat`, a `times` form whose count is not one
/// positive whole number followed by one pattern, a `then` form with fewer
/// than two patterns, a compiler helper form, or a form holding one.
pub open spec fn needs_compiler(f: FormView, rs: Seq<Reading>) -> bool
    decreases f,
{
    match f {
        FormView::List(items) => if items.len() > 0 && items[0] is Symbol {
            let head = items[0]->Symbol_0;
            if head == "p"@ && (items.len() != 2 || items[1] == FormView::Keyword("repeat"@)) {
                true
            } else if head == "times"@ && (items.len() != 3 || !positive_whole(items[1], rs)) {
                true
            } else if head == "then"@ && items.len() < 3 {
                true
            } else {
                compiler_heads().contains(head) || any_needs_compiler(
                    items.subrange(1, items.len() as int),
                    rs,
                )
            }
        } else {
            any_needs_compiler(items, rs)
        },
        FormView::Vector(items) => any_needs_compiler(items, rs),
        _ => false,
    }
}

/// Whether some form of a sequence needs the compiler.
pub open spec fn any_needs_compiler(fs: Seq<FormView>, rs: Seq<Reading>) -> bool
    decreases fs,
{
    fs.len() > 0 && (any_needs_compiler(fs.drop_last(), rs) || needs_compiler(fs.last(), rs))
}

proof fn lemma_any_needs_upto(fs: Seq<FormView>, rs: Seq<Reading>, i: int)
    requires
        0 <= i < fs.len(),
    ensures
        any_needs_compiler(fs.subrange(0, i + 1), rs) == (any_needs_compiler(fs.subrange(0, i), rs)
            || needs_compiler(fs[i], rs)),
{
    assert(fs.subrange(0, i + 1).drop_last() =~= fs.subrange(0, i));
}

fn positive_whole_form(f: &Form, rs: &[Reading]) -> (r: bool)
    ensures
        r == positive_whole(form_view(*f), rs@),
{
    match f {
        Form::Number(t) => match find_reading(rs, t.as_str()) {
            Some(i) => match rs[i].whole {
                Some(n) => n > 0,
                None => false,
            },
            None => false,
        },
        _ => false,
    }
}

/// Whether the forms of `items` from index `from` on need the compiler.
fn any_from(items: &Vec<Form>, rs: &[Reading], from: usize) -> (r: bool)
    requires
        from <= items@.len(),
    ensures
        r == any_needs_compiler(forms_view(items@).subrange(from as int, items@.len() as int), rs@),
    decreases items, 0nat,
{
    let ghost its = forms_view(items@);
    proof {
        lemma_forms_view_len(items@);
    }
    let ghost sub = its.subrange(from as int, its.len() as int);
    let mut i: usize = from;
    assert(sub.subrange(0, 0) =~= Seq::<FormView>::empty());
    while i < items.len()
        invariant
            from <= i <= items@.len(),
            its == forms_view(items@),
            its.len() == items@.len(),
            sub == its.subrange(from as int, its.len() as int),
            !any_needs_compiler(sub.subrange(0, i - from), rs@),
        decreases items@.len() - i,
    {
        proof {
            lemma_forms_view_index(items@, i as int);
            lemma_any_needs_upto(sub, rs@, i - from);
        }
        assert(decreases_to!(items => items@[i as int]));
        if form_needs_compiler(&items[i], rs) {
            proof {
                lemma_any_needs_prefix(sub, rs@, i - from + 1);
            }
            return true;
        }
        i = i + 1;
    }
    assert(sub.subrange(0, i - from) =~= sub);
    false
}

proof fn lemma_any_needs_prefix(fs: Seq<FormView>, rs: Seq<Reading>, j: int)
    requires
        0 <= j <= fs.len(),
        any_needs_compiler(fs.subrange(0, j), rs),
    ensures
        any_needs_compiler(fs, rs),
    decreases fs.len(),
{
    if j < fs.len() {
        assert(fs.drop_last().subrange(0, j) =~= fs.subrange(0, j));
        lemma_any_needs_prefix(fs.drop_last(), rs, j);
    } else {
        assert(fs.subrange(0, j) =~= fs);
    }
}

/// Whether a form needs the compiler (see `needs_compiler`).
pub fn form_needs_compiler(f: &Form, rs: &[Reading]) -> (r: bool)
    ensures
        r == needs_compiler(form_view(*f), rs@),
    decreases f, 1nat,
{
    match f {
        Form::List(items) => {
            proof {
                lemma_forms_view_len(items@);
            }
            if items.len() == 0 {
                assert(forms_view(items@).subrange(0, 0) =~= forms_view(items@));
                return any_from(items, rs, 0);
            }
            proof {
                lemma_forms_view_index(items@, 0);
            }
            let head: &str = match &items[0] {
                Form::Symbol(h) => h.as_str(),
                _ => {
                    assert(forms_view(items@).subrange(0, items@.len() as int) =~= forms_view(items@));
                    return any_from(items, rs, 0);
                },
            };
            if items.len() > 1 {
                proof {
                    lemma_forms_view_index(items@, 1);
                }
            }
            if str_eq(head, "p") && (items.len() != 2 || match &items[1] {
                Form::Keyword(k) => str_eq(k.as_str(), "repeat"),
                _ => false,
            }) {
                return true;
            }
            if str_eq(head, "times") && (items.len() != 3 || !positive_whole_form(&items[1], rs)) {
                return true;
            }
            if str_eq(head, "then") && items.len() < 3 {
                return true;
            }
            let names: Vec<&str> = vec![
                "def",
                "tracks",
                "with",
                "section",
                "by-scene",
                "+",
                "-",
                "*",
                "/",
                "and",
                "or",
                "not",
                "map",
                "range",
                "repeat",
                "take",
                "rotate",
                "interleave",
                "every-n",
                "choose",
                "rand-range",
                "scale",
                "chord",
                "shape",
                "arpeggio",
                "arp",
                "transpose",
            ];
            assert(str_views(names@) =~= compiler_heads());
            if contains_str(names.as_slice(), head) {
                return true;
            }
            any_from(items, rs, 1)
        },
        Form::Vector(items) => {
            proof {
                lemma_forms_view_len(items@);
            }
            assert(forms_view(items@).subrange(0, items@.len() as int) =~= forms_view(items@));
            any_from(items, rs, 0)
        },
        _ => false,
    }
}

/// Whether a source needs the compiler: a token that starts with `1_`, or
/// a form of the program that needs it (a source that does not read needs
/// none).
pub open spec fn spec_source_needs_compiler(s: Seq<char>, rs: Seq<Reading>) -> bool {
    compiler_token(spec_tokens_from(s, 0)) || match read_program(spec_tokens_from(s, 0)) {
        Ok(fs) => any_needs_compiler(fs, rs),
        Err(_) => false,
    }
}

/// Whether some token starts with `1_`.
pub open spec fn compiler_token(toks: Seq<Seq<char>>) -> bool {
    exists|i: int| 0 <= i < toks.len() && has_prefix(#[trigger] toks[i], "1_"@)
}

/// Whether a source has to pass through the Clojure compiler before the
/// runtime can read it.
pub fn source_needs_compiler(source: &str, rs: &[Reading]) -> (r: bool)
    ensures
        r == spec_source_needs_compiler(source@, rs@),
{
    let tokens = tokenize(source);
    let ghost toks = spec_tokens_from(source@, 0);
    let mut i: usize = 0;
    while i < tokens.len()
        invariant
            i <= tokens@.len(),
            views(tokens@) == toks,
            toks == spec_tokens_from(source@, 0),
            forall|j: int| 0 <= j < i ==> !has_prefix(#[trigger] toks[j], "1_"@),
        decreases tokens@.len() - i,
    {
        assert(views(tokens@)[i as int] == tokens@[i as int]@);
        if str_starts_with(tokens[i].as_str(), "1_") {
            assert(has_prefix(toks[i as int], "1_"@));
            assert(toks.len() == tokens@.len());
            assert(compiler_token(toks));
            return true;
        }
        i = i + 1;
    }
    match parse_program(source) {
        Ok(forms) => {
            let wrapper = Form::Vector(forms);
            proof {
                assert(form_view(wrapper) == FormView::Vector(forms_view(forms@)));
            }
            form_needs_compiler(&wrapper, rs)
        },
        Err(_) => false,
    }
}

} // verus!

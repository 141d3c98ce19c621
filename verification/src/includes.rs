use vstd::prelude::*;
use crate::editor::{lines_of, split_lines, views};
use crate::language::{include_path_from_line, spec_include_path};
use crate::text::push_char;

verus! {

/// A line of a source as include expansion sees it: text kept as it is, or
/// an `(include "path")` line naming a file to splice in.
#[derive(Clone, Debug, PartialEq, Eq)]
pub enum SourceLine {
    Text(String),
    Include(String),
}

/// What a line is: an include of the path it names, or text.
pub open spec fn line_kind(line: Seq<char>) -> (bool, Seq<char>) {
    match spec_include_path(line) {
        Some(p) => (true, p),
        None => (false, line),
    }
}

/// The plain value of a source line: whether it includes, and its path or
/// text.
pub open spec fn source_line_view(l: SourceLine) -> (bool, Seq<char>) {
    match l {
        SourceLine::Text(t) => (false, t@),
        SourceLine::Include(p) => (true, p@),
    }
}

/// The lines of a source (as `str::lines` gives them), each read as text
/// or as an include.
pub fn source_lines(source: &str) -> (r: Vec<SourceLine>)
    ensures
        r@.len() == lines_of(source@).len(),
        forall|i: int|
            0 <= i < r@.len() ==> source_line_view(#[trigger] r@[i]) == line_kind(
                lines_of(source@)[i],
            ),
{
    let lines = split_lines(source);
    let mut out: Vec<SourceLine> = Vec::new();
    let mut i: usize = 0;
    while i < lines.len()
        invariant
            i <= lines@.len(),
            views(lines@) == lines_of(source@),
            out@.len() == i,
            forall|k: int|
                0 <= k < i ==> source_line_view(#[trigger] out@[k]) == line_kind(
                    lines_of(source@)[k],
                ),
        decreases lines@.len() - i,
    {
        assert(views(lines@)[i as int] == lines@[i as int]@);
        let line = lines[i].as_str();
        match include_path_from_line(line) {
            Some(p) => out.push(SourceLine::Include(p)),
            None => out.push(SourceLine::Text(String::from_str(line))),
        }
        i = i + 1;
    }
    out
}

/// Whether some line of `source` is an include.
pub fn has_includes(source: &str) -> (r: bool)
    ensures
        r == exists|i: int|
            0 <= i < lines_of(source@).len() && (#[trigger] line_kind(lines_of(source@)[i])).0,
{
    let lines = source_lines(source);
    let mut i: usize = 0;
    while i < lines.len()
        invariant
            i <= lines@.len(),
            lines@.len() == lines_of(source@).len(),
            forall|k: int|
                0 <= k < lines@.len() ==> source_line_view(#[trigger] lines@[k]) == line_kind(
                    lines_of(source@)[k],
                ),
            forall|k: int| 0 <= k < i ==> !(#[trigger] line_kind(lines_of(source@)[k])).0,
        decreases lines@.len() - i,
    {
        assert(source_line_view(lines@[i as int]) == line_kind(lines_of(source@)[i as int]));
        if let SourceLine::Include(_) = &lines[i] {
            return true;
        }
        i = i + 1;
    }
    false
}

/// Adds a line of text to the expansion, with its newline.
pub fn append_text_line(expanded: &mut String, line: &str)
    ensures
        final(expanded)@ == old(expanded)@ + line@ + seq!['\n'],
{
    expanded.append(line);
    push_char(expanded, '\n');
}

/// Adds an included file's expansion, ending the result with a newline
/// when it does not end with one already.
pub fn append_included(expanded: &mut String, text: &str)
    ensures
        ({
            let joined = old(expanded)@ + text@;
            final(expanded)@ == if joined.len() > 0 && joined.last() == '\n' {
                joined
            } else {
                joined.push('\n')
            }
        }),
{
    expanded.append(text);
    let c = crate::text::chars_of(expanded.as_str());
    if !(c.len() > 0 && c[c.len() - 1] == '\n') {
        push_char(expanded, '\n');
    }
}

/// The error for a file that includes itself, directly or not.
pub fn include_cycle_message(path: &str) -> (r: String)
    ensures
        r@ == "include cycle detected at "@ + path@,
{
    let mut m = String::from_str("include cycle detected at ");
    m.append(path);
    m
}

/// The error for an included file that cannot be read.
pub fn include_read_message(path: &str, error: &str) -> (r: String)
    ensures
        r@ == "include "@ + path@ + ": "@ + error@,
{
    let mut m = String::from_str("include ");
    m.append(path);
    m.append(": ");
    m.append(error);
    m
}

} // verus!

use vstd::prelude::*;
use vstd::utf8::encode_utf8;
use crate::arith::{decimal, push_decimal};
use crate::text::{lemma_utf8_prefix_mono, lemma_utf8_prefix_step, utf8_width, utf8_offset, utf8_prefix_len, chars_of, push_char, string_of, char_is_whitespace, is_white_space, skip_white, str_eq, trim, trim_chars};

verus! {

/// Position of the first `c` in `s`, or -1 when `c` does not occur.
pub open spec fn first_index_of(s: Seq<char>, c: char) -> int
    decreases s.len(),
{
    if s.len() == 0 {
        -1
    } else if s[0] == c {
        0
    } else {
        let r = first_index_of(s.drop_first(), c);
        if r < 0 {
            -1
        } else {
            r + 1
        }
    }
}

/// A line without the carriage return of a `\r\n` ending.
pub open spec fn strip_cr(line: Seq<char>) -> Seq<char> {
    if line.len() > 0 && line.last() == '\r' {
        line.drop_last()
    } else {
        line
    }
}

/// The lines of a text as `str::lines` gives them: split at `\n`, a `\r`
/// just before a `\n` dropped, and no empty line after a final `\n`.
pub open spec fn lines_of(s: Seq<char>) -> Seq<Seq<char>>
    decreases s.len(),
{
    if s.len() == 0 {
        Seq::empty()
    } else {
        let k = first_index_of(s, '\n');
        if k < 0 {
            seq![s]
        } else {
            proof {
                lemma_first_index_bounds(s, '\n');
            }
            seq![strip_cr(s.subrange(0, k))] + lines_of(s.subrange(k + 1, s.len() as int))
        }
    }
}

/// Lines joined with `\n` between consecutive lines (`[String]::join`).
pub open spec fn join_lines(lines: Seq<Seq<char>>) -> Seq<char>
    decreases lines.len(),
{
    if lines.len() == 0 {
        Seq::empty()
    } else if lines.len() == 1 {
        lines[0]
    } else {
        join_lines(lines.drop_last()) + seq!['\n'] + lines.last()
    }
}

/// The character views of a list of strings.
pub open spec fn views(lines: Seq<String>) -> Seq<Seq<char>> {
    lines.map_values(|l: String| l@)
}

pub proof fn lemma_first_index_after_prefix(cur: Seq<char>, rest: Seq<char>, c: char)
    requires
        forall|j: int| 0 <= j < cur.len() ==> cur[j] != c,
    ensures
        first_index_of(cur + rest, c) == if first_index_of(rest, c) < 0 {
            -1
        } else {
            cur.len() + first_index_of(rest, c)
        },
    decreases cur.len(),
{
    if cur.len() > 0 {
        lemma_first_index_after_prefix(cur.drop_first(), rest, c);
        assert((cur + rest).drop_first() =~= cur.drop_first() + rest);
    } else {
        assert(cur + rest =~= rest);
    }
}

/// The first occurrence found is in range and holds `c`; when none is found, `c` does not occur.
pub proof fn lemma_first_index_bounds(s: Seq<char>, c: char)
    ensures
        -1 <= first_index_of(s, c) < s.len(),
        first_index_of(s, c) >= 0 ==> s[first_index_of(s, c)] == c,
        first_index_of(s, c) < 0 ==> forall|j: int| 0 <= j < s.len() ==> s[j] != c,
        forall|j: int| 0 <= j < first_index_of(s, c) ==> s[j] != c,
    decreases s.len(),
{
    if s.len() > 0 {
        lemma_first_index_bounds(s.drop_first(), c);
        if s[0] != c {
            assert forall|j: int| 0 < j < s.len() implies s[j] == s.drop_first()[j - 1] by {}
        }
    }
}

/// Joining a first line in front of at least one more line puts one `\n`
/// between it and the rest joined.
proof fn lemma_join_lines_front(first: Seq<char>, rest: Seq<Seq<char>>)
    requires
        rest.len() >= 1,
    ensures
        join_lines(seq![first] + rest) == first + seq!['\n'] + join_lines(rest),
    decreases rest.len(),
{
    let all = seq![first] + rest;
    if rest.len() == 1 {
        assert(all.drop_last() =~= seq![first]);
        assert(all.last() == rest[0]);
        assert(join_lines(seq![first]) == first);
        assert(join_lines(rest) == rest[0]);
        assert(join_lines(all) == join_lines(all.drop_last()) + seq!['\n'] + all.last());
    } else {
        lemma_join_lines_front(first, rest.drop_last());
        assert(all.drop_last() =~= seq![first] + rest.drop_last());
        assert(all.last() == rest.last());
        assert(join_lines(all) == join_lines(all.drop_last()) + seq!['\n'] + all.last());
        assert(join_lines(rest) == join_lines(rest.drop_last()) + seq!['\n'] + rest.last());
        assert(first + seq!['\n'] + join_lines(rest.drop_last()) + seq!['\n'] + rest.last()
            =~= first + seq!['\n'] + (join_lines(rest.drop_last()) + seq!['\n'] + rest.last()));
    }
}

/// A text without carriage returns and without a final line break is its
/// lines joined again with line breaks: splitting a buffer's source into
/// lines and reading its source back gives the same text.
pub proof fn lemma_lines_round_trip(s: Seq<char>)
    requires
        !s.contains('\r'),
        s.len() == 0 || s.last() != '\n',
    ensures
        join_lines(lines_of(s)) == s,
    decreases s.len(),
{
    if s.len() > 0 {
        let k = first_index_of(s, '\n');
        lemma_first_index_bounds(s, '\n');
        if k >= 0 {
            let head = s.subrange(0, k);
            let rest = s.subrange(k + 1, s.len() as int);
            assert(k < s.len() - 1);
            assert(!head.contains('\r')) by {
                assert forall|j: int| 0 <= j < head.len() implies head[j] != '\r' by {
                    assert(head[j] == s[j]);
                }
            }
            if head.len() > 0 {
                assert(head.last() == s[k - 1]);
            }
            assert(strip_cr(head) == head);
            assert(!rest.contains('\r')) by {
                assert forall|j: int| 0 <= j < rest.len() implies rest[j] != '\r' by {
                    assert(rest[j] == s[k + 1 + j]);
                }
            }
            assert(rest.last() == s.last());
            lemma_lines_round_trip(rest);
            assert(lines_of(rest).len() >= 1);
            lemma_join_lines_front(head, lines_of(rest));
            assert(s =~= head + seq!['\n'] + rest);
        }
    }
}

/// Inserting a line at a position that the insertion accepts and then
/// deleting the line at that position succeeds and leaves the lines as they
/// were.
pub proof fn lemma_insert_then_delete(lines: Seq<Seq<char>>, line_number: int, line: Seq<char>)
    requires
        1 <= line_number <= lines.len() + 1,
    ensures
        1 <= line_number <= lines.insert(line_number - 1, line).len(),
        lines.insert(line_number - 1, line).remove(line_number - 1) == lines,
{
    assert(lines.insert(line_number - 1, line).remove(line_number - 1) =~= lines);
}

/// The lines of `source` (`str::lines`), each as a `String`.
pub fn split_lines(source: &str) -> (r: Vec<String>)
    ensures
        views(r@) == lines_of(source@),
{
    let chars = chars_of(source);
    let ghost s = source@;
    let mut out: Vec<String> = Vec::new();
    let mut cur: Vec<char> = Vec::new();
    let mut i: usize = 0;
    assert(views(out@) =~= Seq::<Seq<char>>::empty());
    assert(cur@ + s.subrange(0, s.len() as int) =~= s);
    assert(views(out@) + lines_of(s) =~= lines_of(s));
    while i < chars.len()
        invariant
            chars@ == s,
            i <= s.len(),
            forall|j: int| 0 <= j < cur@.len() ==> cur@[j] != '\n',
            views(out@) + lines_of(cur@ + s.subrange(i as int, s.len() as int)) == lines_of(s),
        decreases s.len() - i,
    {
        let c = chars[i];
        let ghost rest = s.subrange(i as int, s.len() as int);
        let ghost rest_after = s.subrange(i + 1, s.len() as int);
        assert(rest =~= seq![c] + rest_after);
        if c == '\n' {
            proof {
                lemma_first_index_after_prefix(cur@, rest, '\n');
                assert(first_index_of(rest, '\n') == 0);
                let t = cur@ + rest;
                assert(t.len() > 0);
                assert(t.subrange(0, cur@.len() as int) =~= cur@);
                assert(t.subrange(cur@.len() as int + 1, t.len() as int) =~= rest_after);
                assert(Seq::<char>::empty() + rest_after =~= rest_after);
            }
            let ghost old_out = views(out@);
            let line = strip_cr_chars(cur.as_slice());
            out.push(string_of(line.as_slice()));
            proof {
                assert(views(out@) =~= old_out.push(strip_cr(cur@)));
                assert(old_out.push(strip_cr(cur@)) + lines_of(rest_after) =~= old_out + (seq![
                    strip_cr(cur@),
                ] + lines_of(rest_after)));
            }
            cur = Vec::new();
            assert(cur@ + rest_after =~= rest_after);
        } else {
            let ghost old_cur = cur@;
            cur.push(c);
            assert(cur@ + rest_after =~= old_cur + rest);
        }
        i = i + 1;
    }
    assert(s.subrange(s.len() as int, s.len() as int) =~= Seq::<char>::empty());
    assert(cur@ + Seq::<char>::empty() =~= cur@);
    if cur.len() > 0 {
        proof {
            lemma_first_index_bounds(cur@, '\n');
        }
        let ghost old_out = views(out@);
        out.push(string_of(cur.as_slice()));
        assert(views(out@) =~= old_out + seq![cur@]);
    } else {
        assert(views(out@) + lines_of(cur@) =~= views(out@));
    }
    out
}

fn strip_cr_chars(line: &[char]) -> (r: Vec<char>)
    ensures
        r@ == strip_cr(line@),
{
    let n = if line.len() > 0 && line[line.len() - 1] == '\r' {
        line.len() - 1
    } else {
        line.len()
    };
    let mut out: Vec<char> = Vec::new();
    let mut i: usize = 0;
    while i < n
        invariant
            n <= line@.len(),
            i <= n,
            out@ == line@.subrange(0, i as int),
        decreases n - i,
    {
        out.push(line[i]);
        assert(line@.subrange(0, i + 1) =~= line@.subrange(0, i as int).push(line@[i as int]));
        i = i + 1;
    }
    assert(out@ =~= strip_cr(line@));
    out
}

/// Appends the lines `lines[start..end]` joined with `\n` to `out`.
fn push_joined(out: &mut String, lines: &[String], start: usize, end: usize)
    requires
        start < end <= lines@.len(),
    ensures
        final(out)@ == old(out)@ + join_lines(views(lines@).subrange(start as int, end as int)),
{
    let ghost v = views(lines@);
    out.append(lines[start].as_str());
    let mut i = start + 1;
    assert(v.subrange(start as int, i as int) =~= seq![v[start as int]]);
    while i < end
        invariant
            start < i <= end,
            end <= lines@.len(),
            v == views(lines@),
            out@ == old(out)@ + join_lines(v.subrange(start as int, i as int)),
        decreases end - i,
    {
        push_char(out, '\n');
        out.append(lines[i].as_str());
        assert(v.subrange(start as int, i + 1).drop_last() =~= v.subrange(start as int, i as int));
        i = i + 1;
    }
}

/// The source text of a list of lines, joined with `\n`.
pub fn join_strings(lines: &[String]) -> (r: String)
    ensures
        r@ == join_lines(views(lines@)),
{
    let mut out = String::new();
    if lines.len() > 0 {
        push_joined(&mut out, lines, 0, lines.len());
        assert(views(lines@).subrange(0, lines@.len() as int) =~= views(lines@));
    }
    assert(out@ =~= join_lines(views(lines@)));
    out
}

/// An inclusive range of one-based line numbers.
#[derive(Clone, Copy, Debug, PartialEq, Eq)]
pub struct LineRange {
    pub start: usize,
    pub end: usize,
}

/// The message given for a line number outside `1..=max`.
pub open spec fn line_bound_message(command: Seq<char>, max: nat) -> Seq<char> {
    command + " line must be between 1 and "@ + decimal(max)
}

/// Turns a one-based line number into an index, refusing numbers outside
/// `1..=max_line_number`.
pub fn checked_editor_index(line_number: usize, max_line_number: usize, command: &str) -> (r:
    Result<usize, String>)
    ensures
        1 <= line_number <= max_line_number ==> r == Ok::<usize, String>(
            (line_number - 1) as usize,
        ),
        !(1 <= line_number <= max_line_number) ==> (r matches Err(m) && m@ == line_bound_message(
            command@,
            max_line_number as nat,
        )),
{
    if line_number == 0 || line_number > max_line_number {
        let mut m = String::from_str(command);
        m.append(" line must be between 1 and ");
        push_decimal(&mut m, max_line_number);
        return Err(m);
    }
    Ok(line_number - 1)
}

/// A text being edited: its lines and the file it belongs to, if any.
#[derive(Clone, Debug)]
pub struct EditorBuffer {
    pub lines: Vec<String>,
    pub path: Option<String>,
}

impl EditorBuffer {
    /// The lines of the buffer as character sequences.
    pub open spec fn line_views(&self) -> Seq<Seq<char>> {
        views(self.lines@)
    }

    /// The file path of the buffer, if it has one.
    pub open spec fn path_view(&self) -> Option<Seq<char>> {
        match &self.path {
            Some(p) => Some(p@),
            None => None,
        }
    }

    /// A buffer holding the lines of `source` (an empty source gives no
    /// lines), bound to `path`.
    pub fn new(path: Option<String>, source: String) -> (r: Self)
        ensures
            r.line_views() == lines_of(source@),
            r.path_view() == match path {
                Some(p) => Some(p@),
                None => None::<Seq<char>>,
            },
    {
        let lines = split_lines(source.as_str());
        EditorBuffer { lines, path }
    }

    /// A buffer with no lines, bound to `path`.
    pub fn empty(path: Option<String>) -> (r: Self)
        ensures
            r.line_views() == Seq::<Seq<char>>::empty(),
            r.path_view() == match path {
                Some(p) => Some(p@),
                None => None::<Seq<char>>,
            },
    {
        let r = EditorBuffer { lines: Vec::new(), path };
        assert(r.line_views() =~= Seq::<Seq<char>>::empty());
        r
    }

    /// The whole text: the lines joined with `\n`.
    pub fn source(&self) -> (r: String)
        ensures
            r@ == join_lines(self.line_views()),
    {
        join_strings(self.lines.as_slice())
    }

    /// The text of the inclusive one-based line range `range`.
    pub fn range_source(&self, range: LineRange) -> (r: Result<String, String>)
        ensures
            ({
                let n = self.line_views().len();
                if n == 0 {
                    r matches Err(m) && m@ == "buffer is empty"@
                } else if !(1 <= range.start <= n) || !(1 <= range.end <= n) {
                    r matches Err(m) && m@ == line_bound_message("run"@, n)
                } else if range.start > range.end {
                    r matches Err(m) && m@ == "run start line must be before end line"@
                } else {
                    r matches Ok(t) && t@ == join_lines(
                        self.line_views().subrange(range.start - 1, range.end as int),
                    )
                }
            }),
    {
        if self.lines.len() == 0 {
            return Err(String::from_str("buffer is empty"));
        }
        let start = match checked_editor_index(range.start, self.lines.len(), "run") {
            Ok(i) => i,
            Err(e) => return Err(e),
        };
        let end = match checked_editor_index(range.end, self.lines.len(), "run") {
            Ok(i) => i,
            Err(e) => return Err(e),
        };
        if start > end {
            return Err(String::from_str("run start line must be before end line"));
        }
        let mut out = String::new();
        push_joined(&mut out, self.lines.as_slice(), start, end + 1);
        assert(out@ =~= join_lines(self.line_views().subrange(range.start - 1, range.end as int)));
        Ok(out)
    }

    /// Adds `line` after the last line.
    pub fn append(&mut self, line: &str)
        ensures
            final(self).line_views() == old(self).line_views().push(line@),
            final(self).path_view() == old(self).path_view(),
    {
        self.lines.push(String::from_str(line));
        assert(self.line_views() =~= old(self).line_views().push(line@));
    }

    /// Inserts `line` so that it becomes line number `line_number`
    /// (one-based; one past the last line appends).
    pub fn insert(&mut self, line_number: usize, line: &str) -> (r: Result<(), String>)
        requires
            old(self).line_views().len() < usize::MAX,
        ensures
            final(self).path_view() == old(self).path_view(),
            ({
                let n = old(self).line_views().len();
                if 1 <= line_number <= n + 1 {
                    r is Ok && final(self).line_views() == old(self).line_views().insert(
                        line_number - 1,
                        line@,
                    )
                } else {
                    r matches Err(m) && m@ == line_bound_message("insert"@, n + 1)
                        && final(self).line_views() == old(self).line_views()
                }
            }),
    {
        let index = match checked_editor_index(line_number, self.lines.len() + 1, "insert") {
            Ok(i) => i,
            Err(e) => return Err(e),
        };
        self.lines.insert(index, String::from_str(line));
        assert(self.line_views() =~= old(self).line_views().insert(index as int, line@));
        Ok(())
    }

    /// Replaces line number `line_number` (one-based) by `line`.
    pub fn replace(&mut self, line_number: usize, line: &str) -> (r: Result<(), String>)
        ensures
            final(self).path_view() == old(self).path_view(),
            ({
                let n = old(self).line_views().len();
                if 1 <= line_number <= n {
                    r is Ok && final(self).line_views() == old(self).line_views().update(
                        line_number - 1,
                        line@,
                    )
                } else {
                    r matches Err(m) && m@ == line_bound_message("replace"@, n)
                        && final(self).line_views() == old(self).line_views()
                }
            }),
    {
        let index = match checked_editor_index(line_number, self.lines.len(), "replace") {
            Ok(i) => i,
            Err(e) => return Err(e),
        };
        self.lines.set(index, String::from_str(line));
        assert(self.line_views() =~= old(self).line_views().update(index as int, line@));
        Ok(())
    }

    /// Removes line number `line_number` (one-based).
    pub fn delete(&mut self, line_number: usize) -> (r: Result<(), String>)
        ensures
            final(self).path_view() == old(self).path_view(),
            ({
                let n = old(self).line_views().len();
                if 1 <= line_number <= n {
                    r is Ok && final(self).line_views() == old(self).line_views().remove(
                        line_number - 1,
                    )
                } else {
                    r matches Err(m) && m@ == line_bound_message("delete"@, n)
                        && final(self).line_views() == old(self).line_views()
                }
            }),
    {
        let index = match checked_editor_index(line_number, self.lines.len(), "delete") {
            Ok(i) => i,
            Err(e) => return Err(e),
        };
        self.lines.remove(index);
        assert(self.line_views() =~= old(self).line_views().remove(index as int));
        Ok(())
    }

    /// The file path of the buffer, if it has one.
    pub fn path(&self) -> (r: Option<&str>)
        ensures
            match r {
                Some(p) => self.path_view() == Some(p@),
                None => self.path_view() is None,
            },
    {
        match &self.path {
            Some(p) => Some(p.as_str()),
            None => None,
        }
    }

    /// Binds the buffer to `path` (when given) and returns the path it is
    /// bound to, which a write must have.
    pub fn write_target(&mut self, path: Option<String>) -> (r: Result<String, String>)
        ensures
            final(self).line_views() == old(self).line_views(),
            final(self).path_view() == match path {
                Some(p) => Some(p@),
                None => old(self).path_view(),
            },
            match final(self).path_view() {
                Some(p) => r matches Ok(t) && t@ == p,
                None => r matches Err(m) && m@ == "write requires a path the first time"@,
            },
    {
        if let Some(p) = path {
            self.path = Some(p);
        }
        match &self.path {
            Some(p) => Ok(p.clone()),
            None => Err(String::from_str("write requires a path the first time")),
        }
    }
}

pub open spec fn is_bracket(c: char) -> bool {
    c == '(' || c == ')' || c == '[' || c == ']'
}

/// Index of the first white-space or bracket character of `s` at or after
/// `i`, or the length of `s`.
pub open spec fn token_stop(s: Seq<char>, i: int) -> int
    decreases s.len() - i,
{
    if i >= s.len() {
        s.len() as int
    } else if is_white_space(s[i]) || is_bracket(s[i]) {
        i
    } else {
        token_stop(s, i + 1)
    }
}

/// The token that starts at the first non-space character at or after
/// `start`, with the index just past it; none when the text ends first or
/// that character is a bracket.
pub open spec fn spec_read_form_token(s: Seq<char>, start: int) -> Option<(Seq<char>, int)> {
    let b = skip_white(s, start);
    if b >= s.len() {
        None
    } else {
        let e = token_stop(s, b);
        if e == b {
            None
        } else {
            Some((s.subrange(b, e), e))
        }
    }
}

/// Characters before the stop are neither white space nor brackets.
pub proof fn lemma_token_stop_range(s: Seq<char>, i: int)
    requires
        0 <= i <= s.len(),
    ensures
        i <= token_stop(s, i) <= s.len(),
        forall|j: int| i <= j < token_stop(s, i) ==> !is_white_space(s[j]) && !is_bracket(s[j]),
    decreases s.len() - i,
{
    if i < s.len() && !(is_white_space(s[i]) || is_bracket(s[i])) {
        lemma_token_stop_range(s, i + 1);
    }
}

proof fn lemma_skip_white_range(s: Seq<char>, i: int)
    requires
        0 <= i <= s.len(),
    ensures
        i <= skip_white(s, i) <= s.len(),
    decreases s.len() - i,
{
    if i < s.len() && is_white_space(s[i]) {
        lemma_skip_white_range(s, i + 1);
    }
}

/// A read token is non-empty and holds no white space or bracket, and ends
/// inside the text.
pub proof fn lemma_read_form_token_shape(s: Seq<char>, start: int)
    requires
        0 <= start <= s.len(),
    ensures
        spec_read_form_token(s, start) matches Some((t, e)) ==> {
            &&& t.len() > 0
            &&& start < e <= s.len()
            &&& forall|j: int| 0 <= j < t.len() ==> !is_white_space(t[j]) && !is_bracket(t[j])
        },
{
    lemma_skip_white_range(s, start);
    let b = skip_white(s, start);
    if b < s.len() {
        lemma_token_stop_range(s, b);
    }
}

fn read_token_chars(s: &[char], start: usize) -> (r: Option<(Vec<char>, usize)>)
    requires
        start <= s@.len(),
    ensures
        match spec_read_form_token(s@, start as int) {
            Some((t, e)) => r matches Some((tok, end)) && tok@ == t && end == e,
            None => r is None,
        },
{
    let mut b = start;
    while b < s.len() && char_is_whitespace(s[b])
        invariant
            start <= b <= s@.len(),
            skip_white(s@, b as int) == skip_white(s@, start as int),
        decreases s@.len() - b,
    {
        b = b + 1;
    }
    if b >= s.len() {
        return None;
    }
    let mut e = b;
    while e < s.len() && !(char_is_whitespace(s[e]) || s[e] == '(' || s[e] == ')' || s[e] == '['
        || s[e] == ']')
        invariant
            b <= e <= s@.len(),
            token_stop(s@, e as int) == token_stop(s@, b as int),
        decreases s@.len() - e,
    {
        e = e + 1;
    }
    if e == b {
        return None;
    }
    let mut tok: Vec<char> = Vec::new();
    let mut i = b;
    while i < e
        invariant
            b <= i <= e,
            e <= s@.len(),
            tok@ == s@.subrange(b as int, i as int),
        decreases e - i,
    {
        tok.push(s[i]);
        assert(s@.subrange(b as int, i + 1) =~= s@.subrange(b as int, i as int).push(s@[i as int]));
        i = i + 1;
    }
    Some((tok, e))
}

/// Byte offset `b` is where a character of `s` starts, or the end of `s`.
pub open spec fn is_char_start(s: Seq<char>, b: int) -> bool {
    exists|k: int| 0 <= k <= s.len() && utf8_prefix_len(s, k) == b
}

/// The character position at byte offset `b` of `s`.
pub open spec fn char_position(s: Seq<char>, b: int) -> int {
    choose|k: int| 0 <= k <= s.len() && utf8_prefix_len(s, k) == b
}

/// A byte offset where a character starts names exactly one character
/// position: the one whose prefix takes that many bytes.
pub proof fn lemma_char_position(s: Seq<char>, k: int)
    requires
        0 <= k <= s.len(),
    ensures
        is_char_start(s, utf8_prefix_len(s, k) as int),
        char_position(s, utf8_prefix_len(s, k) as int) == k,
{
    let b = utf8_prefix_len(s, k) as int;
    assert(0 <= k <= s.len() && utf8_prefix_len(s, k) == b);
    let c = char_position(s, b);
    if c < k {
        lemma_utf8_prefix_mono(s, c, k);
    } else if c > k {
        lemma_utf8_prefix_mono(s, k, c);
    }
}

/// [`spec_read_form_token`] with its start and its end counted in bytes.
pub open spec fn spec_read_form_token_at(s: Seq<char>, start: int) -> Option<(Seq<char>, int)> {
    match spec_read_form_token(s, char_position(s, start)) {
        Some((t, e)) => Some((t, utf8_prefix_len(s, e) as int)),
        None => None,
    }
}

/// Reads the token starting at the first non-space character at or after
/// byte offset `start`: its text and the byte offset just past it.
pub fn read_form_token(source: &str, start: usize) -> (r: Option<(String, usize)>)
    requires
        is_char_start(source@, start as int),
        encode_utf8(source@).len() <= usize::MAX,
    ensures
        match spec_read_form_token_at(source@, start as int) {
            Some((t, e)) => r matches Some((tok, end)) && tok@ == t && end == e,
            None => r is None,
        },
{
    let s = chars_of(source);
    let ghost k0 = char_position(source@, start as int);
    let mut k: usize = 0;
    let mut off: usize = 0;
    assert(source@.subrange(0, 0) =~= Seq::<char>::empty());
    while off < start
        invariant
            s@ == source@,
            0 <= k0 <= s@.len(),
            utf8_prefix_len(s@, k0) == start,
            k <= k0,
            off == utf8_prefix_len(s@, k as int),
            encode_utf8(s@).len() <= usize::MAX,
        decreases start - off,
    {
        proof {
            if k == k0 {
                assert(false);
            }
            lemma_utf8_prefix_step(s@, k as int);
            lemma_utf8_prefix_mono(s@, k + 1, k0);
        }
        let w = utf8_width(s[k]);
        assert(k < s.len());
        off = off + w;
        k = k + 1;
    }
    proof {
        if k < k0 {
            lemma_utf8_prefix_mono(s@, k as int, k0);
        }
    }
    match read_token_chars(s.as_slice(), k) {
        Some((tok, end)) => {
            proof {
                lemma_read_form_token_shape(s@, k as int);
            }
            Some((string_of(tok.as_slice()), utf8_offset(s.as_slice(), end)))
        },
        None => None,
    }
}

/// What is known of a top-level form: the token after its opening bracket,
/// the token after that, and its first and last lines (zero-based).
pub ghost struct FormView {
    pub head: Seq<char>,
    pub first_arg: Option<Seq<char>>,
    pub start_line: nat,
    pub end_line: nat,
}

/// A top-level form of a source text.
#[derive(Clone, Debug)]
pub struct TopLevelForm {
    pub head: String,
    pub first_arg: Option<String>,
    pub start_line: usize,
    pub end_line: usize,
}

impl TopLevelForm {
    pub open spec fn view(&self) -> FormView {
        FormView {
            head: self.head@,
            first_arg: match &self.first_arg {
                Some(a) => Some(a@),
                None => None,
            },
            start_line: self.start_line as nat,
            end_line: self.end_line as nat,
        }
    }
}

pub open spec fn form_views(forms: Seq<TopLevelForm>) -> Seq<FormView> {
    forms.map_values(|f: TopLevelForm| f.view())
}

/// The state of the top-level form scanner after some characters.
pub ghost struct ScanState {
    pub depth: nat,
    pub in_string: bool,
    pub escape: bool,
    pub in_comment: bool,
    pub line: nat,
    pub pending: Option<FormView>,
    pub forms: Seq<FormView>,
}

pub open spec fn scan_start() -> ScanState {
    ScanState {
        depth: 0,
        in_string: false,
        escape: false,
        in_comment: false,
        line: 0,
        pending: None,
        forms: Seq::empty(),
    }
}

pub open spec fn line_after(st: ScanState, ch: char) -> nat {
    if ch == '\n' {
        st.line + 1
    } else {
        st.line
    }
}

/// One step of the scanner over character `s[idx]`: comments run to the end
/// of the line, strings (with backslash escapes) hide brackets, and an
/// opening bracket at depth zero starts a form whose head and first
/// argument are the next two tokens; the matching close ends it.
pub open spec fn scan_step(s: Seq<char>, idx: int, st: ScanState) -> ScanState {
    let ch = s[idx];
    if st.in_comment {
        ScanState { line: line_after(st, ch), in_comment: ch != '\n', ..st }
    } else if st.escape {
        ScanState { escape: false, line: line_after(st, ch), ..st }
    } else if st.in_string {
        if ch == '\\' {
            ScanState { escape: true, ..st }
        } else if ch == '"' {
            ScanState { in_string: false, ..st }
        } else {
            ScanState { line: line_after(st, ch), ..st }
        }
    } else if ch == ';' {
        ScanState { in_comment: true, ..st }
    } else if ch == '"' {
        ScanState { in_string: true, ..st }
    } else if ch == '(' || ch == '[' || ch == '{' {
        let pending = if st.depth == 0 {
            match spec_read_form_token(s, idx + 1) {
                Some((head, next)) => Some(
                    FormView {
                        head,
                        first_arg: match spec_read_form_token(s, next) {
                            Some((a, _)) => Some(a),
                            None => None,
                        },
                        start_line: st.line,
                        end_line: st.line,
                    },
                ),
                None => st.pending,
            }
        } else {
            st.pending
        };
        ScanState { pending, depth: st.depth + 1, ..st }
    } else if ch == ')' || ch == ']' || ch == '}' {
        let closes = st.depth == 1 && st.pending is Some;
        ScanState {
            forms: if closes {
                st.forms.push(FormView { end_line: st.line, ..st.pending->0 })
            } else {
                st.forms
            },
            pending: if st.depth == 1 {
                None
            } else {
                st.pending
            },
            depth: if st.depth == 0 {
                0
            } else {
                (st.depth - 1) as nat
            },
            ..st
        }
    } else if ch == '\n' {
        ScanState { line: st.line + 1, ..st }
    } else {
        st
    }
}

/// The scanner state after the first `i` characters of `s`.
pub open spec fn scan_upto(s: Seq<char>, i: int) -> ScanState
    decreases i,
{
    if i <= 0 {
        scan_start()
    } else {
        scan_step(s, i - 1, scan_upto(s, i - 1))
    }
}

/// The top-level forms of `s` in order; a form still open at the end of the
/// text ends on the last line.
pub open spec fn spec_top_level_forms(s: Seq<char>) -> Seq<FormView> {
    let st = scan_upto(s, s.len() as int);
    match st.pending {
        Some(f) => st.forms.push(FormView { end_line: st.line, ..f }),
        None => st.forms,
    }
}

pub open spec fn state_matches(
    st: ScanState,
    depth: usize,
    in_string: bool,
    escape: bool,
    in_comment: bool,
    line: usize,
    pending: Option<TopLevelForm>,
    forms: Seq<TopLevelForm>,
) -> bool {
    &&& st.depth == depth
    &&& st.in_string == in_string
    &&& st.escape == escape
    &&& st.in_comment == in_comment
    &&& st.line == line
    &&& st.pending == match pending {
        Some(f) => Some(f.view()),
        None => None::<FormView>,
    }
    &&& st.forms == form_views(forms)
}

fn top_level_forms_of(s: &[char]) -> (r: Vec<TopLevelForm>)
    ensures
        form_views(r@) == spec_top_level_forms(s@),
{
    let mut forms: Vec<TopLevelForm> = Vec::new();
    let mut depth: usize = 0;
    let mut in_string = false;
    let mut escape = false;
    let mut in_comment = false;
    let mut line: usize = 0;
    let mut pending: Option<TopLevelForm> = None;
    let mut idx: usize = 0;
    assert(form_views(forms@) =~= Seq::<FormView>::empty());
    while idx < s.len()
        invariant
            idx <= s@.len(),
            depth <= idx,
            line <= idx,
            state_matches(
                scan_upto(s@, idx as int),
                depth,
                in_string,
                escape,
                in_comment,
                line,
                pending,
                forms@,
            ),
        decreases s@.len() - idx,
    {
        let ch = s[idx];
        let ghost st = scan_upto(s@, idx as int);
        if in_comment {
            if ch == '\n' {
                line = line + 1;
            }
            in_comment = ch != '\n';
        } else if escape {
            escape = false;
            if ch == '\n' {
                line = line + 1;
            }
        } else if in_string {
            if ch == '\\' {
                escape = true;
            } else if ch == '"' {
                in_string = false;
            } else if ch == '\n' {
                line = line + 1;
            }
        } else if ch == ';' {
            in_comment = true;
        } else if ch == '"' {
            in_string = true;
        } else if ch == '(' || ch == '[' || ch == '{' {
            if depth == 0 {
                if let Some((head, next)) = read_token_chars(s, idx + 1) {
                    proof {
                        lemma_read_form_token_shape(s@, idx + 1);
                    }
                    let first_arg = match read_token_chars(s, next) {
                        Some((a, _)) => Some(string_of(a.as_slice())),
                        None => None,
                    };
                    pending = Some(
                        TopLevelForm {
                            head: string_of(head.as_slice()),
                            first_arg,
                            start_line: line,
                            end_line: line,
                        },
                    );
                }
            }
            depth = depth + 1;
        } else if ch == ')' || ch == ']' || ch == '}' {
            if depth == 1 {
                if let Some(form) = pending {
                    let ghost before = form_views(forms@);
                    forms.push(
                        TopLevelForm {
                            head: form.head,
                            first_arg: form.first_arg,
                            start_line: form.start_line,
                            end_line: line,
                        },
                    );
                    assert(form_views(forms@) =~= before.push(
                        FormView { end_line: line as nat, ..st.pending->0 },
                    ));
                }
                pending = None;
            }
            depth = if depth == 0 {
                0
            } else {
                depth - 1
            };
        } else if ch == '\n' {
            line = line + 1;
        }
        idx = idx + 1;
    }
    if let Some(form) = pending {
        let ghost st = scan_upto(s@, s@.len() as int);
        let ghost before = form_views(forms@);
        forms.push(
            TopLevelForm {
                head: form.head,
                first_arg: form.first_arg,
                start_line: form.start_line,
                end_line: line,
            },
        );
        assert(form_views(forms@) =~= before.push(FormView { end_line: line as nat, ..st.pending->0 }));
    }
    forms
}

/// The top-level forms of a source text, each with the token after its
/// opening bracket, the token after that, and its zero-based line range.
pub fn top_level_forms(source: &str) -> (r: Vec<TopLevelForm>)
    ensures
        form_views(r@) == spec_top_level_forms(source@),
{
    let s = chars_of(source);
    top_level_forms_of(s.as_slice())
}

pub open spec fn good_head(h: Seq<char>) -> bool {
    &&& h.len() > 0
    &&& forall|j: int| 0 <= j < h.len() ==> !is_white_space(h[j]) && !is_bracket(h[j])
}

pub open spec fn forms_ordered(forms: Seq<FormView>) -> bool {
    &&& forall|i: int|
        0 <= i < forms.len() ==> #[trigger] forms[i].start_line <= forms[i].end_line && good_head(
            forms[i].head,
        )
    &&& forall|i: int, j: int|
        0 <= i < j < forms.len() ==> #[trigger] forms[i].end_line <= #[trigger] forms[j].start_line
}

spec fn scan_invariant(st: ScanState) -> bool {
    &&& forms_ordered(st.forms)
    &&& forall|i: int| 0 <= i < st.forms.len() ==> #[trigger] st.forms[i].end_line <= st.line
    &&& st.pending matches Some(p) ==> {
        &&& p.start_line <= st.line
        &&& good_head(p.head)
        &&& forall|i: int| 0 <= i < st.forms.len() ==> #[trigger] st.forms[i].end_line <= p.start_line
    }
}

proof fn lemma_scan_invariant(s: Seq<char>, i: int)
    requires
        0 <= i <= s.len(),
    ensures
        scan_invariant(scan_upto(s, i)),
    decreases i,
{
    if i > 0 {
        lemma_scan_invariant(s, i - 1);
        let st = scan_upto(s, i - 1);
        let ch = s[i - 1];
        if !st.in_comment && !st.escape && !st.in_string && (ch == '(' || ch == '[' || ch == '{') {
            lemma_read_form_token_shape(s, i);
        }
        let nx = scan_step(s, i - 1, st);
        assert(nx == scan_upto(s, i));
        if !st.in_comment && !st.escape && !st.in_string && (ch == ')' || ch == ']' || ch == '}')
            && st.depth == 1 && st.pending is Some {
            let f = FormView { end_line: st.line, ..st.pending->0 };
            assert(nx.forms == st.forms.push(f));
            assert forall|a: int, b: int|
                0 <= a < b < nx.forms.len() implies #[trigger] nx.forms[a].end_line
                <= #[trigger] nx.forms[b].start_line by {
                if b == nx.forms.len() - 1 {
                    assert(nx.forms[a] == st.forms[a]);
                } else {
                    assert(nx.forms[a] == st.forms[a]);
                    assert(nx.forms[b] == st.forms[b]);
                }
            }
            assert forall|a: int|
                0 <= a < nx.forms.len() implies #[trigger] nx.forms[a].start_line
                <= nx.forms[a].end_line && good_head(nx.forms[a].head) by {
                if a < st.forms.len() {
                    assert(nx.forms[a] == st.forms[a]);
                }
            }
        }
    }
}

/// The top-level forms of any text each have a non-empty head free of white
/// space and brackets and a line range that starts no later than it ends,
/// and they come in order without overlapping: a form ends no later than
/// the next one starts.
pub proof fn lemma_top_level_forms_ordered(s: Seq<char>)
    ensures
        forms_ordered(spec_top_level_forms(s)),
{
    lemma_scan_invariant(s, s.len() as int);
    let st = scan_upto(s, s.len() as int);
    match st.pending {
        Some(p) => {
            let f = FormView { end_line: st.line, ..p };
            let out = st.forms.push(f);
            assert(out == spec_top_level_forms(s));
            assert forall|a: int, b: int|
                0 <= a < b < out.len() implies #[trigger] out[a].end_line
                <= #[trigger] out[b].start_line by {
                assert(out[a] == st.forms[a]);
                if b < st.forms.len() {
                    assert(out[b] == st.forms[b]);
                }
            }
            assert forall|a: int|
                0 <= a < out.len() implies #[trigger] out[a].start_line <= out[a].end_line
                && good_head(out[a].head) by {
                if a < st.forms.len() {
                    assert(out[a] == st.forms[a]);
                }
            }
        },
        None => {},
    }
}

/// The first form satisfying `p`, searching from the front.
pub open spec fn first_match(forms: Seq<FormView>, p: spec_fn(FormView) -> bool) -> Option<
    FormView,
>
    decreases forms.len(),
{
    if forms.len() == 0 {
        None
    } else if p(forms[0]) {
        Some(forms[0])
    } else {
        first_match(forms.drop_first(), p)
    }
}

/// The last form satisfying `p`.
pub open spec fn last_match(forms: Seq<FormView>, p: spec_fn(FormView) -> bool) -> Option<
    FormView,
>
    decreases forms.len(),
{
    if forms.len() == 0 {
        None
    } else if p(forms.last()) {
        Some(forms.last())
    } else {
        last_match(forms.drop_last(), p)
    }
}

pub open spec fn is_playback_head(h: Seq<char>) -> bool {
    h == "start!"@ || h == "play-scene"@ || h == "play-block"@ || h == "cue"@
}

pub open spec fn is_scene_head(h: Seq<char>) -> bool {
    h == "scene"@ || h == "block"@
}

pub open spec fn is_scene_reference_head(h: Seq<char>) -> bool {
    is_scene_head(h) || h == "play-scene"@ || h == "play-block"@ || h == "cue"@
}

pub open spec fn is_playable_head(h: Seq<char>) -> bool {
    h == "d"@ || h == "sample"@
}

/// `s` with every trailing `)` removed.
pub open spec fn trim_close_parens(s: Seq<char>) -> Seq<char>
    decreases s.len(),
{
    if s.len() > 0 && s.last() == ')' {
        trim_close_parens(s.drop_last())
    } else {
        s
    }
}

/// `s` without a leading `:`, when it has one.
pub open spec fn strip_colon(s: Seq<char>) -> Option<Seq<char>> {
    if s.len() > 0 && s[0] == ':' {
        Some(s.drop_first())
    } else {
        None
    }
}

/// The scene named by a form: its first argument, less trailing `)`, as a
/// `:keyword`.
pub open spec fn spec_scene_name(f: FormView) -> Option<Seq<char>> {
    match f.first_arg {
        Some(a) => strip_colon(trim_close_parens(a)),
        None => None,
    }
}

/// The names of the scene definitions among `forms`, in order.
pub open spec fn scene_definition_names(forms: Seq<FormView>) -> Seq<Seq<char>>
    decreases forms.len(),
{
    if forms.len() == 0 {
        Seq::empty()
    } else {
        let rest = scene_definition_names(forms.drop_last());
        let f = forms.last();
        if is_scene_head(f.head) && spec_scene_name(f) is Some {
            rest.push(spec_scene_name(f)->0)
        } else {
            rest
        }
    }
}

/// The name of the only scene definition, when there is exactly one.
pub open spec fn spec_unique_scene_name(forms: Seq<FormView>) -> Option<Seq<char>> {
    let names = scene_definition_names(forms);
    if names.len() == 1 {
        Some(names[0])
    } else {
        None
    }
}

/// Whether a source text holds a top-level playback command.
pub open spec fn spec_has_playback_command(s: Seq<char>) -> bool {
    exists|i: int|
        0 <= i < spec_top_level_forms(s).len() && is_playback_head(
            #[trigger] spec_top_level_forms(s)[i].head,
        )
}

/// Whether a source text holds a top-level track or sample definition.
pub open spec fn spec_has_top_level_playable(s: Seq<char>) -> bool {
    exists|i: int|
        0 <= i < spec_top_level_forms(s).len() && is_playable_head(
            #[trigger] spec_top_level_forms(s)[i].head,
        )
}

/// The name of the first scene definition, when its first argument is a
/// `:keyword`.
pub open spec fn spec_first_scene_name(s: Seq<char>) -> Option<Seq<char>> {
    match first_match(spec_top_level_forms(s), |f: FormView| is_scene_head(f.head)) {
        Some(f) => match f.first_arg {
            Some(a) => strip_colon(a),
            None => None,
        },
        None => None,
    }
}

fn is_playback(h: &String) -> (r: bool)
    ensures
        r == is_playback_head(h@),
{
    let x = h.as_str();
    str_eq(x, "start!") || str_eq(x, "play-scene") || str_eq(x, "play-block") || str_eq(x, "cue")
}

fn is_scene(h: &String) -> (r: bool)
    ensures
        r == is_scene_head(h@),
{
    let x = h.as_str();
    str_eq(x, "scene") || str_eq(x, "block")
}

fn is_scene_reference(h: &String) -> (r: bool)
    ensures
        r == is_scene_reference_head(h@),
{
    let x = h.as_str();
    is_scene(h) || str_eq(x, "play-scene") || str_eq(x, "play-block") || str_eq(x, "cue")
}

fn is_playable(h: &String) -> (r: bool)
    ensures
        r == is_playable_head(h@),
{
    let x = h.as_str();
    str_eq(x, "d") || str_eq(x, "sample")
}

fn strip_colon_string(s: &String) -> (r: Option<String>)
    ensures
        match strip_colon(s@) {
            Some(t) => r matches Some(x) && x@ == t,
            None => r is None,
        },
{
    let c = chars_of(s.as_str());
    if c.len() > 0 && c[0] == ':' {
        let mut out: Vec<char> = Vec::new();
        let mut i: usize = 1;
        while i < c.len()
            invariant
                1 <= i <= c@.len(),
                out@ == c@.subrange(1, i as int),
            decreases c@.len() - i,
        {
            out.push(c[i]);
            assert(c@.subrange(1, i + 1) =~= c@.subrange(1, i as int).push(c@[i as int]));
            i = i + 1;
        }
        assert(out@ =~= c@.drop_first());
        Some(string_of(out.as_slice()))
    } else {
        None
    }
}

/// Whether the source holds a top-level `start!`, `play-scene`,
/// `play-block` or `cue` form.
pub fn has_playback_command(source: &str) -> (r: bool)
    ensures
        r == spec_has_playback_command(source@),
{
    let forms = top_level_forms(source);
    let mut i: usize = 0;
    while i < forms.len()
        invariant
            i <= forms@.len(),
            form_views(forms@) == spec_top_level_forms(source@),
            forall|j: int| 0 <= j < i ==> !is_playback_head(#[trigger] forms@[j].head@),
        decreases forms@.len() - i,
    {
        if is_playback(&forms[i].head) {
            assert(spec_top_level_forms(source@)[i as int].head == forms@[i as int].head@);
            return true;
        }
        i = i + 1;
    }
    assert forall|j: int|
        0 <= j < spec_top_level_forms(source@).len() implies !is_playback_head(
        #[trigger] spec_top_level_forms(source@)[j].head,
    ) by {
        assert(spec_top_level_forms(source@)[j].head == forms@[j].head@);
    }
    false
}

/// Whether the source holds a top-level `d` or `sample` form.
pub fn has_top_level_playable(source: &str) -> (r: bool)
    ensures
        r == spec_has_top_level_playable(source@),
{
    let forms = top_level_forms(source);
    let mut i: usize = 0;
    while i < forms.len()
        invariant
            i <= forms@.len(),
            form_views(forms@) == spec_top_level_forms(source@),
            forall|j: int| 0 <= j < i ==> !is_playable_head(#[trigger] forms@[j].head@),
        decreases forms@.len() - i,
    {
        if is_playable(&forms[i].head) {
            assert(spec_top_level_forms(source@)[i as int].head == forms@[i as int].head@);
            return true;
        }
        i = i + 1;
    }
    assert forall|j: int|
        0 <= j < spec_top_level_forms(source@).len() implies !is_playable_head(
        #[trigger] spec_top_level_forms(source@)[j].head,
    ) by {
        assert(spec_top_level_forms(source@)[j].head == forms@[j].head@);
    }
    false
}

proof fn lemma_first_match_skip(forms: Seq<FormView>, p: spec_fn(FormView) -> bool, i: int)
    requires
        0 <= i <= forms.len(),
        forall|j: int| 0 <= j < i ==> !p(#[trigger] forms[j]),
    ensures
        first_match(forms, p) == first_match(forms.subrange(i, forms.len() as int), p),
    decreases i,
{
    if i > 0 {
        lemma_first_match_skip(forms.drop_first(), p, i - 1);
        assert(forms.drop_first().subrange(i - 1, forms.len() - 1) =~= forms.subrange(
            i,
            forms.len() as int,
        ));
    } else {
        assert(forms.subrange(0, forms.len() as int) =~= forms);
    }
}

/// The name of the first scene definition, when its first argument is a
/// `:keyword`.
pub fn first_scene_name(source: &str) -> (r: Option<String>)
    ensures
        match spec_first_scene_name(source@) {
            Some(n) => r matches Some(x) && x@ == n,
            None => r is None,
        },
{
    let forms = top_level_forms(source);
    let ghost fv = form_views(forms@);
    let ghost p = |f: FormView| is_scene_head(f.head);
    let mut i: usize = 0;
    while i < forms.len()
        invariant
            i <= forms@.len(),
            fv == form_views(forms@),
            fv == spec_top_level_forms(source@),
            p == (|f: FormView| is_scene_head(f.head)),
            forall|j: int| 0 <= j < i ==> !p(#[trigger] fv[j]),
        decreases forms@.len() - i,
    {
        if is_scene(&forms[i].head) {
            proof {
                lemma_first_match_skip(fv, p, i as int);
                assert(fv.subrange(i as int, fv.len() as int)[0] == fv[i as int]);
            }
            return match &forms[i].first_arg {
                Some(a) => strip_colon_string(a),
                None => None,
            };
        }
        i = i + 1;
    }
    proof {
        lemma_first_match_skip(fv, p, fv.len() as int);
    }
    None
}

fn trim_close_parens_chars(s: &[char]) -> (r: Vec<char>)
    ensures
        r@ == trim_close_parens(s@),
{
    let mut e = s.len();
    assert(s@.subrange(0, e as int) =~= s@);
    while e > 0 && s[e - 1] == ')'
        invariant
            e <= s@.len(),
            trim_close_parens(s@.subrange(0, e as int)) == trim_close_parens(s@),
        decreases e,
    {
        assert(s@.subrange(0, e as int).drop_last() =~= s@.subrange(0, e - 1));
        e = e - 1;
    }
    let mut out: Vec<char> = Vec::new();
    let mut i: usize = 0;
    while i < e
        invariant
            i <= e <= s@.len(),
            out@ == s@.subrange(0, i as int),
        decreases e - i,
    {
        out.push(s[i]);
        assert(s@.subrange(0, i + 1) =~= s@.subrange(0, i as int).push(s@[i as int]));
        i = i + 1;
    }
    assert(trim_close_parens(s@.subrange(0, e as int)) == s@.subrange(0, e as int));
    out
}

/// The scene named by a form: its first argument, less trailing `)`, when
/// that is a `:keyword`.
pub fn scene_name_from_form(form: &TopLevelForm) -> (r: Option<String>)
    ensures
        match spec_scene_name(form.view()) {
            Some(n) => r matches Some(x) && x@ == n,
            None => r is None,
        },
{
    match &form.first_arg {
        Some(a) => {
            let c = chars_of(a.as_str());
            let t = trim_close_parens_chars(c.as_slice());
            let ts = string_of(t.as_slice());
            strip_colon_string(&ts)
        },
        None => None,
    }
}

/// The name of the only named scene definition among `forms`, if exactly
/// one has a name.
pub fn unique_scene_definition_name(forms: &[TopLevelForm]) -> (r: Option<String>)
    ensures
        match spec_unique_scene_name(form_views(forms@)) {
            Some(n) => r matches Some(x) && x@ == n,
            None => r is None,
        },
{
    let ghost fv = form_views(forms@);
    let mut first: Option<String> = None;
    let mut count: usize = 0;
    let mut i: usize = 0;
    while i < forms.len()
        invariant
            i <= forms@.len(),
            fv == form_views(forms@),
            count <= i,
            count == if scene_definition_names(fv.subrange(0, i as int)).len() < 2 {
                scene_definition_names(fv.subrange(0, i as int)).len()
            } else {
                2
            },
            count >= 1 ==> (first matches Some(x) && x@ == scene_definition_names(
                fv.subrange(0, i as int),
            )[0]),
        decreases forms@.len() - i,
    {
        let ghost prefix = fv.subrange(0, i as int);
        assert(fv.subrange(0, i + 1).drop_last() =~= prefix);
        assert(fv.subrange(0, i + 1).last() == fv[i as int]);
        if is_scene(&forms[i].head) {
            if let Some(name) = scene_name_from_form(&forms[i]) {
                if count == 0 {
                    first = Some(name);
                    count = 1;
                } else {
                    count = 2;
                }
            }
        }
        i = i + 1;
    }
    assert(fv.subrange(0, forms@.len() as int) =~= fv);
    if count == 1 {
        first
    } else {
        None
    }
}

proof fn lemma_last_match_skip(forms: Seq<FormView>, p: spec_fn(FormView) -> bool, k: int)
    requires
        0 <= k <= forms.len(),
        forall|j: int| k <= j < forms.len() ==> !p(#[trigger] forms[j]),
    ensures
        last_match(forms, p) == last_match(forms.subrange(0, k), p),
    decreases forms.len() - k,
{
    if k < forms.len() {
        lemma_last_match_skip(forms.drop_last(), p, k);
        assert(forms.drop_last().subrange(0, k) =~= forms.subrange(0, k));
    } else {
        assert(forms.subrange(0, k) =~= forms);
    }
}

pub open spec fn saturating_sub(a: nat, b: nat) -> nat {
    if a >= b {
        (a - b) as nat
    } else {
        0
    }
}

/// The scene named by the first scene or cue form starting on line `index`.
pub open spec fn scene_starting_at(forms: Seq<FormView>, index: nat) -> Option<Seq<char>> {
    match first_match(
        forms,
        |f: FormView| f.start_line == index && is_scene_reference_head(f.head),
    ) {
        Some(f) => spec_scene_name(f),
        None => None,
    }
}

/// The scene named by the last scene definition whose lines enclose
/// `cursor`.
pub open spec fn scene_enclosing(forms: Seq<FormView>, cursor: nat) -> Option<Seq<char>> {
    match last_match(
        forms,
        |f: FormView| is_scene_head(f.head) && f.start_line <= cursor && cursor <= f.end_line,
    ) {
        Some(f) => spec_scene_name(f),
        None => None,
    }
}

/// The scene meant by the cursor: one named on the cursor line or up to
/// three lines above it, else the scene definition enclosing the cursor,
/// else the only scene definition.
pub open spec fn spec_scene_for_cursor(forms: Seq<FormView>, cursor: nat) -> Option<Seq<char>> {
    if scene_starting_at(forms, cursor) is Some {
        scene_starting_at(forms, cursor)
    } else if scene_starting_at(forms, saturating_sub(cursor, 1)) is Some {
        scene_starting_at(forms, saturating_sub(cursor, 1))
    } else if scene_starting_at(forms, saturating_sub(cursor, 2)) is Some {
        scene_starting_at(forms, saturating_sub(cursor, 2))
    } else if scene_starting_at(forms, saturating_sub(cursor, 3)) is Some {
        scene_starting_at(forms, saturating_sub(cursor, 3))
    } else if scene_enclosing(forms, cursor) is Some {
        scene_enclosing(forms, cursor)
    } else {
        spec_unique_scene_name(forms)
    }
}

/// When the first form starting on the cursor's line is a scene
/// definition (`scene`, `block`) or a form that plays or cues a scene
/// (`play-scene`, `play-block`, `cue`) whose argument is `:name`, the scene
/// under the cursor is `name`.
pub proof fn lemma_scene_reference_on_cursor_line(
    forms: Seq<FormView>,
    cursor: nat,
    i: int,
    name: Seq<char>,
)
    requires
        0 <= i < forms.len(),
        forms[i].start_line == cursor,
        forall|j: int| 0 <= j < i ==> #[trigger] forms[j].start_line != cursor,
        forms[i].head == "scene"@ || forms[i].head == "block"@ || forms[i].head == "play-scene"@
            || forms[i].head == "play-block"@ || forms[i].head == "cue"@,
        forms[i].first_arg == Some(":"@ + name),
        name.len() == 0 || name.last() != ')',
    ensures
        spec_scene_for_cursor(forms, cursor) == Some(name),
{
    let p = |f: FormView| f.start_line == cursor && is_scene_reference_head(f.head);
    lemma_first_match_skip(forms, p, i);
    let rest = forms.subrange(i, forms.len() as int);
    assert(rest[0] == forms[i]);
    assert(p(forms[i]));
    assert(first_match(rest, p) == Some(forms[i]));
    reveal_strlit(":");
    let a = ":"@ + name;
    assert(a.len() == name.len() + 1);
    if name.len() > 0 {
        assert(a.last() == name.last());
    } else {
        assert(a.last() == ':');
    }
    assert(trim_close_parens(a) == a);
    assert(a.drop_first() =~= name);
    assert(strip_colon(a) == Some(name));
    assert(scene_starting_at(forms, cursor) == Some(name));
}

fn scene_starting_at_exec(forms: &[TopLevelForm], index: usize) -> (r: Option<String>)
    ensures
        match scene_starting_at(form_views(forms@), index as nat) {
            Some(n) => r matches Some(x) && x@ == n,
            None => r is None,
        },
{
    let ghost fv = form_views(forms@);
    let ghost p = |f: FormView| f.start_line == index && is_scene_reference_head(f.head);
    let mut i: usize = 0;
    while i < forms.len()
        invariant
            i <= forms@.len(),
            fv == form_views(forms@),
            p == (|f: FormView| f.start_line == index && is_scene_reference_head(f.head)),
            forall|j: int| 0 <= j < i ==> !p(#[trigger] fv[j]),
        decreases forms@.len() - i,
    {
        if forms[i].start_line == index && is_scene_reference(&forms[i].head) {
            proof {
                lemma_first_match_skip(fv, p, i as int);
                assert(fv.subrange(i as int, fv.len() as int)[0] == fv[i as int]);
            }
            return scene_name_from_form(&forms[i]);
        }
        i = i + 1;
    }
    proof {
        lemma_first_match_skip(fv, p, fv.len() as int);
    }
    None
}

fn scene_enclosing_exec(forms: &[TopLevelForm], cursor: usize) -> (r: Option<String>)
    ensures
        match scene_enclosing(form_views(forms@), cursor as nat) {
            Some(n) => r matches Some(x) && x@ == n,
            None => r is None,
        },
{
    let ghost fv = form_views(forms@);
    let ghost p = |f: FormView|
        is_scene_head(f.head) && f.start_line <= cursor && cursor <= f.end_line;
    let mut k: usize = forms.len();
    while k > 0
        invariant
            k <= forms@.len(),
            fv == form_views(forms@),
            p == (|f: FormView|
                is_scene_head(f.head) && f.start_line <= cursor && cursor <= f.end_line),
            forall|j: int| k <= j < fv.len() ==> !p(#[trigger] fv[j]),
        decreases k,
    {
        let f = &forms[k - 1];
        if is_scene(&f.head) && f.start_line <= cursor && cursor <= f.end_line {
            proof {
                lemma_last_match_skip(fv, p, k as int);
                assert(fv.subrange(0, k as int).last() == fv[k - 1]);
            }
            return scene_name_from_form(f);
        }
        k = k - 1;
    }
    proof {
        lemma_last_match_skip(fv, p, 0);
    }
    None
}

/// The scene the cursor line points at, as the editor's cue and loop
/// commands read it.
pub fn scene_name_for_cursor(lines: &[String], cursor_line: usize) -> (r: Option<String>)
    ensures
        match spec_scene_for_cursor(
            spec_top_level_forms(join_lines(views(lines@))),
            cursor_line as nat,
        ) {
            Some(n) => r matches Some(x) && x@ == n,
            None => r is None,
        },
{
    let source = join_strings(lines);
    let forms = top_level_forms(source.as_str());
    let mut offset: usize = 0;
    while offset <= 3
        invariant
            offset <= 4,
            form_views(forms@) == spec_top_level_forms(join_lines(views(lines@))),
            forall|o: nat|
                o < offset ==> #[trigger] scene_starting_at(
                    form_views(forms@),
                    saturating_sub(cursor_line as nat, o),
                ) is None,
        decreases 4 - offset,
    {
        let index = if cursor_line >= offset {
            cursor_line - offset
        } else {
            0
        };
        let found = scene_starting_at_exec(forms.as_slice(), index);
        if found.is_some() {
            proof {
                assert(saturating_sub(cursor_line as nat, offset as nat) == index);
                assert(scene_starting_at(form_views(forms@), saturating_sub(cursor_line as nat, 0))
                    is None ==> offset != 0);
            }
            return found;
        }
        offset = offset + 1;
    }
    proof {
        assert(scene_starting_at(form_views(forms@), saturating_sub(cursor_line as nat, 0))
            is None);
        assert(scene_starting_at(form_views(forms@), saturating_sub(cursor_line as nat, 1))
            is None);
        assert(scene_starting_at(form_views(forms@), saturating_sub(cursor_line as nat, 2))
            is None);
        assert(scene_starting_at(form_views(forms@), saturating_sub(cursor_line as nat, 3))
            is None);
        assert(saturating_sub(cursor_line as nat, 0) == cursor_line);
    }
    let enclosing = scene_enclosing_exec(forms.as_slice(), cursor_line);
    if enclosing.is_some() {
        return enclosing;
    }
    unique_scene_definition_name(forms.as_slice())
}

/// What the editor plays for a source: the source itself when it already
/// starts playback, else the source with a cue of its first scene, else
/// with a start command when it defines tracks, else the source unchanged.
pub open spec fn spec_editor_preview_source(s: Seq<char>) -> Seq<char> {
    if spec_has_playback_command(s) {
        s
    } else if spec_first_scene_name(s) is Some {
        trim(s) + "\n\n(play-scene :"@ + spec_first_scene_name(s)->0 + ")"@
    } else if spec_has_top_level_playable(s) {
        trim(s) + "\n\n(start!)"@
    } else {
        s
    }
}

/// The source the editor sends for playback (see
/// `spec_editor_preview_source`).
pub fn editor_preview_source(source: &str) -> (r: String)
    ensures
        r@ == spec_editor_preview_source(source@),
{
    if has_playback_command(source) {
        String::from_str(source)
    } else {
        match first_scene_name(source) {
            Some(scene) => {
                let c = chars_of(source);
                let t = trim_chars(c.as_slice());
                let mut out = string_of(t.as_slice());
                out.append("\n\n(play-scene :");
                out.append(scene.as_str());
                out.append(")");
                out
            },
            None => {
                if has_top_level_playable(source) {
                    let c = chars_of(source);
                    let t = trim_chars(c.as_slice());
                    let mut out = string_of(t.as_slice());
                    out.append("\n\n(start!)");
                    out
                } else {
                    String::from_str(source)
                }
            },
        }
    }
}

/// Byte index in `text` of character `char_index`, or the byte length of
/// `text` when the index is past its end.
pub fn char_to_byte_index(text: &str, char_index: usize) -> (r: usize)
    requires
        encode_utf8(text@).len() <= usize::MAX,
    ensures
        r == utf8_prefix_len(text@, if char_index < text@.len() { char_index as int } else { text@.len() as int }),
{
    if char_index == 0 {
        assert(text@.subrange(0, 0) =~= Seq::<char>::empty());
        return 0;
    }
    let chars = chars_of(text);
    let k = if char_index < chars.len() { char_index } else { chars.len() };
    utf8_offset(chars.as_slice(), k)
}

/// Byte index in `text` of the character before character `char_index`
/// (zero when there is none).
pub fn char_prev_byte_index(text: &str, char_index: usize) -> (r: usize)
    requires
        encode_utf8(text@).len() <= usize::MAX,
    ensures
        r == if char_index == 0 || char_index - 1 >= text@.len() {
            0
        } else {
            utf8_prefix_len(text@, char_index - 1)
        },
{
    if char_index == 0 {
        return 0;
    }
    let chars = chars_of(text);
    if char_index - 1 < chars.len() {
        utf8_offset(chars.as_slice(), char_index - 1)
    } else {
        0
    }
}

/// The characters of `text` from character `start` up to (not including)
/// character `end`, both clamped to the text; empty when `start >= end`.
pub fn slice_by_chars(text: &str, start: usize, end: usize) -> (r: String)
    ensures
        r@ == if start >= end || start >= text@.len() {
            Seq::<char>::empty()
        } else {
            text@.subrange(start as int, if end < text@.len() { end as int } else { text@.len() as int })
        },
{
    let chars = chars_of(text);
    let stop = if end < chars.len() { end } else { chars.len() };
    let mut out = String::new();
    if start >= end || start >= chars.len() {
        return out;
    }
    let mut i = start;
    while i < stop
        invariant
            start <= i <= stop,
            stop <= chars@.len(),
            out@ == chars@.subrange(start as int, i as int),
        decreases stop - i,
    {
        push_char(&mut out, chars[i]);
        assert(chars@.subrange(start as int, i + 1) =~= chars@.subrange(start as int, i as int).push(chars@[i as int]));
        i = i + 1;
    }
    out
}

} // verus!

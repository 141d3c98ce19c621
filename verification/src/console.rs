use vstd::prelude::*;
use crate::arith::{decimal, push_decimal, parses_as_usize, digits_value, unsigned_digits, parse_usize};
use crate::audio::{StepEvent, TRANSPORT_STOPPED_STEP};
use crate::text::{
    chars_of, char_is_whitespace, has_prefix, is_white_space, push_char, skip_white, str_eq,
    trim, trim_str,
};

verus! {

/// A line typed at the live prompt or the REPL.
#[derive(Clone, Debug, PartialEq, Eq)]
pub enum ConsoleCommand {
    /// `quit` or `exit`.
    Quit,
    /// `status` (at the live prompt only).
    Status,
    /// `render <path>`: render what plays to the path, as written.
    Render(String),
    /// A blank line.
    Skip,
    /// Anything else: source to evaluate, trimmed.
    Eval(String),
}

/// What a prompt line asks for: the line is trimmed, then `quit` and `exit`
/// leave, `status` reports (where `status` is offered), `render ` followed
/// by a path renders, a blank line is skipped, and anything else is source.
pub open spec fn spec_console_command(line: Seq<char>, with_status: bool) -> (CommandKind, Seq<char>) {
    let t = trim(line);
    if t == "quit"@ || t == "exit"@ {
        (CommandKind::Quit, Seq::empty())
    } else if with_status && t == "status"@ {
        (CommandKind::Status, Seq::empty())
    } else if has_prefix(t, "render "@) {
        (CommandKind::Render, t.subrange(7, t.len() as int))
    } else if t.len() == 0 {
        (CommandKind::Skip, Seq::empty())
    } else {
        (CommandKind::Eval, t)
    }
}

/// The kinds of prompt lines.
pub enum CommandKind {
    Quit,
    Status,
    Render,
    Skip,
    Eval,
}

/// The kind of a command.
pub open spec fn kind_of(c: ConsoleCommand) -> CommandKind {
    match c {
        ConsoleCommand::Quit => CommandKind::Quit,
        ConsoleCommand::Status => CommandKind::Status,
        ConsoleCommand::Render(_) => CommandKind::Render,
        ConsoleCommand::Skip => CommandKind::Skip,
        ConsoleCommand::Eval(_) => CommandKind::Eval,
    }
}

/// The text a command carries: the path of a render, the source to
/// evaluate, nothing otherwise.
pub open spec fn command_text(c: ConsoleCommand) -> Seq<char> {
    match c {
        ConsoleCommand::Render(p) => p@,
        ConsoleCommand::Eval(s) => s@,
        _ => Seq::empty(),
    }
}

/// Reads a prompt line (see `spec_console_command`).
pub fn console_command(line: &str, with_status: bool) -> (r: ConsoleCommand)
    ensures
        kind_of(r) == spec_console_command(line@, with_status).0,
        command_text(r) == spec_console_command(line@, with_status).1,
{
    let t = trim_str(line);
    let ts = t.as_str();
    if str_eq(ts, "quit") || str_eq(ts, "exit") {
        return ConsoleCommand::Quit;
    }
    if with_status && str_eq(ts, "status") {
        return ConsoleCommand::Status;
    }
    let tc = chars_of(ts);
    let prefix = chars_of("render ");
    if crate::text::starts_with_chars(tc.as_slice(), prefix.as_slice()) {
        proof {
            reveal_strlit("render ");
        }
        let mut rest = String::new();
        let mut i: usize = 7;
        while i < tc.len()
            invariant
                7 <= i <= tc@.len(),
                rest@ == tc@.subrange(7, i as int),
            decreases tc@.len() - i,
        {
            push_char(&mut rest, tc[i]);
            assert(tc@.subrange(7, i + 1) =~= tc@.subrange(7, i as int).push(tc@[i as int]));
            i = i + 1;
        }
        return ConsoleCommand::Render(rest);
    }
    if tc.len() == 0 {
        return ConsoleCommand::Skip;
    }
    ConsoleCommand::Eval(t)
}

/// A command line of the gui-live protocol.
#[derive(Clone, Debug, PartialEq, Eq)]
pub enum GuiCommand {
    /// `EVAL`: source lines follow, up to the end marker.
    Eval,
    /// `STOP`: stop playback.
    Stop,
    /// `STATUS`: report what plays.
    Status,
    /// `QUIT` or `EXIT`.
    Quit,
    /// A blank line.
    Skip,
    /// Anything else, trimmed.
    Unsupported(String),
}

/// Reads a gui-live command line, trimmed.
pub fn gui_live_command(line: &str) -> (r: GuiCommand)
    ensures
        ({
            let t = trim(line@);
            if t == "EVAL"@ {
                r == GuiCommand::Eval
            } else if t == "STOP"@ {
                r == GuiCommand::Stop
            } else if t == "STATUS"@ {
                r == GuiCommand::Status
            } else if t == "QUIT"@ || t == "EXIT"@ {
                r == GuiCommand::Quit
            } else if t.len() == 0 {
                r == GuiCommand::Skip
            } else {
                r matches GuiCommand::Unsupported(o) && o@ == t
            }
        }),
{
    let t = trim_str(line);
    let ts = t.as_str();
    if str_eq(ts, "EVAL") {
        GuiCommand::Eval
    } else if str_eq(ts, "STOP") {
        GuiCommand::Stop
    } else if str_eq(ts, "STATUS") {
        GuiCommand::Status
    } else if str_eq(ts, "QUIT") || str_eq(ts, "EXIT") {
        GuiCommand::Quit
    } else if chars_of(ts).len() == 0 {
        GuiCommand::Skip
    } else {
        GuiCommand::Unsupported(t)
    }
}

/// Whether a line ends the source of an `EVAL`.
pub fn is_eval_end(line: &str) -> (r: bool)
    ensures
        r == (line@ == "__GLITCHLISP_END__"@),
{
    str_eq(line, "__GLITCHLISP_END__")
}

/// Adds a line of `EVAL` source, with its newline.
pub fn append_source_line(source: &mut String, line: &str)
    ensures
        final(source)@ == old(source)@ + line@ + seq!['\n'],
{
    source.append(line);
    push_char(source, '\n');
}

/// `text` on one line: each newline becomes a space.
pub open spec fn one_line(text: Seq<char>) -> Seq<char> {
    Seq::new(text.len(), |i: int| if text[i] == '\n' { ' ' } else { text[i] })
}

/// `text` on one line, for a protocol reply.
pub fn single_line(text: &str) -> (r: String)
    ensures
        r@ == one_line(text@),
{
    let c = chars_of(text);
    let mut out = String::new();
    let mut i: usize = 0;
    while i < c.len()
        invariant
            i <= c@.len(),
            c@ == text@,
            out@ == one_line(text@).subrange(0, i as int),
        decreases c@.len() - i,
    {
        push_char(&mut out, if c[i] == '\n' { ' ' } else { c[i] });
        assert(one_line(text@).subrange(0, i + 1) =~= one_line(text@).subrange(0, i as int).push(
            one_line(text@)[i as int],
        ));
        i = i + 1;
    }
    assert(one_line(text@).subrange(0, c@.len() as int) =~= one_line(text@));
    out
}

/// The line that reports a step to the gui: `STOPPED` when the transport
/// stopped, else `STEP` and the step, and the scene when one plays.
pub open spec fn spec_step_line(step: usize, scene: Option<Seq<char>>) -> Seq<char> {
    if step == TRANSPORT_STOPPED_STEP {
        "STOPPED"@
    } else {
        match scene {
            Some(s) => "STEP "@ + decimal(step as nat) + " :"@ + s,
            None => "STEP "@ + decimal(step as nat),
        }
    }
}

/// The report line of a step event.
pub fn step_line(event: &StepEvent) -> (r: String)
    ensures
        r@ == spec_step_line(
            event.step,
            match &event.scene {
                Some(s) => Some(s@),
                None => None,
            },
        ),
{
    if event.step == TRANSPORT_STOPPED_STEP {
        return String::from_str("STOPPED");
    }
    let mut out = String::from_str("STEP ");
    push_decimal(&mut out, event.step);
    match &event.scene {
        Some(s) => {
            out.append(" :");
            out.append(s.as_str());
        },
        None => {},
    }
    out
}

/// The end of the word of `s` that starts at `i`: the first white space at
/// or after `i`, or the end.
pub open spec fn word_end(s: Seq<char>, i: int) -> int
    decreases s.len() - i,
{
    if i < 0 || i >= s.len() {
        s.len() as int
    } else if is_white_space(s[i]) {
        i
    } else {
        word_end(s, i + 1)
    }
}

proof fn lemma_word_end(s: Seq<char>, i: int)
    requires
        0 <= i <= s.len(),
    ensures
        i <= word_end(s, i) <= s.len(),
        forall|j: int| i <= j < word_end(s, i) ==> !is_white_space(#[trigger] s[j]),
    decreases s.len() - i,
{
    if i < s.len() && !is_white_space(s[i]) {
        lemma_word_end(s, i + 1);
    }
}

proof fn lemma_skip_white(s: Seq<char>, i: int)
    requires
        0 <= i <= s.len(),
    ensures
        i <= skip_white(s, i) <= s.len(),
    decreases s.len() - i,
{
    if i < s.len() && is_white_space(s[i]) {
        lemma_skip_white(s, i + 1);
    }
}

/// The size `stty size` reports: rows and columns, its first two words,
/// each a number.
pub open spec fn spec_terminal_size(text: Seq<char>) -> Option<(usize, usize)> {
    let a = skip_white(text, 0);
    let b = word_end(text, a);
    let c = skip_white(text, b);
    let d = word_end(text, c);
    let w1 = text.subrange(a, b);
    let w2 = text.subrange(c, d);
    if a >= text.len() || c >= text.len() || !parses_as_usize(w1) || !parses_as_usize(w2) {
        None
    } else {
        Some(
            (
                digits_value(unsigned_digits(w1)) as usize,
                digits_value(unsigned_digits(w2)) as usize,
            ),
        )
    }
}

/// Finds where the word that starts at or after `i` begins and ends.
fn next_word(s: &[char], i: usize) -> (r: (usize, usize))
    requires
        i <= s@.len(),
    ensures
        r.0 == skip_white(s@, i as int),
        r.1 == word_end(s@, r.0 as int),
        i <= r.0 <= r.1 <= s@.len(),
{
    proof {
        lemma_skip_white(s@, i as int);
    }
    let mut a = i;
    while a < s.len() && char_is_whitespace(s[a])
        invariant
            i <= a <= s@.len(),
            skip_white(s@, a as int) == skip_white(s@, i as int),
        decreases s@.len() - a,
    {
        a = a + 1;
    }
    proof {
        lemma_word_end(s@, a as int);
    }
    let mut b = a;
    while b < s.len() && !char_is_whitespace(s[b])
        invariant
            a <= b <= s@.len(),
            word_end(s@, b as int) == word_end(s@, a as int),
        decreases s@.len() - b,
    {
        b = b + 1;
    }
    (a, b)
}

/// Reads the output of `stty size` (see `spec_terminal_size`).
pub fn parse_terminal_size(text: &str) -> (r: Option<(usize, usize)>)
    ensures
        r == spec_terminal_size(text@),
{
    let s = chars_of(text);
    let (a, b) = next_word(s.as_slice(), 0);
    let (c, d) = next_word(s.as_slice(), b);
    if a >= s.len() || c >= s.len() {
        return None;
    }
    let mut w1: Vec<char> = Vec::new();
    let mut i = a;
    while i < b
        invariant
            a <= i <= b <= s@.len(),
            w1@ == s@.subrange(a as int, i as int),
        decreases b - i,
    {
        w1.push(s[i]);
        assert(s@.subrange(a as int, i + 1) =~= s@.subrange(a as int, i as int).push(s@[i as int]));
        i = i + 1;
    }
    let mut w2: Vec<char> = Vec::new();
    let mut j = c;
    while j < d
        invariant
            c <= j <= d <= s@.len(),
            w2@ == s@.subrange(c as int, j as int),
        decreases d - j,
    {
        w2.push(s[j]);
        assert(s@.subrange(c as int, j + 1) =~= s@.subrange(c as int, j as int).push(s@[j as int]));
        j = j + 1;
    }
    match (parse_usize(w1.as_slice()), parse_usize(w2.as_slice())) {
        (Some(rows), Some(cols)) => Some((rows, cols)),
        _ => None,
    }
}

/// The index of the first argument at or after `i` that is `w`, or -1.
pub open spec fn arg_index_from(a: Seq<Seq<char>>, w: Seq<char>, i: int) -> int
    decreases a.len() - i,
{
    if i < 0 || i >= a.len() {
        -1
    } else if a[i] == w {
        i
    } else {
        arg_index_from(a, w, i + 1)
    }
}

proof fn lemma_arg_index_from(a: Seq<Seq<char>>, w: Seq<char>, i: int)
    requires
        0 <= i <= a.len(),
    ensures
        arg_index_from(a, w, i) >= 0 ==> i <= arg_index_from(a, w, i) < a.len() && a[arg_index_from(
            a,
            w,
            i,
        )] == w,
    decreases a.len() - i,
{
    if i < a.len() && a[i] != w {
        lemma_arg_index_from(a, w, i + 1);
    }
}

fn find_arg(args: &[String], w: &str, from: usize) -> (r: Option<usize>)
    requires
        from <= args@.len(),
    ensures
        match r {
            Some(k) => k as int == arg_index_from(crate::editor::views(args@), w@, from as int) && k
                < args@.len(),
            None => arg_index_from(crate::editor::views(args@), w@, from as int) < 0,
        },
{
    let ghost a = crate::editor::views(args@);
    proof {
        lemma_arg_index_from(a, w@, from as int);
    }
    let mut i = from;
    while i < args.len()
        invariant
            from <= i <= args@.len(),
            a == crate::editor::views(args@),
            arg_index_from(a, w@, from as int) == arg_index_from(a, w@, i as int),
        decreases args@.len() - i,
    {
        if str_eq(args[i].as_str(), w) {
            return Some(i);
        }
        i = i + 1;
    }
    None
}

/// Where the `--seconds` option of a command line stands: absent, given
/// with its value (as written), or refused: given twice, or without a value
/// (at the end, or followed by another option).
pub fn seconds_value(args: &[String]) -> (r: Result<Option<String>, String>)
    ensures
        ({
            let a = crate::editor::views(args@);
            let k = arg_index_from(a, "--seconds"@, 0);
            if k < 0 {
                r == Ok::<Option<String>, String>(None)
            } else if arg_index_from(a, "--seconds"@, k + 1) >= 0 {
                r matches Err(m) && m@ == "duplicate option '--seconds'"@
            } else if k + 1 >= a.len() || has_prefix(a[k + 1], "--"@) {
                r matches Err(m) && m@ == "--seconds requires a numeric value"@
            } else {
                r matches Ok(Some(v)) && v@ == a[k + 1]
            }
        }),
{
    let ghost a = crate::editor::views(args@);
    proof {
        lemma_arg_index_from(a, "--seconds"@, 0);
    }
    let n = args.len();
    let k = match find_arg(args, "--seconds", 0) {
        None => {
            return Ok(None);
        },
        Some(k) => k,
    };
    if find_arg(args, "--seconds", k + 1).is_some() {
        return Err(String::from_str("duplicate option '--seconds'"));
    }
    if k + 1 >= args.len() || crate::text::str_starts_with(args[k + 1].as_str(), "--") {
        Err(String::from_str("--seconds requires a numeric value"))
    } else {
        Ok(Some(args[k + 1].clone()))
    }
}

} // verus!

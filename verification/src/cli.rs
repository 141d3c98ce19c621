use vstd::prelude::*;
use crate::arith::{decimal, push_decimal};
use crate::text::{contains_str, str_views, str_eq, str_starts_with, has_prefix, trim, trim_str};
use crate::editor::views;

verus! {

/// Whether any argument is `--seconds`.
pub fn has_seconds(args: &[String]) -> (r: bool)
    ensures
        r == exists|i: int| 0 <= i < args@.len() && #[trigger] args@[i]@ == "--seconds"@,
{
    let mut i: usize = 0;
    while i < args.len()
        invariant
            i <= args@.len(),
            forall|j: int| 0 <= j < i ==> #[trigger] args@[j]@ != "--seconds"@,
        decreases args@.len() - i,
    {
        if str_eq(args[i].as_str(), "--seconds") {
            return true;
        }
        i = i + 1;
    }
    false
}

/// The message for an option given twice.
pub open spec fn duplicate_option_message(arg: Seq<char>) -> Seq<char> {
    "duplicate option '"@ + arg + "'"@
}

/// The message for an option with no value after it.
pub open spec fn missing_value_message(arg: Seq<char>) -> Seq<char> {
    arg + " requires a value"@
}

/// The message for an option that the command does not know.
pub open spec fn unknown_option_message(arg: Seq<char>) -> Seq<char> {
    "unknown option '"@ + arg + "'"@
}

/// The positional arguments after the command word (`args[2..]`), skipping
/// each option of `options` together with its value; a repeated option, an
/// option without a value (or followed by another `--` word) and an unknown
/// `--` word are errors.
pub open spec fn spec_positional_scan(
    args: Seq<Seq<char>>,
    options: Seq<Seq<char>>,
    index: int,
    seen: Set<Seq<char>>,
) -> Result<Seq<Seq<char>>, Seq<char>>
    decreases args.len() - index,
{
    if index >= args.len() {
        Ok(Seq::empty())
    } else {
        let arg = args[index];
        if options.contains(arg) {
            if seen.contains(arg) {
                Err(duplicate_option_message(arg))
            } else if index + 1 >= args.len() || has_prefix(args[index + 1], "--"@) {
                Err(missing_value_message(arg))
            } else {
                spec_positional_scan(args, options, index + 2, seen.insert(arg))
            }
        } else if has_prefix(arg, "--"@) {
            Err(unknown_option_message(arg))
        } else {
            match spec_positional_scan(args, options, index + 1, seen) {
                Ok(rest) => Ok(seq![arg] + rest),
                Err(e) => Err(e),
            }
        }
    }
}

fn quoted_message(before: &str, arg: &str, after: &str) -> (r: String)
    ensures
        r@ == before@ + arg@ + after@,
{
    let mut m = String::from_str(before);
    m.append(arg);
    m.append(after);
    m
}

/// The positional arguments of a command line, skipping the options that
/// take values (see `spec_positional_scan`).
pub fn positional_args_with_options(args: &[String], value_options: &[&str]) -> (r: Result<
    Vec<String>,
    String,
>)
    ensures
        match spec_positional_scan(views(args@), str_views(value_options@), 2, Set::empty()) {
            Ok(p) => r matches Ok(v) && views(v@) == p,
            Err(e) => r matches Err(m) && m@ == e,
        },
{
    let ghost a = views(args@);
    let ghost o = str_views(value_options@);
    let mut positional: Vec<String> = Vec::new();
    let mut seen: Vec<String> = Vec::new();
    let mut index: usize = 2;
    let ghost mut seen_set: Set<Seq<char>> = Set::empty();
    while index < args.len()
        invariant
            a == views(args@),
            o == str_views(value_options@),
            forall|x: Seq<char>| #[trigger] seen_set.contains(x) <==> views(seen@).contains(x),
            spec_positional_scan(a, o, 2, Set::empty()) == match spec_positional_scan(
                a,
                o,
                index as int,
                seen_set,
            ) {
                Ok(rest) => Ok(views(positional@) + rest),
                Err(e) => Err(e),
            },
        decreases args@.len() - index,
    {
        let arg = args[index].as_str();
        assert(a[index as int] == arg@);
        if contains_str(value_options, arg) {
            if contains_string(seen.as_slice(), arg) {
                return Err(quoted_message("duplicate option '", arg, "'"));
            }
            if index + 1 >= args.len() || str_starts_with(args[index + 1].as_str(), "--") {
                let mut m = String::from_str(arg);
                m.append(" requires a value");
                proof {
                    assert(!seen_set.contains(arg@));
                    if index + 1 < args@.len() {
                        assert(a[index + 1] == args@[index + 1]@);
                    }
                }
                return Err(m);
            }
            let ghost old_seen = views(seen@);
            seen.push(args[index].clone());
            proof {
                assert(views(seen@) =~= old_seen.push(arg@));
                seen_set = seen_set.insert(arg@);
                assert forall|x: Seq<char>| #[trigger] seen_set.contains(x) <==> views(
                    seen@,
                ).contains(x) by {
                    if views(seen@).contains(x) && x != arg@ {
                        let k = choose|k: int| 0 <= k < views(seen@).len() && views(seen@)[k] == x;
                        assert(old_seen[k] == x);
                    }
                    if old_seen.contains(x) {
                        let k = choose|k: int| 0 <= k < old_seen.len() && old_seen[k] == x;
                        assert(views(seen@)[k] == x);
                    }
                    if x == arg@ {
                        assert(views(seen@)[old_seen.len() as int] == x);
                    }
                }
            }
            proof {
                assert(a[index + 1] == args@[index + 1]@);
            }
            index = index + 2;
        } else if str_starts_with(arg, "--") {
            return Err(quoted_message("unknown option '", arg, "'"));
        } else {
            let ghost old_pos = views(positional@);
            positional.push(args[index].clone());
            proof {
                assert(views(positional@) =~= old_pos.push(arg@));
                let tail = spec_positional_scan(a, o, index + 1, seen_set);
                if tail is Ok {
                    assert(old_pos + (seq![arg@] + tail->Ok_0) =~= views(positional@) + tail->Ok_0);
                }
            }
            index = index + 1;
        }
    }
    assert(views(positional@) + Seq::<Seq<char>>::empty() =~= views(positional@));
    Ok(positional)
}

fn contains_string(items: &[String], arg: &str) -> (r: bool)
    ensures
        r == views(items@).contains(arg@),
{
    let mut i: usize = 0;
    while i < items.len()
        invariant
            i <= items@.len(),
            forall|j: int| 0 <= j < i ==> #[trigger] items@[j]@ != arg@,
        decreases items@.len() - i,
    {
        if str_eq(items[i].as_str(), arg) {
            assert(views(items@)[i as int] == arg@);
            return true;
        }
        i = i + 1;
    }
    assert forall|j: int| 0 <= j < views(items@).len() implies #[trigger] views(items@)[j]
        != arg@ by {
        assert(views(items@)[j] == items@[j]@);
    }
    false
}

/// The positional arguments of a command whose only value option is
/// `--seconds`.
pub fn positional_args(args: &[String]) -> (r: Result<Vec<String>, String>)
    ensures
        match spec_positional_scan(views(args@), seq!["--seconds"@], 2, Set::empty()) {
            Ok(p) => r matches Ok(v) && views(v@) == p,
            Err(e) => r matches Err(m) && m@ == e,
        },
{
    let opts: Vec<&str> = vec!["--seconds"];
    assert(str_views(opts@) =~= seq!["--seconds"@]);
    positional_args_with_options(args, opts.as_slice())
}

/// "argument" or "arguments" as the count calls for.
pub open spec fn argument_noun(n: nat) -> Seq<char> {
    if n == 1 {
        " positional argument"@
    } else {
        " positional arguments"@
    }
}

fn push_argument_noun(m: &mut String, n: usize)
    ensures
        final(m)@ == old(m)@ + argument_noun(n as nat),
{
    if n == 1 {
        m.append(" positional argument");
    } else {
        m.append(" positional arguments");
    }
}

/// Requires exactly `expected` positional arguments.
pub fn expect_positional_count(positional: &[String], command: &str, expected: usize) -> (r:
    Result<(), String>)
    ensures
        positional@.len() == expected ==> r is Ok,
        positional@.len() != expected ==> (r matches Err(m) && m@ == command@
            + " expects exactly "@ + decimal(expected as nat) + argument_noun(expected as nat)),
{
    if positional.len() == expected {
        Ok(())
    } else {
        let mut m = String::from_str(command);
        m.append(" expects exactly ");
        push_decimal(&mut m, expected);
        push_argument_noun(&mut m, expected);
        Err(m)
    }
}

/// Allows at most `max` positional arguments.
pub fn expect_positional_max(positional: &[String], command: &str, max: usize) -> (r: Result<
    (),
    String,
>)
    ensures
        positional@.len() <= max ==> r is Ok,
        positional@.len() > max ==> (r matches Err(m) && m@ == command@ + " expects at most "@
            + decimal(max as nat) + argument_noun(max as nat)),
{
    if positional.len() <= max {
        Ok(())
    } else {
        let mut m = String::from_str(command);
        m.append(" expects at most ");
        push_decimal(&mut m, max);
        push_argument_noun(&mut m, max);
        Err(m)
    }
}

/// The position of the first argument, among those followed by another,
/// that equals `name`.
pub open spec fn option_position(args: Seq<Seq<char>>, name: Seq<char>, from: int) -> int
    decreases args.len() - from,
{
    if from + 1 >= args.len() {
        -1
    } else if args[from] == name {
        from
    } else {
        option_position(args, name, from + 1)
    }
}

proof fn lemma_option_position_range(args: Seq<Seq<char>>, name: Seq<char>, from: int)
    requires
        0 <= from,
    ensures
        option_position(args, name, from) < 0 || (from <= option_position(args, name, from)
            && option_position(args, name, from) + 1 < args.len()),
    decreases args.len() - from,
{
    if from + 1 < args.len() && args[from] != name {
        lemma_option_position_range(args, name, from + 1);
    }
}

/// The argument right after the first occurrence of `name` that has one.
pub fn option_value(args: &[String], name: &str) -> (r: Option<String>)
    ensures
        ({
            let k = option_position(views(args@), name@, 0);
            if k < 0 {
                r is None
            } else {
                r matches Some(v) && v@ == args@[k + 1]@
            }
        }),
{
    let ghost a = views(args@);
    let mut i: usize = 0;
    while i < args.len() && i + 1 < args.len()
        invariant
            a == views(args@),
            i <= args@.len(),
            option_position(a, name@, i as int) == option_position(a, name@, 0),
        decreases args@.len() - i,
    {
        if str_eq(args[i].as_str(), name) {
            assert(a[i as int] == args@[i as int]@);
            return Some(args[i + 1].clone());
        }
        assert(a[i as int] == args@[i as int]@);
        i = i + 1;
    }
    None
}

pub open spec fn spec_is_help_command(command: Seq<char>) -> bool {
    command == "--help"@ || command == "-h"@ || command == "help"@
}

/// Whether the command word asks for help.
pub fn is_help_command(command: &str) -> (r: bool)
    ensures
        r == spec_is_help_command(command@),
{
    str_eq(command, "--help") || str_eq(command, "-h") || str_eq(command, "help")
}

/// The output path given to an interactive `render` command, trimmed; it
/// must not be empty.
pub fn interactive_render_path(path: &str) -> (r: Result<String, String>)
    ensures
        trim(path@).len() == 0 ==> (r matches Err(m) && m@ == "render requires an output path"@),
        trim(path@).len() > 0 ==> (r matches Ok(p) && p@ == trim(path@)),
{
    let t = trim_str(path);
    if t.as_str().is_empty() {
        Err(String::from_str("render requires an output path"))
    } else {
        Ok(t)
    }
}

/// The usage text of the command-line tool.
pub fn usage_text() -> (r: &'static str)
    ensures
        r@ == "usage:
  glitchlisp-native help
  glitchlisp-native tone [--seconds N]
  glitchlisp-native play <file.gl> [--seconds N]
  glitchlisp-native live [file.gl]
  glitchlisp-native gui-live [--device NAME]
  glitchlisp-native edit [file.gl]
  glitchlisp-native gui-render [--seconds N]
  glitchlisp-native compile-gui [--seconds N]
  glitchlisp-native render <file.gl> <out.wav> [--seconds N]
  glitchlisp-native compile <file.gl> <out.gl>
  glitchlisp-native check-live-source <file.gl>
  glitchlisp-native capabilities
  glitchlisp-native devices
  glitchlisp-native devices-plain
  glitchlisp-native repl"@,
{
    "usage:
  glitchlisp-native help
  glitchlisp-native tone [--seconds N]
  glitchlisp-native play <file.gl> [--seconds N]
  glitchlisp-native live [file.gl]
  glitchlisp-native gui-live [--device NAME]
  glitchlisp-native edit [file.gl]
  glitchlisp-native gui-render [--seconds N]
  glitchlisp-native compile-gui [--seconds N]
  glitchlisp-native render <file.gl> <out.wav> [--seconds N]
  glitchlisp-native compile <file.gl> <out.gl>
  glitchlisp-native check-live-source <file.gl>
  glitchlisp-native capabilities
  glitchlisp-native devices
  glitchlisp-native devices-plain
  glitchlisp-native repl"
}

/// The feature words that front ends check before using newer features.
pub fn capabilities() -> (r: &'static str)
    ensures
        r@
            == "glitchlisp-native capabilities null-params empty-gate-silent gui-live live-audio-info check-live-source gate-then-times scene-loop-true scene-loop-by sample-form gui-render-preview drum-note-pitch native-compiler-source native-compile-command"@,
{
    "glitchlisp-native capabilities null-params empty-gate-silent gui-live live-audio-info check-live-source gate-then-times scene-loop-true scene-loop-by sample-form gui-render-preview drum-note-pitch native-compiler-source native-compile-command"
}

/// What the command line asks the tool to do, once its arguments have been
/// checked.
#[derive(Clone, Debug)]
#[allow(inconsistent_fields)]
pub enum CliAction {
    Help,
    Tone,
    Play { path: String },
    Render { input: String, output: String },
    Compile { input: String, output: String },
    Live { path: Option<String> },
    GuiLive { device: Option<String> },
    Edit { path: Option<String> },
    GuiRender,
    CheckLiveSource { input: String },
    Capabilities,
    Devices,
    DevicesPlain,
    Repl,
}

pub ghost enum ActionView {
    Help,
    Tone,
    Play(Seq<char>),
    Render(Seq<char>, Seq<char>),
    Compile(Seq<char>, Seq<char>),
    Live(Option<Seq<char>>),
    GuiLive(Option<Seq<char>>),
    Edit(Option<Seq<char>>),
    GuiRender,
    CheckLiveSource(Seq<char>),
    Capabilities,
    Devices,
    DevicesPlain,
    Repl,
}

pub open spec fn opt_view(o: Option<String>) -> Option<Seq<char>> {
    match o {
        Some(s) => Some(s@),
        None => None,
    }
}

impl CliAction {
    pub open spec fn view(&self) -> ActionView {
        match self {
            CliAction::Help => ActionView::Help,
            CliAction::Tone => ActionView::Tone,
            CliAction::Play { path } => ActionView::Play(path@),
            CliAction::Render { input, output } => ActionView::Render(input@, output@),
            CliAction::Compile { input, output } => ActionView::Compile(input@, output@),
            CliAction::Live { path } => ActionView::Live(opt_view(*path)),
            CliAction::GuiLive { device } => ActionView::GuiLive(opt_view(*device)),
            CliAction::Edit { path } => ActionView::Edit(opt_view(*path)),
            CliAction::GuiRender => ActionView::GuiRender,
            CliAction::CheckLiveSource { input } => ActionView::CheckLiveSource(input@),
            CliAction::Capabilities => ActionView::Capabilities,
            CliAction::Devices => ActionView::Devices,
            CliAction::DevicesPlain => ActionView::DevicesPlain,
            CliAction::Repl => ActionView::Repl,
        }
    }
}

/// The outcome of reading a command line: whether the usage text is to be
/// shown, and the action or the error.
#[derive(Debug)]
pub struct CliDecision {
    pub show_usage: bool,
    pub outcome: Result<CliAction, String>,
}

pub open spec fn first_or_none(p: Seq<Seq<char>>) -> Option<Seq<char>> {
    if p.len() > 0 {
        Some(p[0])
    } else {
        None
    }
}

pub open spec fn count_message(command: Seq<char>, exact: bool, n: nat) -> Seq<char> {
    if exact {
        command + " expects exactly "@ + decimal(n) + argument_noun(n)
    } else {
        command + " expects at most "@ + decimal(n) + argument_noun(n)
    }
}

/// Checks the positional arguments found for `command` against the count
/// it takes (exactly or at most `n`), then builds the action from them.
pub open spec fn checked_action(
    found: Result<Seq<Seq<char>>, Seq<char>>,
    command: Seq<char>,
    exact: bool,
    n: nat,
    build: spec_fn(Seq<Seq<char>>, Seq<Seq<char>>) -> ActionView,
    args: Seq<Seq<char>>,
) -> Result<ActionView, Seq<char>> {
    match found {
        Err(e) => Err(e),
        Ok(p) => if (exact && p.len() != n) || (!exact && p.len() > n) {
            Err(count_message(command, exact, n))
        } else {
            Ok(build(p, args))
        },
    }
}

pub open spec fn no_options(args: Seq<Seq<char>>) -> Result<Seq<Seq<char>>, Seq<char>> {
    spec_positional_scan(args, Seq::empty(), 2, Set::empty())
}

pub open spec fn seconds_option(args: Seq<Seq<char>>) -> Result<Seq<Seq<char>>, Seq<char>> {
    spec_positional_scan(args, seq!["--seconds"@], 2, Set::empty())
}

pub open spec fn device_value(args: Seq<Seq<char>>) -> Option<Seq<char>> {
    let k = option_position(args, "--device"@, 0);
    if k < 0 {
        None
    } else {
        Some(args[k + 1])
    }
}

/// The action a command line asks for, or why it is refused (usage text
/// aside).
pub open spec fn spec_cli_action(args: Seq<Seq<char>>) -> Result<ActionView, Seq<char>> {
    let c = args[1];
    if spec_is_help_command(c) {
        Ok(ActionView::Help)
    } else if c == "tone"@ {
        checked_action(seconds_option(args), c, true, 0, |p, a| ActionView::Tone, args)
    } else if c == "play"@ {
        checked_action(seconds_option(args), c, true, 1, |p: Seq<Seq<char>>, a| ActionView::Play(p[0]), args)
    } else if c == "render"@ {
        checked_action(
            seconds_option(args),
            c,
            true,
            2,
            |p: Seq<Seq<char>>, a| ActionView::Render(p[0], p[1]),
            args,
        )
    } else if c == "compile"@ {
        checked_action(
            no_options(args),
            c,
            true,
            2,
            |p: Seq<Seq<char>>, a| ActionView::Compile(p[0], p[1]),
            args,
        )
    } else if c == "live"@ {
        checked_action(no_options(args), c, false, 1, |p, a| ActionView::Live(first_or_none(p)), args)
    } else if c == "gui-live"@ {
        checked_action(
            spec_positional_scan(args, seq!["--device"@], 2, Set::empty()),
            c,
            true,
            0,
            |p, a| ActionView::GuiLive(device_value(a)),
            args,
        )
    } else if c == "edit"@ {
        checked_action(no_options(args), c, false, 1, |p, a| ActionView::Edit(first_or_none(p)), args)
    } else if c == "gui-render"@ || c == "compile-gui"@ {
        checked_action(seconds_option(args), c, true, 0, |p, a| ActionView::GuiRender, args)
    } else if c == "check-live-source"@ {
        checked_action(
            no_options(args),
            c,
            true,
            1,
            |p: Seq<Seq<char>>, a| ActionView::CheckLiveSource(p[0]),
            args,
        )
    } else if c == "capabilities"@ {
        checked_action(no_options(args), c, true, 0, |p, a| ActionView::Capabilities, args)
    } else if c == "devices"@ {
        checked_action(no_options(args), c, true, 0, |p, a| ActionView::Devices, args)
    } else if c == "devices-plain"@ {
        checked_action(no_options(args), c, true, 0, |p, a| ActionView::DevicesPlain, args)
    } else if c == "repl"@ {
        checked_action(no_options(args), c, true, 0, |p, a| ActionView::Repl, args)
    } else {
        Err("unknown command '"@ + c + "'"@)
    }
}

/// Whether a command line makes the tool print its usage text: a missing
/// command, a help request or an unknown command.
pub open spec fn spec_cli_shows_usage(args: Seq<Seq<char>>) -> bool {
    args.len() < 2 || spec_is_help_command(args[1]) || !(args[1] == "tone"@ || args[1]
        == "play"@ || args[1] == "render"@ || args[1] == "compile"@ || args[1] == "live"@
        || args[1] == "gui-live"@ || args[1] == "edit"@ || args[1] == "gui-render"@ || args[1]
        == "compile-gui"@ || args[1] == "check-live-source"@ || args[1] == "capabilities"@
        || args[1] == "devices"@ || args[1] == "devices-plain"@ || args[1] == "repl"@)
}

pub open spec fn decision_matches(d: CliDecision, args: Seq<Seq<char>>, show_usage: bool) -> bool {
    &&& d.show_usage == (show_usage && spec_cli_shows_usage(args))
    &&& if args.len() < 2 {
        d.outcome matches Err(m) && m@ == "missing command"@
    } else {
        match spec_cli_action(args) {
            Ok(a) => d.outcome matches Ok(x) && x.view() == a,
            Err(e) => d.outcome matches Err(m) && m@ == e,
        }
    }
}

fn finish(
    found: Result<Vec<String>, String>,
    command: &str,
    exact: bool,
    n: usize,
) -> (r: Result<Vec<String>, String>)
    ensures
        match found {
            Err(e) => r matches Err(m) && m@ == e@,
            Ok(p) => if (exact && p@.len() != n) || (!exact && p@.len() > n) {
                r matches Err(m) && m@ == count_message(command@, exact, n as nat)
            } else {
                r matches Ok(q) && q@ == p@
            },
        },
{
    match found {
        Err(e) => Err(e),
        Ok(p) => {
            let checked = if exact {
                expect_positional_count(p.as_slice(), command, n)
            } else {
                expect_positional_max(p.as_slice(), command, n)
            };
            match checked {
                Ok(()) => Ok(p),
                Err(e) => Err(e),
            }
        },
    }
}

fn no_value_options() -> (r: Vec<&'static str>)
    ensures
        str_views(r@) == Seq::<Seq<char>>::empty(),
{
    let r: Vec<&'static str> = Vec::new();
    assert(str_views(r@) =~= Seq::<Seq<char>>::empty());
    r
}

/// Decides what a command line asks for (see `spec_cli_action`); the usage
/// text is to be shown only when `show_usage` is set.
pub fn decide_command(args: &[String], show_usage: bool) -> (r: CliDecision)
    ensures
        decision_matches(r, views(args@), show_usage),
{
    let ghost a = views(args@);
    if args.len() < 2 {
        return CliDecision { show_usage, outcome: Err(String::from_str("missing command")) };
    }
    let command = args[1].as_str();
    assert(a[1] == command@);
    if is_help_command(command) {
        return CliDecision { show_usage, outcome: Ok(CliAction::Help) };
    }
    let known = str_eq(command, "tone") || str_eq(command, "play") || str_eq(command, "render")
        || str_eq(command, "compile") || str_eq(command, "live") || str_eq(command, "gui-live")
        || str_eq(command, "edit") || str_eq(command, "gui-render") || str_eq(
        command,
        "compile-gui",
    ) || str_eq(command, "check-live-source") || str_eq(command, "capabilities") || str_eq(
        command,
        "devices",
    ) || str_eq(command, "devices-plain") || str_eq(command, "repl");
    if !known {
        let m = quoted_message("unknown command '", command, "'");
        return CliDecision { show_usage, outcome: Err(m) };
    }
    let none = no_value_options();
    let outcome: Result<CliAction, String> = if str_eq(command, "tone") {
        match finish(positional_args(args), command, true, 0) {
            Ok(_) => Ok(CliAction::Tone),
            Err(e) => Err(e),
        }
    } else if str_eq(command, "play") {
        match finish(positional_args(args), command, true, 1) {
            Ok(p) => Ok(CliAction::Play { path: p[0].clone() }),
            Err(e) => Err(e),
        }
    } else if str_eq(command, "render") {
        match finish(positional_args(args), command, true, 2) {
            Ok(p) => Ok(CliAction::Render { input: p[0].clone(), output: p[1].clone() }),
            Err(e) => Err(e),
        }
    } else if str_eq(command, "compile") {
        match finish(positional_args_with_options(args, none.as_slice()), command, true, 2) {
            Ok(p) => Ok(CliAction::Compile { input: p[0].clone(), output: p[1].clone() }),
            Err(e) => Err(e),
        }
    } else if str_eq(command, "live") {
        match finish(positional_args_with_options(args, none.as_slice()), command, false, 1) {
            Ok(p) => Ok(
                CliAction::Live {
                    path: if p.len() > 0 {
                        Some(p[0].clone())
                    } else {
                        None
                    },
                },
            ),
            Err(e) => Err(e),
        }
    } else if str_eq(command, "gui-live") {
        let opts: Vec<&str> = vec!["--device"];
        assert(str_views(opts@) =~= seq!["--device"@]);
        match finish(positional_args_with_options(args, opts.as_slice()), command, true, 0) {
            Ok(_) => {
                let device = option_value(args, "--device");
                proof {
                    lemma_option_position_range(a, "--device"@, 0);
                    let k = option_position(a, "--device"@, 0);
                    if k >= 0 {
                        assert(a[k + 1] == args@[k + 1]@);
                    }
                }
                Ok(CliAction::GuiLive { device })
            },
            Err(e) => Err(e),
        }
    } else if str_eq(command, "edit") {
        match finish(positional_args_with_options(args, none.as_slice()), command, false, 1) {
            Ok(p) => Ok(
                CliAction::Edit {
                    path: if p.len() > 0 {
                        Some(p[0].clone())
                    } else {
                        None
                    },
                },
            ),
            Err(e) => Err(e),
        }
    } else if str_eq(command, "gui-render") || str_eq(command, "compile-gui") {
        match finish(positional_args(args), command, true, 0) {
            Ok(_) => Ok(CliAction::GuiRender),
            Err(e) => Err(e),
        }
    } else if str_eq(command, "check-live-source") {
        match finish(positional_args_with_options(args, none.as_slice()), command, true, 1) {
            Ok(p) => Ok(CliAction::CheckLiveSource { input: p[0].clone() }),
            Err(e) => Err(e),
        }
    } else if str_eq(command, "capabilities") {
        match finish(positional_args_with_options(args, none.as_slice()), command, true, 0) {
            Ok(_) => Ok(CliAction::Capabilities),
            Err(e) => Err(e),
        }
    } else if str_eq(command, "devices") {
        match finish(positional_args_with_options(args, none.as_slice()), command, true, 0) {
            Ok(_) => Ok(CliAction::Devices),
            Err(e) => Err(e),
        }
    } else if str_eq(command, "devices-plain") {
        match finish(positional_args_with_options(args, none.as_slice()), command, true, 0) {
            Ok(_) => Ok(CliAction::DevicesPlain),
            Err(e) => Err(e),
        }
    } else {
        match finish(positional_args_with_options(args, none.as_slice()), command, true, 0) {
            Ok(_) => Ok(CliAction::Repl),
            Err(e) => Err(e),
        }
    };
    CliDecision { show_usage: false, outcome }
}

/// Reads a command line, with the usage text shown on a missing, help or
/// unknown command.
pub fn run_with_args(args: &[String]) -> (r: CliDecision)
    ensures
        decision_matches(r, views(args@), true),
{
    decide_command(args, true)
}

/// Reads a command line without ever showing the usage text.
pub fn run_with_args_quiet(args: &[String]) -> (r: CliDecision)
    ensures
        decision_matches(r, views(args@), false),
{
    decide_command(args, false)
}

} // verus!

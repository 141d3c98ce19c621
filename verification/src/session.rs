use vstd::prelude::*;
use crate::arith::{decimal, push_decimal, decimal_string};
use crate::editor::{EditorBuffer, LineRange, join_lines, line_bound_message, spec_editor_preview_source, spec_scene_for_cursor, spec_top_level_forms, editor_preview_source, scene_name_for_cursor, slice_by_chars};
use crate::keys::{Key, MenuState, SnippetMenu, spec_snippet_count, spec_snippet_label, spec_snippet_text, spec_menu_title, snippet_count, snippet_label, snippet_text, menu_title};
use crate::text::{chars_of, string_of, push_char};

verus! {

/// `s` with `c` inserted before index `i`.
pub open spec fn insert_at(s: Seq<char>, i: int, c: char) -> Seq<char> {
    s.subrange(0, i).push(c) + s.subrange(i, s.len() as int)
}

/// `s` without the character at index `i`.
pub open spec fn remove_at(s: Seq<char>, i: int) -> Seq<char> {
    s.subrange(0, i) + s.subrange(i + 1, s.len() as int)
}


/// `n` spaces.
pub open spec fn spaces(n: nat) -> Seq<char> {
    Seq::new(n, |i: int| ' ')
}

/// `s` right-aligned in a field of `width` characters.
pub open spec fn pad_left(s: Seq<char>, width: nat) -> Seq<char> {
    if s.len() >= width {
        s
    } else {
        spaces((width - s.len()) as nat) + s
    }
}

/// `s` left-aligned in a field of `width` characters.
pub open spec fn pad_right(s: Seq<char>, width: nat) -> Seq<char> {
    if s.len() >= width {
        s
    } else {
        s + spaces((width - s.len()) as nat)
    }
}

/// The characters of `line` from `a` up to `b`, clamped to the line.
pub open spec fn clip(line: Seq<char>, a: nat, b: nat) -> Seq<char> {
    if a >= b || a >= line.len() {
        Seq::empty()
    } else {
        line.subrange(a as int, if b < line.len() { b as int } else { line.len() as int })
    }
}

/// The rows of text on a screen of `rows` rows: all but the two header
/// lines and the message line, and at least one.
pub open spec fn content_rows(rows: nat) -> nat {
    if rows >= 4 {
        (rows - 3) as nat
    } else {
        1
    }
}

/// The width of the snippet menu on a screen of `cols` columns.
pub open spec fn menu_width(cols: nat) -> nat {
    if cols >= 54 {
        54
    } else if cols >= 24 {
        cols
    } else {
        24
    }
}

/// The height of a menu of `count` items on a screen of `rows` rows.
pub open spec fn menu_height(count: nat, rows: nat) -> nat {
    let room: nat = if rows >= 2 { (rows - 2) as nat } else { 0 };
    let h = if count + 4 <= room { count + 4 } else { room };
    if h >= 4 { h } else { 4 }
}

/// The column where the menu starts: centred on the screen.
pub open spec fn menu_left(cols: nat) -> nat {
    let w = menu_width(cols);
    (if cols >= w { (cols - w) as nat } else { 0nat }) / 2 + 1
}

/// The escape sequence that moves the terminal cursor to `row` and `col`.
pub open spec fn goto(row: nat, col: nat) -> Seq<char> {
    "\x1b["@ + decimal(row) + ";"@ + decimal(col) + "H"@
}

/// Item `row` of an open menu as drawn, the selected one in reverse video.
pub open spec fn menu_row(m: MenuState, cols: nat, row: nat) -> Seq<char> {
    let width = menu_width(cols);
    let label = if row < spec_snippet_count(m.menu) {
        spec_snippet_label(m.menu, row as int)
    } else {
        Seq::empty()
    };
    let selected = row == m.selected;
    let text = (if selected { "> "@ } else { "  "@ }) + label;
    if selected {
        goto(3 + row + 1, menu_left(cols)) + "\x1b[7m"@ + pad_right(text, width) + "\x1b[0m"@
    } else {
        goto(3 + row + 1, menu_left(cols)) + pad_right(text, width)
    }
}

/// The first `k` item rows of an open menu.
pub open spec fn menu_rows(m: MenuState, cols: nat, k: nat) -> Seq<char>
    decreases k,
{
    if k == 0 {
        Seq::empty()
    } else {
        menu_rows(m, cols, (k - 1) as nat) + menu_row(m, cols, (k - 1) as nat)
    }
}

/// An open menu as drawn over the text: its title bar, its item rows, and
/// a line of help at the bottom.
pub open spec fn menu_text(m: MenuState, rows: nat, cols: nat) -> Seq<char> {
    let width = menu_width(cols);
    let height = menu_height(spec_snippet_count(m.menu), rows);
    goto(3, menu_left(cols)) + "\x1b[7m"@ + pad_right(spec_menu_title(m.menu), width) + "\x1b[0m"@
        + menu_rows(m, cols, (height - 2) as nat) + goto((3 + height - 1) as nat, menu_left(cols))
        + pad_right("Enter insert  Esc cancel"@, width)
}

/// What a key press asks of the caller, besides what it did to the editor.
#[derive(Clone, Copy, Debug, PartialEq, Eq, Structural)]
pub enum EditorAction {
    /// Nothing more: keep reading keys.
    Continue,
    /// Leave the editor.
    Quit,
    /// Write the buffer to its file.
    Save,
    /// Play the buffer, or its active block.
    Run,
    /// Cue the scene at the cursor.
    Cue,
    /// Loop the scene at the cursor.
    Loop,
    /// Stop playback.
    Stop,
}

/// What the editor shows and edits, as plain values.
pub struct EditorView {
    pub lines: Seq<Seq<char>>,
    pub path: Option<Seq<char>>,
    pub cursor_line: nat,
    pub cursor_col: nat,
    pub scroll_top: nat,
    pub scroll_left: nat,
    pub active_block: Option<LineRange>,
    pub selection_anchor: Option<usize>,
    pub dirty: bool,
    pub message: Seq<char>,
    pub menu: Option<MenuState>,
}

impl EditorView {
    /// The cursor stands on a line (or at the origin of an empty text) and
    /// no further right than its end; an open menu has an item selected.
    pub open spec fn wf(self) -> bool {
        &&& (self.lines.len() == 0 ==> self.cursor_line == 0 && self.cursor_col == 0)
        &&& (self.lines.len() > 0 ==> self.cursor_line < self.lines.len() && self.cursor_col
            <= self.lines[self.cursor_line as int].len())
        &&& (self.menu matches Some(m) ==> m.selected < spec_snippet_count(m.menu))
    }

    /// The length of line `l`, or 0 past the last line.
    pub open spec fn line_len(self, l: int) -> nat {
        if 0 <= l < self.lines.len() {
            self.lines[l].len()
        } else {
            0
        }
    }

    /// The lines, with one empty line standing in for an empty text.
    pub open spec fn lines_or_blank(self) -> Seq<Seq<char>> {
        if self.lines.len() == 0 {
            seq![Seq::<char>::empty()]
        } else {
            self.lines
        }
    }

    /// Typing `c`: it goes in before the cursor, which moves past it.
    pub open spec fn typed(self, c: char) -> EditorView {
        let ls = self.lines_or_blank();
        let l = self.cursor_line as int;
        EditorView {
            lines: ls.update(l, insert_at(ls[l], self.cursor_col as int, c)),
            cursor_col: self.cursor_col + 1,
            dirty: true,
            ..self
        }
    }

    /// Enter: the line splits at the cursor, which moves to the start of the
    /// new line.
    pub open spec fn split(self) -> EditorView {
        let ls = self.lines_or_blank();
        let l = self.cursor_line as int;
        let line = ls[l];
        let c = self.cursor_col as int;
        EditorView {
            lines: ls.subrange(0, l).push(line.subrange(0, c)).push(
                line.subrange(c, line.len() as int),
            ) + ls.subrange(l + 1, ls.len() as int),
            cursor_line: self.cursor_line + 1,
            cursor_col: 0,
            dirty: true,
            ..self
        }
    }

    /// Backspace: removes the character before the cursor, or at the start
    /// of a line joins it to the line above; nothing at the very start.
    pub open spec fn backspaced(self) -> EditorView {
        let l = self.cursor_line as int;
        if self.cursor_col > 0 {
            EditorView {
                lines: self.lines.update(l, remove_at(self.lines[l], self.cursor_col - 1)),
                cursor_col: (self.cursor_col - 1) as nat,
                dirty: true,
                ..self
            }
        } else if self.cursor_line == 0 {
            self
        } else {
            let above = self.lines[l - 1];
            EditorView {
                lines: self.lines.remove(l).update(l - 1, above + self.lines[l]),
                cursor_line: (self.cursor_line - 1) as nat,
                cursor_col: above.len(),
                dirty: true,
                ..self
            }
        }
    }

    /// Delete: removes the character under the cursor, or at the end of a
    /// line joins the next line to it; nothing at the very end.
    pub open spec fn deleted_forward(self) -> EditorView {
        let l = self.cursor_line as int;
        if self.cursor_col < self.line_len(l) {
            EditorView {
                lines: self.lines.update(l, remove_at(self.lines[l], self.cursor_col as int)),
                dirty: true,
                ..self
            }
        } else if l + 1 >= self.lines.len() {
            self
        } else {
            EditorView {
                lines: self.lines.remove(l + 1).update(l, self.lines[l] + self.lines[l + 1]),
                dirty: true,
                ..self
            }
        }
    }

    /// Left: one character back, or to the end of the line above.
    pub open spec fn moved_left(self) -> EditorView {
        if self.cursor_col > 0 {
            EditorView { cursor_col: (self.cursor_col - 1) as nat, ..self }
        } else if self.cursor_line > 0 {
            EditorView {
                cursor_line: (self.cursor_line - 1) as nat,
                cursor_col: self.line_len(self.cursor_line - 1),
                ..self
            }
        } else {
            self
        }
    }

    /// Right: one character on, or to the start of the line below.
    pub open spec fn moved_right(self) -> EditorView {
        if self.cursor_col < self.line_len(self.cursor_line as int) {
            EditorView { cursor_col: self.cursor_col + 1, ..self }
        } else if self.cursor_line + 1 < self.lines.len() {
            EditorView { cursor_line: self.cursor_line + 1, cursor_col: 0, ..self }
        } else {
            self
        }
    }

    /// Up: the line above, the column kept where that line is long enough.
    pub open spec fn moved_up(self) -> EditorView {
        if self.cursor_line > 0 {
            let l = self.cursor_line - 1;
            let len = self.line_len(l);
            EditorView {
                cursor_line: l as nat,
                cursor_col: if self.cursor_col <= len {
                    self.cursor_col
                } else {
                    len
                },
                ..self
            }
        } else {
            self
        }
    }

    /// Down: the line below, the column kept where that line is long enough.
    pub open spec fn moved_down(self) -> EditorView {
        if self.cursor_line + 1 < self.lines.len() {
            let l = self.cursor_line + 1;
            let len = self.line_len(l as int);
            EditorView {
                cursor_line: l as nat,
                cursor_col: if self.cursor_col <= len {
                    self.cursor_col
                } else {
                    len
                },
                ..self
            }
        } else {
            self
        }
    }

    /// Home: the start of the line.
    pub open spec fn moved_home(self) -> EditorView {
        EditorView { cursor_col: 0, ..self }
    }

    /// End: the end of the line.
    pub open spec fn moved_end(self) -> EditorView {
        EditorView { cursor_col: self.line_len(self.cursor_line as int), ..self }
    }

    /// Ctrl-K: the first press marks the cursor's line; the second makes the
    /// lines between the mark and the cursor's line the active block.
    pub open spec fn block_toggled(self) -> EditorView {
        let n = self.cursor_line + 1;
        match self.selection_anchor {
            Some(a) => {
                let start = if a <= n { a as nat } else { n };
                let end = if a <= n { n } else { a as nat };
                EditorView {
                    selection_anchor: None,
                    active_block: Some(LineRange { start: start as usize, end: end as usize }),
                    message: "block "@ + decimal(start) + "-"@ + decimal(end) + " active"@,
                    ..self
                }
            },
            None => EditorView {
                selection_anchor: Some(n as usize),
                message: "block start set at line "@ + decimal(n),
                ..self
            },
        }
    }

    /// Ctrl-U: no mark and no active block.
    pub open spec fn block_cleared(self) -> EditorView {
        EditorView {
            selection_anchor: None,
            active_block: None,
            message: "block cleared"@,
            ..self
        }
    }


    /// The width of the line-number gutter on a screen of `cols` columns:
    /// the digits of the line count, at most `cols - 2` and at least 2, and
    /// one column of space.
    pub open spec fn gutter(self, cols: nat) -> nat {
        let digits = decimal(if self.lines.len() >= 1 { self.lines.len() } else { 1 }).len();
        let room: nat = if cols >= 2 { (cols - 2) as nat } else { 0 };
        let m = if digits <= room { digits } else { room };
        (if m >= 2 { m } else { 2 }) + 1
    }

    /// The columns of text visible beside the gutter, at least one.
    pub open spec fn visible_width(self, cols: nat) -> nat {
        let g = self.gutter(cols);
        if cols > g + 1 {
            (cols - g - 1) as nat
        } else {
            1
        }
    }

    /// The view scrolled just enough that the cursor is on screen.
    pub open spec fn scrolled(self, rows: nat, cols: nat) -> EditorView {
        let cr = content_rows(rows);
        let vw = self.visible_width(cols);
        let top = if self.cursor_line < self.scroll_top {
            self.cursor_line
        } else if self.cursor_line >= self.scroll_top + cr {
            (self.cursor_line + 1 - cr) as nat
        } else {
            self.scroll_top
        };
        let left = if self.cursor_col < self.scroll_left {
            self.cursor_col
        } else if self.cursor_col >= self.scroll_left + vw {
            (self.cursor_col + 1 - vw) as nat
        } else {
            self.scroll_left
        };
        EditorView { scroll_top: top, scroll_left: left, ..self }
    }

    /// The top of the screen: the status line (a star when the buffer has
    /// unsaved changes, the file, the cursor's line and column) and the help
    /// line.
    pub open spec fn screen_header(self) -> Seq<char> {
        let path_label = match self.path {
            Some(p) => p,
            None => "[unnamed]"@,
        };
        "\x1b[H\x1b[2J"@ + "\x1b[?25l"@ + "MeScript Native Editor "@ + (if self.dirty {
            "*"@
        } else {
            " "@
        }) + " "@ + path_label + "  line "@ + decimal(self.cursor_line + 1) + " col "@
            + decimal(self.cursor_col + 1) + "\n"@ + help_line() + "\n"@
    }

    /// Text row `row` of the screen: the line number right-aligned in the
    /// gutter and the visible part of the line (`~` past the last line),
    /// in reverse video on the cursor's line and in the active block.
    pub open spec fn screen_row(self, cols: nat, row: nat) -> Seq<char> {
        let g = self.gutter(cols);
        let vw = self.visible_width(cols);
        let index = self.scroll_top + row;
        let number = index + 1;
        let prefix = pad_left(decimal(number), (g - 1) as nat) + " "@;
        let content = if index < self.lines.len() {
            clip(self.lines[index as int], self.scroll_left, self.scroll_left + vw)
        } else {
            "~"@
        };
        let in_block = match self.active_block {
            Some(r) => r.start <= number <= r.end,
            None => false,
        };
        if in_block || index == self.cursor_line {
            "\x1b[7m"@ + prefix + content + "\x1b[0m\n"@
        } else {
            prefix + content + "\n"@
        }
    }

    /// The first `k` text rows of the screen.
    pub open spec fn screen_rows(self, cols: nat, k: nat) -> Seq<char>
        decreases k,
    {
        if k == 0 {
            Seq::empty()
        } else {
            self.screen_rows(cols, (k - 1) as nat) + self.screen_row(cols, (k - 1) as nat)
        }
    }

    /// The whole screen as written to a terminal of `rows` by `cols`: the
    /// header, the text rows, the message line, the menu when one is open,
    /// and the cursor placed on its character.
    pub open spec fn screen(self, rows: nat, cols: nat) -> Seq<char> {
        let g = self.gutter(cols);
        let cursor_row = 3 + if self.cursor_line >= self.scroll_top {
            (self.cursor_line - self.scroll_top) as nat
        } else {
            0nat
        };
        let cursor_col = g + 1 + if self.cursor_col >= self.scroll_left {
            (self.cursor_col - self.scroll_left) as nat
        } else {
            0nat
        };
        self.screen_header() + self.screen_rows(cols, content_rows(rows)) + "\x1b[K"@ + self.message
            + "\n"@ + (match self.menu {
            Some(m) => menu_text(m, rows, cols),
            None => Seq::empty(),
        }) + goto(cursor_row, cursor_col) + "\x1b[?25h"@
    }

    /// Typing `text` character by character, a newline splitting the line.
    pub open spec fn inserted_text(self, text: Seq<char>) -> EditorView
        decreases text.len(),
    {
        if text.len() == 0 {
            self
        } else {
            let next = if text[0] == '\n' {
                self.split()
            } else {
                self.typed(text[0])
            };
            next.inserted_text(text.drop_first())
        }
    }

    /// Opens a snippet menu with its first item selected.
    pub open spec fn menu_opened(self, menu: SnippetMenu) -> EditorView {
        EditorView {
            menu: Some(MenuState { menu, selected: 0 }),
            message: spec_menu_title(menu) + ": arrows select, Enter insert, Esc cancel"@,
            ..self
        }
    }

    /// A key while a menu is open: Up and Down move the selection within
    /// the items, Enter inserts the selected snippet and closes the menu,
    /// Esc, Ctrl-O and Ctrl-E close it, and any other key is swallowed.
    pub open spec fn menu_keyed(self, key: Key) -> EditorView {
        match self.menu {
            None => self,
            Some(m) => match key {
                Key::Up => EditorView {
                    menu: Some(
                        MenuState {
                            selected: if m.selected > 0 {
                                (m.selected - 1) as usize
                            } else {
                                0
                            },
                            ..m
                        },
                    ),
                    ..self
                },
                Key::Down => EditorView {
                    menu: Some(
                        MenuState {
                            selected: if m.selected + 1 < spec_snippet_count(m.menu) {
                                (m.selected + 1) as usize
                            } else {
                                (spec_snippet_count(m.menu) - 1) as usize
                            },
                            ..m
                        },
                    ),
                    ..self
                },
                Key::Enter => EditorView {
                    message: "inserted "@ + spec_snippet_label(m.menu, m.selected as int),
                    ..(EditorView { menu: None, ..self }).inserted_text(
                        spec_snippet_text(m.menu, m.selected as int),
                    )
                },
                Key::Esc => EditorView { menu: None, message: "menu closed"@, ..self },
                Key::Ctrl(c) => if c == 'o' || c == 'e' {
                    EditorView { menu: None, message: "menu closed"@, ..self }
                } else {
                    self
                },
                _ => self,
            },
        }
    }

    /// A key press: with a menu open the menu takes it; otherwise characters
    /// are typed, the editing and moving keys edit and move, Ctrl-O and
    /// Ctrl-E open the menus, Ctrl-K and Ctrl-U set and clear the block,
    /// Ctrl-L and Esc leave a note, and Ctrl-Q, Ctrl-S, Ctrl-R, Ctrl-P,
    /// Ctrl-B and Ctrl-X ask for the action that the caller performs.
    pub open spec fn keyed(self, key: Key) -> (EditorView, EditorAction) {
        if self.menu is Some {
            (self.menu_keyed(key), EditorAction::Continue)
        } else {
            match key {
                Key::Char(c) => (self.typed(c), EditorAction::Continue),
                Key::Enter => (self.split(), EditorAction::Continue),
                Key::Backspace => (self.backspaced(), EditorAction::Continue),
                Key::Delete => (self.deleted_forward(), EditorAction::Continue),
                Key::Left => (self.moved_left(), EditorAction::Continue),
                Key::Right => (self.moved_right(), EditorAction::Continue),
                Key::Up => (self.moved_up(), EditorAction::Continue),
                Key::Down => (self.moved_down(), EditorAction::Continue),
                Key::Home => (self.moved_home(), EditorAction::Continue),
                Key::End => (self.moved_end(), EditorAction::Continue),
                Key::Ctrl(c) => if c == 'q' {
                    (self, EditorAction::Quit)
                } else if c == 's' {
                    (self, EditorAction::Save)
                } else if c == 'r' {
                    (self, EditorAction::Run)
                } else if c == 'o' {
                    (self.menu_opened(SnippetMenu::Oscillators), EditorAction::Continue)
                } else if c == 'e' {
                    (self.menu_opened(SnippetMenu::Effects), EditorAction::Continue)
                } else if c == 'p' {
                    (self, EditorAction::Cue)
                } else if c == 'b' {
                    (self, EditorAction::Loop)
                } else if c == 'x' {
                    (self, EditorAction::Stop)
                } else if c == 'k' {
                    (self.block_toggled(), EditorAction::Continue)
                } else if c == 'u' {
                    (self.block_cleared(), EditorAction::Continue)
                } else if c == 'l' {
                    (EditorView { message: "refreshed"@, ..self }, EditorAction::Continue)
                } else {
                    (self, EditorAction::Continue)
                },
                Key::Esc => (EditorView { message: "escape"@, ..self }, EditorAction::Continue),
                Key::Unknown => (self, EditorAction::Continue),
            }
        }
    }
}


/// Backspace undoes typing a character: the lines and the cursor are as
/// they were before the character was typed.
pub proof fn lemma_backspace_undoes_typing(v: EditorView, c: char)
    requires
        v.wf(),
        v.lines.len() > 0,
    ensures
        v.typed(c).backspaced().lines == v.lines,
        v.typed(c).backspaced().cursor_line == v.cursor_line,
        v.typed(c).backspaced().cursor_col == v.cursor_col,
{
    let l = v.cursor_line as int;
    let line = v.lines[l];
    let i = v.cursor_col as int;
    assert(remove_at(insert_at(line, i, c), i) =~= line);
    assert(v.typed(c).backspaced().lines =~= v.lines);
}

/// Backspace at the start of a line undoes Enter: the two halves are joined
/// again and the cursor is back where the line was split.
pub proof fn lemma_backspace_undoes_split(v: EditorView)
    requires
        v.wf(),
        v.lines.len() > 0,
    ensures
        v.split().backspaced().lines == v.lines,
        v.split().backspaced().cursor_line == v.cursor_line,
        v.split().backspaced().cursor_col == v.cursor_col,
{
    let l = v.cursor_line as int;
    let line = v.lines[l];
    let c = v.cursor_col as int;
    let s = v.split();
    assert(s.lines[l] == line.subrange(0, c));
    assert(s.lines[l + 1] == line.subrange(c, line.len() as int));
    assert(line.subrange(0, c) + line.subrange(c, line.len() as int) =~= line);
    assert(s.backspaced().lines =~= v.lines);
}

/// Delete after stepping back over a typed character undoes the typing.
pub proof fn lemma_delete_undoes_typing(v: EditorView, c: char)
    requires
        v.wf(),
        v.lines.len() > 0,
    ensures
        v.typed(c).moved_left().deleted_forward().lines == v.lines,
        v.typed(c).moved_left().deleted_forward().cursor_line == v.cursor_line,
        v.typed(c).moved_left().deleted_forward().cursor_col == v.cursor_col,
{
    let l = v.cursor_line as int;
    let line = v.lines[l];
    let i = v.cursor_col as int;
    assert(remove_at(insert_at(line, i, c), i) =~= line);
    assert(v.typed(c).moved_left().deleted_forward().lines =~= v.lines);
}

/// Moving left and then right returns the cursor to where it was, except at
/// the very start of the text.
pub proof fn lemma_left_then_right(v: EditorView)
    requires
        v.wf(),
        v.cursor_line > 0 || v.cursor_col > 0,
    ensures
        v.moved_left().moved_right().cursor_line == v.cursor_line,
        v.moved_left().moved_right().cursor_col == v.cursor_col,
{
}


/// The text before line `l`: the lines above it, each with its newline.
pub open spec fn line_start(ls: Seq<Seq<char>>, l: int) -> Seq<char> {
    if l <= 0 {
        Seq::empty()
    } else {
        join_lines(ls.subrange(0, l)) + seq!['\n']
    }
}

/// The text after line `l`: the lines below it, each after its newline.
pub open spec fn line_rest(ls: Seq<Seq<char>>, l: int) -> Seq<char> {
    if l + 1 >= ls.len() {
        Seq::empty()
    } else {
        seq!['\n'] + join_lines(ls.subrange(l + 1, ls.len() as int))
    }
}

/// Where the cursor stands in the whole text.
pub open spec fn cursor_offset(v: EditorView) -> int {
    (line_start(v.lines, v.cursor_line as int).len() + v.cursor_col) as int
}

proof fn lemma_join_concat(a: Seq<Seq<char>>, b: Seq<Seq<char>>)
    requires
        a.len() > 0,
        b.len() > 0,
    ensures
        join_lines(a + b) == join_lines(a) + seq!['\n'] + join_lines(b),
    decreases b.len(),
{
    if b.len() == 1 {
        assert((a + b).drop_last() =~= a);
        assert((a + b).last() == b[0]);
    } else {
        lemma_join_concat(a, b.drop_last());
        assert((a + b).drop_last() =~= a + b.drop_last());
        assert((a + b).last() == b.last());
    }
}

proof fn lemma_join_split(ls: Seq<Seq<char>>, l: int)
    requires
        0 <= l < ls.len(),
    ensures
        join_lines(ls) == line_start(ls, l) + ls[l] + line_rest(ls, l),
{
    let a = ls.subrange(0, l);
    let b = ls.subrange(l + 1, ls.len() as int);
    let x = seq![ls[l]];
    assert(join_lines(x) == ls[l]);
    if l + 1 < ls.len() {
        lemma_join_concat(x, b);
        assert(x + b =~= ls.subrange(l, ls.len() as int));
    }
    if l > 0 {
        if l + 1 < ls.len() {
            lemma_join_concat(a, x + b);
            assert(a + (x + b) =~= ls);
        } else {
            lemma_join_concat(a, x);
            assert(a + x =~= ls);
        }
    } else {
        if l + 1 < ls.len() {
            assert(x + b =~= ls);
        } else {
            assert(x =~= ls);
        }
    }
}

/// The common ground of the text lemmas: an empty text reads as one empty
/// line, and the text is the text before the cursor's line, that line, and
/// the text after it.
proof fn lemma_text_ground(v: EditorView)
    requires
        v.wf(),
    ensures
        join_lines(v.lines_or_blank()) == join_lines(v.lines),
        line_start(v.lines_or_blank(), v.cursor_line as int) == line_start(
            v.lines,
            v.cursor_line as int,
        ),
        0 <= v.cursor_line < v.lines_or_blank().len(),
        v.cursor_col <= v.lines_or_blank()[v.cursor_line as int].len(),
        join_lines(v.lines) == line_start(v.lines_or_blank(), v.cursor_line as int)
            + v.lines_or_blank()[v.cursor_line as int] + line_rest(
            v.lines_or_blank(),
            v.cursor_line as int,
        ),
{
    let ls = v.lines_or_blank();
    if v.lines.len() == 0 {
        assert(join_lines(ls) == Seq::<char>::empty());
    }
    lemma_join_split(ls, v.cursor_line as int);
}

#[verifier::rlimit(30)]
proof fn lemma_text_typed(v: EditorView, c: char)
    requires
        v.wf(),
    ensures
        join_lines(v.typed(c).lines) == insert_at(join_lines(v.lines), cursor_offset(v), c),
{
    lemma_text_ground(v);
    let ls = v.lines_or_blank();
    let l = v.cursor_line as int;
    let col = v.cursor_col as int;
    let x = ls[l];
    let pre = line_start(ls, l);
    let post = line_rest(ls, l);
    let t = v.typed(c).lines;
    assert(t == ls.update(l, insert_at(x, col, c)));
    lemma_join_split(t, l);
    assert(t.subrange(0, l) =~= ls.subrange(0, l));
    assert(t.subrange(l + 1, t.len() as int) =~= ls.subrange(l + 1, ls.len() as int));
    assert(line_start(t, l) == pre);
    assert(line_rest(t, l) == post);
    assert(pre + insert_at(x, col, c) + post =~= insert_at(pre + x + post, pre.len() + col, c));
}

#[verifier::rlimit(30)]
proof fn lemma_text_split(v: EditorView)
    requires
        v.wf(),
    ensures
        join_lines(v.split().lines) == insert_at(join_lines(v.lines), cursor_offset(v), '\n'),
{
    lemma_text_ground(v);
    let ls = v.lines_or_blank();
    let l = v.cursor_line as int;
    let col = v.cursor_col as int;
    let x = ls[l];
    let pre = line_start(ls, l);
    let post = line_rest(ls, l);
    let sp = v.split().lines;
    let head = x.subrange(0, col);
    let tail = x.subrange(col, x.len() as int);
    assert(sp =~= ls.subrange(0, l).push(head).push(tail) + ls.subrange(l + 1, ls.len() as int));
    lemma_join_split(sp, l + 1);
    assert(sp[l + 1] == tail);
    assert(sp.subrange(l + 2, sp.len() as int) =~= ls.subrange(l + 1, ls.len() as int));
    assert(line_rest(sp, l + 1) == post);
    assert(line_start(sp, l + 1) == pre + head + seq!['\n']) by {
        let a = ls.subrange(0, l);
        if l > 0 {
            lemma_join_concat(a, seq![head]);
            assert(a + seq![head] =~= sp.subrange(0, l + 1));
        } else {
            assert(sp.subrange(0, l + 1) =~= seq![head]);
        }
    }
    assert(pre + head + seq!['\n'] + tail + post =~= insert_at(pre + x + post, pre.len() + col, '\n'));
}

#[verifier::rlimit(30)]
proof fn lemma_text_backspace(v: EditorView)
    requires
        v.wf(),
        cursor_offset(v) > 0,
    ensures
        join_lines(v.backspaced().lines) == remove_at(join_lines(v.lines), cursor_offset(v) - 1),
{
    lemma_text_ground(v);
    let ls = v.lines_or_blank();
    let l = v.cursor_line as int;
    let col = v.cursor_col as int;
    let x = ls[l];
    let pre = line_start(ls, l);
    let post = line_rest(ls, l);
    assert(v.lines.len() > 0) by {
        if v.lines.len() == 0 {
            assert(l == 0 && col == 0);
        }
    }
    let b = v.backspaced().lines;
    if col > 0 {
        assert(b == ls.update(l, remove_at(x, col - 1)));
        lemma_join_split(b, l);
        assert(b.subrange(0, l) =~= ls.subrange(0, l));
        assert(b.subrange(l + 1, b.len() as int) =~= ls.subrange(l + 1, ls.len() as int));
        assert(pre + remove_at(x, col - 1) + post =~= remove_at(pre + x + post, pre.len() + col - 1));
    } else {
        assert(l > 0);
        let above = ls[l - 1];
        let pre2 = line_start(ls, l - 1);
        assert(b =~= ls.remove(l).update(l - 1, above + x));
        lemma_join_split(b, l - 1);
        assert(b.subrange(0, l - 1) =~= ls.subrange(0, l - 1));
        assert(line_start(b, l - 1) == pre2);
        assert(b.subrange(l, b.len() as int) =~= ls.subrange(l + 1, ls.len() as int));
        assert(line_rest(b, l - 1) == post);
        assert(pre == pre2 + above + seq!['\n']) by {
            let a2 = ls.subrange(0, l - 1);
            if l - 1 > 0 {
                lemma_join_concat(a2, seq![above]);
                assert(a2 + seq![above] =~= ls.subrange(0, l));
            } else {
                assert(ls.subrange(0, l) =~= seq![above]);
            }
        }
        assert(pre2 + (above + x) + post =~= remove_at(pre + x + post, pre.len() - 1));
    }
}

#[verifier::rlimit(30)]
proof fn lemma_text_delete(v: EditorView)
    requires
        v.wf(),
        cursor_offset(v) < join_lines(v.lines).len(),
    ensures
        join_lines(v.deleted_forward().lines) == remove_at(join_lines(v.lines), cursor_offset(v)),
{
    lemma_text_ground(v);
    let ls = v.lines_or_blank();
    let l = v.cursor_line as int;
    let col = v.cursor_col as int;
    let x = ls[l];
    let pre = line_start(ls, l);
    let post = line_rest(ls, l);
    assert(v.lines.len() > 0) by {
        if v.lines.len() == 0 {
            assert(join_lines(v.lines).len() == 0);
        }
    }
    let d = v.deleted_forward().lines;
    if col < x.len() {
        assert(d == ls.update(l, remove_at(x, col)));
        lemma_join_split(d, l);
        assert(d.subrange(0, l) =~= ls.subrange(0, l));
        assert(d.subrange(l + 1, d.len() as int) =~= ls.subrange(l + 1, ls.len() as int));
        assert(pre + remove_at(x, col) + post =~= remove_at(pre + x + post, pre.len() + col));
    } else {
        assert(l + 1 < ls.len()) by {
            if l + 1 >= ls.len() {
                assert(post.len() == 0);
            }
        }
        let below = ls[l + 1];
        let post2 = line_rest(ls, l + 1);
        assert(d =~= ls.remove(l + 1).update(l, x + below));
        lemma_join_split(d, l);
        assert(d.subrange(0, l) =~= ls.subrange(0, l));
        assert(line_start(d, l) == pre);
        assert(d.subrange(l + 1, d.len() as int) =~= ls.subrange(l + 2, ls.len() as int));
        assert(line_rest(d, l) == post2);
        assert(post == seq!['\n'] + below + post2) by {
            let b2 = ls.subrange(l + 2, ls.len() as int);
            if l + 2 < ls.len() {
                lemma_join_concat(seq![below], b2);
                assert(seq![below] + b2 =~= ls.subrange(l + 1, ls.len() as int));
            } else {
                assert(ls.subrange(l + 1, ls.len() as int) =~= seq![below]);
            }
        }
        assert(pre + (x + below) + post2 =~= remove_at(pre + x + post, pre.len() + col));
    }
}

/// How the text changes under editing: typing puts the character into the
/// text at the cursor, Enter puts a newline there, Backspace takes out the
/// character before the cursor (the newline, at the start of a line) and
/// Delete the one under it (the newline, at the end of a line).
pub proof fn lemma_edits_change_text(v: EditorView, c: char)
    requires
        v.wf(),
    ensures
        join_lines(v.typed(c).lines) == insert_at(join_lines(v.lines), cursor_offset(v), c),
        join_lines(v.split().lines) == insert_at(join_lines(v.lines), cursor_offset(v), '\n'),
        cursor_offset(v) > 0 ==> join_lines(v.backspaced().lines) == remove_at(
            join_lines(v.lines),
            cursor_offset(v) - 1,
        ),
        cursor_offset(v) < join_lines(v.lines).len() ==> join_lines(v.deleted_forward().lines)
            == remove_at(join_lines(v.lines), cursor_offset(v)),
{
    lemma_text_typed(v, c);
    lemma_text_split(v);
    if cursor_offset(v) > 0 {
        lemma_text_backspace(v);
    }
    if cursor_offset(v) < join_lines(v.lines).len() {
        lemma_text_delete(v);
    }
}

/// `line` with `c` inserted before index `at`.
fn chars_with(line: &[char], at: usize, c: char) -> (r: Vec<char>)
    requires
        at <= line@.len(),
    ensures
        r@ == insert_at(line@, at as int, c),
{
    let mut out: Vec<char> = Vec::new();
    let mut i: usize = 0;
    while i < at
        invariant
            i <= at <= line@.len(),
            out@ == line@.subrange(0, i as int),
        decreases at - i,
    {
        out.push(line[i]);
        assert(line@.subrange(0, i + 1) =~= line@.subrange(0, i as int).push(line@[i as int]));
        i = i + 1;
    }
    out.push(c);
    while i < line.len()
        invariant
            at <= i <= line@.len(),
            out@ == line@.subrange(0, at as int).push(c) + line@.subrange(at as int, i as int),
        decreases line@.len() - i,
    {
        out.push(line[i]);
        assert(line@.subrange(at as int, i + 1) =~= line@.subrange(at as int, i as int).push(
            line@[i as int],
        ));
        i = i + 1;
    }
    out
}

/// `line` without the character at index `at`.
fn chars_without(line: &[char], at: usize) -> (r: Vec<char>)
    requires
        at < line@.len(),
    ensures
        r@ == remove_at(line@, at as int),
{
    let mut out: Vec<char> = Vec::new();
    let mut i: usize = 0;
    while i < line.len()
        invariant
            i <= line@.len(),
            at < line@.len(),
            i <= at ==> out@ == line@.subrange(0, i as int),
            i > at ==> out@ == line@.subrange(0, at as int) + line@.subrange(at + 1, i as int),
        decreases line@.len() - i,
    {
        if i != at {
            out.push(line[i]);
        }
        proof {
            if i < at {
                assert(line@.subrange(0, i + 1) =~= line@.subrange(0, i as int).push(line@[i as int]));
            } else if i == at {
                assert(line@.subrange(at + 1, i + 1) =~= Seq::<char>::empty());
                assert(out@ =~= line@.subrange(0, at as int) + line@.subrange(at + 1, i + 1));
            } else {
                assert(line@.subrange(at + 1, i + 1) =~= line@.subrange(at + 1, i as int).push(
                    line@[i as int],
                ));
            }
        }
        i = i + 1;
    }
    out
}

/// A string holding `a` followed by `b`.
fn concat(a: &str, b: &str) -> (r: String)
    ensures
        r@ == a@ + b@,
{
    let mut out = String::from_str(a);
    out.append(b);
    out
}


/// The help line shown when the editor starts and at the top of the screen.
pub open spec fn help_line() -> Seq<char> {
    "Ctrl-S save  Ctrl-R run  Ctrl-O osc  Ctrl-E fx  Ctrl-P cue  Ctrl-B loop  Ctrl-X stop  Ctrl-Q quit"@
}

fn help_line_string() -> (r: String)
    ensures
        r@ == help_line(),
{
    String::from_str(
        "Ctrl-S save  Ctrl-R run  Ctrl-O osc  Ctrl-E fx  Ctrl-P cue  Ctrl-B loop  Ctrl-X stop  Ctrl-Q quit",
    )
}

/// The hint given when Ctrl-P or Ctrl-B finds no scene at the cursor.
pub open spec fn cue_hint() -> Seq<char> {
    "put cursor on a (scene :name ...), (block :name ...), or (play-scene :name) line"@
}

/// The terminal editor: a buffer, a cursor, the scroll offsets of the view,
/// the block selection, the status message and the snippet menu.
pub struct EditorApp {
    buffer: EditorBuffer,
    cursor_line: usize,
    cursor_col: usize,
    scroll_top: usize,
    scroll_left: usize,
    active_block: Option<LineRange>,
    selection_anchor: Option<usize>,
    dirty: bool,
    message: String,
    menu: Option<MenuState>,
}

impl View for EditorApp {
    type V = EditorView;

    closed spec fn view(&self) -> EditorView {
        EditorView {
            lines: self.buffer.line_views(),
            path: self.buffer.path_view(),
            cursor_line: self.cursor_line as nat,
            cursor_col: self.cursor_col as nat,
            scroll_top: self.scroll_top as nat,
            scroll_left: self.scroll_left as nat,
            active_block: self.active_block,
            selection_anchor: self.selection_anchor,
            dirty: self.dirty,
            message: self.message@,
            menu: self.menu,
        }
    }
}

impl EditorApp {
    /// An editor on `buffer`, with the cursor and the view at the top left,
    /// nothing selected, no menu, and the help line as its message.
    pub fn new(buffer: EditorBuffer) -> (r: Self)
        ensures
            r@ == (EditorView {
                lines: buffer.line_views(),
                path: buffer.path_view(),
                cursor_line: 0,
                cursor_col: 0,
                scroll_top: 0,
                scroll_left: 0,
                active_block: None,
                selection_anchor: None,
                dirty: false,
                message: help_line(),
                menu: None,
            }),
            r@.wf(),
    {
        EditorApp {
            buffer,
            cursor_line: 0,
            cursor_col: 0,
            scroll_top: 0,
            scroll_left: 0,
            active_block: None,
            selection_anchor: None,
            dirty: false,
            message: help_line_string(),
            menu: None,
        }
    }

    /// The number of characters of line `line`, or 0 past the last line.
    pub fn line_len(&self, line: usize) -> (r: usize)
        ensures
            r == self@.line_len(line as int),
    {
        if line < self.buffer.lines.len() {
            chars_of(self.buffer.lines[line].as_str()).len()
        } else {
            0
        }
    }

    /// Gives an empty text one empty line to edit.
    fn ensure_line(&mut self)
        requires
            old(self)@.wf(),
        ensures
            final(self)@ == (EditorView { lines: old(self)@.lines_or_blank(), ..old(self)@ }),
            final(self)@.lines.len() > 0,
    {
        if self.buffer.lines.len() == 0 {
            self.buffer.lines.push(String::new());
            assert(self@.lines =~= seq![Seq::<char>::empty()]);
        }
    }

    /// Types `ch` at the cursor.
    pub fn insert_char(&mut self, ch: char)
        requires
            old(self)@.wf(),
        ensures
            final(self)@ == old(self)@.typed(ch),
            final(self)@.wf(),
    {
        self.ensure_line();
        let l = self.cursor_line;
        let cs = chars_of(self.buffer.lines[l].as_str());
        let edited = chars_with(cs.as_slice(), self.cursor_col, ch);
        let n = edited.len();
        self.buffer.lines.set(l, string_of(edited.as_slice()));
        self.cursor_col = self.cursor_col + 1;
        self.dirty = true;
        assert(self@.lines =~= old(self)@.typed(ch).lines);
    }

    /// Splits the line at the cursor.
    pub fn insert_newline(&mut self)
        requires
            old(self)@.wf(),
        ensures
            final(self)@ == old(self)@.split(),
            final(self)@.wf(),
    {
        self.ensure_line();
        let ghost ls = self@.lines;
        let l = self.cursor_line;
        let c = self.cursor_col;
        let cs = chars_of(self.buffer.lines[l].as_str());
        let head = chars_range(cs.as_slice(), 0, c);
        let tail = chars_range(cs.as_slice(), c, cs.len());
        self.buffer.lines.set(l, string_of(head.as_slice()));
        let n = self.buffer.lines.len();
        assert(l < n);
        self.buffer.lines.insert(l + 1, string_of(tail.as_slice()));
        self.cursor_line = l + 1;
        self.cursor_col = 0;
        self.dirty = true;
        assert(self@.lines =~= old(self)@.split().lines);
    }

    /// Backspace at the cursor.
    pub fn backspace(&mut self)
        requires
            old(self)@.wf(),
        ensures
            final(self)@ == old(self)@.backspaced(),
            final(self)@.wf(),
    {
        if self.cursor_col > 0 {
            let l = self.cursor_line;
            let cs = chars_of(self.buffer.lines[l].as_str());
            let edited = chars_without(cs.as_slice(), self.cursor_col - 1);
            self.buffer.lines.set(l, string_of(edited.as_slice()));
            self.cursor_col = self.cursor_col - 1;
            self.dirty = true;
            assert(self@.lines =~= old(self)@.backspaced().lines);
            return ;
        }
        if self.cursor_line == 0 {
            return ;
        }
        let current = self.buffer.lines.remove(self.cursor_line);
        self.cursor_line = self.cursor_line - 1;
        let above_len = self.line_len(self.cursor_line);
        self.cursor_col = above_len;
        let joined = concat(self.buffer.lines[self.cursor_line].as_str(), current.as_str());
        self.buffer.lines.set(self.cursor_line, joined);
        self.dirty = true;
        assert(self@.lines =~= old(self)@.backspaced().lines);
    }

    /// Delete at the cursor.
    pub fn delete_forward(&mut self)
        requires
            old(self)@.wf(),
        ensures
            final(self)@ == old(self)@.deleted_forward(),
            final(self)@.wf(),
    {
        let len = self.line_len(self.cursor_line);
        if self.cursor_col < len {
            let l = self.cursor_line;
            let cs = chars_of(self.buffer.lines[l].as_str());
            let edited = chars_without(cs.as_slice(), self.cursor_col);
            self.buffer.lines.set(l, string_of(edited.as_slice()));
            self.dirty = true;
            assert(self@.lines =~= old(self)@.deleted_forward().lines);
            return ;
        }
        let n = self.buffer.lines.len();
        if n == 0 || self.cursor_line + 1 >= n {
            return ;
        }
        let next = self.buffer.lines.remove(self.cursor_line + 1);
        let joined = concat(self.buffer.lines[self.cursor_line].as_str(), next.as_str());
        self.buffer.lines.set(self.cursor_line, joined);
        self.dirty = true;
        assert(self@.lines =~= old(self)@.deleted_forward().lines);
    }

    /// Moves the cursor left.
    pub fn move_left(&mut self)
        requires
            old(self)@.wf(),
        ensures
            final(self)@ == old(self)@.moved_left(),
            final(self)@.wf(),
    {
        if self.cursor_col > 0 {
            self.cursor_col = self.cursor_col - 1;
        } else if self.cursor_line > 0 {
            self.cursor_line = self.cursor_line - 1;
            self.cursor_col = self.line_len(self.cursor_line);
        }
    }

    /// Moves the cursor right.
    pub fn move_right(&mut self)
        requires
            old(self)@.wf(),
        ensures
            final(self)@ == old(self)@.moved_right(),
            final(self)@.wf(),
    {
        if self.cursor_col < self.line_len(self.cursor_line) {
            self.cursor_col = self.cursor_col + 1;
        } else if self.cursor_line < self.buffer.lines.len() && self.cursor_line + 1
            < self.buffer.lines.len() {
            self.cursor_line = self.cursor_line + 1;
            self.cursor_col = 0;
        }
    }

    /// Moves the cursor up a line.
    pub fn move_up(&mut self)
        requires
            old(self)@.wf(),
        ensures
            final(self)@ == old(self)@.moved_up(),
            final(self)@.wf(),
    {
        if self.cursor_line > 0 {
            self.cursor_line = self.cursor_line - 1;
            let len = self.line_len(self.cursor_line);
            if self.cursor_col > len {
                self.cursor_col = len;
            }
        }
    }

    /// Moves the cursor down a line.
    pub fn move_down(&mut self)
        requires
            old(self)@.wf(),
        ensures
            final(self)@ == old(self)@.moved_down(),
            final(self)@.wf(),
    {
        if self.cursor_line < self.buffer.lines.len() && self.cursor_line + 1
            < self.buffer.lines.len() {
            self.cursor_line = self.cursor_line + 1;
            let len = self.line_len(self.cursor_line);
            if self.cursor_col > len {
                self.cursor_col = len;
            }
        }
    }

    /// Moves the cursor to the start of its line.
    pub fn move_home(&mut self)
        requires
            old(self)@.wf(),
        ensures
            final(self)@ == old(self)@.moved_home(),
            final(self)@.wf(),
    {
        self.cursor_col = 0;
    }

    /// Moves the cursor to the end of its line.
    pub fn move_end(&mut self)
        requires
            old(self)@.wf(),
        ensures
            final(self)@ == old(self)@.moved_end(),
            final(self)@.wf(),
    {
        self.cursor_col = self.line_len(self.cursor_line);
    }

    /// Sets the block mark, or makes the block active.
    pub fn toggle_block(&mut self)
        requires
            old(self)@.wf(),
        ensures
            final(self)@ == old(self)@.block_toggled(),
            final(self)@.wf(),
    {
        proof {
            if self.buffer.lines.len() > 0 {
                assert(self.cursor_line < self.buffer.lines@.len());
            }
        }
        let line_number = self.cursor_line + 1;
        match self.selection_anchor {
            Some(anchor) => {
                let start = if anchor <= line_number {
                    anchor
                } else {
                    line_number
                };
                let end = if anchor <= line_number {
                    line_number
                } else {
                    anchor
                };
                self.selection_anchor = None;
                self.active_block = Some(LineRange { start, end });
                let mut m = String::from_str("block ");
                push_decimal(&mut m, start);
                m.append("-");
                push_decimal(&mut m, end);
                m.append(" active");
                self.message = m;
            },
            None => {
                self.selection_anchor = Some(line_number);
                let mut m = String::from_str("block start set at line ");
                push_decimal(&mut m, line_number);
                self.message = m;
            },
        }
    }

    /// Drops the block mark and the active block.
    pub fn clear_block(&mut self)
        requires
            old(self)@.wf(),
        ensures
            final(self)@ == old(self)@.block_cleared(),
            final(self)@.wf(),
    {
        self.selection_anchor = None;
        self.active_block = None;
        self.message = String::from_str("block cleared");
    }

    /// Types `text` at the cursor, a newline splitting the line.
    pub fn insert_text(&mut self, text: &str)
        requires
            old(self)@.wf(),
        ensures
            final(self)@ == old(self)@.inserted_text(text@),
            final(self)@.wf(),
    {
        let cs = chars_of(text);
        let mut i: usize = 0;
        assert(cs@.subrange(0, cs@.len() as int) =~= text@);
        while i < cs.len()
            invariant
                i <= cs@.len(),
                cs@ == text@,
                self@.wf(),
                self@.inserted_text(cs@.subrange(i as int, cs@.len() as int))
                    == old(self)@.inserted_text(text@),
            decreases cs@.len() - i,
        {
            let ghost before = self@;
            let ghost rest = cs@.subrange(i as int, cs@.len() as int);
            if cs[i] == '\n' {
                self.insert_newline();
            } else {
                self.insert_char(cs[i]);
            }
            assert(rest.drop_first() =~= cs@.subrange(i + 1, cs@.len() as int));
            i = i + 1;
        }
        assert(cs@.subrange(cs@.len() as int, cs@.len() as int) =~= Seq::<char>::empty());
    }

    /// Opens a snippet menu.
    pub fn open_menu(&mut self, menu: SnippetMenu)
        requires
            old(self)@.wf(),
        ensures
            final(self)@ == old(self)@.menu_opened(menu),
            final(self)@.wf(),
    {
        self.menu = Some(MenuState { menu, selected: 0 });
        let mut m = String::from_str(menu_title(menu));
        m.append(": arrows select, Enter insert, Esc cancel");
        self.message = m;
    }

    /// Gives a key to the open menu; false when no menu is open.
    pub fn handle_menu_key(&mut self, key: Key) -> (r: bool)
        requires
            old(self)@.wf(),
        ensures
            r == old(self)@.menu is Some,
            final(self)@ == old(self)@.menu_keyed(key),
            final(self)@.wf(),
    {
        let m = match self.menu {
            None => {
                return false;
            },
            Some(m) => m,
        };
        match key {
            Key::Up => {
                let selected = if m.selected > 0 {
                    m.selected - 1
                } else {
                    0
                };
                self.menu = Some(MenuState { selected, ..m });
            },
            Key::Down => {
                let count = snippet_count(m.menu);
                let selected = if m.selected + 1 < count {
                    m.selected + 1
                } else {
                    count - 1
                };
                self.menu = Some(MenuState { selected, ..m });
            },
            Key::Enter => {
                self.menu = None;
                self.insert_text(snippet_text(m.menu, m.selected));
                let mut message = String::from_str("inserted ");
                message.append(snippet_label(m.menu, m.selected));
                self.message = message;
            },
            Key::Esc => {
                self.menu = None;
                self.message = String::from_str("menu closed");
            },
            Key::Ctrl(c) => {
                if c == 'o' || c == 'e' {
                    self.menu = None;
                    self.message = String::from_str("menu closed");
                }
            },
            _ => {},
        }
        true
    }

    /// Handles one key press and says what the caller has to do next.
    pub fn handle_key(&mut self, key: Key) -> (r: EditorAction)
        requires
            old(self)@.wf(),
        ensures
            (final(self)@, r) == old(self)@.keyed(key),
            final(self)@.wf(),
    {
        if self.handle_menu_key(key) {
            return EditorAction::Continue;
        }
        match key {
            Key::Char(c) => self.insert_char(c),
            Key::Enter => self.insert_newline(),
            Key::Backspace => self.backspace(),
            Key::Delete => self.delete_forward(),
            Key::Left => self.move_left(),
            Key::Right => self.move_right(),
            Key::Up => self.move_up(),
            Key::Down => self.move_down(),
            Key::Home => self.move_home(),
            Key::End => self.move_end(),
            Key::Ctrl(c) => {
                if c == 'q' {
                    return EditorAction::Quit;
                } else if c == 's' {
                    return EditorAction::Save;
                } else if c == 'r' {
                    return EditorAction::Run;
                } else if c == 'o' {
                    self.open_menu(SnippetMenu::Oscillators);
                } else if c == 'e' {
                    self.open_menu(SnippetMenu::Effects);
                } else if c == 'p' {
                    return EditorAction::Cue;
                } else if c == 'b' {
                    return EditorAction::Loop;
                } else if c == 'x' {
                    return EditorAction::Stop;
                } else if c == 'k' {
                    self.toggle_block();
                } else if c == 'u' {
                    self.clear_block();
                } else if c == 'l' {
                    self.message = String::from_str("refreshed");
                }
            },
            Key::Esc => {
                self.message = String::from_str("escape");
            },
            Key::Unknown => {},
        }
        EditorAction::Continue
    }

    /// The whole text of the buffer: its lines joined with newlines.
    pub fn source(&self) -> (r: String)
        ensures
            r@ == join_lines(self@.lines),
    {
        self.buffer.source()
    }

    /// The file a save writes: the buffer's own, or the session file.
    pub fn save_path(&self) -> (r: String)
        ensures
            r@ == match self@.path {
                Some(p) => p,
                None => "mescript-session.gl"@,
            },
    {
        match &self.buffer.path {
            Some(p) => p.clone(),
            None => String::from_str("mescript-session.gl"),
        }
    }

    /// Records that the buffer was written to `path`: the buffer belongs to
    /// that file from now on, has no unsaved changes, and the message says
    /// where it went.
    pub fn mark_saved(&mut self, path: String)
        requires
            old(self)@.wf(),
        ensures
            final(self)@ == (EditorView {
                path: Some(path@),
                dirty: false,
                message: "saved "@ + path@,
                ..old(self)@
            }),
            final(self)@.wf(),
    {
        let mut m = String::from_str("saved ");
        m.append(path.as_str());
        self.buffer.path = Some(path);
        self.message = m;
        self.dirty = false;
    }

    /// What Ctrl-R plays: the active block when there is one, else the whole
    /// buffer, in the form the editor sends for playback; and whether it is
    /// a block, which is evaluated into the running program rather than
    /// replacing it.
    pub fn run_request(&self) -> (r: Result<(String, bool), String>)
        ensures
            match self@.active_block {
                None => r matches Ok((t, b)) && !b && t@ == spec_editor_preview_source(
                    join_lines(self@.lines),
                ),
                Some(range) => {
                    let n = self@.lines.len();
                    if n == 0 {
                        r matches Err(m) && m@ == "buffer is empty"@
                    } else if !(1 <= range.start <= n) || !(1 <= range.end <= n) {
                        r matches Err(m) && m@ == line_bound_message("run"@, n)
                    } else if range.start > range.end {
                        r matches Err(m) && m@ == "run start line must be before end line"@
                    } else {
                        r matches Ok((t, b)) && b && t@ == spec_editor_preview_source(
                            join_lines(self@.lines.subrange(range.start - 1, range.end as int)),
                        )
                    }
                },
            },
    {
        match self.active_block {
            Some(range) => match self.buffer.range_source(range) {
                Ok(source) => Ok((editor_preview_source(source.as_str()), true)),
                Err(e) => Err(e),
            },
            None => {
                let source = self.buffer.source();
                Ok((editor_preview_source(source.as_str()), false))
            },
        }
    }

    /// The scene that Ctrl-P and Ctrl-B act on: the one the cursor's line
    /// points at.
    pub fn scene_near_cursor(&self) -> (r: Result<String, String>)
        ensures
            match spec_scene_for_cursor(
                spec_top_level_forms(join_lines(self@.lines)),
                self@.cursor_line,
            ) {
                Some(n) => r matches Ok(x) && x@ == n,
                None => r matches Err(m) && m@ == cue_hint(),
            },
    {
        match scene_name_for_cursor(self.buffer.lines.as_slice(), self.cursor_line) {
            Some(name) => Ok(name),
            None => Err(
                String::from_str(
                    "put cursor on a (scene :name ...), (block :name ...), or (play-scene :name) line",
                ),
            ),
        }
    }

    /// Replaces the status message.
    pub fn set_message(&mut self, message: String)
        requires
            old(self)@.wf(),
        ensures
            final(self)@ == (EditorView { message: message@, ..old(self)@ }),
            final(self)@.wf(),
    {
        self.message = message;
    }

    /// The status message.
    pub fn message(&self) -> (r: &str)
        ensures
            r@ == self@.message,
    {
        self.message.as_str()
    }

    /// The cursor as (line, column), both counted from zero.
    pub fn cursor(&self) -> (r: (usize, usize))
        ensures
            r.0 == self@.cursor_line,
            r.1 == self@.cursor_col,
    {
        (self.cursor_line, self.cursor_col)
    }

    /// The first line and the first column shown.
    pub fn scroll(&self) -> (r: (usize, usize))
        ensures
            r.0 == self@.scroll_top,
            r.1 == self@.scroll_left,
    {
        (self.scroll_top, self.scroll_left)
    }

    /// The lines of the buffer.
    pub fn lines(&self) -> (r: &[String])
        ensures
            r@.map_values(|l: String| l@) == self@.lines,
    {
        self.buffer.lines.as_slice()
    }

    /// Whether the buffer has changes not yet saved.
    pub fn is_dirty(&self) -> (r: bool)
        ensures
            r == self@.dirty,
    {
        self.dirty
    }

    /// The active block, if any.
    pub fn active_block(&self) -> (r: Option<LineRange>)
        ensures
            r == self@.active_block,
    {
        self.active_block
    }

    /// The open menu, if any.
    pub fn menu(&self) -> (r: Option<MenuState>)
        ensures
            r == self@.menu,
    {
        self.menu
    }

    /// The width of the line-number gutter on a screen of `cols` columns.
    pub fn gutter_width(&self, cols: usize) -> (r: usize)
        ensures
            r == self@.gutter(cols as nat),
            r <= if cols >= 4 { cols - 1 } else { 3 },
    {
        let n = if self.buffer.lines.len() >= 1 {
            self.buffer.lines.len()
        } else {
            1
        };
        let digits = chars_of(decimal_string(n).as_str()).len();
        let room = if cols >= 2 {
            cols - 2
        } else {
            0
        };
        let m = if digits <= room {
            digits
        } else {
            room
        };
        (if m >= 2 {
            m
        } else {
            2
        }) + 1
    }

    /// The columns of text visible beside the gutter.
    fn visible_width(&self, cols: usize) -> (r: usize)
        ensures
            r == self@.visible_width(cols as nat),
            r >= 1,
    {
        let g = self.gutter_width(cols);
        if cols > g + 1 {
            cols - g - 1
        } else {
            1
        }
    }

    /// Scrolls the view just enough that the cursor is on a screen of
    /// `rows` by `cols`.
    pub fn ensure_cursor_visible(&mut self, rows: usize, cols: usize)
        requires
            old(self)@.wf(),
        ensures
            final(self)@ == old(self)@.scrolled(rows as nat, cols as nat),
            final(self)@.wf(),
            final(self)@.scroll_top <= final(self)@.cursor_line < final(self)@.scroll_top
                + content_rows(rows as nat),
            final(self)@.scroll_left <= final(self)@.cursor_col < final(self)@.scroll_left
                + final(self)@.visible_width(cols as nat),
    {
        let cr = content_rows_of(rows);
        if self.cursor_line < self.scroll_top {
            self.scroll_top = self.cursor_line;
        } else if self.cursor_line - self.scroll_top >= cr {
            self.scroll_top = self.cursor_line - (cr - 1);
        }
        let vw = self.visible_width(cols);
        if self.cursor_col < self.scroll_left {
            self.scroll_left = self.cursor_col;
        } else if self.cursor_col - self.scroll_left >= vw {
            self.scroll_left = self.cursor_col - (vw - 1);
        }
    }

    /// Text row `row` of the screen, appended to `out`.
    fn push_screen_row(&self, out: &mut String, cols: usize, g: usize, vw: usize, row: usize)
        requires
            g == self@.gutter(cols as nat),
            vw == self@.visible_width(cols as nat),
            self@.scroll_top + row + 1 <= usize::MAX,
            self@.scroll_left + vw <= usize::MAX,
        ensures
            final(out)@ == old(out)@ + self@.screen_row(cols as nat, row as nat),
    {
        let index = self.scroll_top + row;
        let number = index + 1;
        let digits = decimal_string(number);
        let mut prefix = String::new();
        push_pad_left(&mut prefix, digits.as_str(), g - 1);
        prefix.append(" ");
        let content = if index < self.buffer.lines.len() {
            slice_by_chars(
                self.buffer.lines[index].as_str(),
                self.scroll_left,
                self.scroll_left + vw,
            )
        } else {
            String::from_str("~")
        };
        let in_block = match self.active_block {
            Some(r) => r.start <= number && number <= r.end,
            None => false,
        };
        if in_block || index == self.cursor_line {
            out.append("\x1b[7m");
            out.append(prefix.as_str());
            out.append(content.as_str());
            out.append("\x1b[0m\n");
        } else {
            out.append(prefix.as_str());
            out.append(content.as_str());
            out.append("\n");
        }
    }

    /// The screen as written to a terminal of `rows` by `cols`.
    pub fn render(&self, rows: usize, cols: usize) -> (r: String)
        requires
            self@.wf(),
            3 + self@.cursor_line <= usize::MAX,
            self@.gutter(cols as nat) + 1 + self@.cursor_col <= usize::MAX,
            self@.scroll_top + content_rows(rows as nat) <= usize::MAX,
            self@.scroll_left + self@.visible_width(cols as nat) <= usize::MAX,
        ensures
            r@ == self@.screen(rows as nat, cols as nat),
    {
        let mut out = String::new();
        out.append("\x1b[H\x1b[2J");
        out.append("\x1b[?25l");
        out.append("MeScript Native Editor ");
        out.append(
            if self.dirty {
                "*"
            } else {
                " "
            },
        );
        out.append(" ");
        match &self.buffer.path {
            Some(p) => out.append(p.as_str()),
            None => out.append("[unnamed]"),
        }
        out.append("  line ");
        push_decimal(&mut out, self.cursor_line + 1);
        out.append(" col ");
        push_decimal(&mut out, self.cursor_col + 1);
        out.append("\n");
        out.append(help_line_string().as_str());
        out.append("\n");
        let ghost header = out@;
        assert(header =~= self@.screen_header());
        let cr = content_rows_of(rows);
        let g = self.gutter_width(cols);
        let vw = self.visible_width(cols);
        let mut row: usize = 0;
        while row < cr
            invariant
                row <= cr,
                cr == content_rows(rows as nat),
                g == self@.gutter(cols as nat),
                vw == self@.visible_width(cols as nat),
                self@.scroll_top + cr <= usize::MAX,
                self@.scroll_left + vw <= usize::MAX,
                out@ == header + self@.screen_rows(cols as nat, row as nat),
            decreases cr - row,
        {
            self.push_screen_row(&mut out, cols, g, vw, row);
            row = row + 1;
        }
        out.append("\x1b[K");
        out.append(self.message.as_str());
        out.append("\n");
        let ghost body = out@;
        match self.menu {
            Some(m) => push_menu(&mut out, m, rows, cols),
            None => {},
        }
        let cursor_row = 3 + if self.cursor_line >= self.scroll_top {
            self.cursor_line - self.scroll_top
        } else {
            0
        };
        let cursor_col = g + 1 + if self.cursor_col >= self.scroll_left {
            self.cursor_col - self.scroll_left
        } else {
            0
        };
        push_goto(&mut out, cursor_row, cursor_col);
        out.append("\x1b[?25h");
        assert(out@ =~= self@.screen(rows as nat, cols as nat));
        out
    }
}


/// The rows of text on a screen of `rows` rows.
fn content_rows_of(rows: usize) -> (r: usize)
    ensures
        r == content_rows(rows as nat),
        r >= 1,
{
    if rows >= 4 {
        rows - 3
    } else {
        1
    }
}

/// Appends `n` spaces.
fn push_spaces(out: &mut String, n: usize)
    ensures
        final(out)@ == old(out)@ + spaces(n as nat),
{
    let mut i: usize = 0;
    while i < n
        invariant
            i <= n,
            out@ == old(out)@ + spaces(i as nat),
        decreases n - i,
    {
        push_char(out, ' ');
        assert(spaces((i + 1) as nat) =~= spaces(i as nat).push(' '));
        i = i + 1;
    }
}

/// Appends `s` right-aligned in a field of `width` characters.
fn push_pad_left(out: &mut String, s: &str, width: usize)
    ensures
        final(out)@ == old(out)@ + pad_left(s@, width as nat),
{
    let n = chars_of(s).len();
    if n < width {
        push_spaces(out, width - n);
    }
    out.append(s);
}

/// Appends `s` left-aligned in a field of `width` characters.
fn push_pad_right(out: &mut String, s: &str, width: usize)
    ensures
        final(out)@ == old(out)@ + pad_right(s@, width as nat),
{
    let n = chars_of(s).len();
    out.append(s);
    if n < width {
        push_spaces(out, width - n);
    }
}

/// Appends the escape sequence that moves the cursor to `row` and `col`.
fn push_goto(out: &mut String, row: usize, col: usize)
    ensures
        final(out)@ == old(out)@ + goto(row as nat, col as nat),
{
    out.append("\x1b[");
    push_decimal(out, row);
    out.append(";");
    push_decimal(out, col);
    out.append("H");
}

/// Appends item `row` of an open menu.
fn push_menu_row(out: &mut String, m: MenuState, cols: usize, width: usize, left: usize, row: usize)
    requires
        width == menu_width(cols as nat),
        left == menu_left(cols as nat),
        row < 16,
    ensures
        final(out)@ == old(out)@ + menu_row(m, cols as nat, row as nat),
{
    let count = snippet_count(m.menu);
    let mut text = String::from_str(
        if row == m.selected {
            "> "
        } else {
            "  "
        },
    );
    if row < count {
        text.append(snippet_label(m.menu, row));
    }
    push_goto(out, 3 + row + 1, left);
    if row == m.selected {
        out.append("\x1b[7m");
        push_pad_right(out, text.as_str(), width);
        out.append("\x1b[0m");
    } else {
        push_pad_right(out, text.as_str(), width);
    }
}

/// The width, height and left column of a menu of `count` items on a
/// screen of `rows` by `cols`.
fn menu_geometry(count: usize, rows: usize, cols: usize) -> (r: (usize, usize, usize))
    requires
        count <= 10,
    ensures
        r.0 == menu_width(cols as nat),
        r.1 == menu_height(count as nat, rows as nat),
        r.2 == menu_left(cols as nat),
        4 <= r.1 <= 14,
{
    let width = if cols >= 54 {
        54
    } else if cols >= 24 {
        cols
    } else {
        24
    };
    let room = if rows >= 2 {
        rows - 2
    } else {
        0
    };
    let fit = if count + 4 <= room {
        count + 4
    } else {
        room
    };
    let height = if fit >= 4 {
        fit
    } else {
        4
    };
    let left = (if cols >= width {
        cols - width
    } else {
        0
    }) / 2 + 1;
    (width, height, left)
}

/// Appends an open menu as drawn over the text.
#[verifier::rlimit(60)]
#[verifier::spinoff_prover]
fn push_menu(out: &mut String, m: MenuState, rows: usize, cols: usize)
    ensures
        final(out)@ == old(out)@ + menu_text(m, rows as nat, cols as nat),
{
    let (width, height, left) = menu_geometry(snippet_count(m.menu), rows, cols);
    let ghost start = out@;
    push_goto(out, 3, left);
    out.append("\x1b[7m");
    push_pad_right(out, menu_title(m.menu), width);
    out.append("\x1b[0m");
    let ghost head = out@;
    let mut row: usize = 0;
    while row < height - 2
        invariant
            row <= height - 2,
            height <= 14,
            width == menu_width(cols as nat),
            left == menu_left(cols as nat),
            out@ == head + menu_rows(m, cols as nat, row as nat),
        decreases height - 2 - row,
    {
        push_menu_row(out, m, cols, width, left, row);
        row = row + 1;
    }
    let ghost rows_done = out@;
    push_goto(out, 3 + height - 1, left);
    push_pad_right(out, "Enter insert  Esc cancel", width);
    let ghost title_bar = goto(3, left as nat) + "\x1b[7m"@ + pad_right(
        spec_menu_title(m.menu),
        width as nat,
    ) + "\x1b[0m"@;
    let ghost items = menu_rows(m, cols as nat, (height - 2) as nat);
    let ghost foot = goto((3 + height - 1) as nat, left as nat) + pad_right(
        "Enter insert  Esc cancel"@,
        width as nat,
    );
    assert(head =~= start + title_bar);
    assert(rows_done =~= start + title_bar + items);
    assert(out@ =~= start + (title_bar + items + foot));
}

/// The characters of `line` from index `a` up to `b`.
fn chars_range(line: &[char], a: usize, b: usize) -> (r: Vec<char>)
    requires
        a <= b <= line@.len(),
    ensures
        r@ == line@.subrange(a as int, b as int),
{
    let mut out: Vec<char> = Vec::new();
    let mut i: usize = a;
    while i < b
        invariant
            a <= i <= b <= line@.len(),
            out@ == line@.subrange(a as int, i as int),
        decreases b - i,
    {
        out.push(line[i]);
        assert(line@.subrange(a as int, i + 1) =~= line@.subrange(a as int, i as int).push(
            line@[i as int],
        ));
        i = i + 1;
    }
    out
}

} // verus!

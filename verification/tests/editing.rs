use glitchlisp::editor::{
    char_prev_byte_index, char_to_byte_index, checked_editor_index, editor_preview_source,
    first_scene_name, has_playback_command, has_top_level_playable, join_strings, read_form_token,
    scene_name_for_cursor, slice_by_chars, split_lines, top_level_forms, EditorBuffer, LineRange,
};
use glitchlisp::keys::{
    key_for_byte, menu_title, read_escape_sequence, snippet_count, snippet_label, snippet_text,
    EscapeStep, Key, MenuState, SnippetMenu,
};
use glitchlisp::session::{EditorAction, EditorApp};

fn lines(v: &[&str]) -> Vec<String> {
    v.iter().map(|s| s.to_string()).collect()
}

#[test]
fn buffer_lines_follow_str_lines() {
    let b = EditorBuffer::new(None, "a\r\nb\n\nc\n".to_string());
    assert_eq!(b.lines, lines(&["a", "b", "", "c"]));
    assert_eq!(b.source(), "a\nb\n\nc");
    let empty = EditorBuffer::new(None, String::new());
    assert!(empty.lines.is_empty());
    assert_eq!(split_lines("x\ny"), lines(&["x", "y"]));
    assert_eq!(join_strings(&lines(&["x", "y", "z"])), "x\ny\nz");
}

#[test]
fn buffer_line_commands() {
    let mut b = EditorBuffer::empty(Some("song.gl".to_string()));
    b.append("one");
    b.append("three");
    assert_eq!(b.insert(2, "two"), Ok(()));
    assert_eq!(b.replace(3, "THREE"), Ok(()));
    assert_eq!(b.lines, lines(&["one", "two", "THREE"]));
    assert_eq!(b.delete(1), Ok(()));
    assert_eq!(b.lines, lines(&["two", "THREE"]));
    assert_eq!(b.insert(4, "x"), Err("insert line must be between 1 and 3".to_string()));
    assert_eq!(b.replace(0, "x"), Err("replace line must be between 1 and 2".to_string()));
    assert_eq!(b.delete(3), Err("delete line must be between 1 and 2".to_string()));
    assert_eq!(b.path(), Some("song.gl"));
}

#[test]
fn buffer_ranges() {
    let b = EditorBuffer::new(None, "a\nb\nc".to_string());
    assert_eq!(b.range_source(LineRange { start: 2, end: 3 }), Ok("b\nc".to_string()));
    assert_eq!(
        b.range_source(LineRange { start: 3, end: 2 }),
        Err("run start line must be before end line".to_string())
    );
    assert_eq!(
        b.range_source(LineRange { start: 1, end: 4 }),
        Err("run line must be between 1 and 3".to_string())
    );
    let e = EditorBuffer::empty(None);
    assert_eq!(e.range_source(LineRange { start: 1, end: 1 }), Err("buffer is empty".to_string()));
    assert_eq!(checked_editor_index(1, 1, "run"), Ok(0));
}

#[test]
fn write_target_needs_a_path_once() {
    let mut b = EditorBuffer::empty(None);
    assert_eq!(b.write_target(None), Err("write requires a path the first time".to_string()));
    assert_eq!(b.write_target(Some("x.gl".to_string())), Ok("x.gl".to_string()));
    assert_eq!(b.write_target(None), Ok("x.gl".to_string()));
}

#[test]
fn form_tokens() {
    assert_eq!(read_form_token("(scene :intro)", 1), Some(("scene".to_string(), 6)));
    assert_eq!(read_form_token("(scene :intro)", 6), Some((":intro".to_string(), 13)));
    assert_eq!(read_form_token("(  (x)", 1), None);
    assert_eq!(read_form_token("   ", 0), None);
    assert_eq!(read_form_token("ab", 0), Some(("ab".to_string(), 2)));
}

#[test]
fn form_token_offsets_are_bytes() {
    let src = "(é abc)";
    assert_eq!(read_form_token(src, 1), Some(("é".to_string(), 3)));
    assert_eq!(read_form_token(src, 3), Some(("abc".to_string(), 7)));
    assert_eq!(read_form_token("(ünïcode)", 1), Some(("ünïcode".to_string(), 10)));
}

#[test]
fn top_level_forms_skip_strings_and_comments() {
    let src = "; (d :c)\n(scene :a\n  (d :k))\n(play-scene :a) \"(x)\"\n(d :b";
    let forms = top_level_forms(src);
    let heads: Vec<&str> = forms.iter().map(|f| f.head.as_str()).collect();
    assert_eq!(heads, vec!["scene", "play-scene", "d"]);
    assert_eq!(forms[0].first_arg.as_deref(), Some(":a"));
    assert_eq!((forms[0].start_line, forms[0].end_line), (1, 2));
    assert_eq!((forms[2].start_line, forms[2].end_line), (4, 4));
}

#[test]
fn forms_are_in_order_and_do_not_overlap() {
    let src = "(a 1)\n(b\n 2)\n(c)\n";
    let forms = top_level_forms(src);
    for pair in forms.windows(2) {
        assert!(pair[0].start_line <= pair[0].end_line);
        assert!(pair[0].end_line <= pair[1].start_line);
    }
}

#[test]
fn preview_source_adds_playback() {
    assert_eq!(editor_preview_source("(start!)"), "(start!)");
    assert_eq!(
        editor_preview_source(" (scene :intro (d :k)) \n"),
        "(scene :intro (d :k))\n\n(play-scene :intro)"
    );
    assert_eq!(editor_preview_source("(d :kick)\n"), "(d :kick)\n\n(start!)");
    assert_eq!(editor_preview_source("(bpm 120)"), "(bpm 120)");
    assert!(has_playback_command("(cue :a)"));
    assert!(!has_playback_command("(scene :a)"));
    assert!(has_top_level_playable("(sample :s)"));
    assert_eq!(first_scene_name("(block :b)"), Some("b".to_string()));
    assert_eq!(first_scene_name("(scene b)"), None);
}

#[test]
fn scene_for_cursor() {
    let src = lines(&["(scene :a", "  (d :k))", "", "(scene :b", "  (d :s))", "(play-scene :a)"]);
    assert_eq!(scene_name_for_cursor(&src, 0), Some("a".to_string()));
    assert_eq!(scene_name_for_cursor(&src, 4), Some("b".to_string()));
    assert_eq!(scene_name_for_cursor(&src, 5), Some("a".to_string()));
    let one = lines(&["(scene :only)", "", "", "", "", "", "(x)"]);
    assert_eq!(scene_name_for_cursor(&one, 6), Some("only".to_string()));
    let none = lines(&["(d :k)"]);
    assert_eq!(scene_name_for_cursor(&none, 0), None);
}

#[test]
fn char_indices() {
    assert_eq!(char_to_byte_index("héllo", 2), 3);
    assert_eq!(char_to_byte_index("héllo", 9), 6);
    assert_eq!(char_to_byte_index("abc", 0), 0);
    assert_eq!(char_prev_byte_index("héllo", 2), 1);
    assert_eq!(char_prev_byte_index("abc", 9), 0);
    assert_eq!(slice_by_chars("héllo", 1, 3), "él");
    assert_eq!(slice_by_chars("abc", 2, 1), "");
    assert_eq!(slice_by_chars("abc", 1, 10), "bc");
}

#[test]
fn keys_from_bytes() {
    assert_eq!(key_for_byte(b'\r'), Some(Key::Enter));
    assert_eq!(key_for_byte(b'\n'), Some(Key::Enter));
    assert_eq!(key_for_byte(0x7f), Some(Key::Backspace));
    assert_eq!(key_for_byte(0x08), Some(Key::Backspace));
    assert_eq!(key_for_byte(0x1b), None);
    assert_eq!(key_for_byte(0x11), Some(Key::Ctrl('q')));
    assert_eq!(key_for_byte(0x01), Some(Key::Ctrl('a')));
    assert_eq!(key_for_byte(b'x'), Some(Key::Char('x')));
    assert_eq!(key_for_byte(0xc3), Some(Key::Unknown));
}

#[test]
fn escape_sequences() {
    assert_eq!(read_escape_sequence(&[], true), EscapeStep::Done(Key::Esc));
    assert_eq!(read_escape_sequence(&[], false), EscapeStep::NeedByte);
    assert_eq!(read_escape_sequence(b"x", false), EscapeStep::Done(Key::Esc));
    assert_eq!(read_escape_sequence(b"[", false), EscapeStep::NeedByte);
    assert_eq!(read_escape_sequence(b"[", true), EscapeStep::Done(Key::Esc));
    assert_eq!(read_escape_sequence(b"[A", false), EscapeStep::Done(Key::Up));
    assert_eq!(read_escape_sequence(b"[B", false), EscapeStep::Done(Key::Down));
    assert_eq!(read_escape_sequence(b"[C", false), EscapeStep::Done(Key::Right));
    assert_eq!(read_escape_sequence(b"[D", false), EscapeStep::Done(Key::Left));
    assert_eq!(read_escape_sequence(b"OH", false), EscapeStep::Done(Key::Home));
    assert_eq!(read_escape_sequence(b"[F", false), EscapeStep::Done(Key::End));
    assert_eq!(read_escape_sequence(b"[3", false), EscapeStep::NeedByte);
    assert_eq!(read_escape_sequence(b"[3", true), EscapeStep::Done(Key::Unknown));
    assert_eq!(read_escape_sequence(b"[3~", false), EscapeStep::Done(Key::Delete));
    assert_eq!(read_escape_sequence(b"[3x", false), EscapeStep::Done(Key::Unknown));
    assert_eq!(read_escape_sequence(b"OA", false), EscapeStep::Done(Key::Unknown));
}

#[test]
fn snippet_menus() {
    assert_eq!(snippet_count(SnippetMenu::Oscillators), 7);
    assert_eq!(snippet_count(SnippetMenu::Effects), 10);
    assert_eq!(menu_title(SnippetMenu::Effects), "Effects");
    assert_eq!(snippet_label(SnippetMenu::Oscillators, 0), "kick-808");
    assert_eq!(snippet_label(SnippetMenu::Effects, 9), "fx vector");
    assert_eq!(snippet_text(SnippetMenu::Effects, 1), "(moog :cutoff 760 :res 0.55 :drive 0.10)");
}

fn app(text: &str) -> EditorApp {
    EditorApp::new(EditorBuffer::new(None, text.to_string()))
}

#[test]
fn typing_and_newlines() {
    let mut a = EditorApp::new(EditorBuffer::empty(None));
    a.insert_char('a');
    a.insert_char('b');
    a.move_left();
    a.insert_newline();
    assert_eq!(a.lines(), &lines(&["a", "b"])[..]);
    assert_eq!(a.cursor(), (1, 0));
    assert!(a.is_dirty());
    a.insert_text("x\nyz");
    assert_eq!(a.source(), "a\nx\nyzb");
    assert_eq!(a.cursor(), (2, 2));
}

#[test]
fn backspace_undoes_typing_and_splitting() {
    let mut a = app("héllo\nworld");
    a.move_right();
    a.move_right();
    a.insert_char('X');
    a.backspace();
    assert_eq!(a.source(), "héllo\nworld");
    assert_eq!(a.cursor(), (0, 2));
    a.insert_newline();
    a.backspace();
    assert_eq!(a.source(), "héllo\nworld");
    assert_eq!(a.cursor(), (0, 2));
}

#[test]
fn delete_and_joins() {
    let mut a = app("ab\ncd");
    a.move_end();
    a.delete_forward();
    assert_eq!(a.source(), "abcd");
    a.move_home();
    a.delete_forward();
    assert_eq!(a.source(), "bcd");
    a.move_down();
    a.move_end();
    a.delete_forward();
    assert_eq!(a.source(), "bcd");
    let mut b = app("ab\ncd");
    b.move_down();
    b.backspace();
    assert_eq!(b.source(), "abcd");
    assert_eq!(b.cursor(), (0, 2));
}

#[test]
fn cursor_moves_stay_on_the_text() {
    let mut a = app("long line\nab\n");
    a.move_end();
    assert_eq!(a.cursor(), (0, 9));
    a.move_down();
    assert_eq!(a.cursor(), (1, 2));
    a.move_up();
    assert_eq!(a.cursor(), (0, 2));
    a.move_right();
    a.move_left();
    assert_eq!(a.cursor(), (0, 2));
    a.move_home();
    a.move_left();
    assert_eq!(a.cursor(), (0, 0));
    a.move_down();
    a.move_left();
    assert_eq!(a.cursor(), (0, 9));
    a.move_right();
    assert_eq!(a.cursor(), (1, 0));
}

#[test]
fn block_selection() {
    let mut a = app("a\nb\nc\nd");
    a.move_down();
    a.move_down();
    a.toggle_block();
    assert_eq!(a.message(), "block start set at line 3");
    a.move_up();
    a.move_up();
    a.toggle_block();
    assert_eq!(a.message(), "block 1-3 active");
    assert_eq!(a.active_block(), Some(LineRange { start: 1, end: 3 }));
    assert_eq!(a.run_request(), Ok(("a\nb\nc".to_string(), true)));
    a.clear_block();
    assert_eq!(a.message(), "block cleared");
    assert_eq!(a.active_block(), None);
    assert_eq!(a.run_request(), Ok(("a\nb\nc\nd".to_string(), false)));
}

#[test]
fn keys_drive_the_editor() {
    let mut a = app("");
    assert_eq!(a.handle_key(Key::Char('z')), EditorAction::Continue);
    assert_eq!(a.handle_key(Key::Ctrl('s')), EditorAction::Save);
    assert_eq!(a.handle_key(Key::Ctrl('q')), EditorAction::Quit);
    assert_eq!(a.handle_key(Key::Ctrl('r')), EditorAction::Run);
    assert_eq!(a.handle_key(Key::Ctrl('p')), EditorAction::Cue);
    assert_eq!(a.handle_key(Key::Ctrl('b')), EditorAction::Loop);
    assert_eq!(a.handle_key(Key::Ctrl('x')), EditorAction::Stop);
    assert_eq!(a.handle_key(Key::Ctrl('l')), EditorAction::Continue);
    assert_eq!(a.message(), "refreshed");
    a.handle_key(Key::Esc);
    assert_eq!(a.message(), "escape");
    assert_eq!(a.source(), "z");
}

#[test]
fn snippet_menu_inserts_text() {
    let mut a = app("");
    a.handle_key(Key::Ctrl('e'));
    assert_eq!(a.menu(), Some(MenuState { menu: SnippetMenu::Effects, selected: 0 }));
    assert_eq!(a.message(), "Effects: arrows select, Enter insert, Esc cancel");
    a.handle_key(Key::Up);
    a.handle_key(Key::Down);
    a.handle_key(Key::Char('q'));
    assert_eq!(a.menu(), Some(MenuState { menu: SnippetMenu::Effects, selected: 1 }));
    a.handle_key(Key::Enter);
    assert_eq!(a.menu(), None);
    assert_eq!(a.message(), "inserted moog");
    assert_eq!(a.source(), "(moog :cutoff 760 :res 0.55 :drive 0.10)");
    a.handle_key(Key::Ctrl('o'));
    for _ in 0..20 {
        a.handle_key(Key::Down);
    }
    assert_eq!(a.menu(), Some(MenuState { menu: SnippetMenu::Oscillators, selected: 6 }));
    a.handle_key(Key::Ctrl('o'));
    assert_eq!(a.message(), "menu closed");
    assert_eq!(a.menu(), None);
}

#[test]
fn save_and_scene_helpers() {
    let mut a = app("(scene :intro\n  (d :k))");
    assert_eq!(a.save_path(), "mescript-session.gl");
    a.insert_char('x');
    a.mark_saved("out.gl".to_string());
    assert!(!a.is_dirty());
    assert_eq!(a.message(), "saved out.gl");
    assert_eq!(a.save_path(), "out.gl");
    assert_eq!(a.scene_near_cursor(), Ok("intro".to_string()));
    let b = app("(d :k)");
    assert_eq!(
        b.scene_near_cursor(),
        Err("put cursor on a (scene :name ...), (block :name ...), or (play-scene :name) line".to_string())
    );
}

#[test]
fn scrolling_keeps_the_cursor_on_screen() {
    let text: Vec<String> = (0..50).map(|i| format!("line {}", i)).collect();
    let mut a = app(&text.join("\n"));
    for _ in 0..30 {
        a.move_down();
    }
    a.ensure_cursor_visible(10, 40);
    assert_eq!(a.scroll(), (24, 0));
    assert_eq!(a.gutter_width(40), 3);
    for _ in 0..29 {
        a.move_up();
    }
    a.ensure_cursor_visible(10, 40);
    assert_eq!(a.scroll(), (1, 0));
}

#[test]
fn screen_rendering() {
    let mut a = app("ab\ncd");
    a.move_down();
    a.ensure_cursor_visible(5, 20);
    let help = "Ctrl-S save  Ctrl-R run  Ctrl-O osc  Ctrl-E fx  Ctrl-P cue  Ctrl-B loop  Ctrl-X stop  Ctrl-Q quit";
    let expected = format!(
        "\x1b[H\x1b[2J\x1b[?25lMeScript Native Editor   [unnamed]  line 2 col 1\n{}\n 1 ab\n\x1b[7m 2 cd\x1b[0m\n\x1b[K{}\n\x1b[4;4H\x1b[?25h",
        help, help
    );
    assert_eq!(a.render(5, 20), expected);
}

#[test]
fn menu_rendering() {
    let mut a = app("");
    a.handle_key(Key::Ctrl('o'));
    let screen = a.render(24, 80);
    assert!(screen.contains("\x1b[3;14H\x1b[7mOscillators"));
    assert!(screen.contains("\x1b[4;14H\x1b[7m> kick-808"));
    assert!(screen.contains("\x1b[5;14H  snare-808"));
    assert!(screen.contains("\x1b[13;14HEnter insert  Esc cancel"));
}

#[test]
fn edits_change_the_text_at_the_cursor() {
    let mut a = app("ab\ncd");
    a.move_down();
    a.move_right();
    a.insert_char('X');
    assert_eq!(a.source(), "ab\ncXd");
    a.insert_newline();
    assert_eq!(a.source(), "ab\ncX\nd");
    a.backspace();
    a.backspace();
    assert_eq!(a.source(), "ab\ncd");
    a.move_home();
    a.backspace();
    assert_eq!(a.source(), "abcd");
    a.delete_forward();
    assert_eq!(a.source(), "abd");
}

#[test]
fn source_round_trips_through_lines() {
    for s in ["", "one", "a\nb\nc", "(d :kick)\n\n(start!)", "x\n\ny"] {
        assert_eq!(EditorBuffer::new(None, s.to_string()).source(), s);
    }
}

#[test]
fn insert_then_delete_restores_lines() {
    let mut b = EditorBuffer::new(None, "a\nb\nc".to_string());
    let before = b.source();
    assert_eq!(b.insert(2, "new"), Ok(()));
    assert_eq!(b.source(), "a\nnew\nb\nc");
    assert_eq!(b.delete(2), Ok(()));
    assert_eq!(b.source(), before);
    assert_eq!(b.insert(4, "end"), Ok(()));
    assert_eq!(b.delete(4), Ok(()));
    assert_eq!(b.source(), before);
}

use text_editor::buffer::CursorPosition;
use text_editor::editor::Editor;
use text_editor::frame::{SearchInfo, Style};
use text_editor::keys::{Command, Effect, KeyCode, KeyPress};
use text_editor::state::Match;

fn editor_with(lines: &[&str]) -> Editor {
    let mut editor = Editor::new(Some((80, 24)));
    editor.replace_buffer(lines.iter().map(|line| line.to_string()).collect());
    editor
}

fn lines_of(editor: &Editor) -> Vec<String> {
    (0..editor.line_count()).map(|row| editor.line(row).unwrap()).collect()
}

fn type_text(editor: &mut Editor, text: &str) {
    for c in text.chars() {
        editor.insert_char(c);
    }
}

fn place(editor: &mut Editor, row: usize, col: usize) {
    while editor.cursor_position().y > 0 {
        editor.move_cursor_up();
    }
    while editor.cursor_position().x > 0 {
        editor.move_cursor_left();
    }
    for _ in 0..row {
        editor.move_cursor_down();
    }
    for _ in 0..col {
        editor.move_cursor_right();
    }
    assert_eq!(editor.cursor_position(), CursorPosition { x: col, y: row });
}

fn key(code: KeyCode) -> KeyPress {
    KeyPress { code, control: false }
}

fn control(c: char) -> KeyPress {
    KeyPress { code: KeyCode::Char(c), control: true }
}

#[test]
fn new_editor_has_one_empty_line() {
    let editor = Editor::new(Some((100, 40)));
    assert_eq!(editor.line_count(), 1);
    assert_eq!(editor.line(0), Some(String::new()));
    assert_eq!(editor.line(1), None);
    assert_eq!(editor.cursor_position(), CursorPosition { x: 0, y: 0 });
    assert_eq!(editor.scroll_offset(), 0);
    assert_eq!(editor.terminal_size(), (100, 40));
    assert!(!editor.should_quit());
    assert!(!editor.is_search_mode());
    assert_eq!(editor.filename(), None);
    assert_eq!(editor.status_message(), "Help: Ctrl-Q = quit, Ctrl-S = save, Ctrl-F = search");
    assert_eq!(editor.search_query(), "");
    assert!(editor.search_matches().is_empty());
    assert_eq!(editor.current_match(), 0);
}

#[test]
fn unknown_terminal_size_defaults_to_80_by_24() {
    let editor = Editor::new(None);
    assert_eq!(editor.terminal_size(), (80, 24));
    assert_eq!(editor.visible_height(), 22);
}

#[test]
fn terminal_size_updates_only_when_known() {
    let mut editor = Editor::new(None);
    editor.update_terminal_size(Some((120, 50)));
    assert_eq!(editor.terminal_size(), (120, 50));
    editor.update_terminal_size(None);
    assert_eq!(editor.terminal_size(), (120, 50));
    editor.update_terminal_size(Some((10, 1)));
    assert_eq!(editor.visible_height(), 0);
}

#[test]
fn typed_chars_go_in_at_the_cursor() {
    let mut editor = Editor::new(None);
    type_text(&mut editor, "helo");
    assert_eq!(editor.cursor_position(), CursorPosition { x: 4, y: 0 });
    editor.move_cursor_left();
    editor.insert_char('l');
    assert_eq!(lines_of(&editor), vec!["hello"]);
    assert_eq!(editor.cursor_position(), CursorPosition { x: 4, y: 0 });
}

#[test]
fn multi_byte_chars_count_as_one_column() {
    let mut editor = Editor::new(None);
    type_text(&mut editor, "жук");
    assert_eq!(editor.cursor_position(), CursorPosition { x: 3, y: 0 });
    editor.move_cursor_left();
    editor.insert_char('€');
    assert_eq!(lines_of(&editor), vec!["жу€к"]);
    editor.delete_char();
    editor.delete_char();
    assert_eq!(lines_of(&editor), vec!["жк"]);
    assert_eq!(editor.cursor_position(), CursorPosition { x: 1, y: 0 });
}

#[test]
fn backspace_removes_the_char_before_the_cursor() {
    let mut editor = editor_with(&["abc"]);
    place(&mut editor, 0, 2);
    editor.delete_char();
    assert_eq!(lines_of(&editor), vec!["ac"]);
    assert_eq!(editor.cursor_position(), CursorPosition { x: 1, y: 0 });
}

#[test]
fn backspace_at_line_start_joins_lines() {
    let mut editor = editor_with(&["abc", "de", "f"]);
    place(&mut editor, 1, 0);
    editor.delete_char();
    assert_eq!(lines_of(&editor), vec!["abcde", "f"]);
    assert_eq!(editor.cursor_position(), CursorPosition { x: 3, y: 0 });
}

#[test]
fn backspace_at_start_of_text_does_nothing() {
    let mut editor = editor_with(&["abc", "de"]);
    editor.delete_char();
    assert_eq!(lines_of(&editor), vec!["abc", "de"]);
    assert_eq!(editor.cursor_position(), CursorPosition { x: 0, y: 0 });
}

#[test]
fn enter_splits_the_line_at_the_cursor() {
    let mut editor = editor_with(&["hello world", "next"]);
    place(&mut editor, 0, 5);
    editor.insert_newline();
    assert_eq!(lines_of(&editor), vec!["hello", " world", "next"]);
    assert_eq!(editor.cursor_position(), CursorPosition { x: 0, y: 1 });
}

#[test]
fn enter_at_line_end_opens_an_empty_line() {
    let mut editor = editor_with(&["ab"]);
    place(&mut editor, 0, 2);
    editor.insert_newline();
    assert_eq!(lines_of(&editor), vec!["ab", ""]);
    assert_eq!(editor.cursor_position(), CursorPosition { x: 0, y: 1 });
}

#[test]
fn enter_then_backspace_restores_line_and_column() {
    for col in 0..=5 {
        let mut editor = editor_with(&["first", "hello", "last"]);
        place(&mut editor, 1, col);
        editor.insert_newline();
        assert_eq!(editor.line_count(), 4);
        editor.delete_char();
        assert_eq!(lines_of(&editor), vec!["first", "hello", "last"]);
        assert_eq!(editor.cursor_position(), CursorPosition { x: col, y: 1 });
    }
}

#[test]
fn edits_keep_the_cursor_in_bounds() {
    let mut editor = Editor::new(None);
    let script = "ab\x08\x08\x08\x08cd\nef\x08\x08\x08\x08\x08\x08gh\n\n\x08\x08\x08\x08\x08\x08\x08\x08";
    for c in script.chars() {
        match c {
            '\x08' => editor.delete_char(),
            '\n' => editor.insert_newline(),
            other => editor.insert_char(other),
        }
        let position = editor.cursor_position();
        assert!(editor.line_count() >= 1);
        assert!(position.y < editor.line_count());
        assert!(position.x <= editor.line(position.y).unwrap().chars().count());
    }
    assert_eq!(lines_of(&editor), vec![""]);
}

#[test]
fn left_at_line_start_goes_to_end_of_line_above() {
    let mut editor = editor_with(&["abc", "de"]);
    place(&mut editor, 1, 0);
    editor.move_cursor_left();
    assert_eq!(editor.cursor_position(), CursorPosition { x: 3, y: 0 });
    place(&mut editor, 0, 0);
    editor.move_cursor_left();
    assert_eq!(editor.cursor_position(), CursorPosition { x: 0, y: 0 });
}

#[test]
fn right_at_line_end_goes_to_start_of_line_below() {
    let mut editor = editor_with(&["abc", "de"]);
    place(&mut editor, 0, 3);
    editor.move_cursor_right();
    assert_eq!(editor.cursor_position(), CursorPosition { x: 0, y: 1 });
    place(&mut editor, 1, 2);
    editor.move_cursor_right();
    assert_eq!(editor.cursor_position(), CursorPosition { x: 2, y: 1 });
}

#[test]
fn up_and_down_clamp_the_column() {
    let mut editor = editor_with(&["a long line", "ab", "another long line"]);
    place(&mut editor, 0, 8);
    editor.move_cursor_down();
    assert_eq!(editor.cursor_position(), CursorPosition { x: 2, y: 1 });
    editor.move_cursor_down();
    assert_eq!(editor.cursor_position(), CursorPosition { x: 2, y: 2 });
    editor.move_cursor_down();
    assert_eq!(editor.cursor_position(), CursorPosition { x: 2, y: 2 });
    place(&mut editor, 2, 12);
    editor.move_cursor_up();
    assert_eq!(editor.cursor_position(), CursorPosition { x: 2, y: 1 });
    editor.move_cursor_up();
    editor.move_cursor_up();
    assert_eq!(editor.cursor_position(), CursorPosition { x: 2, y: 0 });
}

fn numbered(count: usize) -> Editor {
    let lines: Vec<String> = (0..count).map(|i| format!("line {}", i)).collect();
    let mut editor = Editor::new(Some((80, 12)));
    editor.replace_buffer(lines);
    editor
}

#[test]
fn scroll_follows_the_cursor_down_and_up() {
    let mut editor = numbered(30);
    assert_eq!(editor.visible_height(), 10);
    editor.update_scroll();
    assert_eq!(editor.scroll_offset(), 0);
    place(&mut editor, 9, 0);
    editor.update_scroll();
    assert_eq!(editor.scroll_offset(), 0);
    editor.move_cursor_down();
    editor.update_scroll();
    assert_eq!(editor.scroll_offset(), 1);
    place(&mut editor, 29, 0);
    editor.update_scroll();
    assert_eq!(editor.scroll_offset(), 20);
    place(&mut editor, 25, 0);
    editor.update_scroll();
    assert_eq!(editor.scroll_offset(), 20);
    place(&mut editor, 3, 0);
    editor.update_scroll();
    assert_eq!(editor.scroll_offset(), 3);
}

#[test]
fn scroll_stays_at_zero_for_a_short_text() {
    let mut editor = numbered(4);
    place(&mut editor, 3, 0);
    editor.update_scroll();
    assert_eq!(editor.scroll_offset(), 0);
}

#[test]
fn page_down_moves_view_and_cursor_by_one_screen() {
    let mut editor = numbered(35);
    place(&mut editor, 2, 6);
    editor.scroll_page_down();
    assert_eq!(editor.scroll_offset(), 10);
    assert_eq!(editor.cursor_position(), CursorPosition { x: 6, y: 12 });
    editor.scroll_page_down();
    editor.scroll_page_down();
    assert_eq!(editor.scroll_offset(), 25);
    assert_eq!(editor.cursor_position(), CursorPosition { x: 6, y: 32 });
    editor.scroll_page_down();
    assert_eq!(editor.scroll_offset(), 25);
    assert_eq!(editor.cursor_position(), CursorPosition { x: 6, y: 34 });
}

#[test]
fn page_up_clamps_at_the_top() {
    let mut editor = numbered(35);
    editor.scroll_page_down();
    editor.scroll_page_down();
    assert_eq!(editor.scroll_offset(), 20);
    assert_eq!(editor.cursor_position().y, 20);
    editor.scroll_page_up();
    assert_eq!(editor.scroll_offset(), 10);
    assert_eq!(editor.cursor_position().y, 10);
    editor.move_cursor_up();
    editor.move_cursor_up();
    editor.move_cursor_up();
    editor.update_scroll();
    assert_eq!(editor.scroll_offset(), 7);
    editor.scroll_page_up();
    assert_eq!(editor.scroll_offset(), 0);
    assert_eq!(editor.cursor_position().y, 0);
}

#[test]
fn paging_a_short_text_keeps_the_view_at_the_top() {
    let mut editor = numbered(5);
    editor.scroll_page_down();
    assert_eq!(editor.scroll_offset(), 0);
    assert_eq!(editor.cursor_position().y, 4);
    editor.scroll_page_up();
    assert_eq!(editor.scroll_offset(), 0);
    assert_eq!(editor.cursor_position().y, 0);
}

#[test]
fn paging_clamps_the_column() {
    let mut editor = editor_with(&["a very long first line", "b", "c", "d"]);
    editor.update_terminal_size(Some((80, 4)));
    place(&mut editor, 0, 15);
    editor.scroll_page_down();
    assert_eq!(editor.cursor_position(), CursorPosition { x: 1, y: 2 });
}

#[test]
fn search_mode_starts_empty_and_ends_clean() {
    let mut editor = editor_with(&["abc abc"]);
    editor.enter_search_mode();
    assert!(editor.is_search_mode());
    assert_eq!(editor.status_message(), "Search mode: Type to search, Enter to exit");
    editor.search_input('b');
    assert_eq!(editor.search_matches().len(), 2);
    editor.exit_search_mode();
    assert!(!editor.is_search_mode());
    assert!(editor.search_matches().is_empty());
    assert_eq!(editor.search_query(), "");
    assert_eq!(editor.current_match(), 0);
    assert_eq!(editor.status_message(), "Help: Ctrl-Q = quit, Ctrl-S = save, Ctrl-F = search");
}

#[test]
fn search_finds_matches_line_by_line() {
    let mut editor = editor_with(&["one two", "none", "two one one"]);
    editor.enter_search_mode();
    for c in "one".chars() {
        editor.search_input(c);
    }
    assert_eq!(
        editor.search_matches(),
        &[
            Match { line: 0, start: 0, end: 3 },
            Match { line: 1, start: 1, end: 4 },
            Match { line: 2, start: 4, end: 7 },
            Match { line: 2, start: 8, end: 11 },
        ]
    );
    assert_eq!(editor.current_match(), 0);
    assert_eq!(editor.cursor_position(), CursorPosition { x: 0, y: 0 });
}

#[test]
fn search_in_buffer_does_not_overlap() {
    let mut editor = editor_with(&["aaa", "aaaa"]);
    editor.enter_search_mode();
    editor.search_input('a');
    editor.search_input('a');
    assert_eq!(
        editor.search_matches(),
        &[
            Match { line: 0, start: 0, end: 2 },
            Match { line: 1, start: 0, end: 2 },
            Match { line: 1, start: 2, end: 4 },
        ]
    );
}

#[test]
fn search_is_case_sensitive_in_the_buffer() {
    let mut editor = editor_with(&["Hello hello"]);
    editor.enter_search_mode();
    for c in "hello".chars() {
        editor.search_input(c);
    }
    assert_eq!(editor.search_matches(), &[Match { line: 0, start: 6, end: 11 }]);
    assert_eq!(editor.cursor_position(), CursorPosition { x: 6, y: 0 });
}

#[test]
fn search_moves_the_cursor_to_the_first_match() {
    let mut editor = editor_with(&["abc", "xyz", "..x"]);
    editor.enter_search_mode();
    editor.search_input('x');
    assert_eq!(editor.cursor_position(), CursorPosition { x: 0, y: 1 });
    editor.search_input('q');
    assert!(editor.search_matches().is_empty());
    assert_eq!(editor.cursor_position(), CursorPosition { x: 0, y: 1 });
}

#[test]
fn search_backspace_shortens_the_query() {
    let mut editor = editor_with(&["ab a"]);
    editor.enter_search_mode();
    editor.search_input('a');
    editor.search_input('b');
    assert_eq!(editor.search_matches().len(), 1);
    editor.search_backspace();
    assert_eq!(editor.search_query(), "a");
    assert_eq!(editor.search_matches().len(), 2);
    editor.search_backspace();
    assert_eq!(editor.search_query(), "");
    assert!(editor.search_matches().is_empty());
    editor.search_backspace();
    assert_eq!(editor.search_query(), "");
}

#[test]
fn perform_search_with_an_empty_query_finds_nothing() {
    let mut editor = editor_with(&["abc", ""]);
    editor.perform_search();
    assert!(editor.search_matches().is_empty());
    assert_eq!(editor.current_match(), 0);
}

#[test]
fn next_match_cycles_through_all_matches() {
    let mut editor = editor_with(&["x.x", "..x"]);
    editor.enter_search_mode();
    editor.search_input('x');
    assert_eq!(editor.search_matches().len(), 3);
    editor.find_next_match();
    assert_eq!(editor.current_match(), 1);
    assert_eq!(editor.cursor_position(), CursorPosition { x: 2, y: 0 });
    editor.find_next_match();
    assert_eq!(editor.cursor_position(), CursorPosition { x: 2, y: 1 });
    editor.find_next_match();
    assert_eq!(editor.current_match(), 0);
    assert_eq!(editor.cursor_position(), CursorPosition { x: 0, y: 0 });
    editor.find_next_match();
    let start = editor.current_match();
    for _ in 0..editor.search_matches().len() {
        editor.find_next_match();
    }
    assert_eq!(editor.current_match(), start);
}

#[test]
fn previous_match_wraps_to_the_last() {
    let mut editor = editor_with(&["x.x", "..x"]);
    editor.enter_search_mode();
    editor.search_input('x');
    editor.find_previous_match();
    assert_eq!(editor.current_match(), 2);
    assert_eq!(editor.cursor_position(), CursorPosition { x: 2, y: 1 });
    editor.find_previous_match();
    assert_eq!(editor.current_match(), 1);
}

#[test]
fn stepping_without_matches_changes_nothing() {
    let mut editor = editor_with(&["abc"]);
    place(&mut editor, 0, 2);
    editor.find_next_match();
    editor.find_previous_match();
    assert_eq!(editor.current_match(), 0);
    assert_eq!(editor.cursor_position(), CursorPosition { x: 2, y: 0 });
}

#[test]
fn jump_reports_the_target_or_refuses() {
    let mut editor = editor_with(&["a.a", "a"]);
    editor.enter_search_mode();
    editor.search_input('a');
    assert_eq!(editor.jump_to_match(2), Some(CursorPosition { x: 0, y: 1 }));
    assert_eq!(editor.current_match(), 2);
    assert_eq!(editor.cursor_position(), CursorPosition { x: 0, y: 1 });
    assert_eq!(editor.jump_to_match(3), None);
    assert_eq!(editor.current_match(), 2);
    assert_eq!(editor.cursor_position(), CursorPosition { x: 0, y: 1 });
    assert_eq!(editor.jump_to_match(usize::MAX), None);
    assert_eq!(editor.jump_to_match(1), Some(CursorPosition { x: 2, y: 0 }));
}

#[test]
fn editing_keeps_the_matches_until_the_next_search() {
    let mut editor = editor_with(&["aa"]);
    editor.enter_search_mode();
    editor.search_input('a');
    let found = [Match { line: 0, start: 0, end: 1 }, Match { line: 0, start: 1, end: 2 }];
    assert_eq!(editor.search_matches(), &found);
    editor.find_next_match();
    assert_eq!(editor.current_match(), 1);
    assert_eq!(editor.cursor_position(), CursorPosition { x: 1, y: 0 });
    editor.insert_char('b');
    assert_eq!(editor.search_matches(), &found);
    assert_eq!(editor.current_match(), 1);
    assert_eq!(editor.search_query(), "a");
    assert_eq!(editor.scroll_offset(), 0);
    assert!(editor.is_search_mode());
    assert_eq!(lines_of(&editor), vec!["aba"]);
    assert_eq!(editor.cursor_position(), CursorPosition { x: 2, y: 0 });
    editor.insert_newline();
    assert_eq!(editor.search_matches(), &found);
    assert_eq!(editor.current_match(), 1);
    editor.delete_char();
    editor.delete_char();
    assert_eq!(editor.search_matches(), &found);
    assert_eq!(editor.current_match(), 1);
    assert_eq!(lines_of(&editor), vec!["aa"]);
    editor.insert_char('b');
    editor.perform_search();
    assert_eq!(
        editor.search_matches(),
        &[Match { line: 0, start: 0, end: 1 }, Match { line: 0, start: 2, end: 3 }]
    );
    assert_eq!(editor.current_match(), 0);
    assert_eq!(editor.cursor_position(), CursorPosition { x: 0, y: 0 });
}

#[test]
fn a_match_that_left_the_buffer_is_not_jumped_to() {
    let mut editor = editor_with(&["ab", "xxxa"]);
    editor.enter_search_mode();
    editor.search_input('a');
    assert_eq!(
        editor.search_matches(),
        &[Match { line: 0, start: 0, end: 1 }, Match { line: 1, start: 3, end: 4 }]
    );
    place(&mut editor, 1, 0);
    editor.delete_char();
    assert_eq!(lines_of(&editor), vec!["abxxxa"]);
    assert_eq!(editor.search_matches().len(), 2);
    assert_eq!(editor.jump_to_match(1), None);
    assert_eq!(editor.current_match(), 0);
    assert_eq!(editor.cursor_position(), CursorPosition { x: 2, y: 0 });
    editor.find_next_match();
    assert_eq!(editor.current_match(), 1);
    assert_eq!(editor.cursor_position(), CursorPosition { x: 2, y: 0 });
    editor.find_next_match();
    assert_eq!(editor.current_match(), 0);
    assert_eq!(editor.cursor_position(), CursorPosition { x: 0, y: 0 });
    editor.find_previous_match();
    assert_eq!(editor.current_match(), 1);
    assert_eq!(editor.cursor_position(), CursorPosition { x: 0, y: 0 });
}

#[test]
fn a_match_past_the_end_of_its_line_is_not_jumped_to() {
    let mut editor = editor_with(&["xxxxa"]);
    editor.enter_search_mode();
    editor.search_input('a');
    assert_eq!(editor.search_matches(), &[Match { line: 0, start: 4, end: 5 }]);
    place(&mut editor, 0, 5);
    editor.delete_char();
    editor.delete_char();
    assert_eq!(lines_of(&editor), vec!["xxx"]);
    assert_eq!(editor.jump_to_match(0), None);
    assert_eq!(editor.cursor_position(), CursorPosition { x: 3, y: 0 });
    editor.insert_char('y');
    assert_eq!(editor.jump_to_match(0), Some(CursorPosition { x: 4, y: 0 }));
    assert_eq!(editor.cursor_position(), CursorPosition { x: 4, y: 0 });
}

#[test]
fn stale_matches_are_drawn_where_they_still_fit() {
    let mut editor = editor_with(&["abcabc"]);
    editor.enter_search_mode();
    editor.search_input('b');
    place(&mut editor, 0, 6);
    editor.delete_char();
    editor.delete_char();
    assert_eq!(lines_of(&editor), vec!["abca"]);
    let frame = editor.refresh_screen();
    assert_eq!(
        texts(&frame.lines[0]),
        vec![
            ("a".to_string(), Style::Plain),
            ("b".to_string(), Style::CurrentMatch),
            ("ca".to_string(), Style::Plain),
        ]
    );
    assert_eq!(frame.status.match_count, 2);
}

#[test]
fn normal_keys_edit_and_move() {
    let mut editor = Editor::new(None);
    assert_eq!(editor.process_keypress(key(KeyCode::Char('a'))), Effect::Done);
    editor.process_keypress(key(KeyCode::Char('b')));
    editor.process_keypress(key(KeyCode::Enter));
    editor.process_keypress(control('x'));
    assert_eq!(lines_of(&editor), vec!["ab", "x"]);
    editor.process_keypress(key(KeyCode::Backspace));
    editor.process_keypress(key(KeyCode::Backspace));
    assert_eq!(lines_of(&editor), vec!["ab"]);
    editor.process_keypress(key(KeyCode::Left));
    assert_eq!(editor.cursor_position(), CursorPosition { x: 1, y: 0 });
    editor.process_keypress(key(KeyCode::Right));
    editor.process_keypress(key(KeyCode::Up));
    editor.process_keypress(key(KeyCode::Down));
    editor.process_keypress(key(KeyCode::Esc));
    editor.process_keypress(key(KeyCode::Other));
    assert_eq!(editor.cursor_position(), CursorPosition { x: 2, y: 0 });
    assert_eq!(lines_of(&editor), vec!["ab"]);
}

#[test]
fn control_keys_quit_save_and_search() {
    let mut editor = Editor::new(None);
    assert_eq!(editor.process_keypress(control('s')), Effect::Save);
    assert!(!editor.should_quit());
    assert_eq!(editor.process_keypress(control('f')), Effect::Done);
    assert!(editor.is_search_mode());
    editor.process_keypress(key(KeyCode::Esc));
    assert!(!editor.is_search_mode());
    assert_eq!(editor.process_keypress(control('q')), Effect::Done);
    assert!(editor.should_quit());
    assert_eq!(lines_of(&editor), vec![""]);
}

#[test]
fn search_keys_build_the_query() {
    let mut editor = editor_with(&["say hi, hi"]);
    editor.process_keypress(control('f'));
    editor.process_keypress(key(KeyCode::Char('h')));
    editor.process_keypress(key(KeyCode::Char('i')));
    editor.process_keypress(control('q'));
    assert!(!editor.should_quit());
    assert_eq!(editor.search_query(), "hiq");
    editor.process_keypress(key(KeyCode::Backspace));
    assert_eq!(editor.search_query(), "hi");
    assert_eq!(editor.search_matches().len(), 2);
    assert_eq!(lines_of(&editor), vec!["say hi, hi"]);
    editor.process_keypress(control('f'));
    assert_eq!(editor.current_match(), 1);
    editor.process_keypress(key(KeyCode::Left));
    editor.process_keypress(key(KeyCode::PageDown));
    assert_eq!(editor.cursor_position(), CursorPosition { x: 8, y: 0 });
    editor.process_keypress(key(KeyCode::Enter));
    assert!(!editor.is_search_mode());
    assert_eq!(lines_of(&editor), vec!["say hi, hi"]);
}

#[test]
fn commands_can_be_applied_directly() {
    let mut editor = editor_with(&["ab", "cd"]);
    assert_eq!(editor.apply(Command::ArrowDown), Effect::Done);
    assert_eq!(editor.apply(Command::ArrowRight), Effect::Done);
    assert_eq!(editor.apply(Command::InsertChar('x')), Effect::Done);
    assert_eq!(lines_of(&editor), vec!["ab", "cxd"]);
    assert_eq!(editor.apply(Command::ToggleSearch), Effect::Done);
    assert!(editor.is_search_mode());
    editor.apply(Command::SearchInput('x'));
    editor.apply(Command::SearchNext);
    editor.apply(Command::SearchPrevious);
    assert_eq!(editor.search_matches().len(), 1);
    editor.apply(Command::SearchBackspace);
    assert_eq!(editor.search_query(), "");
    editor.apply(Command::ToggleSearch);
    assert!(!editor.is_search_mode());
    editor.apply(Command::PageUp);
    editor.apply(Command::PageDown);
    editor.apply(Command::ArrowUp);
    editor.apply(Command::ArrowLeft);
    editor.apply(Command::Backspace);
    editor.apply(Command::Enter);
    editor.apply(Command::ExitSearch);
    assert_eq!(editor.apply(Command::Save), Effect::Save);
    assert_eq!(editor.apply(Command::Quit), Effect::Done);
    assert!(editor.should_quit());
}

#[test]
fn loading_no_lines_gives_one_empty_line() {
    let mut editor = editor_with(&["abc", "def"]);
    place(&mut editor, 1, 2);
    editor.replace_buffer(Vec::new());
    assert_eq!(lines_of(&editor), vec![""]);
    assert_eq!(editor.cursor_position(), CursorPosition { x: 0, y: 0 });
}

#[test]
fn opening_an_empty_file_gives_one_empty_line() {
    let editor = Editor::new(None).open_file("empty.txt", "");
    assert_eq!(editor.line_count(), 1);
    assert_eq!(editor.line(0), Some(String::new()));
    assert_eq!(editor.filename(), Some("empty.txt".to_string()));
    assert_eq!(editor.status_message(), "Opened empty.txt");
}

#[test]
fn opening_a_file_splits_its_lines() {
    let editor = Editor::new(None).open_file("notes.txt", "one\ntwo\r\n\nfour\n");
    assert_eq!(lines_of(&editor), vec!["one", "two", "", "four"]);
    let editor = Editor::new(None).open_file("notes.txt", "one\ntwo\r");
    assert_eq!(lines_of(&editor), vec!["one", "two\r"]);
    let editor = Editor::new(None).open_file("notes.txt", "\n");
    assert_eq!(lines_of(&editor), vec![""]);
    let editor = Editor::new(None).open_file("notes.txt", "a\r\r\nb");
    assert_eq!(lines_of(&editor), vec!["a\r", "b"]);
}

#[test]
fn loading_resets_cursor_view_and_search() {
    let mut editor = numbered(40);
    editor.scroll_page_down();
    editor.enter_search_mode();
    editor.search_input('1');
    assert!(!editor.search_matches().is_empty());
    editor.replace_buffer(vec!["x".to_string()]);
    assert_eq!(editor.cursor_position(), CursorPosition { x: 0, y: 0 });
    assert_eq!(editor.scroll_offset(), 0);
    assert!(editor.search_matches().is_empty());
    assert_eq!(editor.search_query(), "");
}

#[test]
fn text_joins_lines_with_line_feeds() {
    let editor = editor_with(&["one", "", "three"]);
    assert_eq!(editor.to_text(), "one\n\nthree");
    assert_eq!(Editor::new(None).to_text(), "");
    assert_eq!(editor_with(&["only"]).to_text(), "only");
    assert_eq!(editor_with(&["a", ""]).to_text(), "a\n");
}

#[test]
fn saving_names_the_file_and_reports() {
    let mut editor = editor_with(&["a", "b"]);
    let request = editor.begin_save();
    assert_eq!(request.filename, "output.txt");
    assert_eq!(request.content, "a\nb");
    assert_eq!(editor.filename(), Some("output.txt".to_string()));
    assert_eq!(editor.status_message(), "Help: Ctrl-Q = quit, Ctrl-S = save, Ctrl-F = search");
    editor.finish_save();
    assert_eq!(editor.status_message(), "Saved to output.txt");

    let mut editor = Editor::new(None).open_file("story.txt", "once");
    let request = editor.begin_save();
    assert_eq!(request.filename, "story.txt");
    assert_eq!(request.content, "once");
    editor.finish_save();
    assert_eq!(editor.status_message(), "Saved to story.txt");
    assert_eq!(editor.filename(), Some("story.txt".to_string()));
}

fn texts(line: &[text_editor::frame::Segment]) -> Vec<(String, Style)> {
    line.iter().map(|segment| (segment.text.clone(), segment.style)).collect()
}

#[test]
fn frame_shows_the_window_of_lines() {
    let mut editor = numbered(30);
    place(&mut editor, 14, 3);
    let frame = editor.refresh_screen();
    assert_eq!(editor.scroll_offset(), 5);
    assert_eq!(frame.lines.len(), 10);
    assert_eq!(texts(&frame.lines[0]), vec![("line 5".to_string(), Style::Plain)]);
    assert_eq!(texts(&frame.lines[9]), vec![("line 14".to_string(), Style::Plain)]);
    assert_eq!(frame.cursor, Some(CursorPosition { x: 3, y: 9 }));
    assert!(frame.search.is_none());
    assert_eq!(frame.status.current_line, 14);
    assert_eq!(frame.status.total_lines, 30);
    assert_eq!(frame.status.current_column, 3);
    assert_eq!(frame.status.scroll_offset, 5);
    assert_eq!(frame.status.match_count, 0);
    assert_eq!(frame.status.current_match_ordinal, 0);
}

#[test]
fn frame_of_a_short_text_shows_all_lines() {
    let mut editor = editor_with(&["a", "", "c"]);
    let frame = editor.refresh_screen();
    assert_eq!(frame.lines.len(), 3);
    assert_eq!(texts(&frame.lines[0]), vec![("a".to_string(), Style::Plain)]);
    assert!(frame.lines[1].is_empty());
    assert_eq!(frame.cursor, Some(CursorPosition { x: 0, y: 0 }));
}

#[test]
fn frame_without_text_rows_hides_the_cursor() {
    let mut editor = editor_with(&["a", "b"]);
    editor.update_terminal_size(Some((80, 2)));
    let frame = editor.refresh_screen();
    assert!(frame.lines.is_empty());
    assert_eq!(frame.cursor, None);
    assert_eq!(editor.scroll_offset(), 1);
}

#[test]
fn frame_highlights_matches_and_the_current_one() {
    let mut editor = editor_with(&["abcabc", "xx", "cab"]);
    editor.enter_search_mode();
    editor.search_input('a');
    editor.search_input('b');
    editor.find_next_match();
    let frame = editor.refresh_screen();
    assert_eq!(
        texts(&frame.lines[0]),
        vec![
            ("ab".to_string(), Style::Match),
            ("c".to_string(), Style::Plain),
            ("ab".to_string(), Style::CurrentMatch),
            ("c".to_string(), Style::Plain),
        ]
    );
    assert_eq!(texts(&frame.lines[1]), vec![("xx".to_string(), Style::Plain)]);
    assert_eq!(
        texts(&frame.lines[2]),
        vec![("c".to_string(), Style::Plain), ("ab".to_string(), Style::Match)]
    );
    let prompt = frame.search.unwrap();
    assert_eq!(prompt.query, "ab");
    assert_eq!(prompt.info, SearchInfo::Matches { count: 3, current: 2 });
    assert_eq!(frame.status.match_count, 3);
    assert_eq!(frame.status.current_match_ordinal, 2);
    for (row, line) in frame.lines.iter().enumerate() {
        let joined: String = line.iter().map(|segment| segment.text.as_str()).collect();
        assert_eq!(Some(joined), editor.line(row));
    }
}

#[test]
fn search_prompt_tells_the_three_states() {
    let mut editor = editor_with(&["abc"]);
    assert!(editor.search_prompt().is_none());
    editor.enter_search_mode();
    let prompt = editor.search_prompt().unwrap();
    assert_eq!(prompt.query, "");
    assert_eq!(prompt.info, SearchInfo::Blank);
    editor.search_input('z');
    assert_eq!(editor.search_prompt().unwrap().info, SearchInfo::NoMatches);
    editor.search_backspace();
    editor.search_input('c');
    assert_eq!(editor.search_prompt().unwrap().info, SearchInfo::Matches { count: 1, current: 1 });
}

#[test]
fn scroll_never_passes_the_last_full_screen_from_a_valid_offset() {
    let mut editor = numbered(30);
    for row in [0usize, 9, 10, 15, 29, 20, 19, 5, 29, 0] {
        place(&mut editor, row, 0);
        editor.update_scroll();
        assert!(editor.scroll_offset() <= 30 - 10);
        assert!(editor.scroll_offset() <= row);
        assert!(row < editor.scroll_offset() + 10);
    }
}

#[test]
fn scroll_follows_the_cursor_above_a_stale_offset() {
    let mut editor = numbered(40);
    place(&mut editor, 39, 0);
    editor.update_scroll();
    assert_eq!(editor.scroll_offset(), 30);
    for _ in 0..10 {
        while editor.cursor_position().x > 0 {
            editor.move_cursor_left();
        }
        editor.delete_char();
    }
    assert_eq!(editor.line_count(), 30);
    assert_eq!(editor.cursor_position().y, 29);
    assert_eq!(editor.scroll_offset(), 30);
    editor.update_scroll();
    assert_eq!(editor.scroll_offset(), 29);
}

#[test]
fn scroll_with_no_text_rows_goes_past_the_cursor() {
    let mut editor = numbered(5);
    editor.update_terminal_size(Some((80, 0)));
    place(&mut editor, 3, 0);
    editor.update_scroll();
    assert_eq!(editor.scroll_offset(), 4);
}

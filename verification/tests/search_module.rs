use text_editor::search_module::{PanelInput, SearchModule, SearchPanelResult, ShortcutKeys};

fn module_with(query: &str, case_sensitive: bool) -> SearchModule {
    let mut module = SearchModule::new();
    module.search_text = query.to_string();
    module.case_sensitive = case_sensitive;
    module
}

#[test]
fn new_module_is_empty_and_hidden() {
    let module = SearchModule::new();
    assert_eq!(module.search_text, "");
    assert!(!module.case_sensitive);
    assert!(!module.show_search);
    assert!(module.get_matches().is_empty());
    assert_eq!(module.get_current_match_index(), 0);
    assert!(!module.focus_search_field);
    assert_eq!(module.get_current_match_position(), None);
}

#[test]
fn default_module_equals_new() {
    let module = SearchModule::default();
    assert_eq!(module.search_text, "");
    assert!(!module.show_search);
    assert!(module.get_matches().is_empty());
}

#[test]
fn empty_query_matches_nothing() {
    let mut module = module_with("", true);
    module.search_in_text("some text with  spaces");
    assert!(module.get_matches().is_empty());
    let mut module = module_with("", false);
    module.search_in_text("some text with  spaces");
    assert!(module.get_matches().is_empty());
    module.search_in_text("");
    assert!(module.get_matches().is_empty());
}

#[test]
fn overlapping_occurrences_are_reported_once() {
    let mut module = module_with("aa", true);
    module.search_in_text("aaa");
    assert_eq!(module.get_matches(), &[(0, 2)]);
}

#[test]
fn four_letters_hold_two_disjoint_pairs() {
    let mut module = module_with("aa", true);
    module.search_in_text("aaaa");
    assert_eq!(module.get_matches(), &[(0, 2), (2, 4)]);
}

#[test]
fn case_insensitive_search_finds_all_spellings() {
    let mut module = module_with("hello", false);
    module.search_in_text("Hello hello HELLO");
    assert_eq!(module.get_matches(), &[(0, 5), (6, 11), (12, 17)]);
    assert_eq!(module.get_current_match_index(), 0);
}

#[test]
fn case_insensitive_search_lowers_the_query_too() {
    let mut module = module_with("HeLLo", false);
    module.search_in_text("say hello");
    assert_eq!(module.get_matches(), &[(4, 9)]);
}

#[test]
fn case_sensitive_search_keeps_case() {
    let mut module = module_with("hello", true);
    module.search_in_text("Hello hello HELLO");
    assert_eq!(module.get_matches(), &[(6, 11)]);
}

#[test]
fn spans_count_chars_not_bytes() {
    let mut module = module_with("мир", true);
    module.search_in_text("привет мир, мир!");
    assert_eq!(module.get_matches(), &[(7, 10), (12, 15)]);
}

#[test]
fn query_longer_than_text_matches_nothing() {
    let mut module = module_with("abcdef", true);
    module.search_in_text("abc");
    assert!(module.get_matches().is_empty());
}

#[test]
fn search_resets_the_current_match() {
    let mut module = module_with("a", true);
    module.search_in_text("a a a");
    module.next_match();
    module.next_match();
    assert_eq!(module.get_current_match_index(), 2);
    module.search_in_text("a a");
    assert_eq!(module.get_current_match_index(), 0);
    assert_eq!(module.get_matches(), &[(0, 1), (2, 3)]);
}

#[test]
fn next_match_cycles_back_to_the_start() {
    let mut module = module_with("ab", true);
    module.search_in_text("ab ab ab ab");
    assert_eq!(module.get_matches().len(), 4);
    module.next_match();
    assert_eq!(module.get_current_match_index(), 1);
    let start = module.get_current_match_index();
    for _ in 0..module.get_matches().len() {
        module.next_match();
    }
    assert_eq!(module.get_current_match_index(), start);
}

#[test]
fn next_match_wraps_after_the_last() {
    let mut module = module_with("x", true);
    module.search_in_text("x x x");
    module.next_match();
    module.next_match();
    assert_eq!(module.get_current_match_index(), 2);
    module.next_match();
    assert_eq!(module.get_current_match_index(), 0);
}

#[test]
fn previous_match_wraps_before_the_first() {
    let mut module = module_with("x", true);
    module.search_in_text("x x x");
    module.previous_match();
    assert_eq!(module.get_current_match_index(), 2);
    module.previous_match();
    assert_eq!(module.get_current_match_index(), 1);
}

#[test]
fn stepping_without_matches_does_nothing() {
    let mut module = module_with("zzz", true);
    module.search_in_text("abc");
    module.next_match();
    assert_eq!(module.get_current_match_index(), 0);
    module.previous_match();
    assert_eq!(module.get_current_match_index(), 0);
    assert_eq!(module.get_current_match_position(), None);
}

#[test]
fn current_match_position_follows_the_index() {
    let mut module = module_with("is", true);
    module.search_in_text("this is it");
    assert_eq!(module.get_current_match_position(), Some((2, 4)));
    module.next_match();
    assert_eq!(module.get_current_match_position(), Some((5, 7)));
}

fn shown_module(query: &str, case_sensitive: bool) -> SearchModule {
    let mut module = SearchModule::new();
    module.case_sensitive = case_sensitive;
    module.toggle_search();
    module.search_text = query.to_string();
    module
}

#[test]
fn toggle_shows_then_hides_and_clears() {
    let mut module = module_with("a", true);
    module.toggle_search();
    assert!(module.show_search);
    assert!(module.focus_search_field);
    assert_eq!(module.search_text, "");
    assert!(module.case_sensitive);
    module.search_text = "a".to_string();
    module.search_in_text("banana");
    module.next_match();
    assert_eq!(module.get_matches().len(), 3);
    module.toggle_search();
    assert!(!module.show_search);
    assert_eq!(module.search_text, "");
    assert!(module.get_matches().is_empty());
    assert_eq!(module.get_current_match_index(), 0);
}

#[test]
fn showing_the_panel_starts_with_an_empty_search() {
    let mut module = module_with("stale", false);
    module.search_in_text("a stale text, stale indeed");
    module.next_match();
    assert_eq!(module.get_matches().len(), 2);
    assert_eq!(module.get_current_match_index(), 1);
    module.toggle_search();
    assert!(module.show_search);
    assert!(module.focus_search_field);
    assert_eq!(module.search_text, "");
    assert!(module.get_matches().is_empty());
    assert_eq!(module.get_current_match_index(), 0);
    assert_eq!(module.get_current_match_position(), None);
}

#[test]
fn panel_closed_by_its_window_reopens_empty() {
    let mut module = SearchModule::new();
    module.toggle_search();
    let mut input = quiet_input(&module);
    input.search_text = "a".to_string();
    input.text_edited = true;
    input.window_open = false;
    module.show_search_panel(input);
    assert!(!module.show_search);
    assert_eq!(module.search_text, "");
    module.toggle_search();
    assert!(module.show_search);
    assert_eq!(module.search_text, "");
    assert!(module.get_matches().is_empty());
}

#[test]
fn clear_search_forgets_query_and_matches() {
    let mut module = shown_module("a", true);
    module.search_in_text("a a a");
    module.next_match();
    module.clear_search();
    assert_eq!(module.search_text, "");
    assert!(module.get_matches().is_empty());
    assert_eq!(module.get_current_match_index(), 0);
    assert!(module.show_search);
    assert!(module.case_sensitive);
}

fn quiet_input(module: &SearchModule) -> PanelInput {
    PanelInput {
        search_text: module.search_text.clone(),
        case_sensitive: module.case_sensitive,
        text_edited: false,
        close_clicked: false,
        case_toggled: false,
        previous_clicked: false,
        next_clicked: false,
        window_open: true,
    }
}

#[test]
fn hidden_panel_asks_for_nothing() {
    let mut module = module_with("a", true);
    let mut input = quiet_input(&module);
    input.search_text = "changed".to_string();
    input.text_edited = true;
    input.close_clicked = true;
    assert_eq!(module.show_search_panel(input), SearchPanelResult::Nothing);
    assert_eq!(module.search_text, "a");
}

#[test]
fn quiet_frame_asks_for_nothing() {
    let mut module = shown_module("a", true);
    let input = quiet_input(&module);
    assert_eq!(module.show_search_panel(input), SearchPanelResult::Nothing);
    assert!(module.show_search);
    assert!(!module.focus_search_field);
}

#[test]
fn edited_query_asks_for_a_search() {
    let mut module = shown_module("a", true);
    let mut input = quiet_input(&module);
    input.search_text = "ab".to_string();
    input.text_edited = true;
    assert_eq!(module.show_search_panel(input), SearchPanelResult::SearchNeeded);
    assert_eq!(module.search_text, "ab");
}

#[test]
fn silently_changed_query_asks_for_a_search() {
    let mut module = shown_module("a", true);
    let mut input = quiet_input(&module);
    input.search_text = "ab".to_string();
    assert_eq!(module.show_search_panel(input), SearchPanelResult::SearchNeeded);
    let mut input = quiet_input(&module);
    input.case_sensitive = false;
    assert_eq!(module.show_search_panel(input), SearchPanelResult::SearchNeeded);
    assert!(!module.case_sensitive);
}

#[test]
fn close_button_overrides_an_edit() {
    let mut module = shown_module("a", true);
    let mut input = quiet_input(&module);
    input.text_edited = true;
    input.close_clicked = true;
    assert_eq!(module.show_search_panel(input), SearchPanelResult::Close);
}

#[test]
fn case_box_overrides_the_close_button() {
    let mut module = shown_module("a", true);
    let mut input = quiet_input(&module);
    input.close_clicked = true;
    input.case_toggled = true;
    input.case_sensitive = false;
    assert_eq!(module.show_search_panel(input), SearchPanelResult::SearchNeeded);
}

#[test]
fn step_buttons_need_more_than_one_match() {
    let mut module = shown_module("a", true);
    module.search_in_text("a b");
    assert_eq!(module.get_matches().len(), 1);
    let mut input = quiet_input(&module);
    input.next_clicked = true;
    input.previous_clicked = true;
    assert_eq!(module.show_search_panel(input), SearchPanelResult::Nothing);
    module.search_in_text("a a");
    assert_eq!(module.get_matches().len(), 2);
    let mut input = quiet_input(&module);
    input.previous_clicked = true;
    assert_eq!(module.show_search_panel(input), SearchPanelResult::PreviousMatch);
    let mut input = quiet_input(&module);
    input.previous_clicked = true;
    input.next_clicked = true;
    input.close_clicked = true;
    assert_eq!(module.show_search_panel(input), SearchPanelResult::NextMatch);
}

#[test]
fn closed_window_hides_the_panel() {
    let mut module = shown_module("a", true);
    module.search_in_text("a a");
    module.next_match();
    let mut input = quiet_input(&module);
    input.window_open = false;
    assert_eq!(module.show_search_panel(input), SearchPanelResult::Nothing);
    assert!(!module.show_search);
    assert_eq!(module.search_text, "");
    assert!(module.get_matches().is_empty());
    assert_eq!(module.get_current_match_index(), 0);
    assert!(module.case_sensitive);
}

#[test]
fn open_window_keeps_the_search() {
    let mut module = shown_module("a", true);
    module.search_in_text("a a");
    module.next_match();
    let input = quiet_input(&module);
    assert_eq!(module.show_search_panel(input), SearchPanelResult::Nothing);
    assert!(module.show_search);
    assert_eq!(module.search_text, "a");
    assert_eq!(module.get_matches(), &[(0, 1), (2, 3)]);
    assert_eq!(module.get_current_match_index(), 1);
}

#[test]
fn toggle_shortcut_opens_and_reports() {
    let mut module = SearchModule::new();
    let needed = module.handle_shortcuts(ShortcutKeys { toggle: true, next: false, previous: false });
    assert!(needed);
    assert!(module.show_search);
    let needed = module.handle_shortcuts(ShortcutKeys { toggle: false, next: false, previous: false });
    assert!(!needed);
    assert!(module.show_search);
}

#[test]
fn step_shortcuts_work_only_while_shown() {
    let mut module = module_with("a", true);
    module.search_in_text("a a a");
    let needed = module.handle_shortcuts(ShortcutKeys { toggle: false, next: true, previous: false });
    assert!(!needed);
    assert_eq!(module.get_current_match_index(), 0);
    module.show_search = true;
    module.handle_shortcuts(ShortcutKeys { toggle: false, next: true, previous: false });
    assert_eq!(module.get_current_match_index(), 1);
    module.handle_shortcuts(ShortcutKeys { toggle: false, next: false, previous: true });
    assert_eq!(module.get_current_match_index(), 0);
    module.handle_shortcuts(ShortcutKeys { toggle: false, next: true, previous: true });
    assert_eq!(module.get_current_match_index(), 0);
}

#[test]
fn handle_search_serves_each_request() {
    let mut module = module_with("a", true);
    module.show_search = true;
    module.handle_search(false, SearchPanelResult::SearchNeeded, "a-a-a");
    assert_eq!(module.get_matches(), &[(0, 1), (2, 3), (4, 5)]);
    module.handle_search(false, SearchPanelResult::NextMatch, "a-a-a");
    assert_eq!(module.get_current_match_index(), 1);
    module.handle_search(false, SearchPanelResult::PreviousMatch, "a-a-a");
    assert_eq!(module.get_current_match_index(), 0);
    module.handle_search(false, SearchPanelResult::Nothing, "a");
    assert_eq!(module.get_matches().len(), 3);
    module.handle_search(false, SearchPanelResult::Close, "a-a-a");
    assert!(!module.show_search);
    assert!(module.get_matches().is_empty());
}

#[test]
fn handle_search_searches_after_a_toggle_that_shows() {
    let mut module = module_with("b", true);
    module.show_search = true;
    module.handle_search(true, SearchPanelResult::Nothing, "abc");
    assert_eq!(module.get_matches(), &[(1, 2)]);
    module.show_search = false;
    module.matches.clear();
    module.handle_search(true, SearchPanelResult::Nothing, "abc");
    assert!(module.get_matches().is_empty());
}

#[test]
fn case_insensitive_search_lowers_other_alphabets() {
    let mut module = module_with("привет", false);
    module.search_in_text("ПРИВЕТ, Привет и привет");
    assert_eq!(module.get_matches(), &[(0, 6), (8, 14), (17, 23)]);
    let mut module = module_with("ПРИВЕТ", true);
    module.search_in_text("ПРИВЕТ, Привет и привет");
    assert_eq!(module.get_matches(), &[(0, 6)]);
}

#[test]
fn stepping_repairs_an_index_out_of_range() {
    let mut module = module_with("a", true);
    module.search_in_text("a a a");
    module.current_match = usize::MAX;
    module.next_match();
    assert_eq!(module.get_current_match_index(), 1);
    assert_eq!(module.get_current_match_position(), Some((2, 3)));
}

#[test]
fn toggle_shortcut_starts_with_an_empty_search() {
    let mut module = module_with("old", true);
    module.search_in_text("old and old");
    module.next_match();
    let needed =
        module.handle_shortcuts(ShortcutKeys { toggle: true, next: true, previous: false });
    assert!(needed);
    assert!(module.show_search);
    assert_eq!(module.search_text, "");
    assert!(module.get_matches().is_empty());
    assert_eq!(module.get_current_match_index(), 0);
}

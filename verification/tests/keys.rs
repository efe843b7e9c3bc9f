use text_editor::keys::{decode_normal_key, decode_search_key, Command, KeyCode, KeyPress};

fn plain(code: KeyCode) -> KeyPress {
    KeyPress { code, control: false }
}

fn control(code: KeyCode) -> KeyPress {
    KeyPress { code, control: true }
}

#[test]
fn normal_mode_decodes_control_letters() {
    assert_eq!(decode_normal_key(control(KeyCode::Char('q'))), Some(Command::Quit));
    assert_eq!(decode_normal_key(control(KeyCode::Char('s'))), Some(Command::Save));
    assert_eq!(decode_normal_key(control(KeyCode::Char('f'))), Some(Command::ToggleSearch));
    assert_eq!(decode_normal_key(control(KeyCode::Char('a'))), Some(Command::InsertChar('a')));
    assert_eq!(decode_normal_key(plain(KeyCode::Char('q'))), Some(Command::InsertChar('q')));
    assert_eq!(decode_normal_key(plain(KeyCode::Char('Q'))), Some(Command::InsertChar('Q')));
}

#[test]
fn normal_mode_decodes_editing_and_movement() {
    assert_eq!(decode_normal_key(plain(KeyCode::Backspace)), Some(Command::Backspace));
    assert_eq!(decode_normal_key(plain(KeyCode::Enter)), Some(Command::Enter));
    assert_eq!(decode_normal_key(plain(KeyCode::Left)), Some(Command::ArrowLeft));
    assert_eq!(decode_normal_key(plain(KeyCode::Right)), Some(Command::ArrowRight));
    assert_eq!(decode_normal_key(plain(KeyCode::Up)), Some(Command::ArrowUp));
    assert_eq!(decode_normal_key(plain(KeyCode::Down)), Some(Command::ArrowDown));
    assert_eq!(decode_normal_key(control(KeyCode::PageUp)), Some(Command::PageUp));
    assert_eq!(decode_normal_key(plain(KeyCode::PageDown)), Some(Command::PageDown));
    assert_eq!(decode_normal_key(plain(KeyCode::Esc)), None);
    assert_eq!(decode_normal_key(plain(KeyCode::Other)), None);
}

#[test]
fn search_mode_decodes_its_keys() {
    assert_eq!(decode_search_key(plain(KeyCode::Esc)), Some(Command::ExitSearch));
    assert_eq!(decode_search_key(plain(KeyCode::Enter)), Some(Command::ExitSearch));
    assert_eq!(decode_search_key(control(KeyCode::Char('f'))), Some(Command::SearchNext));
    assert_eq!(decode_search_key(plain(KeyCode::Char('f'))), Some(Command::SearchInput('f')));
    assert_eq!(decode_search_key(control(KeyCode::Char('q'))), Some(Command::SearchInput('q')));
    assert_eq!(decode_search_key(plain(KeyCode::Backspace)), Some(Command::SearchBackspace));
    assert_eq!(decode_search_key(plain(KeyCode::Left)), None);
    assert_eq!(decode_search_key(plain(KeyCode::PageUp)), None);
    assert_eq!(decode_search_key(plain(KeyCode::Other)), None);
}

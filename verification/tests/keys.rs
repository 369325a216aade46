//! Keys, key bindings and the input line.

use cordanui::config::{KeyBinding, Keybinds};
use cordanui::handlers::{edit_input, key_edit, Edit};
use cordanui::keys::{
    key_label, key_name, key_to_buffer_name, key_to_panel_name, KeyCode, KeyEvent, KeyModifiers,
    MediaKeyCode, ModifierKeyCode,
};
use cordanui::types::InputBuffer;

#[test]
fn parses_plain_char() {
    let b = KeyBinding::parse("n").unwrap();
    assert_eq!(b.code, KeyCode::Char('n'));
    assert_eq!(b.modifiers, KeyModifiers::none());
}

#[test]
fn parses_ctrl_combo() {
    let b = KeyBinding::parse("ctrl+a").unwrap();
    assert_eq!(b.code, KeyCode::Char('a'));
    assert!(b.modifiers.control);
}

#[test]
fn parses_special_keys() {
    assert_eq!(KeyBinding::parse("tab").unwrap().code, KeyCode::Tab);
    assert_eq!(KeyBinding::parse("space").unwrap().code, KeyCode::Char(' '));
    assert_eq!(KeyBinding::parse("esc").unwrap().code, KeyCode::Esc);
    assert_eq!(KeyBinding::parse("f2").unwrap().code, KeyCode::F(2));
}

#[test]
fn rejects_garbage() {
    assert!(KeyBinding::parse("").is_none());
    assert!(KeyBinding::parse("ctrl+alt+x+y").is_none());
    assert!(KeyBinding::parse("notakey!!").is_none());
    assert!(KeyBinding::parse("ctrl").is_none());
}

#[test]
fn matches_events() {
    let b = KeyBinding::parse("ctrl+a").unwrap();
    let ev = KeyEvent::new(KeyCode::Char('a'), KeyModifiers::control());
    assert!(b.matches(ev));
    let other = KeyEvent::new(KeyCode::Char('b'), KeyModifiers::control());
    assert!(!b.matches(other));
    let no_mod = KeyEvent::new(KeyCode::Char('a'), KeyModifiers::none());
    assert!(!b.matches(no_mod));
}

#[test]
fn loads_from_toml_section() {
    let k = Keybinds::from_toml("[keybinds]\nleader = \"ctrl+g\"\nnew_goal = \"m\"\n");
    assert_eq!(k.leader.code, KeyCode::Char('g'));
    assert!(k.leader.modifiers.control);
    assert_eq!(k.new_goal.code, KeyCode::Char('m'));
    // Unset entries keep defaults.
    assert_eq!(k.show_details, Keybinds::default().show_details);
}

#[test]
fn falls_back_on_bad_values() {
    let k = Keybinds::from_toml("[keybinds]\nleader = \"@@garbage@@\"\n");
    assert_eq!(k.leader, Keybinds::default().leader);
}

#[test]
fn a_document_that_is_not_toml_gives_the_defaults() {
    let k = Keybinds::from_toml("this is [ not toml");
    assert_eq!(k, Keybinds::default());
    // A value that is no string counts as unset.
    let k = Keybinds::from_toml("[keybinds]\nleader = 7\n");
    assert_eq!(k, Keybinds::default());
}

#[test]
fn optional_bindings_are_unset_until_configured() {
    assert!(Keybinds::default().stats.is_none());
    let k = Keybinds::from_toml("[keybinds]\nstats = \"ctrl+s\"\n");
    assert_eq!(k.stats.unwrap().code, KeyCode::Char('s'));
}

#[test]
fn the_help_page_marks_what_was_configured() {
    let k = Keybinds::from_toml("[keybinds]\nnew_goal = \"m\"\n");
    let entries = k.entries();
    let leader = entries.iter().find(|e| e.name == "leader").unwrap();
    assert!(leader.is_default);
    let new_goal = entries.iter().find(|e| e.name == "new_goal").unwrap();
    assert!(!new_goal.is_default);
    assert_eq!(new_goal.binding.label(), "m");
}

#[test]
fn shift_does_not_count_for_a_character() {
    let b = KeyBinding::parse("E").unwrap();
    assert!(b.matches(KeyEvent::new(KeyCode::Char('E'), KeyModifiers::shift())));
    assert!(b.matches(KeyEvent::new(KeyCode::Char('E'), KeyModifiers::none())));
}

#[test]
fn keys_have_names() {
    assert_eq!(key_name(KeyCode::PageUp), "pageup");
    let key = KeyEvent::new(KeyCode::Char('x'), KeyModifiers::none());
    assert_eq!(key_label(&key), "x");
    assert_eq!(key_to_panel_name(key), Some("x".to_string()));
    let ctrl = KeyEvent::new(KeyCode::Char('x'), KeyModifiers::control());
    assert_eq!(key_to_panel_name(ctrl), Some("ctrl+x".to_string()));
    let upper = KeyEvent::new(KeyCode::Char('x'), KeyModifiers::shift());
    assert_eq!(key_to_buffer_name(upper), Some("X".to_string()));
    let tab = KeyEvent::new(KeyCode::BackTab, KeyModifiers::none());
    assert_eq!(key_to_buffer_name(tab), Some("shift+tab".to_string()));
    // Only a buffer names the space bar.
    let space = KeyEvent::new(KeyCode::Char(' '), KeyModifiers::none());
    assert_eq!(key_to_buffer_name(space), Some("space".to_string()));
    assert_eq!(key_to_panel_name(space), Some(" ".to_string()));
    assert_eq!(key_to_panel_name(KeyEvent::new(KeyCode::F(5), KeyModifiers::none())), None);
}

#[test]
fn the_cursor_moves_over_whole_characters() {
    let mut input = InputBuffer::new();
    for c in "aé★".chars() {
        input.push_char(c);
    }
    assert_eq!(input.text, "aé★");
    assert_eq!(input.cursor, 6);
    input.move_left();
    assert_eq!(input.cursor, 3);
    input.push_char('x');
    assert_eq!(input.text, "aéx★");
    input.backspace();
    input.backspace();
    assert_eq!(input.text, "a★");
    assert_eq!(input.cursor, 1);
    input.move_start();
    input.backspace();
    assert_eq!(input.text, "a★");
    input.move_right();
    assert_eq!(input.cursor, 1);
    input.move_end();
    assert_eq!(input.cursor, 4);
    input.clear();
    assert_eq!(input.text, "");
    assert_eq!(input.cursor, 0);
}

#[test]
fn control_characters_are_not_typed() {
    let bell = KeyEvent::new(KeyCode::Char('\u{7}'), KeyModifiers::none());
    assert_eq!(key_edit(bell), Edit::Nothing);
    let clear = KeyEvent::new(KeyCode::Char('u'), KeyModifiers::control());
    assert_eq!(key_edit(clear), Edit::Clear);
    let plain = KeyEvent::new(KeyCode::Char('u'), KeyModifiers::none());
    assert_eq!(key_edit(plain), Edit::Push('u'));
}

#[test]
fn backspace_undoes_typing() {
    let mut input = InputBuffer::new();
    input.set_text("goal".to_string());
    input.move_left();
    let cursor = input.cursor;
    edit_input(&mut input, KeyEvent::new(KeyCode::Char('é'), KeyModifiers::none()));
    assert_eq!(input.text, "goaél");
    edit_input(&mut input, KeyEvent::new(KeyCode::Backspace, KeyModifiers::none()));
    assert_eq!(input.text, "goal");
    assert_eq!(input.cursor, cursor);
}

#[test]
fn spelling_and_order_are_free() {
    let b = KeyBinding::parse("ctrl+alt+shift+tab").unwrap();
    for s in ["Shift+ALT+Control+TAB", " ctrl + option + shift + tab ", "alt+shift++ctrl+Tab"] {
        assert_eq!(KeyBinding::parse(s), Some(b), "{s}");
    }
    assert_eq!(KeyBinding::parse("cmd+n"), KeyBinding::parse("super+n"));
    assert_eq!(KeyBinding::parse("META+n"), KeyBinding::parse("n+super"));
    // A single letter keeps its case.
    assert_ne!(KeyBinding::parse("n"), KeyBinding::parse("N"));
}

#[test]
fn media_and_modifier_keys_name_themselves() {
    assert_eq!(key_name(KeyCode::F(12)), "f(12)");
    assert_eq!(key_name(KeyCode::Media(MediaKeyCode::PlayPause)), "media(playpause)");
    assert_eq!(key_name(KeyCode::Media(MediaKeyCode::MuteVolume)), "media(mutevolume)");
    let shift = KeyCode::Modifier(ModifierKeyCode::LeftShift);
    assert_eq!(key_label(&KeyEvent::new(shift, KeyModifiers::none())), "modifier(leftshift)");
    let iso = KeyCode::Modifier(ModifierKeyCode::IsoLevel5Shift);
    assert_eq!(key_name(iso), "modifier(isolevel5shift)");
    assert_eq!(key_to_panel_name(KeyEvent::new(iso, KeyModifiers::none())), None);
}

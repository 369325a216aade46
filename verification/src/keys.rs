//! Keys and key events.

use crate::text::{concat, decimal, number};
use vstd::prelude::*;

verus! {

/// A media key.
#[derive(Clone, Copy, Debug, PartialEq, Eq, Structural)]
pub enum MediaKeyCode {
    Play,
    Pause,
    PlayPause,
    Reverse,
    Stop,
    FastForward,
    Rewind,
    TrackNext,
    TrackPrevious,
    Record,
    LowerVolume,
    RaiseVolume,
    MuteVolume,
}

/// A modifier pressed alone.
#[derive(Clone, Copy, Debug, PartialEq, Eq, Structural)]
pub enum ModifierKeyCode {
    LeftShift,
    LeftControl,
    LeftAlt,
    LeftSuper,
    LeftHyper,
    LeftMeta,
    RightShift,
    RightControl,
    RightAlt,
    RightSuper,
    RightHyper,
    RightMeta,
    IsoLevel3Shift,
    IsoLevel5Shift,
}

/// A key of the keyboard.
#[derive(Clone, Copy, Debug, PartialEq, Eq, Structural)]
pub enum KeyCode {
    Char(char),
    F(u8),
    Esc,
    Enter,
    Tab,
    BackTab,
    Backspace,
    Delete,
    Insert,
    Home,
    End,
    PageUp,
    PageDown,
    Up,
    Down,
    Left,
    Right,
    Null,
    CapsLock,
    ScrollLock,
    NumLock,
    PrintScreen,
    Pause,
    Menu,
    KeypadBegin,
    Media(MediaKeyCode),
    Modifier(ModifierKeyCode),
}

/// The modifiers held with a key.
#[derive(Clone, Copy, Debug, PartialEq, Eq, Structural)]
pub struct KeyModifiers {
    pub shift: bool,
    pub control: bool,
    pub alt: bool,
    pub super_key: bool,
    pub hyper: bool,
    pub meta: bool,
}

/// No modifier.
pub open spec fn no_modifiers() -> KeyModifiers {
    KeyModifiers {
        shift: false,
        control: false,
        alt: false,
        super_key: false,
        hyper: false,
        meta: false,
    }
}

impl KeyModifiers {
    /// No modifier.
    pub fn none() -> (r: KeyModifiers)
        ensures
            r == no_modifiers(),
    {
        KeyModifiers {
            shift: false,
            control: false,
            alt: false,
            super_key: false,
            hyper: false,
            meta: false,
        }
    }

    /// The control key alone.
    pub fn control() -> (r: KeyModifiers)
        ensures
            r == (KeyModifiers { control: true, ..no_modifiers() }),
    {
        KeyModifiers {
            shift: false,
            control: true,
            alt: false,
            super_key: false,
            hyper: false,
            meta: false,
        }
    }

    /// The shift key alone.
    pub fn shift() -> (r: KeyModifiers)
        ensures
            r == (KeyModifiers { shift: true, ..no_modifiers() }),
    {
        KeyModifiers {
            shift: true,
            control: false,
            alt: false,
            super_key: false,
            hyper: false,
            meta: false,
        }
    }

    /// The modifiers without the shift key.
    pub open spec fn without_shift(self) -> KeyModifiers {
        KeyModifiers { shift: false, ..self }
    }
}

/// A key pressed with modifiers.
#[derive(Clone, Copy, Debug, PartialEq, Eq, Structural)]
pub struct KeyEvent {
    pub code: KeyCode,
    pub modifiers: KeyModifiers,
}

impl KeyEvent {
    /// A key pressed with modifiers.
    pub fn new(code: KeyCode, modifiers: KeyModifiers) -> (r: KeyEvent)
        ensures
            r == (KeyEvent { code, modifiers }),
    {
        KeyEvent { code, modifiers }
    }
}

/// The name of a media key, in lower case.
pub open spec fn media_name(k: MediaKeyCode) -> Seq<char> {
    match k {
        MediaKeyCode::Play => "play"@,
        MediaKeyCode::Pause => "pause"@,
        MediaKeyCode::PlayPause => "playpause"@,
        MediaKeyCode::Reverse => "reverse"@,
        MediaKeyCode::Stop => "stop"@,
        MediaKeyCode::FastForward => "fastforward"@,
        MediaKeyCode::Rewind => "rewind"@,
        MediaKeyCode::TrackNext => "tracknext"@,
        MediaKeyCode::TrackPrevious => "trackprevious"@,
        MediaKeyCode::Record => "record"@,
        MediaKeyCode::LowerVolume => "lowervolume"@,
        MediaKeyCode::RaiseVolume => "raisevolume"@,
        MediaKeyCode::MuteVolume => "mutevolume"@,
    }
}

fn media_word(k: MediaKeyCode) -> (r: &'static str)
    ensures
        r@ == media_name(k),
{
    match k {
        MediaKeyCode::Play => "play",
        MediaKeyCode::Pause => "pause",
        MediaKeyCode::PlayPause => "playpause",
        MediaKeyCode::Reverse => "reverse",
        MediaKeyCode::Stop => "stop",
        MediaKeyCode::FastForward => "fastforward",
        MediaKeyCode::Rewind => "rewind",
        MediaKeyCode::TrackNext => "tracknext",
        MediaKeyCode::TrackPrevious => "trackprevious",
        MediaKeyCode::Record => "record",
        MediaKeyCode::LowerVolume => "lowervolume",
        MediaKeyCode::RaiseVolume => "raisevolume",
        MediaKeyCode::MuteVolume => "mutevolume",
    }
}

/// The name of a modifier pressed alone, in lower case.
pub open spec fn modifier_name(k: ModifierKeyCode) -> Seq<char> {
    match k {
        ModifierKeyCode::LeftShift => "leftshift"@,
        ModifierKeyCode::LeftControl => "leftcontrol"@,
        ModifierKeyCode::LeftAlt => "leftalt"@,
        ModifierKeyCode::LeftSuper => "leftsuper"@,
        ModifierKeyCode::LeftHyper => "lefthyper"@,
        ModifierKeyCode::LeftMeta => "leftmeta"@,
        ModifierKeyCode::RightShift => "rightshift"@,
        ModifierKeyCode::RightControl => "rightcontrol"@,
        ModifierKeyCode::RightAlt => "rightalt"@,
        ModifierKeyCode::RightSuper => "rightsuper"@,
        ModifierKeyCode::RightHyper => "righthyper"@,
        ModifierKeyCode::RightMeta => "rightmeta"@,
        ModifierKeyCode::IsoLevel3Shift => "isolevel3shift"@,
        ModifierKeyCode::IsoLevel5Shift => "isolevel5shift"@,
    }
}

fn modifier_word(k: ModifierKeyCode) -> (r: &'static str)
    ensures
        r@ == modifier_name(k),
{
    match k {
        ModifierKeyCode::LeftShift => "leftshift",
        ModifierKeyCode::LeftControl => "leftcontrol",
        ModifierKeyCode::LeftAlt => "leftalt",
        ModifierKeyCode::LeftSuper => "leftsuper",
        ModifierKeyCode::LeftHyper => "lefthyper",
        ModifierKeyCode::LeftMeta => "leftmeta",
        ModifierKeyCode::RightShift => "rightshift",
        ModifierKeyCode::RightControl => "rightcontrol",
        ModifierKeyCode::RightAlt => "rightalt",
        ModifierKeyCode::RightSuper => "rightsuper",
        ModifierKeyCode::RightHyper => "righthyper",
        ModifierKeyCode::RightMeta => "rightmeta",
        ModifierKeyCode::IsoLevel3Shift => "isolevel3shift",
        ModifierKeyCode::IsoLevel5Shift => "isolevel5shift",
    }
}

/// The name of a key: a character itself, any other key in lower case.
pub open spec fn plain_name(code: KeyCode) -> Seq<char> {
    match code {
        KeyCode::Char(c) => seq![c],
        KeyCode::F(n) => "f("@ + decimal(n as nat) + ")"@,
        KeyCode::Esc => "esc"@,
        KeyCode::Enter => "enter"@,
        KeyCode::Tab => "tab"@,
        KeyCode::BackTab => "backtab"@,
        KeyCode::Backspace => "backspace"@,
        KeyCode::Delete => "delete"@,
        KeyCode::Insert => "insert"@,
        KeyCode::Home => "home"@,
        KeyCode::End => "end"@,
        KeyCode::PageUp => "pageup"@,
        KeyCode::PageDown => "pagedown"@,
        KeyCode::Up => "up"@,
        KeyCode::Down => "down"@,
        KeyCode::Left => "left"@,
        KeyCode::Right => "right"@,
        KeyCode::Null => "null"@,
        KeyCode::CapsLock => "capslock"@,
        KeyCode::ScrollLock => "scrolllock"@,
        KeyCode::NumLock => "numlock"@,
        KeyCode::PrintScreen => "printscreen"@,
        KeyCode::Pause => "pause"@,
        KeyCode::Menu => "menu"@,
        KeyCode::KeypadBegin => "keypadbegin"@,
        KeyCode::Media(k) => "media("@ + media_name(k) + ")"@,
        KeyCode::Modifier(k) => "modifier("@ + modifier_name(k) + ")"@,
    }
}

/// One character as a string.
pub fn char_text(c: char) -> (r: String)
    ensures
        r@ == seq![c],
{
    let mut s = String::new();
    s.push(c);
    assert(s@ =~= seq![c]);
    s
}

/// The name of a key: a character itself, any other key in lower case.
pub fn key_name(code: KeyCode) -> (r: String)
    ensures
        r@ == plain_name(code),
{
    match code {
        KeyCode::Char(c) => char_text(c),
        KeyCode::F(n) => concat(concat("f(", number(n as u64).as_str()).as_str(), ")"),
        KeyCode::Esc => "esc".to_string(),
        KeyCode::Enter => "enter".to_string(),
        KeyCode::Tab => "tab".to_string(),
        KeyCode::BackTab => "backtab".to_string(),
        KeyCode::Backspace => "backspace".to_string(),
        KeyCode::Delete => "delete".to_string(),
        KeyCode::Insert => "insert".to_string(),
        KeyCode::Home => "home".to_string(),
        KeyCode::End => "end".to_string(),
        KeyCode::PageUp => "pageup".to_string(),
        KeyCode::PageDown => "pagedown".to_string(),
        KeyCode::Up => "up".to_string(),
        KeyCode::Down => "down".to_string(),
        KeyCode::Left => "left".to_string(),
        KeyCode::Right => "right".to_string(),
        KeyCode::Null => "null".to_string(),
        KeyCode::CapsLock => "capslock".to_string(),
        KeyCode::ScrollLock => "scrolllock".to_string(),
        KeyCode::NumLock => "numlock".to_string(),
        KeyCode::PrintScreen => "printscreen".to_string(),
        KeyCode::Pause => "pause".to_string(),
        KeyCode::Menu => "menu".to_string(),
        KeyCode::KeypadBegin => "keypadbegin".to_string(),
        KeyCode::Media(k) => concat(concat("media(", media_word(k)).as_str(), ")"),
        KeyCode::Modifier(k) => concat(concat("modifier(", modifier_word(k)).as_str(), ")"),
    }
}

/// The label of a pressed key in messages.
pub fn key_label(key: &KeyEvent) -> (r: String)
    ensures
        r@ == plain_name(key.code),
{
    key_name(key.code)
}

/// An ASCII letter in upper case.
pub open spec fn upper(c: char) -> char {
    if 'a' <= c && c <= 'z' {
        (c as int - 32) as char
    } else {
        c
    }
}

fn char_upper(c: char) -> (r: char)
    ensures
        r == upper(c),
{
    if 'a' <= c && c <= 'z' {
        (c as u8 - 32) as char
    } else {
        c
    }
}

/// What a character key is called where a plugin handles keys: with the control
/// key a combination, with the shift key the capital letter.
pub open spec fn typed_name(c: char, modifiers: KeyModifiers) -> Seq<char> {
    if modifiers.control {
        "ctrl+"@ + seq![c]
    } else if modifiers.shift {
        seq![upper(c)]
    } else {
        seq![c]
    }
}

fn typed_char(c: char, modifiers: KeyModifiers) -> (r: String)
    ensures
        r@ == typed_name(c, modifiers),
{
    if modifiers.control {
        concat("ctrl+", char_text(c).as_str())
    } else if modifiers.shift {
        char_text(char_upper(c))
    } else {
        char_text(c)
    }
}

/// Whether a key has a name that plugins know: the editing and movement keys.
pub open spec fn is_named(code: KeyCode) -> bool {
    match code {
        KeyCode::Enter => true,
        KeyCode::Esc => true,
        KeyCode::Tab => true,
        KeyCode::Backspace => true,
        KeyCode::Up => true,
        KeyCode::Down => true,
        KeyCode::Left => true,
        KeyCode::Right => true,
        KeyCode::Home => true,
        KeyCode::End => true,
        KeyCode::PageUp => true,
        KeyCode::PageDown => true,
        _ => false,
    }
}

/// The name under which a panel of a plugin gets a key, if it gets it at all.
pub open spec fn panel_name(key: KeyEvent) -> Option<Seq<char>> {
    match key.code {
        KeyCode::Char(c) => Some(typed_name(c, key.modifiers)),
        KeyCode::BackTab => Some("shift+tab"@),
        other => if is_named(other) {
            Some(plain_name(other))
        } else {
            None
        },
    }
}

/// The name under which a buffer of a plugin gets a key: as a panel does, with
/// a name of its own for the space bar.
pub open spec fn buffer_name(key: KeyEvent) -> Option<Seq<char>> {
    if key.code == KeyCode::Char(' ') {
        Some("space"@)
    } else {
        panel_name(key)
    }
}

/// The name under which a panel of a plugin gets a key.
pub fn key_to_panel_name(key: KeyEvent) -> (r: Option<String>)
    ensures
        crate::text::opt(r) == panel_name(key),
{
    match key.code {
        KeyCode::Char(c) => Some(typed_char(c, key.modifiers)),
        KeyCode::BackTab => Some("shift+tab".to_string()),
        KeyCode::Enter
        | KeyCode::Esc
        | KeyCode::Tab
        | KeyCode::Backspace
        | KeyCode::Up
        | KeyCode::Down
        | KeyCode::Left
        | KeyCode::Right
        | KeyCode::Home
        | KeyCode::End
        | KeyCode::PageUp
        | KeyCode::PageDown => Some(key_name(key.code)),
        _ => None,
    }
}

/// The name under which a buffer of a plugin gets a key.
pub fn key_to_buffer_name(key: KeyEvent) -> (r: Option<String>)
    ensures
        crate::text::opt(r) == buffer_name(key),
{
    match key.code {
        KeyCode::Char(' ') => Some("space".to_string()),
        _ => key_to_panel_name(key),
    }
}

/// Whether a character is a control character.
pub open spec fn is_control(c: char) -> bool {
    c as int <= 0x1f || 0x7f <= c as int <= 0x9f
}

/// Whether a character is a control character.
pub fn control_char(c: char) -> (r: bool)
    ensures
        r == is_control(c),
{
    let n: u32 = c as u32;
    n <= 0x1f || (0x7f <= n && n <= 0x9f)
}

/// A panel gets a typed character as itself, with the shift key as the capital letter, and
/// with the control key under the name of the combination; a buffer gets the space bar
/// under its name.
pub proof fn law_typed_characters_are_named(key: KeyEvent, c: char)
    requires
        key.code == KeyCode::Char(c),
    ensures
        key.modifiers.control ==> panel_name(key) == Some("ctrl+"@ + seq![c]),
        !key.modifiers.control && !key.modifiers.shift ==> panel_name(key) == Some(seq![c]),
        !key.modifiers.control && key.modifiers.shift && !('a' <= c <= 'z') ==> panel_name(key)
            == Some(seq![c]),
        !key.modifiers.control && key.modifiers.shift && 'a' <= c <= 'z' ==> exists|u: char|
            panel_name(key) == Some(seq![u]) && 'A' <= u <= 'Z' && #[trigger] crate::text::lower(u)
                == c,
        c == ' ' ==> buffer_name(key) == Some("space"@),
        c != ' ' ==> buffer_name(key) == panel_name(key),
{
    if 'a' <= c <= 'z' {
        let u = upper(c);
        assert(crate::text::lower(u) == c);
        assert(typed_name(c, KeyModifiers { control: false, shift: true, ..key.modifiers }) == seq![
            u,
        ]);
    }
}

/// Besides characters, a plugin gets the keys that move and edit, by their name, and the
/// backward tab; no other key reaches it.
pub proof fn law_plugins_get_the_keys_that_move_and_edit(key: KeyEvent)
    requires
        !(key.code is Char),
    ensures
        buffer_name(key) == panel_name(key),
        panel_name(key) is Some <==> key.code == KeyCode::Enter || key.code == KeyCode::Esc
            || key.code == KeyCode::Tab || key.code == KeyCode::BackTab || key.code
            == KeyCode::Backspace || key.code == KeyCode::Up || key.code == KeyCode::Down
            || key.code == KeyCode::Left || key.code == KeyCode::Right || key.code == KeyCode::Home
            || key.code == KeyCode::End || key.code == KeyCode::PageUp || key.code
            == KeyCode::PageDown,
        key.code == KeyCode::BackTab ==> panel_name(key) == Some("shift+tab"@),
        panel_name(key) is Some && key.code != KeyCode::BackTab ==> panel_name(key) == Some(
            plain_name(key.code),
        ),
{
}

} // verus!

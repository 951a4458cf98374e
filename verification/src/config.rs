use vstd::prelude::*;

use crate::entity::Entity;

verus! {

/// A key's code as the platform gave it, for keys that have no code of their own.
#[derive(Debug, Clone, Copy, PartialEq, Eq, Hash, Structural)]
pub enum NativeKeyCode {
    Unidentified,
    Android(u32),
    MacOS(u16),
    Windows(u16),
    Xkb(u32),
}

/// A physical key of the keyboard, by its position on a US layout.
#[derive(Debug, Clone, Copy, PartialEq, Eq, Hash, Structural)]
pub enum KeyCode {
    Unidentified(NativeKeyCode),
    Backquote,
    Backslash,
    BracketLeft,
    BracketRight,
    Comma,
    Digit0,
    Digit1,
    Digit2,
    Digit3,
    Digit4,
    Digit5,
    Digit6,
    Digit7,
    Digit8,
    Digit9,
    Equal,
    IntlBackslash,
    IntlRo,
    IntlYen,
    KeyA,
    KeyB,
    KeyC,
    KeyD,
    KeyE,
    KeyF,
    KeyG,
    KeyH,
    KeyI,
    KeyJ,
    KeyK,
    KeyL,
    KeyM,
    KeyN,
    KeyO,
    KeyP,
    KeyQ,
    KeyR,
    KeyS,
    KeyT,
    KeyU,
    KeyV,
    KeyW,
    KeyX,
    KeyY,
    KeyZ,
    Minus,
    Period,
    Quote,
    Semicolon,
    Slash,
    AltLeft,
    AltRight,
    Backspace,
    CapsLock,
    ContextMenu,
    ControlLeft,
    ControlRight,
    Enter,
    SuperLeft,
    SuperRight,
    ShiftLeft,
    ShiftRight,
    Space,
    Tab,
    Convert,
    KanaMode,
    Lang1,
    Lang2,
    Lang3,
    Lang4,
    Lang5,
    NonConvert,
    Delete,
    End,
    Help,
    Home,
    Insert,
    PageDown,
    PageUp,
    ArrowDown,
    ArrowLeft,
    ArrowRight,
    ArrowUp,
    NumLock,
    Numpad0,
    Numpad1,
    Numpad2,
    Numpad3,
    Numpad4,
    Numpad5,
    Numpad6,
    Numpad7,
    Numpad8,
    Numpad9,
    NumpadAdd,
    NumpadBackspace,
    NumpadClear,
    NumpadClearEntry,
    NumpadComma,
    NumpadDecimal,
    NumpadDivide,
    NumpadEnter,
    NumpadEqual,
    NumpadHash,
    NumpadMemoryAdd,
    NumpadMemoryClear,
    NumpadMemoryRecall,
    NumpadMemoryStore,
    NumpadMemorySubtract,
    NumpadMultiply,
    NumpadParenLeft,
    NumpadParenRight,
    NumpadStar,
    NumpadSubtract,
    Escape,
    Fn,
    FnLock,
    PrintScreen,
    ScrollLock,
    Pause,
    BrowserBack,
    BrowserFavorites,
    BrowserForward,
    BrowserHome,
    BrowserRefresh,
    BrowserSearch,
    BrowserStop,
    Eject,
    LaunchApp1,
    LaunchApp2,
    LaunchMail,
    MediaPlayPause,
    MediaSelect,
    MediaStop,
    MediaTrackNext,
    MediaTrackPrevious,
    Power,
    Sleep,
    AudioVolumeDown,
    AudioVolumeMute,
    AudioVolumeUp,
    WakeUp,
    Meta,
    Hyper,
    Turbo,
    Abort,
    Resume,
    Suspend,
    Again,
    Copy,
    Cut,
    Find,
    Open,
    Paste,
    Props,
    Select,
    Undo,
    Hiragana,
    Katakana,
    F1,
    F2,
    F3,
    F4,
    F5,
    F6,
    F7,
    F8,
    F9,
    F10,
    F11,
    F12,
    F13,
    F14,
    F15,
    F16,
    F17,
    F18,
    F19,
    F20,
    F21,
    F22,
    F23,
    F24,
    F25,
    F26,
    F27,
    F28,
    F29,
    F30,
    F31,
    F32,
    F33,
    F34,
    F35,
}

/// The key whose short description is `s`, if any: the inverse of [`spec_keycode_desc`].
pub open spec fn label_code(s: Seq<char>) -> Option<KeyCode> {
    if s.len() == 1 {
        match s[0] {
            '`' => Some(KeyCode::Backquote),
            '\\' => Some(KeyCode::Backslash),
            '[' => Some(KeyCode::BracketLeft),
            ']' => Some(KeyCode::BracketRight),
            ',' => Some(KeyCode::Comma),
            '0' => Some(KeyCode::Digit0),
            '1' => Some(KeyCode::Digit1),
            '2' => Some(KeyCode::Digit2),
            '3' => Some(KeyCode::Digit3),
            '4' => Some(KeyCode::Digit4),
            '5' => Some(KeyCode::Digit5),
            '6' => Some(KeyCode::Digit6),
            '7' => Some(KeyCode::Digit7),
            '8' => Some(KeyCode::Digit8),
            '9' => Some(KeyCode::Digit9),
            '=' => Some(KeyCode::Equal),
            'A' => Some(KeyCode::KeyA),
            'B' => Some(KeyCode::KeyB),
            'C' => Some(KeyCode::KeyC),
            'D' => Some(KeyCode::KeyD),
            'E' => Some(KeyCode::KeyE),
            'F' => Some(KeyCode::KeyF),
            'G' => Some(KeyCode::KeyG),
            'H' => Some(KeyCode::KeyH),
            'I' => Some(KeyCode::KeyI),
            'J' => Some(KeyCode::KeyJ),
            'K' => Some(KeyCode::KeyK),
            'L' => Some(KeyCode::KeyL),
            'M' => Some(KeyCode::KeyM),
            'N' => Some(KeyCode::KeyN),
            'O' => Some(KeyCode::KeyO),
            'P' => Some(KeyCode::KeyP),
            'Q' => Some(KeyCode::KeyQ),
            'R' => Some(KeyCode::KeyR),
            'S' => Some(KeyCode::KeyS),
            'T' => Some(KeyCode::KeyT),
            'U' => Some(KeyCode::KeyU),
            'V' => Some(KeyCode::KeyV),
            'W' => Some(KeyCode::KeyW),
            'X' => Some(KeyCode::KeyX),
            'Y' => Some(KeyCode::KeyY),
            'Z' => Some(KeyCode::KeyZ),
            '-' => Some(KeyCode::Minus),
            '.' => Some(KeyCode::Period),
            '"' => Some(KeyCode::Quote),
            ';' => Some(KeyCode::Semicolon),
            '/' => Some(KeyCode::Slash),
            '⌫' => Some(KeyCode::Backspace),
            '⇪' => Some(KeyCode::CapsLock),
            '↵' => Some(KeyCode::Enter),
            '⇥' => Some(KeyCode::Tab),
            '⌦' => Some(KeyCode::Delete),
            '↘' => Some(KeyCode::End),
            '↖' => Some(KeyCode::Home),
            _ => None,
        }
    } else if s.len() == 2 {
        if s[0] == 'U' && s[1] == 'ᴘ' {
            Some(KeyCode::ArrowUp)
        } else {
            None
        }
    } else {
        match (s[0], s[1], s[2]) {
            ('L', 'ᴀ', 'ʟ') => Some(KeyCode::AltLeft),
            ('R', 'ᴀ', 'ʟ') => Some(KeyCode::AltRight),
            ('L', 'ᴄ', 'ᴛ') => Some(KeyCode::ControlLeft),
            ('R', 'ᴄ', 'ᴛ') => Some(KeyCode::ControlRight),
            ('L', 'ꜱ', 'ʜ') => Some(KeyCode::ShiftLeft),
            ('R', 'ꜱ', 'ʜ') => Some(KeyCode::ShiftRight),
            ('S', 'ᴘ', 'ᴀ') => Some(KeyCode::Space),
            ('I', 'ɴ', 'ꜱ') => Some(KeyCode::Insert),
            ('P', 'ɢ', 'ᴅ') => Some(KeyCode::PageDown),
            ('P', 'ɢ', 'ᴜ') => Some(KeyCode::PageUp),
            ('D', 'ᴏ', 'ᴡ') => Some(KeyCode::ArrowDown),
            ('L', 'ᴇ', 'ꜰ') => Some(KeyCode::ArrowLeft),
            ('R', 'ɪ', 'ɢ') => Some(KeyCode::ArrowRight),
            ('E', 'ꜱ', 'ᴄ') => Some(KeyCode::Escape),
            ('P', 'ʀ', 'ᴛ') => Some(KeyCode::PrintScreen),
            _ => None,
        }
    }
}

proof fn lemma_label_code_inverts(code: KeyCode)
    ensures
        spec_keycode_desc(code) matches Some(s) ==> s.len() > 0 && label_code(s) == Some(code),
{
    match code {
        KeyCode::Backquote => {
            reveal_strlit("`");
        },
        KeyCode::Backslash => {
            reveal_strlit("\\");
        },
        KeyCode::BracketLeft => {
            reveal_strlit("[");
        },
        KeyCode::BracketRight => {
            reveal_strlit("]");
        },
        KeyCode::Comma => {
            reveal_strlit(",");
        },
        KeyCode::Digit0 => {
            reveal_strlit("0");
        },
        KeyCode::Digit1 => {
            reveal_strlit("1");
        },
        KeyCode::Digit2 => {
            reveal_strlit("2");
        },
        KeyCode::Digit3 => {
            reveal_strlit("3");
        },
        KeyCode::Digit4 => {
            reveal_strlit("4");
        },
        KeyCode::Digit5 => {
            reveal_strlit("5");
        },
        KeyCode::Digit6 => {
            reveal_strlit("6");
        },
        KeyCode::Digit7 => {
            reveal_strlit("7");
        },
        KeyCode::Digit8 => {
            reveal_strlit("8");
        },
        KeyCode::Digit9 => {
            reveal_strlit("9");
        },
        KeyCode::Equal => {
            reveal_strlit("=");
        },
        KeyCode::KeyA => {
            reveal_strlit("A");
        },
        KeyCode::KeyB => {
            reveal_strlit("B");
        },
        KeyCode::KeyC => {
            reveal_strlit("C");
        },
        KeyCode::KeyD => {
            reveal_strlit("D");
        },
        KeyCode::KeyE => {
            reveal_strlit("E");
        },
        KeyCode::KeyF => {
            reveal_strlit("F");
        },
        KeyCode::KeyG => {
            reveal_strlit("G");
        },
        KeyCode::KeyH => {
            reveal_strlit("H");
        },
        KeyCode::KeyI => {
            reveal_strlit("I");
        },
        KeyCode::KeyJ => {
            reveal_strlit("J");
        },
        KeyCode::KeyK => {
            reveal_strlit("K");
        },
        KeyCode::KeyL => {
            reveal_strlit("L");
        },
        KeyCode::KeyM => {
            reveal_strlit("M");
        },
        KeyCode::KeyN => {
            reveal_strlit("N");
        },
        KeyCode::KeyO => {
            reveal_strlit("O");
        },
        KeyCode::KeyP => {
            reveal_strlit("P");
        },
        KeyCode::KeyQ => {
            reveal_strlit("Q");
        },
        KeyCode::KeyR => {
            reveal_strlit("R");
        },
        KeyCode::KeyS => {
            reveal_strlit("S");
        },
        KeyCode::KeyT => {
            reveal_strlit("T");
        },
        KeyCode::KeyU => {
            reveal_strlit("U");
        },
        KeyCode::KeyV => {
            reveal_strlit("V");
        },
        KeyCode::KeyW => {
            reveal_strlit("W");
        },
        KeyCode::KeyX => {
            reveal_strlit("X");
        },
        KeyCode::KeyY => {
            reveal_strlit("Y");
        },
        KeyCode::KeyZ => {
            reveal_strlit("Z");
        },
        KeyCode::Minus => {
            reveal_strlit("-");
        },
        KeyCode::Period => {
            reveal_strlit(".");
        },
        KeyCode::Quote => {
            reveal_strlit("\"");
        },
        KeyCode::Semicolon => {
            reveal_strlit(";");
        },
        KeyCode::Slash => {
            reveal_strlit("/");
        },
        KeyCode::AltLeft => {
            reveal_strlit("Lᴀʟᴛ");
        },
        KeyCode::AltRight => {
            reveal_strlit("Rᴀʟᴛ");
        },
        KeyCode::Backspace => {
            reveal_strlit("⌫");
        },
        KeyCode::CapsLock => {
            reveal_strlit("⇪");
        },
        KeyCode::ControlLeft => {
            reveal_strlit("Lᴄᴛʀʟ");
        },
        KeyCode::ControlRight => {
            reveal_strlit("Rᴄᴛʀʟ");
        },
        KeyCode::Enter => {
            reveal_strlit("↵");
        },
        KeyCode::ShiftLeft => {
            reveal_strlit("Lꜱʜꜰᴛ");
        },
        KeyCode::ShiftRight => {
            reveal_strlit("Rꜱʜꜰᴛ");
        },
        KeyCode::Space => {
            reveal_strlit("Sᴘᴀᴄᴇ");
        },
        KeyCode::Tab => {
            reveal_strlit("⇥");
        },
        KeyCode::Delete => {
            reveal_strlit("⌦");
        },
        KeyCode::End => {
            reveal_strlit("↘");
        },
        KeyCode::Home => {
            reveal_strlit("↖");
        },
        KeyCode::Insert => {
            reveal_strlit("Iɴꜱ");
        },
        KeyCode::PageDown => {
            reveal_strlit("Pɢᴅɴ");
        },
        KeyCode::PageUp => {
            reveal_strlit("Pɢᴜᴘ");
        },
        KeyCode::ArrowDown => {
            reveal_strlit("Dᴏᴡɴ");
        },
        KeyCode::ArrowLeft => {
            reveal_strlit("Lᴇꜰᴛ");
        },
        KeyCode::ArrowRight => {
            reveal_strlit("Rɪɢʜᴛ");
        },
        KeyCode::ArrowUp => {
            reveal_strlit("Uᴘ");
        },
        KeyCode::Escape => {
            reveal_strlit("Eꜱᴄ");
        },
        KeyCode::PrintScreen => {
            reveal_strlit("PʀᴛSᴄ");
        },
        _ => {},
    }
}

/// No two keys share a description, and every description shown has at least one character.
pub proof fn law_key_labels_distinct_and_nonempty(a: KeyCode, b: KeyCode)
    ensures
        spec_keycode_desc(a) matches Some(s) ==> s.len() > 0,
        spec_keycode_desc(a) is Some && spec_keycode_desc(a) == spec_keycode_desc(b) ==> a == b,
{
    lemma_label_code_inverts(a);
    lemma_label_code_inverts(b);
}

/// The short description of a key shown to players, for the keys that have one.
pub open spec fn spec_keycode_desc(code: KeyCode) -> Option<Seq<char>> {
    match code {
        KeyCode::Backquote => Some("`"@),
        KeyCode::Backslash => Some("\\"@),
        KeyCode::BracketLeft => Some("["@),
        KeyCode::BracketRight => Some("]"@),
        KeyCode::Comma => Some(","@),
        KeyCode::Digit0 => Some("0"@),
        KeyCode::Digit1 => Some("1"@),
        KeyCode::Digit2 => Some("2"@),
        KeyCode::Digit3 => Some("3"@),
        KeyCode::Digit4 => Some("4"@),
        KeyCode::Digit5 => Some("5"@),
        KeyCode::Digit6 => Some("6"@),
        KeyCode::Digit7 => Some("7"@),
        KeyCode::Digit8 => Some("8"@),
        KeyCode::Digit9 => Some("9"@),
        KeyCode::Equal => Some("="@),
        KeyCode::KeyA => Some("A"@),
        KeyCode::KeyB => Some("B"@),
        KeyCode::KeyC => Some("C"@),
        KeyCode::KeyD => Some("D"@),
        KeyCode::KeyE => Some("E"@),
        KeyCode::KeyF => Some("F"@),
        KeyCode::KeyG => Some("G"@),
        KeyCode::KeyH => Some("H"@),
        KeyCode::KeyI => Some("I"@),
        KeyCode::KeyJ => Some("J"@),
        KeyCode::KeyK => Some("K"@),
        KeyCode::KeyL => Some("L"@),
        KeyCode::KeyM => Some("M"@),
        KeyCode::KeyN => Some("N"@),
        KeyCode::KeyO => Some("O"@),
        KeyCode::KeyP => Some("P"@),
        KeyCode::KeyQ => Some("Q"@),
        KeyCode::KeyR => Some("R"@),
        KeyCode::KeyS => Some("S"@),
        KeyCode::KeyT => Some("T"@),
        KeyCode::KeyU => Some("U"@),
        KeyCode::KeyV => Some("V"@),
        KeyCode::KeyW => Some("W"@),
        KeyCode::KeyX => Some("X"@),
        KeyCode::KeyY => Some("Y"@),
        KeyCode::KeyZ => Some("Z"@),
        KeyCode::Minus => Some("-"@),
        KeyCode::Period => Some("."@),
        KeyCode::Quote => Some("\""@),
        KeyCode::Semicolon => Some(";"@),
        KeyCode::Slash => Some("/"@),
        KeyCode::AltLeft => Some("Lᴀʟᴛ"@),
        KeyCode::AltRight => Some("Rᴀʟᴛ"@),
        KeyCode::Backspace => Some("⌫"@),
        KeyCode::CapsLock => Some("⇪"@),
        KeyCode::ControlLeft => Some("Lᴄᴛʀʟ"@),
        KeyCode::ControlRight => Some("Rᴄᴛʀʟ"@),
        KeyCode::Enter => Some("↵"@),
        KeyCode::ShiftLeft => Some("Lꜱʜꜰᴛ"@),
        KeyCode::ShiftRight => Some("Rꜱʜꜰᴛ"@),
        KeyCode::Space => Some("Sᴘᴀᴄᴇ"@),
        KeyCode::Tab => Some("⇥"@),
        KeyCode::Delete => Some("⌦"@),
        KeyCode::End => Some("↘"@),
        KeyCode::Home => Some("↖"@),
        KeyCode::Insert => Some("Iɴꜱ"@),
        KeyCode::PageDown => Some("Pɢᴅɴ"@),
        KeyCode::PageUp => Some("Pɢᴜᴘ"@),
        KeyCode::ArrowDown => Some("Dᴏᴡɴ"@),
        KeyCode::ArrowLeft => Some("Lᴇꜰᴛ"@),
        KeyCode::ArrowRight => Some("Rɪɢʜᴛ"@),
        KeyCode::ArrowUp => Some("Uᴘ"@),
        KeyCode::Escape => Some("Eꜱᴄ"@),
        KeyCode::PrintScreen => Some("PʀᴛSᴄ"@),
        _ => None,
    }
}

/// The short description of a key shown to players: the character on it for letters, digits
/// and punctuation, a symbol or an abbreviation for the main other keys, and none for keypad,
/// function, media and other special keys.
pub fn keycode_desc(code: KeyCode) -> (r: Option<&'static str>)
    ensures
        r is Some == spec_keycode_desc(code) is Some,
        r matches Some(s) ==> s@ == spec_keycode_desc(code)->0,
{
    match code {
        KeyCode::Unidentified(..) => None,
        KeyCode::Backquote => Some("`"),
        KeyCode::Backslash => Some("\\"),
        KeyCode::BracketLeft => Some("["),
        KeyCode::BracketRight => Some("]"),
        KeyCode::Comma => Some(","),
        KeyCode::Digit0 => Some("0"),
        KeyCode::Digit1 => Some("1"),
        KeyCode::Digit2 => Some("2"),
        KeyCode::Digit3 => Some("3"),
        KeyCode::Digit4 => Some("4"),
        KeyCode::Digit5 => Some("5"),
        KeyCode::Digit6 => Some("6"),
        KeyCode::Digit7 => Some("7"),
        KeyCode::Digit8 => Some("8"),
        KeyCode::Digit9 => Some("9"),
        KeyCode::Equal => Some("="),
        KeyCode::IntlBackslash => None,
        KeyCode::IntlRo => None,
        KeyCode::IntlYen => None,
        KeyCode::KeyA => Some("A"),
        KeyCode::KeyB => Some("B"),
        KeyCode::KeyC => Some("C"),
        KeyCode::KeyD => Some("D"),
        KeyCode::KeyE => Some("E"),
        KeyCode::KeyF => Some("F"),
        KeyCode::KeyG => Some("G"),
        KeyCode::KeyH => Some("H"),
        KeyCode::KeyI => Some("I"),
        KeyCode::KeyJ => Some("J"),
        KeyCode::KeyK => Some("K"),
        KeyCode::KeyL => Some("L"),
        KeyCode::KeyM => Some("M"),
        KeyCode::KeyN => Some("N"),
        KeyCode::KeyO => Some("O"),
        KeyCode::KeyP => Some("P"),
        KeyCode::KeyQ => Some("Q"),
        KeyCode::KeyR => Some("R"),
        KeyCode::KeyS => Some("S"),
        KeyCode::KeyT => Some("T"),
        KeyCode::KeyU => Some("U"),
        KeyCode::KeyV => Some("V"),
        KeyCode::KeyW => Some("W"),
        KeyCode::KeyX => Some("X"),
        KeyCode::KeyY => Some("Y"),
        KeyCode::KeyZ => Some("Z"),
        KeyCode::Minus => Some("-"),
        KeyCode::Period => Some("."),
        KeyCode::Quote => Some("\""),
        KeyCode::Semicolon => Some(";"),
        KeyCode::Slash => Some("/"),
        KeyCode::AltLeft => Some("Lᴀʟᴛ"),
        KeyCode::AltRight => Some("Rᴀʟᴛ"),
        KeyCode::Backspace => Some("⌫"),
        KeyCode::CapsLock => Some("⇪"),
        KeyCode::ContextMenu => None,
        KeyCode::ControlLeft => Some("Lᴄᴛʀʟ"),
        KeyCode::ControlRight => Some("Rᴄᴛʀʟ"),
        KeyCode::Enter => Some("↵"),
        KeyCode::SuperLeft => None,
        KeyCode::SuperRight => None,
        KeyCode::ShiftLeft => Some("Lꜱʜꜰᴛ"),
        KeyCode::ShiftRight => Some("Rꜱʜꜰᴛ"),
        KeyCode::Space => Some("Sᴘᴀᴄᴇ"),
        KeyCode::Tab => Some("⇥"),
        KeyCode::Convert => None,
        KeyCode::KanaMode => None,
        KeyCode::Lang1 => None,
        KeyCode::Lang2 => None,
        KeyCode::Lang3 => None,
        KeyCode::Lang4 => None,
        KeyCode::Lang5 => None,
        KeyCode::NonConvert => None,
        KeyCode::Delete => Some("⌦"),
        KeyCode::End => Some("↘"),
        KeyCode::Help => None,
        KeyCode::Home => Some("↖"),
        KeyCode::Insert => Some("Iɴꜱ"),
        KeyCode::PageDown => Some("Pɢᴅɴ"),
        KeyCode::PageUp => Some("Pɢᴜᴘ"),
        KeyCode::ArrowDown => Some("Dᴏᴡɴ"),
        KeyCode::ArrowLeft => Some("Lᴇꜰᴛ"),
        KeyCode::ArrowRight => Some("Rɪɢʜᴛ"),
        KeyCode::ArrowUp => Some("Uᴘ"),
        KeyCode::NumLock => None,
        KeyCode::Numpad0 => None,
        KeyCode::Numpad1 => None,
        KeyCode::Numpad2 => None,
        KeyCode::Numpad3 => None,
        KeyCode::Numpad4 => None,
        KeyCode::Numpad5 => None,
        KeyCode::Numpad6 => None,
        KeyCode::Numpad7 => None,
        KeyCode::Numpad8 => None,
        KeyCode::Numpad9 => None,
        KeyCode::NumpadAdd => None,
        KeyCode::NumpadBackspace => None,
        KeyCode::NumpadClear => None,
        KeyCode::NumpadClearEntry => None,
        KeyCode::NumpadComma => None,
        KeyCode::NumpadDecimal => None,
        KeyCode::NumpadDivide => None,
        KeyCode::NumpadEnter => None,
        KeyCode::NumpadEqual => None,
        KeyCode::NumpadHash => None,
        KeyCode::NumpadMemoryAdd => None,
        KeyCode::NumpadMemoryClear => None,
        KeyCode::NumpadMemoryRecall => None,
        KeyCode::NumpadMemoryStore => None,
        KeyCode::NumpadMemorySubtract => None,
        KeyCode::NumpadMultiply => None,
        KeyCode::NumpadParenLeft => None,
        KeyCode::NumpadParenRight => None,
        KeyCode::NumpadStar => None,
        KeyCode::NumpadSubtract => None,
        KeyCode::Escape => Some("Eꜱᴄ"),
        KeyCode::Fn => None,
        KeyCode::FnLock => None,
        KeyCode::PrintScreen => Some("PʀᴛSᴄ"),
        KeyCode::ScrollLock => None,
        KeyCode::Pause => None,
        KeyCode::BrowserBack => None,
        KeyCode::BrowserFavorites => None,
        KeyCode::BrowserForward => None,
        KeyCode::BrowserHome => None,
        KeyCode::BrowserRefresh => None,
        KeyCode::BrowserSearch => None,
        KeyCode::BrowserStop => None,
        KeyCode::Eject => None,
        KeyCode::LaunchApp1 => None,
        KeyCode::LaunchApp2 => None,
        KeyCode::LaunchMail => None,
        KeyCode::MediaPlayPause => None,
        KeyCode::MediaSelect => None,
        KeyCode::MediaStop => None,
        KeyCode::MediaTrackNext => None,
        KeyCode::MediaTrackPrevious => None,
        KeyCode::Power => None,
        KeyCode::Sleep => None,
        KeyCode::AudioVolumeDown => None,
        KeyCode::AudioVolumeMute => None,
        KeyCode::AudioVolumeUp => None,
        KeyCode::WakeUp => None,
        KeyCode::Meta => None,
        KeyCode::Hyper => None,
        KeyCode::Turbo => None,
        KeyCode::Abort => None,
        KeyCode::Resume => None,
        KeyCode::Suspend => None,
        KeyCode::Again => None,
        KeyCode::Copy => None,
        KeyCode::Cut => None,
        KeyCode::Find => None,
        KeyCode::Open => None,
        KeyCode::Paste => None,
        KeyCode::Props => None,
        KeyCode::Select => None,
        KeyCode::Undo => None,
        KeyCode::Hiragana => None,
        KeyCode::Katakana => None,
        KeyCode::F1 => None,
        KeyCode::F2 => None,
        KeyCode::F3 => None,
        KeyCode::F4 => None,
        KeyCode::F5 => None,
        KeyCode::F6 => None,
        KeyCode::F7 => None,
        KeyCode::F8 => None,
        KeyCode::F9 => None,
        KeyCode::F10 => None,
        KeyCode::F11 => None,
        KeyCode::F12 => None,
        KeyCode::F13 => None,
        KeyCode::F14 => None,
        KeyCode::F15 => None,
        KeyCode::F16 => None,
        KeyCode::F17 => None,
        KeyCode::F18 => None,
        KeyCode::F19 => None,
        KeyCode::F20 => None,
        KeyCode::F21 => None,
        KeyCode::F22 => None,
        KeyCode::F23 => None,
        KeyCode::F24 => None,
        KeyCode::F25 => None,
        KeyCode::F26 => None,
        KeyCode::F27 => None,
        KeyCode::F28 => None,
        KeyCode::F29 => None,
        KeyCode::F30 => None,
        KeyCode::F31 => None,
        KeyCode::F32 => None,
        KeyCode::F33 => None,
        KeyCode::F34 => None,
        KeyCode::F35 => None,
    }
}

/// The keys bound to the player's actions.
#[derive(Debug, Clone, Copy, PartialEq, Eq)]
pub struct KeyboardBindings {
    pub player_attack: KeyCode,
    pub player_move: [KeyCode; 4],
    pub attracted_precise: KeyCode,
    pub attracted_parry: KeyCode,
    pub attracted_accel: [KeyCode; 2],
    pub attracted_hover: [KeyCode; 2],
    pub launch: KeyCode,
}

impl Default for KeyboardBindings {
    /// Z to attack and launch, WASD to move, Space for precision, X to parry, left Control and
    /// Shift to slow down and speed up, the down and up arrows to descend and ascend.
    fn default() -> (b: Self)
        ensures
            b.player_attack == KeyCode::KeyZ,
            b.player_move@ == seq![KeyCode::KeyW, KeyCode::KeyS, KeyCode::KeyA, KeyCode::KeyD],
            b.attracted_precise == KeyCode::Space,
            b.attracted_parry == KeyCode::KeyX,
            b.attracted_accel@ == seq![KeyCode::ControlLeft, KeyCode::ShiftLeft],
            b.attracted_hover@ == seq![KeyCode::ArrowDown, KeyCode::ArrowUp],
            b.launch == KeyCode::KeyZ,
    {
        let b = KeyboardBindings {
            player_attack: KeyCode::KeyZ,
            player_move: [KeyCode::KeyW, KeyCode::KeyS, KeyCode::KeyA, KeyCode::KeyD],
            attracted_precise: KeyCode::Space,
            attracted_parry: KeyCode::KeyX,
            attracted_accel: [KeyCode::ControlLeft, KeyCode::ShiftLeft],
            attracted_hover: [KeyCode::ArrowDown, KeyCode::ArrowUp],
            launch: KeyCode::KeyZ,
        };
        proof {
            assert(b.player_move@ =~= seq![KeyCode::KeyW, KeyCode::KeyS, KeyCode::KeyA, KeyCode::KeyD]);
            assert(b.attracted_accel@ =~= seq![KeyCode::ControlLeft, KeyCode::ShiftLeft]);
            assert(b.attracted_hover@ =~= seq![KeyCode::ArrowDown, KeyCode::ArrowUp]);
        }
        b
    }
}

/// Where the game keeps its data and its settings.
#[derive(Debug, Clone, PartialEq, Eq)]
pub struct Dirs {
    pub data: String,
    pub settings: String,
}

/// Settings of type `T`, with the path of the file they are kept in.
#[derive(Debug, Clone)]
pub struct Config<T> {
    pub inner: T,
    pub path: String,
}

impl<T> Config<T> {
    pub open spec fn spec_path(&self) -> Seq<char> {
        self.path@
    }

    pub open spec fn spec_inner(&self) -> T {
        self.inner
    }

    /// The settings.
    pub fn inner(&self) -> (r: &T)
        ensures
            *r == self.spec_inner(),
    {
        &self.inner
    }

    /// Settings `inner`, kept at `path`.
    pub fn from_parts(inner: T, path: String) -> (c: Config<T>)
        ensures
            c.spec_inner() == inner,
            c.spec_path() == path@,
    {
        Config { inner, path }
    }

    /// The path of the file the settings are kept in.
    pub fn path(&self) -> (p: &str)
        ensures
            p@ == self.spec_path(),
    {
        self.path.as_str()
    }
}

/// The entities that want to know when key bindings change.
#[derive(Debug, Clone, PartialEq, Eq, Default)]
pub struct RebindObservers(Vec<Entity>);

impl RebindObservers {
    /// The observers, as a set.
    pub closed spec fn spec_set(&self) -> Set<Entity> {
        self.0@.to_set()
    }

    /// No observer is listed twice.
    pub closed spec fn wf(&self) -> bool {
        self.0@.no_duplicates()
    }

    /// No observers.
    pub fn new() -> (o: RebindObservers)
        ensures
            o.wf(),
            o.spec_set() == Set::<Entity>::empty(),
    {
        let o = RebindObservers(Vec::new());
        proof {
            assert(o.0@.to_set() =~= Set::<Entity>::empty());
        }
        o
    }

    /// Whether `e` is an observer.
    pub fn contains(&self, e: Entity) -> (b: bool)
        ensures
            b == self.spec_set().contains(e),
    {
        let mut i: usize = 0;
        while i < self.0.len()
            invariant
                i <= self.0.len(),
                forall|j: int| 0 <= j < i ==> self.0@[j] != e,
            decreases self.0.len() - i,
        {
            if self.0[i] == e {
                proof {
                    assert(self.0@.contains(e));
                }
                return true;
            }
            i = i + 1;
        }
        proof {
            assert(!self.0@.contains(e));
        }
        false
    }

    /// The observers, in the order they were added.
    pub fn to_vec(&self) -> (v: Vec<Entity>)
        ensures
            v@.to_set() == self.spec_set(),
    {
        self.0.clone()
    }
}

/// An entity that observes key bindings was added: it is one of the observers from now on.
pub fn on_rebind_add(observers: &mut RebindObservers, entity: Entity)
    requires
        old(observers).wf(),
    ensures
        final(observers).wf(),
        final(observers).spec_set() == old(observers).spec_set().insert(entity),
{
    if !observers.contains(entity) {
        let ghost prev = observers.0@;
        observers.0.push(entity);
        proof {
            assert(observers.0@ == prev.push(entity));
            assert(!prev.contains(entity));
            assert(observers.0@.no_duplicates()) by {
                assert forall|i: int, j: int| 0 <= i < observers.0@.len() && 0 <= j < observers.0@.len() && i != j implies observers.0@[i] != observers.0@[j] by {
                    if i < prev.len() && j < prev.len() {
                    } else if i == prev.len() {
                        assert(observers.0@[i] == entity);
                        assert(prev[j] == observers.0@[j]);
                    } else {
                        assert(observers.0@[j] == entity);
                        assert(prev[i] == observers.0@[i]);
                    }
                }
            }
            prev.lemma_push_to_set_commute(entity);
        }
    } else {
        proof {
            assert(old(observers).spec_set().insert(entity) =~= old(observers).spec_set());
        }
    }
}

/// Removing an observer undoes adding it: adding an entity that was not an observer and then
/// removing it leaves the observers as they were.
pub proof fn law_rebind_remove_undoes_add(
    o0: RebindObservers,
    o1: RebindObservers,
    o2: RebindObservers,
    entity: Entity,
)
    requires
        !o0.spec_set().contains(entity),
        o1.spec_set() == o0.spec_set().insert(entity),
        o2.spec_set() == o1.spec_set().remove(entity),
    ensures
        o2.spec_set() == o0.spec_set(),
{
    assert(o2.spec_set() =~= o0.spec_set());
}

/// An entity that observes key bindings was removed: it is no longer an observer.
pub fn on_rebind_remove(observers: &mut RebindObservers, entity: Entity)
    requires
        old(observers).wf(),
    ensures
        final(observers).wf(),
        final(observers).spec_set() == old(observers).spec_set().remove(entity),
{
    let ghost prev = observers.0@;
    let mut kept: Vec<Entity> = Vec::new();
    let mut i: usize = 0;
    while i < observers.0.len()
        invariant
            prev == observers.0@,
            prev.no_duplicates(),
            i <= prev.len(),
            kept@.no_duplicates(),
            kept@.to_set() == prev.take(i as int).to_set().remove(entity),
            forall|k: int| 0 <= k < kept@.len() ==> prev.take(i as int).contains(#[trigger] kept@[k]),
        decreases prev.len() - i,
    {
        let e = observers.0[i];
        proof {
            assert(prev.take(i + 1) =~= prev.take(i as int).push(e));
            prev.take(i as int).lemma_push_to_set_commute(e);
        }
        if e != entity {
            let ghost before = kept@;
            proof {
                assert(!prev.take(i as int).contains(e)) by {
                    if prev.take(i as int).contains(e) {
                        let k = choose|k: int| 0 <= k < i && prev.take(i as int)[k] == e;
                        assert(prev[k] == prev[i as int]);
                    }
                }
                assert(!before.contains(e)) by {
                    if before.contains(e) {
                        let k = choose|k: int| 0 <= k < before.len() && before[k] == e;
                        assert(prev.take(i as int).contains(before[k]));
                    }
                }
            }
            kept.push(e);
            proof {
                assert(kept@ == before.push(e));
                assert(kept@.no_duplicates()) by {
                    assert forall|a: int, b: int| 0 <= a < kept@.len() && 0 <= b < kept@.len() && a != b implies kept@[a] != kept@[b] by {
                        if a < before.len() && b < before.len() {
                        } else if a == before.len() {
                            assert(before[b] == kept@[b]);
                        } else {
                            assert(before[a] == kept@[a]);
                        }
                    }
                }
                before.lemma_push_to_set_commute(e);
                assert forall|k: int| 0 <= k < kept@.len() implies prev.take(i + 1).contains(#[trigger] kept@[k]) by {
                    if k < before.len() {
                        assert(prev.take(i as int).contains(before[k]));
                        let w = choose|w: int| 0 <= w < i && prev.take(i as int)[w] == before[k];
                        assert(prev.take(i + 1)[w] == before[k]);
                    } else {
                        assert(prev.take(i + 1)[i as int] == e);
                    }
                }
            }
        } else {
            proof {
                assert forall|k: int| 0 <= k < kept@.len() implies prev.take(i + 1).contains(#[trigger] kept@[k]) by {
                    let w = choose|w: int| 0 <= w < i && prev.take(i as int)[w] == kept@[k];
                    assert(prev.take(i + 1)[w] == kept@[k]);
                }
            }
        }
        i = i + 1;
    }
    proof {
        assert(prev.take(i as int) =~= prev);
    }
    observers.0 = kept;
}

/// The input action for rebinding keys.
#[derive(Debug, Clone, Copy, PartialEq, Eq, Structural, Default)]
pub struct Rebind;

/// Marks an entity that observes key bindings.
#[derive(Debug, Clone, Copy, PartialEq, Eq, Structural, Default)]
pub struct RebindObserved;


/// The bindings of the player's actions: attacking, and moving with four keys (up, down, left,
/// right).
#[derive(Debug, Clone, Copy, PartialEq, Eq)]
pub struct PlayerInputMap {
    pub attack: KeyCode,
    pub move_dpad: [KeyCode; 4],
}

/// The bindings of an attracted body's actions: precision and parrying, and two axes (each a
/// negative and a positive key) for accelerating and hovering.
#[derive(Debug, Clone, Copy, PartialEq, Eq)]
pub struct AttractedInputMap {
    pub precise: KeyCode,
    pub parry: KeyCode,
    pub accel: [KeyCode; 2],
    pub hover: [KeyCode; 2],
}

/// The binding of launching.
#[derive(Debug, Clone, Copy, PartialEq, Eq, Structural)]
pub struct LaunchInputMap {
    pub launch: KeyCode,
}

impl KeyboardBindings {
    /// The input maps of the player's, the attracted body's and the launching actions.
    pub fn create_input_maps(&self) -> (m: (PlayerInputMap, AttractedInputMap, LaunchInputMap))
        ensures
            m.0.attack == self.player_attack,
            m.0.move_dpad@ == self.player_move@,
            m.1.precise == self.attracted_precise,
            m.1.parry == self.attracted_parry,
            m.1.accel@ == self.attracted_accel@,
            m.1.hover@ == self.attracted_hover@,
            m.2.launch == self.launch,
    {
        (
            PlayerInputMap {
                attack: self.player_attack,
                move_dpad: [self.player_move[0], self.player_move[1], self.player_move[2], self.player_move[3]],
            },
            AttractedInputMap {
                precise: self.attracted_precise,
                parry: self.attracted_parry,
                accel: [self.attracted_accel[0], self.attracted_accel[1]],
                hover: [self.attracted_hover[0], self.attracted_hover[1]],
            },
            LaunchInputMap { launch: self.launch },
        )
    }
}


/// What reading a settings file gave: its settings, settings that could not be read, no file,
/// or another failure to open it.
#[derive(Debug, Clone, Copy, PartialEq, Eq)]
pub enum ConfigRead<T> {
    Parsed(T),
    Invalid,
    NotFound,
    Failed,
}

/// What to do after reading a settings file: use the settings read, fall back to the defaults
/// (writing them to the file), or give up.
#[derive(Debug, Clone, Copy, PartialEq, Eq)]
pub enum ConfigLoad<T> {
    Use(T),
    WriteDefault,
    Fail,
}

/// What to do after reading a settings file: settings read are used; a file that cannot be read,
/// or no file, falls back to the defaults; another failure to open the file is an error.
pub fn config_load_step<T>(read: ConfigRead<T>) -> (l: ConfigLoad<T>)
    ensures
        l == match read {
            ConfigRead::Parsed(t) => ConfigLoad::Use(t),
            ConfigRead::Invalid => ConfigLoad::WriteDefault,
            ConfigRead::NotFound => ConfigLoad::WriteDefault,
            ConfigRead::Failed => ConfigLoad::Fail,
        },
{
    match read {
        ConfigRead::Parsed(t) => ConfigLoad::Use(t),
        ConfigRead::Invalid => ConfigLoad::WriteDefault,
        ConfigRead::NotFound => ConfigLoad::WriteDefault,
        ConfigRead::Failed => ConfigLoad::Fail,
    }
}

} // verus!

use global_hotkey::hotkey::{Code, HotKey as SystemHotKey, Modifiers as SystemModifiers};
use vocieplayer::hotkeys::{from_egui, parse_all, word_kind, HotKey, Modifiers, WordKind};
use vocieplayer::keys::{egui_key_token, token_to_codes, upper_token_to_codes, Key, KeyCode, KeyModifiers};

const KEYS: [(Key, &str); 62] = [
    (Key::A, "A"), (Key::B, "B"), (Key::C, "C"), (Key::D, "D"), (Key::E, "E"), (Key::F, "F"),
    (Key::G, "G"), (Key::H, "H"), (Key::I, "I"), (Key::J, "J"), (Key::K, "K"), (Key::L, "L"),
    (Key::M, "M"), (Key::N, "N"), (Key::O, "O"), (Key::P, "P"), (Key::Q, "Q"), (Key::R, "R"),
    (Key::S, "S"), (Key::T, "T"), (Key::U, "U"), (Key::V, "V"), (Key::W, "W"), (Key::X, "X"),
    (Key::Y, "Y"), (Key::Z, "Z"),
    (Key::Num0, "0"), (Key::Num1, "1"), (Key::Num2, "2"), (Key::Num3, "3"), (Key::Num4, "4"),
    (Key::Num5, "5"), (Key::Num6, "6"), (Key::Num7, "7"), (Key::Num8, "8"), (Key::Num9, "9"),
    (Key::F1, "F1"), (Key::F2, "F2"), (Key::F3, "F3"), (Key::F4, "F4"), (Key::F5, "F5"),
    (Key::F6, "F6"), (Key::F7, "F7"), (Key::F8, "F8"), (Key::F9, "F9"), (Key::F10, "F10"),
    (Key::F11, "F11"), (Key::F12, "F12"),
    (Key::Space, "Space"), (Key::Enter, "Enter"), (Key::Tab, "Tab"), (Key::Backspace, "Backspace"),
    (Key::Insert, "Insert"), (Key::Delete, "Delete"), (Key::Home, "Home"), (Key::End, "End"),
    (Key::PageUp, "PageUp"), (Key::PageDown, "PageDown"), (Key::ArrowUp, "Up"),
    (Key::ArrowDown, "Down"), (Key::ArrowLeft, "Left"), (Key::ArrowRight, "Right"),
];

fn held(ctrl: bool, alt: bool, shift: bool, command: bool) -> KeyModifiers {
    KeyModifiers { alt, ctrl, shift, mac_cmd: false, command }
}

fn codes(keys: &[HotKey]) -> Vec<KeyCode> {
    keys.iter().map(|k| k.code).collect()
}

/// The number that the system crate gives to the hotkey with these parts.
fn system_number(mods: Modifiers, code: KeyCode) -> u32 {
    let mut m = SystemModifiers::empty();
    m.set(SystemModifiers::CONTROL, mods.ctrl);
    m.set(SystemModifiers::ALT, mods.alt);
    m.set(SystemModifiers::SHIFT, mods.shift);
    let code: Code = code.name().parse().unwrap();
    SystemHotKey::new(if m.is_empty() { None } else { Some(m) }, code).id()
}

#[test]
fn captured_keys_are_written_as_shortcuts() {
    assert_eq!(from_egui(&held(true, true, false, true), Key::S), Some("Ctrl+Alt+S".to_string()));
    assert_eq!(from_egui(&held(false, false, false, true), Key::Num1), Some("Ctrl+1".to_string()));
    assert_eq!(from_egui(&held(false, false, true, false), Key::F10), Some("Shift+F10".to_string()));
    assert_eq!(from_egui(&held(true, true, true, false), Key::ArrowUp), Some("Ctrl+Alt+Shift+Up".to_string()));
    assert_eq!(from_egui(&held(false, false, false, false), Key::Space), Some("Space".to_string()));
}

#[test]
fn some_keys_cannot_be_bound() {
    assert_eq!(from_egui(&held(true, false, false, true), Key::Escape), None);
    assert_eq!(from_egui(&held(false, false, false, false), Key::Other), None);
    assert_eq!(egui_key_token(Key::Escape), None);
    assert_eq!(egui_key_token(Key::Other), None);
}

#[test]
fn mac_command_flag_alone_is_no_modifier() {
    let mods = KeyModifiers { alt: false, ctrl: false, shift: false, mac_cmd: true, command: false };
    assert_eq!(from_egui(&mods, Key::A), Some("A".to_string()));
}

#[test]
fn every_token_is_as_expected() {
    for (key, token) in KEYS {
        assert_eq!(egui_key_token(key), Some(token));
    }
}

#[test]
fn every_captured_shortcut_reads_back() {
    for (key, token) in KEYS {
        for bits in 0..16 {
            let mods = held(bits & 1 != 0, bits & 2 != 0, bits & 4 != 0, bits & 8 != 0);
            let text = from_egui(&mods, key).unwrap();
            let keys = parse_all(&text);
            let expected = Modifiers {
                ctrl: mods.ctrl || mods.command,
                alt: mods.alt,
                shift: mods.shift,
            };
            let two = token == "Enter" || (token.len() == 1 && token.as_bytes()[0].is_ascii_digit());
            assert_eq!(keys.len(), if two { 2 } else { 1 });
            assert_eq!(codes(&keys), token_to_codes(token));
            for k in keys {
                assert_eq!(k.mods, expected);
                assert_eq!(k.id, system_number(k.mods, k.code));
            }
        }
    }
}

#[test]
fn digits_and_enter_have_two_positions() {
    let keys = parse_all("Ctrl+Alt+1");
    assert_eq!(codes(&keys), vec![KeyCode::Digit1, KeyCode::Numpad1]);
    assert_eq!(keys[0].mods, Modifiers { ctrl: true, alt: true, shift: false });
    assert_eq!(keys[0].id, 0x9 * 0x10000 + 6);
    assert_eq!(keys[1].id, 0x9 * 0x10000 + 85);
    assert_eq!(codes(&parse_all("Enter")), vec![KeyCode::Enter, KeyCode::NumpadEnter]);
}

#[test]
fn numbers_are_those_of_the_system_crate() {
    let mut seen: Vec<u32> = Vec::new();
    for (_, token) in KEYS {
        for code in token_to_codes(token) {
            let system: Code = code.name().parse().unwrap();
            assert_eq!(format!("{system}"), code.name());
            for bits in 0..8 {
                let mods = Modifiers { ctrl: bits & 1 != 0, alt: bits & 2 != 0, shift: bits & 4 != 0 };
                let key = HotKey::new(mods, code);
                assert_eq!(key.id, system_number(mods, code));
                assert_eq!(key.id & 0xffff, system as u32);
                assert!(!seen.contains(&key.id));
                seen.push(key.id);
            }
        }
    }
    assert_eq!(seen.len(), 73 * 8);
}

#[test]
fn letter_case_and_spaces_do_not_matter() {
    let expected = parse_all("Ctrl+Alt+S");
    assert_eq!(expected.len(), 1);
    assert_eq!(parse_all("ctrl+alt+s"), expected);
    assert_eq!(parse_all("  CTRL + aLT +  s "), expected);
    assert_eq!(parse_all("Control+Option+S"), expected);
    assert_eq!(parse_all("Alt+S+Ctrl"), expected);
    assert_eq!(parse_all("++Ctrl++Alt+S+"), expected);
}

#[test]
fn unsupported_modifiers_are_ignored() {
    for word in ["Win", "super", "META", "Cmd"] {
        assert_eq!(parse_all(&format!("{word}+Ctrl+S")), parse_all("Ctrl+S"));
        assert_eq!(parse_all(&format!("Ctrl+{word}+S")), parse_all("Ctrl+S"));
    }
    assert_eq!(parse_all("Win"), Vec::new());
}

#[test]
fn unknown_texts_stand_for_nothing() {
    assert_eq!(parse_all(""), Vec::new());
    assert_eq!(parse_all("Ctrl+Alt"), Vec::new());
    assert_eq!(parse_all("Ctrl+F13"), Vec::new());
    assert_eq!(parse_all("Ctrl+默认"), Vec::new());
}

#[test]
fn the_last_main_key_counts() {
    assert_eq!(parse_all("Ctrl+A+B"), parse_all("Ctrl+B"));
    assert_eq!(parse_all("A+nothing"), Vec::new());
}

#[test]
fn letters_beyond_ascii_follow_unicode() {
    assert_eq!(codes(&parse_all("\u{131}")), vec![KeyCode::KeyI]);
    assert_eq!(codes(&parse_all("\u{17f}")), vec![KeyCode::KeyS]);
    assert_eq!(token_to_codes("\u{17f}pace"), vec![KeyCode::Space]);
    assert_eq!(upper_token_to_codes("\u{17f}PACE"), Vec::new());
    assert_eq!(parse_all("\u{17f}hift+A").len(), 1);
    assert!(!parse_all("\u{17f}hift+A")[0].mods.shift);
}

#[test]
fn words_are_told_apart_by_their_lower_case() {
    assert_eq!(word_kind("ctrl"), WordKind::Ctrl);
    assert_eq!(word_kind("control"), WordKind::Ctrl);
    assert_eq!(word_kind("alt"), WordKind::Alt);
    assert_eq!(word_kind("option"), WordKind::Alt);
    assert_eq!(word_kind("shift"), WordKind::Shift);
    assert_eq!(word_kind("win"), WordKind::Ignored);
    assert_eq!(word_kind("super"), WordKind::Ignored);
    assert_eq!(word_kind("meta"), WordKind::Ignored);
    assert_eq!(word_kind("cmd"), WordKind::Ignored);
    assert_eq!(word_kind("Ctrl"), WordKind::Main);
    assert_eq!(word_kind("s"), WordKind::Main);
}

#[test]
fn upper_tokens_are_exact() {
    assert_eq!(upper_token_to_codes("PAGEUP"), vec![KeyCode::PageUp]);
    assert_eq!(upper_token_to_codes("PageUp"), Vec::new());
    assert_eq!(token_to_codes("pageup"), vec![KeyCode::PageUp]);
}

#[test]
fn harmless_changes_keep_the_shortcut() {
    let expected = parse_all("Ctrl+Alt+S");
    for text in [
        " s + CONTROL ++ Win+option",
        "Alt+Ctrl+S",
        "S+Alt+Ctrl",
        "Ctrl+S+Alt+Ctrl+alt",
        "Control+Option+S",
        "Ctrl++Alt+ +S",
        "Ctrl+super+Alt+S+meta",
        "cmd+CTRL+aLT+s",
    ] {
        assert_eq!(parse_all(text), expected);
    }
}

#[test]
fn ascii_case_does_not_matter_beside_other_letters() {
    let expected = parse_all("Ctrl+Space");
    assert_eq!(parse_all("Ctrl+\u{17f}pace"), expected);
    assert_eq!(parse_all("cTRL+\u{17f}PACE"), expected);
    assert_eq!(parse_all("Ctrl+\u{17f}PaCe"), expected);
}

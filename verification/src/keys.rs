//! Keys as the window reports them, the tokens they are written with, and the
//! physical key positions that a token stands for.

use crate::text::{text_eq, upper};
use vstd::prelude::*;

verus! {

/// A key as the window toolkit reports it. Keys without a name here are `Other`.
#[derive(Clone, Copy, PartialEq, Eq, Structural, Debug)]
pub enum Key {
    A, B, C, D, E, F, G, H, I, J, K, L, M, N, O, P, Q, R, S, T, U, V, W, X, Y, Z, Num0, Num1,
    Num2, Num3, Num4, Num5, Num6, Num7, Num8, Num9, F1, F2, F3, F4, F5, F6, F7, F8, F9, F10,
    F11, F12, Space, Enter, Tab, Backspace, Insert, Delete, Home, End, PageUp, PageDown,
    ArrowUp, ArrowDown, ArrowLeft, ArrowRight, Escape, Other,
}

/// The modifier keys that are down while a key is pressed, as the window toolkit
/// reports them. `command` is the control key, or the command key on a Mac.
#[derive(Clone, Copy, PartialEq, Eq, Structural, Debug)]
pub struct KeyModifiers {
    pub alt: bool,
    pub ctrl: bool,
    pub shift: bool,
    pub mac_cmd: bool,
    pub command: bool,
}

/// The physical position of a key.
#[derive(Clone, Copy, PartialEq, Eq, Structural, Debug)]
pub enum KeyCode {
    KeyA, KeyB, KeyC, KeyD, KeyE, KeyF, KeyG, KeyH, KeyI, KeyJ, KeyK, KeyL, KeyM, KeyN, KeyO,
    KeyP, KeyQ, KeyR, KeyS, KeyT, KeyU, KeyV, KeyW, KeyX, KeyY, KeyZ, Digit0, Numpad0, Digit1,
    Numpad1, Digit2, Numpad2, Digit3, Numpad3, Digit4, Numpad4, Digit5, Numpad5, Digit6,
    Numpad6, Digit7, Numpad7, Digit8, Numpad8, Digit9, Numpad9, F1, F2, F3, F4, F5, F6, F7, F8,
    F9, F10, F11, F12, Space, Enter, NumpadEnter, Tab, Backspace, Insert, Delete, Home, End,
    PageUp, PageDown, ArrowUp, ArrowDown, ArrowLeft, ArrowRight,
}

/// The token that `key` is written with; keys that cannot be bound have none.
pub open spec fn key_token(key: Key) -> Option<Seq<char>> {
    match key {
        Key::A => Some("A"@),
        Key::B => Some("B"@),
        Key::C => Some("C"@),
        Key::D => Some("D"@),
        Key::E => Some("E"@),
        Key::F => Some("F"@),
        Key::G => Some("G"@),
        Key::H => Some("H"@),
        Key::I => Some("I"@),
        Key::J => Some("J"@),
        Key::K => Some("K"@),
        Key::L => Some("L"@),
        Key::M => Some("M"@),
        Key::N => Some("N"@),
        Key::O => Some("O"@),
        Key::P => Some("P"@),
        Key::Q => Some("Q"@),
        Key::R => Some("R"@),
        Key::S => Some("S"@),
        Key::T => Some("T"@),
        Key::U => Some("U"@),
        Key::V => Some("V"@),
        Key::W => Some("W"@),
        Key::X => Some("X"@),
        Key::Y => Some("Y"@),
        Key::Z => Some("Z"@),
        Key::Num0 => Some("0"@),
        Key::Num1 => Some("1"@),
        Key::Num2 => Some("2"@),
        Key::Num3 => Some("3"@),
        Key::Num4 => Some("4"@),
        Key::Num5 => Some("5"@),
        Key::Num6 => Some("6"@),
        Key::Num7 => Some("7"@),
        Key::Num8 => Some("8"@),
        Key::Num9 => Some("9"@),
        Key::F1 => Some("F1"@),
        Key::F2 => Some("F2"@),
        Key::F3 => Some("F3"@),
        Key::F4 => Some("F4"@),
        Key::F5 => Some("F5"@),
        Key::F6 => Some("F6"@),
        Key::F7 => Some("F7"@),
        Key::F8 => Some("F8"@),
        Key::F9 => Some("F9"@),
        Key::F10 => Some("F10"@),
        Key::F11 => Some("F11"@),
        Key::F12 => Some("F12"@),
        Key::Space => Some("Space"@),
        Key::Enter => Some("Enter"@),
        Key::Tab => Some("Tab"@),
        Key::Backspace => Some("Backspace"@),
        Key::Insert => Some("Insert"@),
        Key::Delete => Some("Delete"@),
        Key::Home => Some("Home"@),
        Key::End => Some("End"@),
        Key::PageUp => Some("PageUp"@),
        Key::PageDown => Some("PageDown"@),
        Key::ArrowUp => Some("Up"@),
        Key::ArrowDown => Some("Down"@),
        Key::ArrowLeft => Some("Left"@),
        Key::ArrowRight => Some("Right"@),
        Key::Escape => None,
        Key::Other => None,
    }
}

/// The positions that `key` is found at: digits and Enter stand on the main block
/// and on the number pad.
pub open spec fn key_positions(key: Key) -> Seq<KeyCode> {
    match key {
        Key::A => seq![KeyCode::KeyA],
        Key::B => seq![KeyCode::KeyB],
        Key::C => seq![KeyCode::KeyC],
        Key::D => seq![KeyCode::KeyD],
        Key::E => seq![KeyCode::KeyE],
        Key::F => seq![KeyCode::KeyF],
        Key::G => seq![KeyCode::KeyG],
        Key::H => seq![KeyCode::KeyH],
        Key::I => seq![KeyCode::KeyI],
        Key::J => seq![KeyCode::KeyJ],
        Key::K => seq![KeyCode::KeyK],
        Key::L => seq![KeyCode::KeyL],
        Key::M => seq![KeyCode::KeyM],
        Key::N => seq![KeyCode::KeyN],
        Key::O => seq![KeyCode::KeyO],
        Key::P => seq![KeyCode::KeyP],
        Key::Q => seq![KeyCode::KeyQ],
        Key::R => seq![KeyCode::KeyR],
        Key::S => seq![KeyCode::KeyS],
        Key::T => seq![KeyCode::KeyT],
        Key::U => seq![KeyCode::KeyU],
        Key::V => seq![KeyCode::KeyV],
        Key::W => seq![KeyCode::KeyW],
        Key::X => seq![KeyCode::KeyX],
        Key::Y => seq![KeyCode::KeyY],
        Key::Z => seq![KeyCode::KeyZ],
        Key::Num0 => seq![KeyCode::Digit0, KeyCode::Numpad0],
        Key::Num1 => seq![KeyCode::Digit1, KeyCode::Numpad1],
        Key::Num2 => seq![KeyCode::Digit2, KeyCode::Numpad2],
        Key::Num3 => seq![KeyCode::Digit3, KeyCode::Numpad3],
        Key::Num4 => seq![KeyCode::Digit4, KeyCode::Numpad4],
        Key::Num5 => seq![KeyCode::Digit5, KeyCode::Numpad5],
        Key::Num6 => seq![KeyCode::Digit6, KeyCode::Numpad6],
        Key::Num7 => seq![KeyCode::Digit7, KeyCode::Numpad7],
        Key::Num8 => seq![KeyCode::Digit8, KeyCode::Numpad8],
        Key::Num9 => seq![KeyCode::Digit9, KeyCode::Numpad9],
        Key::F1 => seq![KeyCode::F1],
        Key::F2 => seq![KeyCode::F2],
        Key::F3 => seq![KeyCode::F3],
        Key::F4 => seq![KeyCode::F4],
        Key::F5 => seq![KeyCode::F5],
        Key::F6 => seq![KeyCode::F6],
        Key::F7 => seq![KeyCode::F7],
        Key::F8 => seq![KeyCode::F8],
        Key::F9 => seq![KeyCode::F9],
        Key::F10 => seq![KeyCode::F10],
        Key::F11 => seq![KeyCode::F11],
        Key::F12 => seq![KeyCode::F12],
        Key::Space => seq![KeyCode::Space],
        Key::Enter => seq![KeyCode::Enter, KeyCode::NumpadEnter],
        Key::Tab => seq![KeyCode::Tab],
        Key::Backspace => seq![KeyCode::Backspace],
        Key::Insert => seq![KeyCode::Insert],
        Key::Delete => seq![KeyCode::Delete],
        Key::Home => seq![KeyCode::Home],
        Key::End => seq![KeyCode::End],
        Key::PageUp => seq![KeyCode::PageUp],
        Key::PageDown => seq![KeyCode::PageDown],
        Key::ArrowUp => seq![KeyCode::ArrowUp],
        Key::ArrowDown => seq![KeyCode::ArrowDown],
        Key::ArrowLeft => seq![KeyCode::ArrowLeft],
        Key::ArrowRight => seq![KeyCode::ArrowRight],
        Key::Escape => seq![],
        Key::Other => seq![],
    }
}

/// The positions that an upper-case token stands for; none if it is unknown.
pub open spec fn token_codes(token: Seq<char>) -> Seq<KeyCode> {
    if token == "0"@ {
        seq![KeyCode::Digit0, KeyCode::Numpad0]
    } else if token == "1"@ {
        seq![KeyCode::Digit1, KeyCode::Numpad1]
    } else if token == "2"@ {
        seq![KeyCode::Digit2, KeyCode::Numpad2]
    } else if token == "3"@ {
        seq![KeyCode::Digit3, KeyCode::Numpad3]
    } else if token == "4"@ {
        seq![KeyCode::Digit4, KeyCode::Numpad4]
    } else if token == "5"@ {
        seq![KeyCode::Digit5, KeyCode::Numpad5]
    } else if token == "6"@ {
        seq![KeyCode::Digit6, KeyCode::Numpad6]
    } else if token == "7"@ {
        seq![KeyCode::Digit7, KeyCode::Numpad7]
    } else if token == "8"@ {
        seq![KeyCode::Digit8, KeyCode::Numpad8]
    } else if token == "9"@ {
        seq![KeyCode::Digit9, KeyCode::Numpad9]
    } else if token == "ENTER"@ {
        seq![KeyCode::Enter, KeyCode::NumpadEnter]
    } else if token == "A"@ {
        seq![KeyCode::KeyA]
    } else if token == "B"@ {
        seq![KeyCode::KeyB]
    } else if token == "C"@ {
        seq![KeyCode::KeyC]
    } else if token == "D"@ {
        seq![KeyCode::KeyD]
    } else if token == "E"@ {
        seq![KeyCode::KeyE]
    } else if token == "F"@ {
        seq![KeyCode::KeyF]
    } else if token == "G"@ {
        seq![KeyCode::KeyG]
    } else if token == "H"@ {
        seq![KeyCode::KeyH]
    } else if token == "I"@ {
        seq![KeyCode::KeyI]
    } else if token == "J"@ {
        seq![KeyCode::KeyJ]
    } else if token == "K"@ {
        seq![KeyCode::KeyK]
    } else if token == "L"@ {
        seq![KeyCode::KeyL]
    } else if token == "M"@ {
        seq![KeyCode::KeyM]
    } else if token == "N"@ {
        seq![KeyCode::KeyN]
    } else if token == "O"@ {
        seq![KeyCode::KeyO]
    } else if token == "P"@ {
        seq![KeyCode::KeyP]
    } else if token == "Q"@ {
        seq![KeyCode::KeyQ]
    } else if token == "R"@ {
        seq![KeyCode::KeyR]
    } else if token == "S"@ {
        seq![KeyCode::KeyS]
    } else if token == "T"@ {
        seq![KeyCode::KeyT]
    } else if token == "U"@ {
        seq![KeyCode::KeyU]
    } else if token == "V"@ {
        seq![KeyCode::KeyV]
    } else if token == "W"@ {
        seq![KeyCode::KeyW]
    } else if token == "X"@ {
        seq![KeyCode::KeyX]
    } else if token == "Y"@ {
        seq![KeyCode::KeyY]
    } else if token == "Z"@ {
        seq![KeyCode::KeyZ]
    } else if token == "F1"@ {
        seq![KeyCode::F1]
    } else if token == "F2"@ {
        seq![KeyCode::F2]
    } else if token == "F3"@ {
        seq![KeyCode::F3]
    } else if token == "F4"@ {
        seq![KeyCode::F4]
    } else if token == "F5"@ {
        seq![KeyCode::F5]
    } else if token == "F6"@ {
        seq![KeyCode::F6]
    } else if token == "F7"@ {
        seq![KeyCode::F7]
    } else if token == "F8"@ {
        seq![KeyCode::F8]
    } else if token == "F9"@ {
        seq![KeyCode::F9]
    } else if token == "F10"@ {
        seq![KeyCode::F10]
    } else if token == "F11"@ {
        seq![KeyCode::F11]
    } else if token == "F12"@ {
        seq![KeyCode::F12]
    } else if token == "SPACE"@ {
        seq![KeyCode::Space]
    } else if token == "TAB"@ {
        seq![KeyCode::Tab]
    } else if token == "BACKSPACE"@ {
        seq![KeyCode::Backspace]
    } else if token == "INSERT"@ {
        seq![KeyCode::Insert]
    } else if token == "DELETE"@ {
        seq![KeyCode::Delete]
    } else if token == "HOME"@ {
        seq![KeyCode::Home]
    } else if token == "END"@ {
        seq![KeyCode::End]
    } else if token == "PAGEUP"@ {
        seq![KeyCode::PageUp]
    } else if token == "PAGEDOWN"@ {
        seq![KeyCode::PageDown]
    } else if token == "UP"@ {
        seq![KeyCode::ArrowUp]
    } else if token == "DOWN"@ {
        seq![KeyCode::ArrowDown]
    } else if token == "LEFT"@ {
        seq![KeyCode::ArrowLeft]
    } else if token == "RIGHT"@ {
        seq![KeyCode::ArrowRight]
    } else {
        seq![]
    }
}

/// The token that `key` is written with; `None` for keys that cannot be bound.
pub fn egui_key_token(key: Key) -> (r: Option<&'static str>)
    ensures
        r matches Some(t) ==> key_token(key) == Some(t@),
        r is None ==> key_token(key) is None,
{
    match key {
        Key::A => Some("A"),
        Key::B => Some("B"),
        Key::C => Some("C"),
        Key::D => Some("D"),
        Key::E => Some("E"),
        Key::F => Some("F"),
        Key::G => Some("G"),
        Key::H => Some("H"),
        Key::I => Some("I"),
        Key::J => Some("J"),
        Key::K => Some("K"),
        Key::L => Some("L"),
        Key::M => Some("M"),
        Key::N => Some("N"),
        Key::O => Some("O"),
        Key::P => Some("P"),
        Key::Q => Some("Q"),
        Key::R => Some("R"),
        Key::S => Some("S"),
        Key::T => Some("T"),
        Key::U => Some("U"),
        Key::V => Some("V"),
        Key::W => Some("W"),
        Key::X => Some("X"),
        Key::Y => Some("Y"),
        Key::Z => Some("Z"),
        Key::Num0 => Some("0"),
        Key::Num1 => Some("1"),
        Key::Num2 => Some("2"),
        Key::Num3 => Some("3"),
        Key::Num4 => Some("4"),
        Key::Num5 => Some("5"),
        Key::Num6 => Some("6"),
        Key::Num7 => Some("7"),
        Key::Num8 => Some("8"),
        Key::Num9 => Some("9"),
        Key::F1 => Some("F1"),
        Key::F2 => Some("F2"),
        Key::F3 => Some("F3"),
        Key::F4 => Some("F4"),
        Key::F5 => Some("F5"),
        Key::F6 => Some("F6"),
        Key::F7 => Some("F7"),
        Key::F8 => Some("F8"),
        Key::F9 => Some("F9"),
        Key::F10 => Some("F10"),
        Key::F11 => Some("F11"),
        Key::F12 => Some("F12"),
        Key::Space => Some("Space"),
        Key::Enter => Some("Enter"),
        Key::Tab => Some("Tab"),
        Key::Backspace => Some("Backspace"),
        Key::Insert => Some("Insert"),
        Key::Delete => Some("Delete"),
        Key::Home => Some("Home"),
        Key::End => Some("End"),
        Key::PageUp => Some("PageUp"),
        Key::PageDown => Some("PageDown"),
        Key::ArrowUp => Some("Up"),
        Key::ArrowDown => Some("Down"),
        Key::ArrowLeft => Some("Left"),
        Key::ArrowRight => Some("Right"),
        Key::Escape => None,
        Key::Other => None,
    }
}

fn one(c: KeyCode) -> (r: Vec<KeyCode>)
    ensures
        r@ == seq![c],
{
    let mut r: Vec<KeyCode> = Vec::new();
    r.push(c);
    r
}

fn two(c: KeyCode, d: KeyCode) -> (r: Vec<KeyCode>)
    ensures
        r@ == seq![c, d],
{
    let mut r: Vec<KeyCode> = Vec::new();
    r.push(c);
    r.push(d);
    r
}

/// The positions that the upper-case token `u` stands for. Digits and Enter stand
/// for two: main block and number pad.
pub fn upper_token_to_codes(u: &str) -> (r: Vec<KeyCode>)
    ensures
        r@ == token_codes(u@),
{
    if text_eq(u, "0") {
        two(KeyCode::Digit0, KeyCode::Numpad0)
    } else if text_eq(u, "1") {
        two(KeyCode::Digit1, KeyCode::Numpad1)
    } else if text_eq(u, "2") {
        two(KeyCode::Digit2, KeyCode::Numpad2)
    } else if text_eq(u, "3") {
        two(KeyCode::Digit3, KeyCode::Numpad3)
    } else if text_eq(u, "4") {
        two(KeyCode::Digit4, KeyCode::Numpad4)
    } else if text_eq(u, "5") {
        two(KeyCode::Digit5, KeyCode::Numpad5)
    } else if text_eq(u, "6") {
        two(KeyCode::Digit6, KeyCode::Numpad6)
    } else if text_eq(u, "7") {
        two(KeyCode::Digit7, KeyCode::Numpad7)
    } else if text_eq(u, "8") {
        two(KeyCode::Digit8, KeyCode::Numpad8)
    } else if text_eq(u, "9") {
        two(KeyCode::Digit9, KeyCode::Numpad9)
    } else if text_eq(u, "ENTER") {
        two(KeyCode::Enter, KeyCode::NumpadEnter)
    } else if text_eq(u, "A") {
        one(KeyCode::KeyA)
    } else if text_eq(u, "B") {
        one(KeyCode::KeyB)
    } else if text_eq(u, "C") {
        one(KeyCode::KeyC)
    } else if text_eq(u, "D") {
        one(KeyCode::KeyD)
    } else if text_eq(u, "E") {
        one(KeyCode::KeyE)
    } else if text_eq(u, "F") {
        one(KeyCode::KeyF)
    } else if text_eq(u, "G") {
        one(KeyCode::KeyG)
    } else if text_eq(u, "H") {
        one(KeyCode::KeyH)
    } else if text_eq(u, "I") {
        one(KeyCode::KeyI)
    } else if text_eq(u, "J") {
        one(KeyCode::KeyJ)
    } else if text_eq(u, "K") {
        one(KeyCode::KeyK)
    } else if text_eq(u, "L") {
        one(KeyCode::KeyL)
    } else if text_eq(u, "M") {
        one(KeyCode::KeyM)
    } else if text_eq(u, "N") {
        one(KeyCode::KeyN)
    } else if text_eq(u, "O") {
        one(KeyCode::KeyO)
    } else if text_eq(u, "P") {
        one(KeyCode::KeyP)
    } else if text_eq(u, "Q") {
        one(KeyCode::KeyQ)
    } else if text_eq(u, "R") {
        one(KeyCode::KeyR)
    } else if text_eq(u, "S") {
        one(KeyCode::KeyS)
    } else if text_eq(u, "T") {
        one(KeyCode::KeyT)
    } else if text_eq(u, "U") {
        one(KeyCode::KeyU)
    } else if text_eq(u, "V") {
        one(KeyCode::KeyV)
    } else if text_eq(u, "W") {
        one(KeyCode::KeyW)
    } else if text_eq(u, "X") {
        one(KeyCode::KeyX)
    } else if text_eq(u, "Y") {
        one(KeyCode::KeyY)
    } else if text_eq(u, "Z") {
        one(KeyCode::KeyZ)
    } else if text_eq(u, "F1") {
        one(KeyCode::F1)
    } else if text_eq(u, "F2") {
        one(KeyCode::F2)
    } else if text_eq(u, "F3") {
        one(KeyCode::F3)
    } else if text_eq(u, "F4") {
        one(KeyCode::F4)
    } else if text_eq(u, "F5") {
        one(KeyCode::F5)
    } else if text_eq(u, "F6") {
        one(KeyCode::F6)
    } else if text_eq(u, "F7") {
        one(KeyCode::F7)
    } else if text_eq(u, "F8") {
        one(KeyCode::F8)
    } else if text_eq(u, "F9") {
        one(KeyCode::F9)
    } else if text_eq(u, "F10") {
        one(KeyCode::F10)
    } else if text_eq(u, "F11") {
        one(KeyCode::F11)
    } else if text_eq(u, "F12") {
        one(KeyCode::F12)
    } else if text_eq(u, "SPACE") {
        one(KeyCode::Space)
    } else if text_eq(u, "TAB") {
        one(KeyCode::Tab)
    } else if text_eq(u, "BACKSPACE") {
        one(KeyCode::Backspace)
    } else if text_eq(u, "INSERT") {
        one(KeyCode::Insert)
    } else if text_eq(u, "DELETE") {
        one(KeyCode::Delete)
    } else if text_eq(u, "HOME") {
        one(KeyCode::Home)
    } else if text_eq(u, "END") {
        one(KeyCode::End)
    } else if text_eq(u, "PAGEUP") {
        one(KeyCode::PageUp)
    } else if text_eq(u, "PAGEDOWN") {
        one(KeyCode::PageDown)
    } else if text_eq(u, "UP") {
        one(KeyCode::ArrowUp)
    } else if text_eq(u, "DOWN") {
        one(KeyCode::ArrowDown)
    } else if text_eq(u, "LEFT") {
        one(KeyCode::ArrowLeft)
    } else if text_eq(u, "RIGHT") {
        one(KeyCode::ArrowRight)
    } else {
        Vec::new()
    }
}

/// The positions that the token `t` stands for, whatever its letter case.
pub fn token_to_codes(t: &str) -> (r: Vec<KeyCode>)
    ensures
        r@ == token_codes(upper(t@)),
{
    let up = t.to_uppercase();
    upper_token_to_codes(up.as_str())
}

/// The name of a position, as the UI Events standard spells it.
pub open spec fn code_name(code: KeyCode) -> Seq<char> {
    match code {
        KeyCode::KeyA => "KeyA"@,
        KeyCode::KeyB => "KeyB"@,
        KeyCode::KeyC => "KeyC"@,
        KeyCode::KeyD => "KeyD"@,
        KeyCode::KeyE => "KeyE"@,
        KeyCode::KeyF => "KeyF"@,
        KeyCode::KeyG => "KeyG"@,
        KeyCode::KeyH => "KeyH"@,
        KeyCode::KeyI => "KeyI"@,
        KeyCode::KeyJ => "KeyJ"@,
        KeyCode::KeyK => "KeyK"@,
        KeyCode::KeyL => "KeyL"@,
        KeyCode::KeyM => "KeyM"@,
        KeyCode::KeyN => "KeyN"@,
        KeyCode::KeyO => "KeyO"@,
        KeyCode::KeyP => "KeyP"@,
        KeyCode::KeyQ => "KeyQ"@,
        KeyCode::KeyR => "KeyR"@,
        KeyCode::KeyS => "KeyS"@,
        KeyCode::KeyT => "KeyT"@,
        KeyCode::KeyU => "KeyU"@,
        KeyCode::KeyV => "KeyV"@,
        KeyCode::KeyW => "KeyW"@,
        KeyCode::KeyX => "KeyX"@,
        KeyCode::KeyY => "KeyY"@,
        KeyCode::KeyZ => "KeyZ"@,
        KeyCode::Digit0 => "Digit0"@,
        KeyCode::Numpad0 => "Numpad0"@,
        KeyCode::Digit1 => "Digit1"@,
        KeyCode::Numpad1 => "Numpad1"@,
        KeyCode::Digit2 => "Digit2"@,
        KeyCode::Numpad2 => "Numpad2"@,
        KeyCode::Digit3 => "Digit3"@,
        KeyCode::Numpad3 => "Numpad3"@,
        KeyCode::Digit4 => "Digit4"@,
        KeyCode::Numpad4 => "Numpad4"@,
        KeyCode::Digit5 => "Digit5"@,
        KeyCode::Numpad5 => "Numpad5"@,
        KeyCode::Digit6 => "Digit6"@,
        KeyCode::Numpad6 => "Numpad6"@,
        KeyCode::Digit7 => "Digit7"@,
        KeyCode::Numpad7 => "Numpad7"@,
        KeyCode::Digit8 => "Digit8"@,
        KeyCode::Numpad8 => "Numpad8"@,
        KeyCode::Digit9 => "Digit9"@,
        KeyCode::Numpad9 => "Numpad9"@,
        KeyCode::F1 => "F1"@,
        KeyCode::F2 => "F2"@,
        KeyCode::F3 => "F3"@,
        KeyCode::F4 => "F4"@,
        KeyCode::F5 => "F5"@,
        KeyCode::F6 => "F6"@,
        KeyCode::F7 => "F7"@,
        KeyCode::F8 => "F8"@,
        KeyCode::F9 => "F9"@,
        KeyCode::F10 => "F10"@,
        KeyCode::F11 => "F11"@,
        KeyCode::F12 => "F12"@,
        KeyCode::Space => "Space"@,
        KeyCode::Enter => "Enter"@,
        KeyCode::NumpadEnter => "NumpadEnter"@,
        KeyCode::Tab => "Tab"@,
        KeyCode::Backspace => "Backspace"@,
        KeyCode::Insert => "Insert"@,
        KeyCode::Delete => "Delete"@,
        KeyCode::Home => "Home"@,
        KeyCode::End => "End"@,
        KeyCode::PageUp => "PageUp"@,
        KeyCode::PageDown => "PageDown"@,
        KeyCode::ArrowUp => "ArrowUp"@,
        KeyCode::ArrowDown => "ArrowDown"@,
        KeyCode::ArrowLeft => "ArrowLeft"@,
        KeyCode::ArrowRight => "ArrowRight"@,
    }
}

/// The number of a position among those of the UI Events standard, in the order
/// in which `keyboard_types::Code` lists them.
pub open spec fn code_number(code: KeyCode) -> u32 {
    match code {
        KeyCode::KeyA => 19,
        KeyCode::KeyB => 20,
        KeyCode::KeyC => 21,
        KeyCode::KeyD => 22,
        KeyCode::KeyE => 23,
        KeyCode::KeyF => 24,
        KeyCode::KeyG => 25,
        KeyCode::KeyH => 26,
        KeyCode::KeyI => 27,
        KeyCode::KeyJ => 28,
        KeyCode::KeyK => 29,
        KeyCode::KeyL => 30,
        KeyCode::KeyM => 31,
        KeyCode::KeyN => 32,
        KeyCode::KeyO => 33,
        KeyCode::KeyP => 34,
        KeyCode::KeyQ => 35,
        KeyCode::KeyR => 36,
        KeyCode::KeyS => 37,
        KeyCode::KeyT => 38,
        KeyCode::KeyU => 39,
        KeyCode::KeyV => 40,
        KeyCode::KeyW => 41,
        KeyCode::KeyX => 42,
        KeyCode::KeyY => 43,
        KeyCode::KeyZ => 44,
        KeyCode::Digit0 => 5,
        KeyCode::Numpad0 => 84,
        KeyCode::Digit1 => 6,
        KeyCode::Numpad1 => 85,
        KeyCode::Digit2 => 7,
        KeyCode::Numpad2 => 86,
        KeyCode::Digit3 => 8,
        KeyCode::Numpad3 => 87,
        KeyCode::Digit4 => 9,
        KeyCode::Numpad4 => 88,
        KeyCode::Digit5 => 10,
        KeyCode::Numpad5 => 89,
        KeyCode::Digit6 => 11,
        KeyCode::Numpad6 => 90,
        KeyCode::Digit7 => 12,
        KeyCode::Numpad7 => 91,
        KeyCode::Digit8 => 13,
        KeyCode::Numpad8 => 92,
        KeyCode::Digit9 => 14,
        KeyCode::Numpad9 => 93,
        KeyCode::F1 => 160,
        KeyCode::F2 => 161,
        KeyCode::F3 => 162,
        KeyCode::F4 => 163,
        KeyCode::F5 => 164,
        KeyCode::F6 => 165,
        KeyCode::F7 => 166,
        KeyCode::F8 => 167,
        KeyCode::F9 => 168,
        KeyCode::F10 => 169,
        KeyCode::F11 => 170,
        KeyCode::F12 => 171,
        KeyCode::Space => 62,
        KeyCode::Enter => 57,
        KeyCode::NumpadEnter => 101,
        KeyCode::Tab => 63,
        KeyCode::Backspace => 52,
        KeyCode::Insert => 76,
        KeyCode::Delete => 72,
        KeyCode::Home => 75,
        KeyCode::End => 73,
        KeyCode::PageUp => 78,
        KeyCode::PageDown => 77,
        KeyCode::ArrowUp => 82,
        KeyCode::ArrowDown => 79,
        KeyCode::ArrowLeft => 80,
        KeyCode::ArrowRight => 81,
    }
}

impl KeyCode {
    /// The name of the position, as the UI Events standard spells it.
    pub fn name(self) -> (r: &'static str)
        ensures
            r@ == code_name(self),
    {
        match self {
            KeyCode::KeyA => "KeyA",
            KeyCode::KeyB => "KeyB",
            KeyCode::KeyC => "KeyC",
            KeyCode::KeyD => "KeyD",
            KeyCode::KeyE => "KeyE",
            KeyCode::KeyF => "KeyF",
            KeyCode::KeyG => "KeyG",
            KeyCode::KeyH => "KeyH",
            KeyCode::KeyI => "KeyI",
            KeyCode::KeyJ => "KeyJ",
            KeyCode::KeyK => "KeyK",
            KeyCode::KeyL => "KeyL",
            KeyCode::KeyM => "KeyM",
            KeyCode::KeyN => "KeyN",
            KeyCode::KeyO => "KeyO",
            KeyCode::KeyP => "KeyP",
            KeyCode::KeyQ => "KeyQ",
            KeyCode::KeyR => "KeyR",
            KeyCode::KeyS => "KeyS",
            KeyCode::KeyT => "KeyT",
            KeyCode::KeyU => "KeyU",
            KeyCode::KeyV => "KeyV",
            KeyCode::KeyW => "KeyW",
            KeyCode::KeyX => "KeyX",
            KeyCode::KeyY => "KeyY",
            KeyCode::KeyZ => "KeyZ",
            KeyCode::Digit0 => "Digit0",
            KeyCode::Numpad0 => "Numpad0",
            KeyCode::Digit1 => "Digit1",
            KeyCode::Numpad1 => "Numpad1",
            KeyCode::Digit2 => "Digit2",
            KeyCode::Numpad2 => "Numpad2",
            KeyCode::Digit3 => "Digit3",
            KeyCode::Numpad3 => "Numpad3",
            KeyCode::Digit4 => "Digit4",
            KeyCode::Numpad4 => "Numpad4",
            KeyCode::Digit5 => "Digit5",
            KeyCode::Numpad5 => "Numpad5",
            KeyCode::Digit6 => "Digit6",
            KeyCode::Numpad6 => "Numpad6",
            KeyCode::Digit7 => "Digit7",
            KeyCode::Numpad7 => "Numpad7",
            KeyCode::Digit8 => "Digit8",
            KeyCode::Numpad8 => "Numpad8",
            KeyCode::Digit9 => "Digit9",
            KeyCode::Numpad9 => "Numpad9",
            KeyCode::F1 => "F1",
            KeyCode::F2 => "F2",
            KeyCode::F3 => "F3",
            KeyCode::F4 => "F4",
            KeyCode::F5 => "F5",
            KeyCode::F6 => "F6",
            KeyCode::F7 => "F7",
            KeyCode::F8 => "F8",
            KeyCode::F9 => "F9",
            KeyCode::F10 => "F10",
            KeyCode::F11 => "F11",
            KeyCode::F12 => "F12",
            KeyCode::Space => "Space",
            KeyCode::Enter => "Enter",
            KeyCode::NumpadEnter => "NumpadEnter",
            KeyCode::Tab => "Tab",
            KeyCode::Backspace => "Backspace",
            KeyCode::Insert => "Insert",
            KeyCode::Delete => "Delete",
            KeyCode::Home => "Home",
            KeyCode::End => "End",
            KeyCode::PageUp => "PageUp",
            KeyCode::PageDown => "PageDown",
            KeyCode::ArrowUp => "ArrowUp",
            KeyCode::ArrowDown => "ArrowDown",
            KeyCode::ArrowLeft => "ArrowLeft",
            KeyCode::ArrowRight => "ArrowRight",
        }
    }
}


/// The characters of the upper-case tokens.
proof fn lemma_token_chars()
    ensures
        "0"@.len() == 1 && "0"@[0] == '0',
        "1"@.len() == 1 && "1"@[0] == '1',
        "2"@.len() == 1 && "2"@[0] == '2',
        "3"@.len() == 1 && "3"@[0] == '3',
        "4"@.len() == 1 && "4"@[0] == '4',
        "5"@.len() == 1 && "5"@[0] == '5',
        "6"@.len() == 1 && "6"@[0] == '6',
        "7"@.len() == 1 && "7"@[0] == '7',
        "8"@.len() == 1 && "8"@[0] == '8',
        "9"@.len() == 1 && "9"@[0] == '9',
        "ENTER"@.len() == 5 && "ENTER"@[0] == 'E' && "ENTER"@[1] == 'N' && "ENTER"@[2] == 'T' && "ENTER"@[3] == 'E' && "ENTER"@[4] == 'R',
        "A"@.len() == 1 && "A"@[0] == 'A',
        "B"@.len() == 1 && "B"@[0] == 'B',
        "C"@.len() == 1 && "C"@[0] == 'C',
        "D"@.len() == 1 && "D"@[0] == 'D',
        "E"@.len() == 1 && "E"@[0] == 'E',
        "F"@.len() == 1 && "F"@[0] == 'F',
        "G"@.len() == 1 && "G"@[0] == 'G',
        "H"@.len() == 1 && "H"@[0] == 'H',
        "I"@.len() == 1 && "I"@[0] == 'I',
        "J"@.len() == 1 && "J"@[0] == 'J',
        "K"@.len() == 1 && "K"@[0] == 'K',
        "L"@.len() == 1 && "L"@[0] == 'L',
        "M"@.len() == 1 && "M"@[0] == 'M',
        "N"@.len() == 1 && "N"@[0] == 'N',
        "O"@.len() == 1 && "O"@[0] == 'O',
        "P"@.len() == 1 && "P"@[0] == 'P',
        "Q"@.len() == 1 && "Q"@[0] == 'Q',
        "R"@.len() == 1 && "R"@[0] == 'R',
        "S"@.len() == 1 && "S"@[0] == 'S',
        "T"@.len() == 1 && "T"@[0] == 'T',
        "U"@.len() == 1 && "U"@[0] == 'U',
        "V"@.len() == 1 && "V"@[0] == 'V',
        "W"@.len() == 1 && "W"@[0] == 'W',
        "X"@.len() == 1 && "X"@[0] == 'X',
        "Y"@.len() == 1 && "Y"@[0] == 'Y',
        "Z"@.len() == 1 && "Z"@[0] == 'Z',
        "F1"@.len() == 2 && "F1"@[0] == 'F' && "F1"@[1] == '1',
        "F2"@.len() == 2 && "F2"@[0] == 'F' && "F2"@[1] == '2',
        "F3"@.len() == 2 && "F3"@[0] == 'F' && "F3"@[1] == '3',
        "F4"@.len() == 2 && "F4"@[0] == 'F' && "F4"@[1] == '4',
        "F5"@.len() == 2 && "F5"@[0] == 'F' && "F5"@[1] == '5',
        "F6"@.len() == 2 && "F6"@[0] == 'F' && "F6"@[1] == '6',
        "F7"@.len() == 2 && "F7"@[0] == 'F' && "F7"@[1] == '7',
        "F8"@.len() == 2 && "F8"@[0] == 'F' && "F8"@[1] == '8',
        "F9"@.len() == 2 && "F9"@[0] == 'F' && "F9"@[1] == '9',
        "F10"@.len() == 3 && "F10"@[0] == 'F' && "F10"@[1] == '1' && "F10"@[2] == '0',
        "F11"@.len() == 3 && "F11"@[0] == 'F' && "F11"@[1] == '1' && "F11"@[2] == '1',
        "F12"@.len() == 3 && "F12"@[0] == 'F' && "F12"@[1] == '1' && "F12"@[2] == '2',
        "SPACE"@.len() == 5 && "SPACE"@[0] == 'S' && "SPACE"@[1] == 'P' && "SPACE"@[2] == 'A' && "SPACE"@[3] == 'C' && "SPACE"@[4] == 'E',
        "TAB"@.len() == 3 && "TAB"@[0] == 'T' && "TAB"@[1] == 'A' && "TAB"@[2] == 'B',
        "BACKSPACE"@.len() == 9 && "BACKSPACE"@[0] == 'B' && "BACKSPACE"@[1] == 'A' && "BACKSPACE"@[2] == 'C' && "BACKSPACE"@[3] == 'K' && "BACKSPACE"@[4] == 'S' && "BACKSPACE"@[5] == 'P' && "BACKSPACE"@[6] == 'A' && "BACKSPACE"@[7] == 'C' && "BACKSPACE"@[8] == 'E',
        "INSERT"@.len() == 6 && "INSERT"@[0] == 'I' && "INSERT"@[1] == 'N' && "INSERT"@[2] == 'S' && "INSERT"@[3] == 'E' && "INSERT"@[4] == 'R' && "INSERT"@[5] == 'T',
        "DELETE"@.len() == 6 && "DELETE"@[0] == 'D' && "DELETE"@[1] == 'E' && "DELETE"@[2] == 'L' && "DELETE"@[3] == 'E' && "DELETE"@[4] == 'T' && "DELETE"@[5] == 'E',
        "HOME"@.len() == 4 && "HOME"@[0] == 'H' && "HOME"@[1] == 'O' && "HOME"@[2] == 'M' && "HOME"@[3] == 'E',
        "END"@.len() == 3 && "END"@[0] == 'E' && "END"@[1] == 'N' && "END"@[2] == 'D',
        "PAGEUP"@.len() == 6 && "PAGEUP"@[0] == 'P' && "PAGEUP"@[1] == 'A' && "PAGEUP"@[2] == 'G' && "PAGEUP"@[3] == 'E' && "PAGEUP"@[4] == 'U' && "PAGEUP"@[5] == 'P',
        "PAGEDOWN"@.len() == 8 && "PAGEDOWN"@[0] == 'P' && "PAGEDOWN"@[1] == 'A' && "PAGEDOWN"@[2] == 'G' && "PAGEDOWN"@[3] == 'E' && "PAGEDOWN"@[4] == 'D' && "PAGEDOWN"@[5] == 'O' && "PAGEDOWN"@[6] == 'W' && "PAGEDOWN"@[7] == 'N',
        "UP"@.len() == 2 && "UP"@[0] == 'U' && "UP"@[1] == 'P',
        "DOWN"@.len() == 4 && "DOWN"@[0] == 'D' && "DOWN"@[1] == 'O' && "DOWN"@[2] == 'W' && "DOWN"@[3] == 'N',
        "LEFT"@.len() == 4 && "LEFT"@[0] == 'L' && "LEFT"@[1] == 'E' && "LEFT"@[2] == 'F' && "LEFT"@[3] == 'T',
        "RIGHT"@.len() == 5 && "RIGHT"@[0] == 'R' && "RIGHT"@[1] == 'I' && "RIGHT"@[2] == 'G' && "RIGHT"@[3] == 'H' && "RIGHT"@[4] == 'T',
{
    reveal_strlit("0"); reveal_strlit("1"); reveal_strlit("2"); reveal_strlit("3");
    reveal_strlit("4"); reveal_strlit("5"); reveal_strlit("6"); reveal_strlit("7");
    reveal_strlit("8"); reveal_strlit("9"); reveal_strlit("ENTER"); reveal_strlit("A");
    reveal_strlit("B"); reveal_strlit("C"); reveal_strlit("D"); reveal_strlit("E");
    reveal_strlit("F"); reveal_strlit("G"); reveal_strlit("H"); reveal_strlit("I");
    reveal_strlit("J"); reveal_strlit("K"); reveal_strlit("L"); reveal_strlit("M");
    reveal_strlit("N"); reveal_strlit("O"); reveal_strlit("P"); reveal_strlit("Q");
    reveal_strlit("R"); reveal_strlit("S"); reveal_strlit("T"); reveal_strlit("U");
    reveal_strlit("V"); reveal_strlit("W"); reveal_strlit("X"); reveal_strlit("Y");
    reveal_strlit("Z"); reveal_strlit("F1"); reveal_strlit("F2"); reveal_strlit("F3");
    reveal_strlit("F4"); reveal_strlit("F5"); reveal_strlit("F6"); reveal_strlit("F7");
    reveal_strlit("F8"); reveal_strlit("F9"); reveal_strlit("F10"); reveal_strlit("F11");
    reveal_strlit("F12"); reveal_strlit("SPACE"); reveal_strlit("TAB");
    reveal_strlit("BACKSPACE"); reveal_strlit("INSERT"); reveal_strlit("DELETE");
    reveal_strlit("HOME"); reveal_strlit("END"); reveal_strlit("PAGEUP");
    reveal_strlit("PAGEDOWN"); reveal_strlit("UP"); reveal_strlit("DOWN");
    reveal_strlit("LEFT"); reveal_strlit("RIGHT");
}

/// Writing a key as its token and reading the token back, in any letter case,
/// gives the positions of the key.
pub proof fn token_reads_back(key: Key)
    ensures
        key_token(key) matches Some(t) ==> token_codes(upper(t)) == key_positions(key),
{
    lemma_token_chars();
    match key {
        Key::A => {
            assert(upper("A"@) =~= "A"@);
        },
        Key::B => {
            assert(upper("B"@) =~= "B"@);
        },
        Key::C => {
            assert(upper("C"@) =~= "C"@);
        },
        Key::D => {
            assert(upper("D"@) =~= "D"@);
        },
        Key::E => {
            assert(upper("E"@) =~= "E"@);
        },
        Key::F => {
            assert(upper("F"@) =~= "F"@);
        },
        Key::G => {
            assert(upper("G"@) =~= "G"@);
        },
        Key::H => {
            assert(upper("H"@) =~= "H"@);
        },
        Key::I => {
            assert(upper("I"@) =~= "I"@);
        },
        Key::J => {
            assert(upper("J"@) =~= "J"@);
        },
        Key::K => {
            assert(upper("K"@) =~= "K"@);
        },
        Key::L => {
            assert(upper("L"@) =~= "L"@);
        },
        Key::M => {
            assert(upper("M"@) =~= "M"@);
        },
        Key::N => {
            assert(upper("N"@) =~= "N"@);
        },
        Key::O => {
            assert(upper("O"@) =~= "O"@);
        },
        Key::P => {
            assert(upper("P"@) =~= "P"@);
        },
        Key::Q => {
            assert(upper("Q"@) =~= "Q"@);
        },
        Key::R => {
            assert(upper("R"@) =~= "R"@);
        },
        Key::S => {
            assert(upper("S"@) =~= "S"@);
        },
        Key::T => {
            assert(upper("T"@) =~= "T"@);
        },
        Key::U => {
            assert(upper("U"@) =~= "U"@);
        },
        Key::V => {
            assert(upper("V"@) =~= "V"@);
        },
        Key::W => {
            assert(upper("W"@) =~= "W"@);
        },
        Key::X => {
            assert(upper("X"@) =~= "X"@);
        },
        Key::Y => {
            assert(upper("Y"@) =~= "Y"@);
        },
        Key::Z => {
            assert(upper("Z"@) =~= "Z"@);
        },
        Key::Num0 => {
            assert(upper("0"@) =~= "0"@);
        },
        Key::Num1 => {
            assert(upper("1"@) =~= "1"@);
        },
        Key::Num2 => {
            assert(upper("2"@) =~= "2"@);
        },
        Key::Num3 => {
            assert(upper("3"@) =~= "3"@);
        },
        Key::Num4 => {
            assert(upper("4"@) =~= "4"@);
        },
        Key::Num5 => {
            assert(upper("5"@) =~= "5"@);
        },
        Key::Num6 => {
            assert(upper("6"@) =~= "6"@);
        },
        Key::Num7 => {
            assert(upper("7"@) =~= "7"@);
        },
        Key::Num8 => {
            assert(upper("8"@) =~= "8"@);
        },
        Key::Num9 => {
            assert(upper("9"@) =~= "9"@);
        },
        Key::F1 => {
            assert(upper("F1"@) =~= "F1"@);
        },
        Key::F2 => {
            assert(upper("F2"@) =~= "F2"@);
        },
        Key::F3 => {
            assert(upper("F3"@) =~= "F3"@);
        },
        Key::F4 => {
            assert(upper("F4"@) =~= "F4"@);
        },
        Key::F5 => {
            assert(upper("F5"@) =~= "F5"@);
        },
        Key::F6 => {
            assert(upper("F6"@) =~= "F6"@);
        },
        Key::F7 => {
            assert(upper("F7"@) =~= "F7"@);
        },
        Key::F8 => {
            assert(upper("F8"@) =~= "F8"@);
        },
        Key::F9 => {
            assert(upper("F9"@) =~= "F9"@);
        },
        Key::F10 => {
            assert(upper("F10"@) =~= "F10"@);
        },
        Key::F11 => {
            assert(upper("F11"@) =~= "F11"@);
        },
        Key::F12 => {
            assert(upper("F12"@) =~= "F12"@);
        },
        Key::Space => {
            reveal_strlit("Space");
            assert(upper("Space"@) =~= "SPACE"@);
        },
        Key::Enter => {
            reveal_strlit("Enter");
            assert(upper("Enter"@) =~= "ENTER"@);
        },
        Key::Tab => {
            reveal_strlit("Tab");
            assert(upper("Tab"@) =~= "TAB"@);
        },
        Key::Backspace => {
            reveal_strlit("Backspace");
            assert(upper("Backspace"@) =~= "BACKSPACE"@);
        },
        Key::Insert => {
            reveal_strlit("Insert");
            assert(upper("Insert"@) =~= "INSERT"@);
        },
        Key::Delete => {
            reveal_strlit("Delete");
            assert(upper("Delete"@) =~= "DELETE"@);
        },
        Key::Home => {
            reveal_strlit("Home");
            assert(upper("Home"@) =~= "HOME"@);
        },
        Key::End => {
            reveal_strlit("End");
            assert(upper("End"@) =~= "END"@);
        },
        Key::PageUp => {
            reveal_strlit("PageUp");
            assert(upper("PageUp"@) =~= "PAGEUP"@);
        },
        Key::PageDown => {
            reveal_strlit("PageDown");
            assert(upper("PageDown"@) =~= "PAGEDOWN"@);
        },
        Key::ArrowUp => {
            reveal_strlit("Up");
            assert(upper("Up"@) =~= "UP"@);
        },
        Key::ArrowDown => {
            reveal_strlit("Down");
            assert(upper("Down"@) =~= "DOWN"@);
        },
        Key::ArrowLeft => {
            reveal_strlit("Left");
            assert(upper("Left"@) =~= "LEFT"@);
        },
        Key::ArrowRight => {
            reveal_strlit("Right");
            assert(upper("Right"@) =~= "RIGHT"@);
        },
        Key::Escape => {},
        Key::Other => {},
    }
}

/// The positions of a key are named after what the key is written with: letters, digits,
/// arrows and other keys by their names on the main block, and what is found on the number
/// pad too by its name there.
pub proof fn positions_are_named_after_their_keys(key: Key)
    ensures
        key_token(key) matches Some(t) ==> {
            let p = token_codes(upper(t));
            &&& 1 <= p.len() <= 2
            &&& {
                ||| code_name(p[0]) == "Key"@ + t
                ||| code_name(p[0]) == "Digit"@ + t
                ||| code_name(p[0]) == "Arrow"@ + t
                ||| code_name(p[0]) == t
            }
            &&& p.len() == 2 ==> code_name(p[1]) == "Numpad"@ + t
        },
{
    token_reads_back(key);
    reveal_strlit("Key");
    reveal_strlit("Digit");
    reveal_strlit("Arrow");
    reveal_strlit("Numpad");
    match key {
        Key::A => {
            reveal_strlit("A");
            reveal_strlit("KeyA");
            assert("KeyA"@ =~= "Key"@ + "A"@);
        },
        Key::B => {
            reveal_strlit("B");
            reveal_strlit("KeyB");
            assert("KeyB"@ =~= "Key"@ + "B"@);
        },
        Key::C => {
            reveal_strlit("C");
            reveal_strlit("KeyC");
            assert("KeyC"@ =~= "Key"@ + "C"@);
        },
        Key::D => {
            reveal_strlit("D");
            reveal_strlit("KeyD");
            assert("KeyD"@ =~= "Key"@ + "D"@);
        },
        Key::E => {
            reveal_strlit("E");
            reveal_strlit("KeyE");
            assert("KeyE"@ =~= "Key"@ + "E"@);
        },
        Key::F => {
            reveal_strlit("F");
            reveal_strlit("KeyF");
            assert("KeyF"@ =~= "Key"@ + "F"@);
        },
        Key::G => {
            reveal_strlit("G");
            reveal_strlit("KeyG");
            assert("KeyG"@ =~= "Key"@ + "G"@);
        },
        Key::H => {
            reveal_strlit("H");
            reveal_strlit("KeyH");
            assert("KeyH"@ =~= "Key"@ + "H"@);
        },
        Key::I => {
            reveal_strlit("I");
            reveal_strlit("KeyI");
            assert("KeyI"@ =~= "Key"@ + "I"@);
        },
        Key::J => {
            reveal_strlit("J");
            reveal_strlit("KeyJ");
            assert("KeyJ"@ =~= "Key"@ + "J"@);
        },
        Key::K => {
            reveal_strlit("K");
            reveal_strlit("KeyK");
            assert("KeyK"@ =~= "Key"@ + "K"@);
        },
        Key::L => {
            reveal_strlit("L");
            reveal_strlit("KeyL");
            assert("KeyL"@ =~= "Key"@ + "L"@);
        },
        Key::M => {
            reveal_strlit("M");
            reveal_strlit("KeyM");
            assert("KeyM"@ =~= "Key"@ + "M"@);
        },
        Key::N => {
            reveal_strlit("N");
            reveal_strlit("KeyN");
            assert("KeyN"@ =~= "Key"@ + "N"@);
        },
        Key::O => {
            reveal_strlit("O");
            reveal_strlit("KeyO");
            assert("KeyO"@ =~= "Key"@ + "O"@);
        },
        Key::P => {
            reveal_strlit("P");
            reveal_strlit("KeyP");
            assert("KeyP"@ =~= "Key"@ + "P"@);
        },
        Key::Q => {
            reveal_strlit("Q");
            reveal_strlit("KeyQ");
            assert("KeyQ"@ =~= "Key"@ + "Q"@);
        },
        Key::R => {
            reveal_strlit("R");
            reveal_strlit("KeyR");
            assert("KeyR"@ =~= "Key"@ + "R"@);
        },
        Key::S => {
            reveal_strlit("S");
            reveal_strlit("KeyS");
            assert("KeyS"@ =~= "Key"@ + "S"@);
        },
        Key::T => {
            reveal_strlit("T");
            reveal_strlit("KeyT");
            assert("KeyT"@ =~= "Key"@ + "T"@);
        },
        Key::U => {
            reveal_strlit("U");
            reveal_strlit("KeyU");
            assert("KeyU"@ =~= "Key"@ + "U"@);
        },
        Key::V => {
            reveal_strlit("V");
            reveal_strlit("KeyV");
            assert("KeyV"@ =~= "Key"@ + "V"@);
        },
        Key::W => {
            reveal_strlit("W");
            reveal_strlit("KeyW");
            assert("KeyW"@ =~= "Key"@ + "W"@);
        },
        Key::X => {
            reveal_strlit("X");
            reveal_strlit("KeyX");
            assert("KeyX"@ =~= "Key"@ + "X"@);
        },
        Key::Y => {
            reveal_strlit("Y");
            reveal_strlit("KeyY");
            assert("KeyY"@ =~= "Key"@ + "Y"@);
        },
        Key::Z => {
            reveal_strlit("Z");
            reveal_strlit("KeyZ");
            assert("KeyZ"@ =~= "Key"@ + "Z"@);
        },
        Key::Num0 => {
            reveal_strlit("0");
            reveal_strlit("Digit0");
            assert("Digit0"@ =~= "Digit"@ + "0"@);
            reveal_strlit("Numpad0");
            assert("Numpad0"@ =~= "Numpad"@ + "0"@);
        },
        Key::Num1 => {
            reveal_strlit("1");
            reveal_strlit("Digit1");
            assert("Digit1"@ =~= "Digit"@ + "1"@);
            reveal_strlit("Numpad1");
            assert("Numpad1"@ =~= "Numpad"@ + "1"@);
        },
        Key::Num2 => {
            reveal_strlit("2");
            reveal_strlit("Digit2");
            assert("Digit2"@ =~= "Digit"@ + "2"@);
            reveal_strlit("Numpad2");
            assert("Numpad2"@ =~= "Numpad"@ + "2"@);
        },
        Key::Num3 => {
            reveal_strlit("3");
            reveal_strlit("Digit3");
            assert("Digit3"@ =~= "Digit"@ + "3"@);
            reveal_strlit("Numpad3");
            assert("Numpad3"@ =~= "Numpad"@ + "3"@);
        },
        Key::Num4 => {
            reveal_strlit("4");
            reveal_strlit("Digit4");
            assert("Digit4"@ =~= "Digit"@ + "4"@);
            reveal_strlit("Numpad4");
            assert("Numpad4"@ =~= "Numpad"@ + "4"@);
        },
        Key::Num5 => {
            reveal_strlit("5");
            reveal_strlit("Digit5");
            assert("Digit5"@ =~= "Digit"@ + "5"@);
            reveal_strlit("Numpad5");
            assert("Numpad5"@ =~= "Numpad"@ + "5"@);
        },
        Key::Num6 => {
            reveal_strlit("6");
            reveal_strlit("Digit6");
            assert("Digit6"@ =~= "Digit"@ + "6"@);
            reveal_strlit("Numpad6");
            assert("Numpad6"@ =~= "Numpad"@ + "6"@);
        },
        Key::Num7 => {
            reveal_strlit("7");
            reveal_strlit("Digit7");
            assert("Digit7"@ =~= "Digit"@ + "7"@);
            reveal_strlit("Numpad7");
            assert("Numpad7"@ =~= "Numpad"@ + "7"@);
        },
        Key::Num8 => {
            reveal_strlit("8");
            reveal_strlit("Digit8");
            assert("Digit8"@ =~= "Digit"@ + "8"@);
            reveal_strlit("Numpad8");
            assert("Numpad8"@ =~= "Numpad"@ + "8"@);
        },
        Key::Num9 => {
            reveal_strlit("9");
            reveal_strlit("Digit9");
            assert("Digit9"@ =~= "Digit"@ + "9"@);
            reveal_strlit("Numpad9");
            assert("Numpad9"@ =~= "Numpad"@ + "9"@);
        },
        Key::F1 => {
            reveal_strlit("F1");
        },
        Key::F2 => {
            reveal_strlit("F2");
        },
        Key::F3 => {
            reveal_strlit("F3");
        },
        Key::F4 => {
            reveal_strlit("F4");
        },
        Key::F5 => {
            reveal_strlit("F5");
        },
        Key::F6 => {
            reveal_strlit("F6");
        },
        Key::F7 => {
            reveal_strlit("F7");
        },
        Key::F8 => {
            reveal_strlit("F8");
        },
        Key::F9 => {
            reveal_strlit("F9");
        },
        Key::F10 => {
            reveal_strlit("F10");
        },
        Key::F11 => {
            reveal_strlit("F11");
        },
        Key::F12 => {
            reveal_strlit("F12");
        },
        Key::Space => {
            reveal_strlit("Space");
        },
        Key::Enter => {
            reveal_strlit("Enter");
            reveal_strlit("NumpadEnter");
            assert("NumpadEnter"@ =~= "Numpad"@ + "Enter"@);
        },
        Key::Tab => {
            reveal_strlit("Tab");
        },
        Key::Backspace => {
            reveal_strlit("Backspace");
        },
        Key::Insert => {
            reveal_strlit("Insert");
        },
        Key::Delete => {
            reveal_strlit("Delete");
        },
        Key::Home => {
            reveal_strlit("Home");
        },
        Key::End => {
            reveal_strlit("End");
        },
        Key::PageUp => {
            reveal_strlit("PageUp");
        },
        Key::PageDown => {
            reveal_strlit("PageDown");
        },
        Key::ArrowUp => {
            reveal_strlit("Up");
            reveal_strlit("ArrowUp");
            assert("ArrowUp"@ =~= "Arrow"@ + "Up"@);
        },
        Key::ArrowDown => {
            reveal_strlit("Down");
            reveal_strlit("ArrowDown");
            assert("ArrowDown"@ =~= "Arrow"@ + "Down"@);
        },
        Key::ArrowLeft => {
            reveal_strlit("Left");
            reveal_strlit("ArrowLeft");
            assert("ArrowLeft"@ =~= "Arrow"@ + "Left"@);
        },
        Key::ArrowRight => {
            reveal_strlit("Right");
            reveal_strlit("ArrowRight");
            assert("ArrowRight"@ =~= "Arrow"@ + "Right"@);
        },
        _ => {},
    }
}

/// Only what keys are written with, in upper case, has positions.
pub proof fn only_keys_have_positions(token: Seq<char>)
    requires
        token_codes(token).len() > 0,
    ensures
        exists|key: Key| #[trigger] key_token(key) is Some && upper(key_token(key)->0) == token,
{
    lemma_token_chars();
    if token == "A"@ {
        assert(upper("A"@) =~= "A"@);
        assert(key_token(Key::A) is Some);
    }
    if token == "B"@ {
        assert(upper("B"@) =~= "B"@);
        assert(key_token(Key::B) is Some);
    }
    if token == "C"@ {
        assert(upper("C"@) =~= "C"@);
        assert(key_token(Key::C) is Some);
    }
    if token == "D"@ {
        assert(upper("D"@) =~= "D"@);
        assert(key_token(Key::D) is Some);
    }
    if token == "E"@ {
        assert(upper("E"@) =~= "E"@);
        assert(key_token(Key::E) is Some);
    }
    if token == "F"@ {
        assert(upper("F"@) =~= "F"@);
        assert(key_token(Key::F) is Some);
    }
    if token == "G"@ {
        assert(upper("G"@) =~= "G"@);
        assert(key_token(Key::G) is Some);
    }
    if token == "H"@ {
        assert(upper("H"@) =~= "H"@);
        assert(key_token(Key::H) is Some);
    }
    if token == "I"@ {
        assert(upper("I"@) =~= "I"@);
        assert(key_token(Key::I) is Some);
    }
    if token == "J"@ {
        assert(upper("J"@) =~= "J"@);
        assert(key_token(Key::J) is Some);
    }
    if token == "K"@ {
        assert(upper("K"@) =~= "K"@);
        assert(key_token(Key::K) is Some);
    }
    if token == "L"@ {
        assert(upper("L"@) =~= "L"@);
        assert(key_token(Key::L) is Some);
    }
    if token == "M"@ {
        assert(upper("M"@) =~= "M"@);
        assert(key_token(Key::M) is Some);
    }
    if token == "N"@ {
        assert(upper("N"@) =~= "N"@);
        assert(key_token(Key::N) is Some);
    }
    if token == "O"@ {
        assert(upper("O"@) =~= "O"@);
        assert(key_token(Key::O) is Some);
    }
    if token == "P"@ {
        assert(upper("P"@) =~= "P"@);
        assert(key_token(Key::P) is Some);
    }
    if token == "Q"@ {
        assert(upper("Q"@) =~= "Q"@);
        assert(key_token(Key::Q) is Some);
    }
    if token == "R"@ {
        assert(upper("R"@) =~= "R"@);
        assert(key_token(Key::R) is Some);
    }
    if token == "S"@ {
        assert(upper("S"@) =~= "S"@);
        assert(key_token(Key::S) is Some);
    }
    if token == "T"@ {
        assert(upper("T"@) =~= "T"@);
        assert(key_token(Key::T) is Some);
    }
    if token == "U"@ {
        assert(upper("U"@) =~= "U"@);
        assert(key_token(Key::U) is Some);
    }
    if token == "V"@ {
        assert(upper("V"@) =~= "V"@);
        assert(key_token(Key::V) is Some);
    }
    if token == "W"@ {
        assert(upper("W"@) =~= "W"@);
        assert(key_token(Key::W) is Some);
    }
    if token == "X"@ {
        assert(upper("X"@) =~= "X"@);
        assert(key_token(Key::X) is Some);
    }
    if token == "Y"@ {
        assert(upper("Y"@) =~= "Y"@);
        assert(key_token(Key::Y) is Some);
    }
    if token == "Z"@ {
        assert(upper("Z"@) =~= "Z"@);
        assert(key_token(Key::Z) is Some);
    }
    if token == "0"@ {
        assert(upper("0"@) =~= "0"@);
        assert(key_token(Key::Num0) is Some);
    }
    if token == "1"@ {
        assert(upper("1"@) =~= "1"@);
        assert(key_token(Key::Num1) is Some);
    }
    if token == "2"@ {
        assert(upper("2"@) =~= "2"@);
        assert(key_token(Key::Num2) is Some);
    }
    if token == "3"@ {
        assert(upper("3"@) =~= "3"@);
        assert(key_token(Key::Num3) is Some);
    }
    if token == "4"@ {
        assert(upper("4"@) =~= "4"@);
        assert(key_token(Key::Num4) is Some);
    }
    if token == "5"@ {
        assert(upper("5"@) =~= "5"@);
        assert(key_token(Key::Num5) is Some);
    }
    if token == "6"@ {
        assert(upper("6"@) =~= "6"@);
        assert(key_token(Key::Num6) is Some);
    }
    if token == "7"@ {
        assert(upper("7"@) =~= "7"@);
        assert(key_token(Key::Num7) is Some);
    }
    if token == "8"@ {
        assert(upper("8"@) =~= "8"@);
        assert(key_token(Key::Num8) is Some);
    }
    if token == "9"@ {
        assert(upper("9"@) =~= "9"@);
        assert(key_token(Key::Num9) is Some);
    }
    if token == "F1"@ {
        assert(upper("F1"@) =~= "F1"@);
        assert(key_token(Key::F1) is Some);
    }
    if token == "F2"@ {
        assert(upper("F2"@) =~= "F2"@);
        assert(key_token(Key::F2) is Some);
    }
    if token == "F3"@ {
        assert(upper("F3"@) =~= "F3"@);
        assert(key_token(Key::F3) is Some);
    }
    if token == "F4"@ {
        assert(upper("F4"@) =~= "F4"@);
        assert(key_token(Key::F4) is Some);
    }
    if token == "F5"@ {
        assert(upper("F5"@) =~= "F5"@);
        assert(key_token(Key::F5) is Some);
    }
    if token == "F6"@ {
        assert(upper("F6"@) =~= "F6"@);
        assert(key_token(Key::F6) is Some);
    }
    if token == "F7"@ {
        assert(upper("F7"@) =~= "F7"@);
        assert(key_token(Key::F7) is Some);
    }
    if token == "F8"@ {
        assert(upper("F8"@) =~= "F8"@);
        assert(key_token(Key::F8) is Some);
    }
    if token == "F9"@ {
        assert(upper("F9"@) =~= "F9"@);
        assert(key_token(Key::F9) is Some);
    }
    if token == "F10"@ {
        assert(upper("F10"@) =~= "F10"@);
        assert(key_token(Key::F10) is Some);
    }
    if token == "F11"@ {
        assert(upper("F11"@) =~= "F11"@);
        assert(key_token(Key::F11) is Some);
    }
    if token == "F12"@ {
        assert(upper("F12"@) =~= "F12"@);
        assert(key_token(Key::F12) is Some);
    }
    if token == "SPACE"@ {
        reveal_strlit("Space");
        assert(upper("Space"@) =~= "SPACE"@);
        assert(key_token(Key::Space) is Some);
    }
    if token == "ENTER"@ {
        reveal_strlit("Enter");
        assert(upper("Enter"@) =~= "ENTER"@);
        assert(key_token(Key::Enter) is Some);
    }
    if token == "TAB"@ {
        reveal_strlit("Tab");
        assert(upper("Tab"@) =~= "TAB"@);
        assert(key_token(Key::Tab) is Some);
    }
    if token == "BACKSPACE"@ {
        reveal_strlit("Backspace");
        assert(upper("Backspace"@) =~= "BACKSPACE"@);
        assert(key_token(Key::Backspace) is Some);
    }
    if token == "INSERT"@ {
        reveal_strlit("Insert");
        assert(upper("Insert"@) =~= "INSERT"@);
        assert(key_token(Key::Insert) is Some);
    }
    if token == "DELETE"@ {
        reveal_strlit("Delete");
        assert(upper("Delete"@) =~= "DELETE"@);
        assert(key_token(Key::Delete) is Some);
    }
    if token == "HOME"@ {
        reveal_strlit("Home");
        assert(upper("Home"@) =~= "HOME"@);
        assert(key_token(Key::Home) is Some);
    }
    if token == "END"@ {
        reveal_strlit("End");
        assert(upper("End"@) =~= "END"@);
        assert(key_token(Key::End) is Some);
    }
    if token == "PAGEUP"@ {
        reveal_strlit("PageUp");
        assert(upper("PageUp"@) =~= "PAGEUP"@);
        assert(key_token(Key::PageUp) is Some);
    }
    if token == "PAGEDOWN"@ {
        reveal_strlit("PageDown");
        assert(upper("PageDown"@) =~= "PAGEDOWN"@);
        assert(key_token(Key::PageDown) is Some);
    }
    if token == "UP"@ {
        reveal_strlit("Up");
        assert(upper("Up"@) =~= "UP"@);
        assert(key_token(Key::ArrowUp) is Some);
    }
    if token == "DOWN"@ {
        reveal_strlit("Down");
        assert(upper("Down"@) =~= "DOWN"@);
        assert(key_token(Key::ArrowDown) is Some);
    }
    if token == "LEFT"@ {
        reveal_strlit("Left");
        assert(upper("Left"@) =~= "LEFT"@);
        assert(key_token(Key::ArrowLeft) is Some);
    }
    if token == "RIGHT"@ {
        reveal_strlit("Right");
        assert(upper("Right"@) =~= "RIGHT"@);
        assert(key_token(Key::ArrowRight) is Some);
    }
}

/// Every key but Escape, and those without a name here, can be bound.
pub proof fn every_other_key_can_be_bound(key: Key)
    ensures
        key_token(key) is None <==> key is Escape || key is Other,
{
}

} // verus!

//! Laws of shortcut texts.

use crate::hotkeys::{
    accepted_hotkey_triggers_its_action, combo_text, hotkey, hotkey_number, hotkeys, is_alt, is_ctrl,
    is_ignored, is_main, is_shift, main_word, modifier_prefix, parsed, registered, triggered, word_codes,
    word_modifiers, Bindings, HkAction, Modifiers,
};
use crate::keys::{key_positions, key_token, token_reads_back, Key, KeyCode, KeyModifiers};
use crate::text::{
    ascii_case_makes_no_difference, ascii_lower, ascii_lowered, is_white, kept, lemma_split_nonempty,
    lemma_split_single, lower, parts, split, trimmed, trimmed_end, trimmed_start, upper,
};
use vstd::prelude::*;

verus! {

/// Characters that tell the words for modifiers apart.
pub(crate) proof fn lemma_modifier_chars()
    ensures
        "ctrl"@.len() == 4 && "ctrl"@[0] == 'c' && "ctrl"@[1] == 't',
        "control"@.len() == 7 && "control"@[0] == 'c' && "control"@[1] == 'o',
        "alt"@.len() == 3 && "alt"@[0] == 'a' && "alt"@[1] == 'l',
        "option"@.len() == 6 && "option"@[0] == 'o' && "option"@[1] == 'p',
        "shift"@.len() == 5 && "shift"@[0] == 's' && "shift"@[1] == 'h',
        "win"@.len() == 3 && "win"@[0] == 'w' && "win"@[1] == 'i',
        "super"@.len() == 5 && "super"@[0] == 's' && "super"@[1] == 'u',
        "meta"@.len() == 4 && "meta"@[0] == 'm' && "meta"@[1] == 'e',
        "cmd"@.len() == 3 && "cmd"@[0] == 'c' && "cmd"@[1] == 'm',
{
    reveal_strlit("ctrl");
    reveal_strlit("control");
    reveal_strlit("alt");
    reveal_strlit("option");
    reveal_strlit("shift");
    reveal_strlit("win");
    reveal_strlit("super");
    reveal_strlit("meta");
    reveal_strlit("cmd");
}

/// Text before the first separator is the first piece.
proof fn lemma_split_first(w: Seq<char>, sep: char, rest: Seq<char>)
    requires
        !w.contains(sep),
    ensures
        split(w.push(sep) + rest, sep) == seq![w] + split(rest, sep),
    decreases rest.len(),
{
    let s = w.push(sep) + rest;
    if rest.len() == 0 {
        assert(s.drop_last() =~= w);
        lemma_split_single(w, sep);
        assert(split(s, sep) =~= seq![w] + split(rest, sep));
    } else {
        lemma_split_first(w, sep, rest.drop_last());
        lemma_split_nonempty(rest.drop_last(), sep);
        assert(s.drop_last() =~= w.push(sep) + rest.drop_last());
        assert(s.last() == rest.last());
        let tail = split(rest.drop_last(), sep);
        assert((seq![w] + tail).drop_last() =~= seq![w] + tail.drop_last());
        assert((seq![w] + tail).last() == tail.last());
        assert(split(s, sep) =~= seq![w] + split(rest, sep));
    }
}

proof fn lemma_kept_first(w: Seq<char>, pieces: Seq<Seq<char>>)
    requires
        trimmed(w).len() > 0,
    ensures
        kept(seq![w] + pieces) == seq![trimmed(w)] + kept(pieces),
    decreases pieces.len(),
{
    let all = seq![w] + pieces;
    reveal_with_fuel(kept, 2);
    if pieces.len() == 0 {
        assert(all.drop_last() =~= Seq::<Seq<char>>::empty());
        assert(kept(all) =~= seq![trimmed(w)] + kept(pieces));
    } else {
        lemma_kept_first(w, pieces.drop_last());
        assert(all.drop_last() =~= seq![w] + pieces.drop_last());
        assert(all.last() == pieces.last());
        assert(kept(all) =~= seq![trimmed(w)] + kept(pieces));
    }
}

/// A word that needs no trimming, before the first separator, is the first word.
proof fn lemma_parts_first(w: Seq<char>, sep: char, rest: Seq<char>)
    requires
        w.len() > 0,
        !is_white(w[0]),
        !is_white(w.last()),
        !w.contains(sep),
    ensures
        parts(w.push(sep) + rest, sep) == seq![w] + parts(rest, sep),
{
    lemma_split_first(w, sep, rest);
    lemma_kept_first(w, split(rest, sep));
}

/// A word that needs no trimming is the only word of itself.
proof fn lemma_parts_single(w: Seq<char>, sep: char)
    requires
        w.len() > 0,
        !is_white(w[0]),
        !is_white(w.last()),
        !w.contains(sep),
    ensures
        parts(w, sep) == seq![w],
{
    lemma_split_single(w, sep);
    reveal_with_fuel(kept, 2);
    assert(seq![w].drop_last() =~= Seq::<Seq<char>>::empty());
    assert(parts(w, sep) =~= seq![w]);
}

proof fn lemma_modifiers_first(w: Seq<char>, words: Seq<Seq<char>>)
    ensures
        ({
            let rest = word_modifiers(words);
            word_modifiers(seq![w] + words) == (Modifiers {
                ctrl: is_ctrl(w) || rest.ctrl,
                alt: is_alt(w) || rest.alt,
                shift: is_shift(w) || rest.shift,
            })
        }),
{
    let all = seq![w] + words;
    assert(all[0] == w);
    assert forall|j: int| 0 <= j < words.len() implies #[trigger] words[j] == all[j + 1] by {}
    assert forall|j: int| 1 <= j < all.len() implies #[trigger] all[j] == words[j - 1] by {}
    let rest = word_modifiers(words);
    let m = word_modifiers(all);
    if rest.ctrl {
        let j = choose|j: int| 0 <= j < words.len() && is_ctrl(#[trigger] words[j]);
        assert(is_ctrl(all[j + 1]));
    }
    if rest.alt {
        let j = choose|j: int| 0 <= j < words.len() && is_alt(#[trigger] words[j]);
        assert(is_alt(all[j + 1]));
    }
    if rest.shift {
        let j = choose|j: int| 0 <= j < words.len() && is_shift(#[trigger] words[j]);
        assert(is_shift(all[j + 1]));
    }
    if m.ctrl && !is_ctrl(w) {
        let j = choose|j: int| 0 <= j < all.len() && is_ctrl(#[trigger] all[j]);
        assert(is_ctrl(words[j - 1]));
    }
    if m.alt && !is_alt(w) {
        let j = choose|j: int| 0 <= j < all.len() && is_alt(#[trigger] all[j]);
        assert(is_alt(words[j - 1]));
    }
    if m.shift && !is_shift(w) {
        let j = choose|j: int| 0 <= j < all.len() && is_shift(#[trigger] all[j]);
        assert(is_shift(words[j - 1]));
    }
}

proof fn lemma_main_first(w: Seq<char>, words: Seq<Seq<char>>)
    requires
        !is_main(w),
    ensures
        main_word(seq![w] + words) == main_word(words),
    decreases words.len(),
{
    let all = seq![w] + words;
    reveal_with_fuel(main_word, 2);
    if words.len() == 0 {
        assert(all.drop_last() =~= Seq::<Seq<char>>::empty());
        assert(all.last() == w);
    } else {
        assert(all.drop_last() =~= seq![w] + words.drop_last());
        assert(all.last() == words.last());
        if !is_main(words.last()) {
            lemma_main_first(w, words.drop_last());
        }
    }
}

/// A modifier in front of a text adds that modifier and nothing else.
proof fn lemma_modifier_in_front(w: Seq<char>, rest: Seq<char>)
    requires
        w.len() > 0,
        !is_white(w[0]),
        !is_white(w.last()),
        !w.contains('+'),
        !is_main(w),
    ensures
        ({
            let words = parts(rest, '+');
            let m = word_modifiers(words);
            parsed(w.push('+') + rest) == hotkeys(
                Modifiers {
                    ctrl: is_ctrl(w) || m.ctrl,
                    alt: is_alt(w) || m.alt,
                    shift: is_shift(w) || m.shift,
                },
                word_codes(words),
            )
        }),
        word_modifiers(parts(w.push('+') + rest, '+')).ctrl == (is_ctrl(w) || word_modifiers(
            parts(rest, '+'),
        ).ctrl),
        word_modifiers(parts(w.push('+') + rest, '+')).alt == (is_alt(w) || word_modifiers(
            parts(rest, '+'),
        ).alt),
        word_modifiers(parts(w.push('+') + rest, '+')).shift == (is_shift(w) || word_modifiers(
            parts(rest, '+'),
        ).shift),
        word_codes(parts(w.push('+') + rest, '+')) == word_codes(parts(rest, '+')),
{
    lemma_parts_first(w, '+', rest);
    lemma_modifiers_first(w, parts(rest, '+'));
    lemma_main_first(w, parts(rest, '+'));
}

proof fn lemma_modifier_tokens()
    ensures
        "Ctrl+"@ == "Ctrl"@.push('+'),
        "Alt+"@ == "Alt"@.push('+'),
        "Shift+"@ == "Shift"@.push('+'),
        "Ctrl"@.len() == 4 && !is_white("Ctrl"@[0]) && !is_white("Ctrl"@.last()),
        "Alt"@.len() == 3 && !is_white("Alt"@[0]) && !is_white("Alt"@.last()),
        "Shift"@.len() == 5 && !is_white("Shift"@[0]) && !is_white("Shift"@.last()),
        !"Ctrl"@.contains('+') && !"Alt"@.contains('+') && !"Shift"@.contains('+'),
        lower("Ctrl"@) == "ctrl"@,
        lower("Alt"@) == "alt"@,
        lower("Shift"@) == "shift"@,
{
    reveal_strlit("Ctrl");
    reveal_strlit("Alt");
    reveal_strlit("Shift");
    reveal_strlit("Ctrl+");
    reveal_strlit("Alt+");
    reveal_strlit("Shift+");
    reveal_strlit("ctrl");
    reveal_strlit("alt");
    reveal_strlit("shift");
    assert("Ctrl+"@ =~= "Ctrl"@.push('+'));
    assert("Alt+"@ =~= "Alt"@.push('+'));
    assert("Shift+"@ =~= "Shift"@.push('+'));
    assert(lower("Ctrl"@) =~= "ctrl"@);
    assert(lower("Alt"@) =~= "alt"@);
    assert(lower("Shift"@) =~= "shift"@);
}

/// The token of a key is a single word that names a main key.
proof fn lemma_token_is_main(key: Key)
    ensures
        key_token(key) matches Some(t) ==> {
            &&& t.len() > 0
            &&& !is_white(t[0])
            &&& !is_white(t.last())
            &&& !t.contains('+')
            &&& is_main(t)
        },
{
    lemma_modifier_chars();
    match key {
        Key::A => {
            reveal_strlit("A");
            assert(lower("A"@).len() == 1);
        },
        Key::B => {
            reveal_strlit("B");
            assert(lower("B"@).len() == 1);
        },
        Key::C => {
            reveal_strlit("C");
            assert(lower("C"@).len() == 1);
        },
        Key::D => {
            reveal_strlit("D");
            assert(lower("D"@).len() == 1);
        },
        Key::E => {
            reveal_strlit("E");
            assert(lower("E"@).len() == 1);
        },
        Key::F => {
            reveal_strlit("F");
            assert(lower("F"@).len() == 1);
        },
        Key::G => {
            reveal_strlit("G");
            assert(lower("G"@).len() == 1);
        },
        Key::H => {
            reveal_strlit("H");
            assert(lower("H"@).len() == 1);
        },
        Key::I => {
            reveal_strlit("I");
            assert(lower("I"@).len() == 1);
        },
        Key::J => {
            reveal_strlit("J");
            assert(lower("J"@).len() == 1);
        },
        Key::K => {
            reveal_strlit("K");
            assert(lower("K"@).len() == 1);
        },
        Key::L => {
            reveal_strlit("L");
            assert(lower("L"@).len() == 1);
        },
        Key::M => {
            reveal_strlit("M");
            assert(lower("M"@).len() == 1);
        },
        Key::N => {
            reveal_strlit("N");
            assert(lower("N"@).len() == 1);
        },
        Key::O => {
            reveal_strlit("O");
            assert(lower("O"@).len() == 1);
        },
        Key::P => {
            reveal_strlit("P");
            assert(lower("P"@).len() == 1);
        },
        Key::Q => {
            reveal_strlit("Q");
            assert(lower("Q"@).len() == 1);
        },
        Key::R => {
            reveal_strlit("R");
            assert(lower("R"@).len() == 1);
        },
        Key::S => {
            reveal_strlit("S");
            assert(lower("S"@).len() == 1);
        },
        Key::T => {
            reveal_strlit("T");
            assert(lower("T"@).len() == 1);
        },
        Key::U => {
            reveal_strlit("U");
            assert(lower("U"@).len() == 1);
        },
        Key::V => {
            reveal_strlit("V");
            assert(lower("V"@).len() == 1);
        },
        Key::W => {
            reveal_strlit("W");
            assert(lower("W"@).len() == 1);
        },
        Key::X => {
            reveal_strlit("X");
            assert(lower("X"@).len() == 1);
        },
        Key::Y => {
            reveal_strlit("Y");
            assert(lower("Y"@).len() == 1);
        },
        Key::Z => {
            reveal_strlit("Z");
            assert(lower("Z"@).len() == 1);
        },
        Key::Num0 => {
            reveal_strlit("0");
            assert(lower("0"@).len() == 1);
        },
        Key::Num1 => {
            reveal_strlit("1");
            assert(lower("1"@).len() == 1);
        },
        Key::Num2 => {
            reveal_strlit("2");
            assert(lower("2"@).len() == 1);
        },
        Key::Num3 => {
            reveal_strlit("3");
            assert(lower("3"@).len() == 1);
        },
        Key::Num4 => {
            reveal_strlit("4");
            assert(lower("4"@).len() == 1);
        },
        Key::Num5 => {
            reveal_strlit("5");
            assert(lower("5"@).len() == 1);
        },
        Key::Num6 => {
            reveal_strlit("6");
            assert(lower("6"@).len() == 1);
        },
        Key::Num7 => {
            reveal_strlit("7");
            assert(lower("7"@).len() == 1);
        },
        Key::Num8 => {
            reveal_strlit("8");
            assert(lower("8"@).len() == 1);
        },
        Key::Num9 => {
            reveal_strlit("9");
            assert(lower("9"@).len() == 1);
        },
        Key::F1 => {
            reveal_strlit("F1");
            assert(lower("F1"@).len() == 2);
        },
        Key::F2 => {
            reveal_strlit("F2");
            assert(lower("F2"@).len() == 2);
        },
        Key::F3 => {
            reveal_strlit("F3");
            assert(lower("F3"@).len() == 2);
        },
        Key::F4 => {
            reveal_strlit("F4");
            assert(lower("F4"@).len() == 2);
        },
        Key::F5 => {
            reveal_strlit("F5");
            assert(lower("F5"@).len() == 2);
        },
        Key::F6 => {
            reveal_strlit("F6");
            assert(lower("F6"@).len() == 2);
        },
        Key::F7 => {
            reveal_strlit("F7");
            assert(lower("F7"@).len() == 2);
        },
        Key::F8 => {
            reveal_strlit("F8");
            assert(lower("F8"@).len() == 2);
        },
        Key::F9 => {
            reveal_strlit("F9");
            assert(lower("F9"@).len() == 2);
        },
        Key::F10 => {
            reveal_strlit("F10");
            assert(lower("F10"@).len() == 3);
            assert(lower("F10"@)[0] == 'f');
            assert(lower("F10"@)[1] == '1');
        },
        Key::F11 => {
            reveal_strlit("F11");
            assert(lower("F11"@).len() == 3);
            assert(lower("F11"@)[0] == 'f');
            assert(lower("F11"@)[1] == '1');
        },
        Key::F12 => {
            reveal_strlit("F12");
            assert(lower("F12"@).len() == 3);
            assert(lower("F12"@)[0] == 'f');
            assert(lower("F12"@)[1] == '1');
        },
        Key::Space => {
            reveal_strlit("Space");
            assert(lower("Space"@).len() == 5);
            assert(lower("Space"@)[0] == 's');
            assert(lower("Space"@)[1] == 'p');
        },
        Key::Enter => {
            reveal_strlit("Enter");
            assert(lower("Enter"@).len() == 5);
            assert(lower("Enter"@)[0] == 'e');
            assert(lower("Enter"@)[1] == 'n');
        },
        Key::Tab => {
            reveal_strlit("Tab");
            assert(lower("Tab"@).len() == 3);
            assert(lower("Tab"@)[0] == 't');
            assert(lower("Tab"@)[1] == 'a');
        },
        Key::Backspace => {
            reveal_strlit("Backspace");
            assert(lower("Backspace"@).len() == 9);
            assert(lower("Backspace"@)[0] == 'b');
            assert(lower("Backspace"@)[1] == 'a');
        },
        Key::Insert => {
            reveal_strlit("Insert");
            assert(lower("Insert"@).len() == 6);
            assert(lower("Insert"@)[0] == 'i');
            assert(lower("Insert"@)[1] == 'n');
        },
        Key::Delete => {
            reveal_strlit("Delete");
            assert(lower("Delete"@).len() == 6);
            assert(lower("Delete"@)[0] == 'd');
            assert(lower("Delete"@)[1] == 'e');
        },
        Key::Home => {
            reveal_strlit("Home");
            assert(lower("Home"@).len() == 4);
            assert(lower("Home"@)[0] == 'h');
            assert(lower("Home"@)[1] == 'o');
        },
        Key::End => {
            reveal_strlit("End");
            assert(lower("End"@).len() == 3);
            assert(lower("End"@)[0] == 'e');
            assert(lower("End"@)[1] == 'n');
        },
        Key::PageUp => {
            reveal_strlit("PageUp");
            assert(lower("PageUp"@).len() == 6);
            assert(lower("PageUp"@)[0] == 'p');
            assert(lower("PageUp"@)[1] == 'a');
        },
        Key::PageDown => {
            reveal_strlit("PageDown");
            assert(lower("PageDown"@).len() == 8);
            assert(lower("PageDown"@)[0] == 'p');
            assert(lower("PageDown"@)[1] == 'a');
        },
        Key::ArrowUp => {
            reveal_strlit("Up");
            assert(lower("Up"@).len() == 2);
        },
        Key::ArrowDown => {
            reveal_strlit("Down");
            assert(lower("Down"@).len() == 4);
            assert(lower("Down"@)[0] == 'd');
            assert(lower("Down"@)[1] == 'o');
        },
        Key::ArrowLeft => {
            reveal_strlit("Left");
            assert(lower("Left"@).len() == 4);
            assert(lower("Left"@)[0] == 'l');
            assert(lower("Left"@)[1] == 'e');
        },
        Key::ArrowRight => {
            reveal_strlit("Right");
            assert(lower("Right"@).len() == 5);
            assert(lower("Right"@)[0] == 'r');
            assert(lower("Right"@)[1] == 'i');
        },
        Key::Escape => {},
        Key::Other => {},
    }
}

/// What a key press is written as reads back as that key press: the hotkeys at all
/// positions of the key, with the modifiers that were down.
pub proof fn captured_text_reads_back(mods: KeyModifiers, key: Key)
    ensures
        combo_text(mods, key) matches Some(text) ==> parsed(text) == hotkeys(
            Modifiers { ctrl: mods.ctrl || mods.command, alt: mods.alt, shift: mods.shift },
            key_positions(key),
        ),
{
    if let Some(token) = key_token(key) {
        lemma_token_is_main(key);
        token_reads_back(key);
        lemma_modifier_tokens();
        lemma_modifier_chars();
        lemma_parts_single(token, '+');
        let none = Seq::<Seq<char>>::empty();
        lemma_modifiers_first(token, none);
        assert(seq![token] + none =~= seq![token]);
        assert(parts(token, '+') == seq![token]);
        assert(main_word(seq![token]) == Some(token));
        let m0 = word_modifiers(parts(token, '+'));
        assert(!m0.ctrl && !m0.alt && !m0.shift);

        let t1 = if mods.shift { "Shift+"@ + token } else { token };
        if mods.shift {
            lemma_modifier_in_front("Shift"@, token);
        }
        let t2 = if mods.alt { "Alt+"@ + t1 } else { t1 };
        if mods.alt {
            lemma_modifier_in_front("Alt"@, t1);
        }
        let ctrl = mods.ctrl || mods.command;
        let t3 = if ctrl { "Ctrl+"@ + t2 } else { t2 };
        if ctrl {
            lemma_modifier_in_front("Ctrl"@, t2);
        }
        assert(modifier_prefix(mods) + token =~= t3);
    }
}

/// Every key that can be bound stands for at least one hotkey.
pub proof fn captured_text_is_never_unknown(mods: KeyModifiers, key: Key)
    ensures
        combo_text(mods, key) matches Some(text) ==> parsed(text).len() > 0,
{
    captured_text_reads_back(mods, key);
}

/// The position of the same key on the number pad, for keys that are found on both
/// blocks.
pub open spec fn number_pad(code: KeyCode) -> Option<KeyCode> {
    match code {
        KeyCode::Digit0 => Some(KeyCode::Numpad0),
        KeyCode::Digit1 => Some(KeyCode::Numpad1),
        KeyCode::Digit2 => Some(KeyCode::Numpad2),
        KeyCode::Digit3 => Some(KeyCode::Numpad3),
        KeyCode::Digit4 => Some(KeyCode::Numpad4),
        KeyCode::Digit5 => Some(KeyCode::Numpad5),
        KeyCode::Digit6 => Some(KeyCode::Numpad6),
        KeyCode::Digit7 => Some(KeyCode::Numpad7),
        KeyCode::Digit8 => Some(KeyCode::Numpad8),
        KeyCode::Digit9 => Some(KeyCode::Numpad9),
        KeyCode::Enter => Some(KeyCode::NumpadEnter),
        _ => None,
    }
}

/// A shortcut with a digit or Enter works on the main block and on the number pad,
/// with the same modifiers; every other shortcut stands for a single hotkey.
pub proof fn number_pad_works_too(mods: KeyModifiers, key: Key)
    ensures
        combo_text(mods, key) matches Some(text) ==> {
            let keys = parsed(text);
            match number_pad(keys[0].code) {
                Some(pad) => keys == seq![keys[0], hotkey(keys[0].mods, pad)],
                None => keys == seq![keys[0]],
            }
        },
{
    captured_text_reads_back(mods, key);
    if let Some(text) = combo_text(mods, key) {
        let keys = parsed(text);
        match number_pad(keys[0].code) {
            Some(pad) => {
                assert(keys =~= seq![keys[0], hotkey(keys[0].mods, pad)]);
            },
            None => {
                assert(keys =~= seq![keys[0]]);
            },
        }
    }
}

/// Once an action is bound to what a key press is written as, pressing any position
/// of that key that the system accepted, with those modifiers, sets the action off.
pub proof fn captured_shortcut_triggers_its_action(
    mods: KeyModifiers,
    key: Key,
    b: Bindings,
    outcomes: Seq<bool>,
    action: HkAction,
    i: int,
)
    requires
        combo_text(mods, key) is Some,
        outcomes.len() == key_positions(key).len(),
        0 <= i < outcomes.len(),
        outcomes[i],
    ensures
        ({
            let m = Modifiers {
                ctrl: mods.ctrl || mods.command,
                alt: mods.alt,
                shift: mods.shift,
            };
            let keys = parsed(combo_text(mods, key)->0);
            triggered(
                registered(b, keys, outcomes, action),
                hotkey_number(m, key_positions(key)[i]),
                true,
            ) == Some(action)
        }),
{
    captured_text_reads_back(mods, key);
    let keys = parsed(combo_text(mods, key)->0);
    accepted_hotkey_triggers_its_action(b, keys, outcomes, action, i);
}

/// A modifier that cannot be bound, in front of a shortcut, changes nothing.
pub proof fn ignored_modifier_changes_nothing(word: Seq<char>, combo: Seq<char>)
    requires
        is_ignored(word),
        word.len() > 0,
        !is_white(word[0]),
        !is_white(word.last()),
        !word.contains('+'),
    ensures
        parsed(word.push('+') + combo) == parsed(combo),
{
    lemma_modifier_chars();
    lemma_modifier_in_front(word, combo);
}

/// White space around the words of a shortcut makes no difference.
pub proof fn spaces_around_words_are_ignored(a: Seq<char>, b: Seq<char>)
    requires
        split(a, '+').map_values(|p: Seq<char>| trimmed(p)) == split(b, '+').map_values(
            |p: Seq<char>| trimmed(p),
        ),
    ensures
        parsed(a) == parsed(b),
{
    lemma_kept_trimmed(split(a, '+'), split(b, '+'));
}

proof fn lemma_kept_trimmed(a: Seq<Seq<char>>, b: Seq<Seq<char>>)
    requires
        a.map_values(|p: Seq<char>| trimmed(p)) == b.map_values(|p: Seq<char>| trimmed(p)),
    ensures
        kept(a) == kept(b),
    decreases a.len(),
{
    let ta = a.map_values(|p: Seq<char>| trimmed(p));
    let tb = b.map_values(|p: Seq<char>| trimmed(p));
    assert(ta.len() == a.len() && tb.len() == b.len());
    if a.len() > 0 {
        assert(ta.last() == trimmed(a.last()) && tb.last() == trimmed(b.last()));
        assert(a.drop_last().map_values(|p: Seq<char>| trimmed(p)) =~= ta.drop_last());
        assert(b.drop_last().map_values(|p: Seq<char>| trimmed(p)) =~= tb.drop_last());
        lemma_kept_trimmed(a.drop_last(), b.drop_last());
    }
}

/// The letter case of a shortcut makes no difference: texts that differ in the case of
/// ASCII letters at most stand for the same hotkeys.
pub proof fn letter_case_is_ignored(a: Seq<char>, b: Seq<char>)
    requires
        ascii_lowered(a) == ascii_lowered(b),
    ensures
        parsed(a) == parsed(b),
{
    lemma_same_case(a, b);
    lemma_split_case(a, b);
    lemma_kept_same_case(split(a, '+'), split(b, '+'));
    let x = parts(a, '+');
    let y = parts(b, '+');
    assert forall|i: int| 0 <= i < x.len() implies lower(#[trigger] x[i]) == lower(y[i]) && upper(
        x[i],
    ) == upper(y[i]) by {
        lemma_case_text(x[i], y[i]);
    }
    assert forall|i: int| 0 <= i < y.len() implies lower(#[trigger] y[i]) == lower(x[i]) by {
        lemma_case_text(x[i], y[i]);
    }
    lemma_case_modifiers(x, y);
    lemma_case_modifiers(y, x);
    lemma_case_main(x, y);
}

/// Whether two texts differ in the case of ASCII letters at most.
spec fn same_case(a: Seq<char>, b: Seq<char>) -> bool {
    &&& a.len() == b.len()
    &&& forall|i: int| 0 <= i < a.len() ==> ascii_lower(#[trigger] a[i]) == ascii_lower(b[i])
}

/// Whether two lists of texts differ in the case of ASCII letters at most.
spec fn same_cases(a: Seq<Seq<char>>, b: Seq<Seq<char>>) -> bool {
    &&& a.len() == b.len()
    &&& forall|i: int| 0 <= i < a.len() ==> same_case(#[trigger] a[i], b[i])
}

proof fn lemma_same_case(a: Seq<char>, b: Seq<char>)
    requires
        ascii_lowered(a) == ascii_lowered(b),
    ensures
        same_case(a, b),
{
    assert(ascii_lowered(a).len() == a.len() && ascii_lowered(b).len() == b.len());
    assert forall|i: int| 0 <= i < a.len() implies ascii_lower(#[trigger] a[i]) == ascii_lower(b[i]) by {
        assert(ascii_lowered(a)[i] == ascii_lower(a[i]));
        assert(ascii_lowered(b)[i] == ascii_lower(b[i]));
    }
}

/// Texts that differ in case at most have the same lower case and the same upper case.
proof fn lemma_case_text(a: Seq<char>, b: Seq<char>)
    requires
        same_case(a, b),
    ensures
        lower(a) == lower(b),
        upper(a) == upper(b),
{
    assert(ascii_lowered(a) =~= ascii_lowered(b));
    ascii_case_makes_no_difference(a, b);
}

proof fn lemma_split_case(a: Seq<char>, b: Seq<char>)
    requires
        same_case(a, b),
    ensures
        same_cases(split(a, '+'), split(b, '+')),
    decreases a.len(),
{
    if a.len() > 0 {
        let x = a.drop_last();
        let y = b.drop_last();
        assert(same_case(x, y));
        lemma_split_case(x, y);
        lemma_split_nonempty(x, '+');
        let p = split(x, '+');
        let q = split(y, '+');
        assert(same_case(p[p.len() - 1], q[q.len() - 1]));
        assert(a.last() == a[a.len() - 1] && b.last() == b[a.len() - 1]);
        assert(same_case(p.last().push(a.last()), q.last().push(b.last())));
        assert forall|i: int| 0 <= i < split(a, '+').len() implies same_case(
            #[trigger] split(a, '+')[i],
            split(b, '+')[i],
        ) by {
            if i < p.len() {
                assert(same_case(p[i], q[i]));
            }
        }
    }
}

proof fn lemma_trim_case(a: Seq<char>, b: Seq<char>)
    requires
        same_case(a, b),
    ensures
        same_case(trimmed(a), trimmed(b)),
{
    lemma_trim_start_case(a, b);
    lemma_trim_end_case(trimmed_start(a), trimmed_start(b));
}

proof fn lemma_trim_start_case(a: Seq<char>, b: Seq<char>)
    requires
        same_case(a, b),
    ensures
        same_case(trimmed_start(a), trimmed_start(b)),
    decreases a.len(),
{
    if a.len() > 0 {
        assert(is_white(a[0]) == is_white(b[0]));
        assert(same_case(a.drop_first(), b.drop_first()));
        lemma_trim_start_case(a.drop_first(), b.drop_first());
    }
}

proof fn lemma_trim_end_case(a: Seq<char>, b: Seq<char>)
    requires
        same_case(a, b),
    ensures
        same_case(trimmed_end(a), trimmed_end(b)),
    decreases a.len(),
{
    if a.len() > 0 {
        assert(is_white(a[a.len() - 1]) == is_white(b[a.len() - 1]));
        assert(same_case(a.drop_last(), b.drop_last()));
        lemma_trim_end_case(a.drop_last(), b.drop_last());
    }
}

/// Texts that differ in the case of ASCII letters at most still do when they are
/// trimmed.
pub(crate) proof fn lemma_trimmed_case(a: Seq<char>, b: Seq<char>)
    requires
        ascii_lowered(a) == ascii_lowered(b),
    ensures
        trimmed(a).len() == trimmed(b).len(),
        lower(trimmed(a)) == lower(trimmed(b)),
        upper(trimmed(a)) == upper(trimmed(b)),
{
    lemma_same_case(a, b);
    lemma_trim_case(a, b);
    lemma_case_text(trimmed(a), trimmed(b));
}

proof fn lemma_kept_same_case(a: Seq<Seq<char>>, b: Seq<Seq<char>>)
    requires
        same_cases(a, b),
    ensures
        same_cases(kept(a), kept(b)),
    decreases a.len(),
{
    if a.len() > 0 {
        assert(same_case(a[a.len() - 1], b[a.len() - 1]));
        lemma_trim_case(a.last(), b.last());
        assert forall|i: int| 0 <= i < a.len() - 1 implies same_case(
            #[trigger] a.drop_last()[i],
            b.drop_last()[i],
        ) by {
            assert(same_case(a[i], b[i]));
        }
        lemma_kept_same_case(a.drop_last(), b.drop_last());
    }
}

proof fn lemma_case_modifiers(a: Seq<Seq<char>>, b: Seq<Seq<char>>)
    requires
        a.len() == b.len(),
        forall|i: int| 0 <= i < a.len() ==> lower(#[trigger] a[i]) == lower(b[i]),
    ensures
        word_modifiers(a).ctrl ==> word_modifiers(b).ctrl,
        word_modifiers(a).alt ==> word_modifiers(b).alt,
        word_modifiers(a).shift ==> word_modifiers(b).shift,
{
    if word_modifiers(a).ctrl {
        let j = choose|j: int| 0 <= j < a.len() && is_ctrl(#[trigger] a[j]);
        assert(is_ctrl(b[j]));
    }
    if word_modifiers(a).alt {
        let j = choose|j: int| 0 <= j < a.len() && is_alt(#[trigger] a[j]);
        assert(is_alt(b[j]));
    }
    if word_modifiers(a).shift {
        let j = choose|j: int| 0 <= j < a.len() && is_shift(#[trigger] a[j]);
        assert(is_shift(b[j]));
    }
}

proof fn lemma_case_main(a: Seq<Seq<char>>, b: Seq<Seq<char>>)
    requires
        a.len() == b.len(),
        forall|i: int|
            0 <= i < a.len() ==> lower(#[trigger] a[i]) == lower(b[i]) && upper(a[i]) == upper(b[i]),
    ensures
        word_codes(a) == word_codes(b),
    decreases a.len(),
{
    if a.len() > 0 {
        let n = a.len() - 1;
        assert(a.last() == a[n] && b.last() == b[n]);
        if !is_main(a.last()) {
            assert forall|i: int| 0 <= i < n implies a.drop_last()[i] == a[i] && b.drop_last()[i]
                == b[i] by {}
            lemma_case_main(a.drop_last(), b.drop_last());
        }
    }
}

} // verus!

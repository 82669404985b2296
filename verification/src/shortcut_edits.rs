//! Texts that stand for the same shortcut: what can be changed in a shortcut text
//! without changing its hotkeys.

use crate::hotkeys::{
    combo_text, hotkey_number, hotkeys, is_alt, is_ctrl, is_ignored, is_shift, kind_of, main_word, parsed, word_codes, word_modifiers,
    Modifiers, WordKind,
};
use crate::keys::{key_token, token_codes, Key, KeyCode, KeyModifiers};
use crate::shortcut_laws::{lemma_modifier_chars, lemma_trimmed_case};
use crate::text::{
    ascii_lowered, kept, lemma_split_nonempty, lemma_split_single, lower, parts, split, trimmed, upper,
};
use vstd::prelude::*;

verus! {

// ---------------------------------------------------------------------------
// Pieces of a text
// ---------------------------------------------------------------------------

/// The text made of the pieces, with plus signs between them.
pub open spec fn joined(pieces: Seq<Seq<char>>) -> Seq<char>
    decreases pieces.len(),
{
    if pieces.len() == 0 {
        seq![]
    } else if pieces.len() == 1 {
        pieces[0]
    } else {
        joined(pieces.drop_last()).push('+') + pieces.last()
    }
}

proof fn lemma_split_joined(a: Seq<char>, b: Seq<char>)
    ensures
        split(a.push('+') + b, '+') == split(a, '+') + split(b, '+'),
    decreases b.len(),
{
    let s = a.push('+') + b;
    if b.len() == 0 {
        assert(s =~= a.push('+'));
        assert(s.drop_last() =~= a);
        assert(split(s, '+') =~= split(a, '+') + split(b, '+'));
    } else {
        assert(s.drop_last() =~= a.push('+') + b.drop_last());
        lemma_split_joined(a, b.drop_last());
        lemma_split_nonempty(b.drop_last(), '+');
        assert(s.last() == b.last());
        assert(split(s, '+') =~= split(a, '+') + split(b, '+'));
    }
}

/// Pieces without plus signs make a text that falls into these very pieces.
pub proof fn pieces_make_a_text(pieces: Seq<Seq<char>>)
    requires
        pieces.len() > 0,
        forall|i: int| 0 <= i < pieces.len() ==> !(#[trigger] pieces[i]).contains('+'),
    ensures
        split(joined(pieces), '+') == pieces,
    decreases pieces.len(),
{
    let last = pieces[pieces.len() - 1];
    lemma_split_single(last, '+');
    if pieces.len() == 1 {
        assert(split(joined(pieces), '+') =~= pieces);
    } else {
        let before = pieces.drop_last();
        assert forall|i: int| 0 <= i < before.len() implies !(#[trigger] before[i]).contains('+') by {
            assert(before[i] == pieces[i]);
        }
        pieces_make_a_text(before);
        lemma_split_joined(joined(before), last);
        assert(split(joined(pieces), '+') =~= pieces);
    }
}

/// What a piece of a shortcut text is. White space around it does not count, and a
/// piece of white space is ignored.
pub open spec fn piece_kind(piece: Seq<char>) -> WordKind {
    if trimmed(piece).len() == 0 {
        WordKind::Ignored
    } else {
        kind_of(lower(trimmed(piece)))
    }
}

/// The modifiers that the pieces name.
pub open spec fn piece_modifiers(pieces: Seq<Seq<char>>) -> Modifiers {
    Modifiers {
        ctrl: exists|i: int| 0 <= i < pieces.len() && piece_kind(#[trigger] pieces[i]) is Ctrl,
        alt: exists|i: int| 0 <= i < pieces.len() && piece_kind(#[trigger] pieces[i]) is Alt,
        shift: exists|i: int| 0 <= i < pieces.len() && piece_kind(#[trigger] pieces[i]) is Shift,
    }
}

/// The last piece that names a main key, without the white space around it.
pub open spec fn main_piece(pieces: Seq<Seq<char>>) -> Option<Seq<char>>
    decreases pieces.len(),
{
    if pieces.len() == 0 {
        None
    } else if piece_kind(pieces.last()) is Main {
        Some(trimmed(pieces.last()))
    } else {
        main_piece(pieces.drop_last())
    }
}

/// The modifiers, and the one that `kind` is, if it is one.
pub open spec fn with_kind(m: Modifiers, kind: WordKind) -> Modifiers {
    Modifiers {
        ctrl: m.ctrl || kind is Ctrl,
        alt: m.alt || kind is Alt,
        shift: m.shift || kind is Shift,
    }
}

proof fn lemma_word_added(words: Seq<Seq<char>>, w: Seq<char>)
    ensures
        word_modifiers(words.push(w)) == with_kind(word_modifiers(words), kind_of(lower(w))),
{
    let all = words.push(w);
    let before = word_modifiers(words);
    let after = word_modifiers(all);
    assert(all[words.len() as int] == w);
    if before.ctrl {
        let i = choose|i: int| 0 <= i < words.len() && is_ctrl(#[trigger] words[i]);
        assert(is_ctrl(all[i]));
    }
    if before.alt {
        let i = choose|i: int| 0 <= i < words.len() && is_alt(#[trigger] words[i]);
        assert(is_alt(all[i]));
    }
    if before.shift {
        let i = choose|i: int| 0 <= i < words.len() && is_shift(#[trigger] words[i]);
        assert(is_shift(all[i]));
    }
    if after.ctrl && !is_ctrl(w) {
        let i = choose|i: int| 0 <= i < all.len() && is_ctrl(#[trigger] all[i]);
        assert(is_ctrl(words[i]));
    }
    if after.alt && !is_alt(w) {
        let i = choose|i: int| 0 <= i < all.len() && is_alt(#[trigger] all[i]);
        assert(is_alt(words[i]));
    }
    if after.shift && !is_shift(w) {
        let i = choose|i: int| 0 <= i < all.len() && is_shift(#[trigger] all[i]);
        assert(is_shift(words[i]));
    }
}

/// A piece put in at any place adds the modifier that it is, if it is one.
proof fn lemma_modifiers_inserted(pieces: Seq<Seq<char>>, at: int, w: Seq<char>)
    requires
        0 <= at <= pieces.len(),
    ensures
        piece_modifiers(pieces.insert(at, w)) == with_kind(piece_modifiers(pieces), piece_kind(w)),
{
    let all = pieces.insert(at, w);
    let before = piece_modifiers(pieces);
    let after = piece_modifiers(all);
    assert(all[at] == w);
    assert forall|i: int| 0 <= i < at implies #[trigger] pieces[i] == all[i] by {}
    assert forall|i: int| at <= i < pieces.len() implies #[trigger] pieces[i] == all[i + 1] by {}
    if before.ctrl {
        let i = choose|i: int| 0 <= i < pieces.len() && piece_kind(#[trigger] pieces[i]) is Ctrl;
        assert(piece_kind(all[if i < at { i } else { i + 1 }]) is Ctrl);
    }
    if before.alt {
        let i = choose|i: int| 0 <= i < pieces.len() && piece_kind(#[trigger] pieces[i]) is Alt;
        assert(piece_kind(all[if i < at { i } else { i + 1 }]) is Alt);
    }
    if before.shift {
        let i = choose|i: int| 0 <= i < pieces.len() && piece_kind(#[trigger] pieces[i]) is Shift;
        assert(piece_kind(all[if i < at { i } else { i + 1 }]) is Shift);
    }
    if after.ctrl && !(piece_kind(w) is Ctrl) {
        let i = choose|i: int| 0 <= i < all.len() && piece_kind(#[trigger] all[i]) is Ctrl;
        assert(piece_kind(pieces[if i < at { i } else { i - 1 }]) is Ctrl);
    }
    if after.alt && !(piece_kind(w) is Alt) {
        let i = choose|i: int| 0 <= i < all.len() && piece_kind(#[trigger] all[i]) is Alt;
        assert(piece_kind(pieces[if i < at { i } else { i - 1 }]) is Alt);
    }
    if after.shift && !(piece_kind(w) is Shift) {
        let i = choose|i: int| 0 <= i < all.len() && piece_kind(#[trigger] all[i]) is Shift;
        assert(piece_kind(pieces[if i < at { i } else { i - 1 }]) is Shift);
    }
}

/// A piece that names no main key does not change which one does.
proof fn lemma_main_inserted(pieces: Seq<Seq<char>>, at: int, w: Seq<char>)
    requires
        0 <= at <= pieces.len(),
        !(piece_kind(w) is Main),
    ensures
        main_piece(pieces.insert(at, w)) == main_piece(pieces),
    decreases pieces.len(),
{
    let all = pieces.insert(at, w);
    if at == pieces.len() {
        assert(all.last() == w);
        assert(all.drop_last() =~= pieces);
    } else {
        assert(all.last() == pieces.last());
        assert(all.drop_last() =~= pieces.drop_last().insert(at, w));
        lemma_main_inserted(pieces.drop_last(), at, w);
    }
}

/// The words of a text name what its pieces do.
proof fn lemma_words_of_pieces(pieces: Seq<Seq<char>>)
    ensures
        word_modifiers(kept(pieces)) == piece_modifiers(pieces),
        main_word(kept(pieces)) == main_piece(pieces),
    decreases pieces.len(),
{
    if pieces.len() == 0 {
        assert(word_modifiers(kept(pieces)) == piece_modifiers(pieces));
    } else {
        let before = pieces.drop_last();
        let last = pieces.last();
        lemma_words_of_pieces(before);
        lemma_modifiers_inserted(before, before.len() as int, last);
        assert(before.insert(before.len() as int, last) =~= pieces);
        if trimmed(last).len() > 0 {
            lemma_word_added(kept(before), trimmed(last));
            assert(kept(pieces) == kept(before).push(trimmed(last)));
            assert(kept(pieces).last() == trimmed(last));
            assert(kept(pieces).drop_last() =~= kept(before));
        } else {
            assert(kept(pieces) == kept(before));
        }
    }
}

/// Whether two main keys are none, or are the same in upper case.
spec fn same_main(a: Option<Seq<char>>, b: Option<Seq<char>>) -> bool {
    match (a, b) {
        (Some(x), Some(y)) => upper(x) == upper(y),
        (None, None) => true,
        _ => false,
    }
}

/// Texts whose pieces name the same modifiers, and main keys of the same upper case,
/// stand for the same hotkeys.
proof fn lemma_same_meaning(a: Seq<char>, b: Seq<char>)
    requires
        piece_modifiers(split(a, '+')) == piece_modifiers(split(b, '+')),
        same_main(main_piece(split(a, '+')), main_piece(split(b, '+'))),
    ensures
        parsed(a) == parsed(b),
{
    lemma_words_of_pieces(split(a, '+'));
    lemma_words_of_pieces(split(b, '+'));
    assert(word_codes(parts(a, '+')) == word_codes(parts(b, '+')));
}

// ---------------------------------------------------------------------------
// Edits
// ---------------------------------------------------------------------------

/// A change to the pieces of a shortcut text.
pub enum Edit {
    /// Write the piece at this place otherwise.
    Rewrite(int, Seq<char>),
    /// Put a piece in at this place.
    Add(int, Seq<char>),
    /// Move the piece at the first place: take it out, and put it in at the second.
    Move(int, int),
    /// Repeat the piece at the first place at the second.
    Repeat(int, int),
}

/// The pieces after a change.
pub open spec fn edited(pieces: Seq<Seq<char>>, e: Edit) -> Seq<Seq<char>> {
    match e {
        Edit::Rewrite(i, w) => pieces.update(i, w),
        Edit::Add(i, w) => pieces.insert(i, w),
        Edit::Move(i, j) => pieces.remove(i).insert(j, pieces[i]),
        Edit::Repeat(i, j) => pieces.insert(j, pieces[i]),
    }
}

/// Whether two pieces are written alike: with other white space around them, with
/// ASCII letters in another case, or with another name of the same modifier.
pub open spec fn written_alike(a: Seq<char>, b: Seq<char>) -> bool {
    ||| trimmed(a) == trimmed(b)
    ||| ascii_lowered(a) == ascii_lowered(b)
    ||| piece_kind(a) == piece_kind(b) && !(piece_kind(a) is Main)
}

/// Whether a change makes no difference: a piece is written otherwise but alike; an
/// empty piece, or a modifier that cannot be bound, is put in anywhere; a modifier is
/// moved or repeated anywhere.
pub open spec fn harmless(pieces: Seq<Seq<char>>, e: Edit) -> bool {
    match e {
        Edit::Rewrite(i, w) => 0 <= i < pieces.len() && written_alike(pieces[i], w),
        Edit::Add(i, w) => 0 <= i <= pieces.len() && (trimmed(w).len() == 0 || is_ignored(
            trimmed(w),
        )),
        Edit::Move(i, j) => 0 <= i < pieces.len() && 0 <= j < pieces.len() && !(piece_kind(
            pieces[i],
        ) is Main),
        Edit::Repeat(i, j) => 0 <= i < pieces.len() && 0 <= j <= pieces.len() && !(piece_kind(
            pieces[i],
        ) is Main),
    }
}

/// What the names of the modifiers are: those of Control and those of Alt can stand
/// for each other, and four names stand for modifiers that cannot be bound.
pub proof fn names_of_modifiers()
    ensures
        kind_of("ctrl"@) is Ctrl && kind_of("control"@) is Ctrl,
        kind_of("alt"@) is Alt && kind_of("option"@) is Alt,
        kind_of("shift"@) is Shift,
        kind_of("win"@) is Ignored && kind_of("super"@) is Ignored,
        kind_of("meta"@) is Ignored && kind_of("cmd"@) is Ignored,
{
    lemma_modifier_chars();
}

/// A piece taken out and put back at its place.
proof fn lemma_put_back(pieces: Seq<Seq<char>>, i: int, w: Seq<char>)
    requires
        0 <= i < pieces.len(),
    ensures
        pieces.remove(i).insert(i, w) == pieces.update(i, w),
        pieces.remove(i).insert(i, pieces[i]) == pieces,
{
    assert(pieces.remove(i).insert(i, w) =~= pieces.update(i, w));
    assert(pieces.remove(i).insert(i, pieces[i]) =~= pieces);
}

proof fn lemma_main_rewritten(pieces: Seq<Seq<char>>, i: int, w: Seq<char>)
    requires
        0 <= i < pieces.len(),
        piece_kind(pieces[i]) == piece_kind(w),
        piece_kind(w) is Main ==> upper(trimmed(pieces[i])) == upper(trimmed(w)),
    ensures
        same_main(main_piece(pieces), main_piece(pieces.update(i, w))),
    decreases pieces.len(),
{
    let all = pieces.update(i, w);
    if i == pieces.len() - 1 {
        assert(all.last() == w);
        assert(all.drop_last() =~= pieces.drop_last());
    } else {
        assert(all.last() == pieces.last());
        assert(all.drop_last() =~= pieces.drop_last().update(i, w));
        lemma_main_rewritten(pieces.drop_last(), i, w);
    }
}

/// Harmless changes keep the shortcut: letter case, white space, another name of the
/// same modifier, empty parts, modifiers that cannot be bound, and where and how often
/// a modifier stands make no difference.
pub proof fn harmless_edits_keep_the_shortcut(a: Seq<char>, b: Seq<char>, e: Edit)
    requires
        harmless(split(a, '+'), e),
        split(b, '+') == edited(split(a, '+'), e),
    ensures
        parsed(b) == parsed(a),
{
    let p = split(a, '+');
    match e {
        Edit::Rewrite(i, w) => {
            let old_piece = p[i];
            if ascii_lowered(old_piece) == ascii_lowered(w) {
                lemma_trimmed_case(old_piece, w);
            }
            let rest = p.remove(i);
            lemma_put_back(p, i, w);
            lemma_modifiers_inserted(rest, i, w);
            lemma_modifiers_inserted(rest, i, old_piece);
            lemma_main_rewritten(p, i, w);
        },
        Edit::Add(i, w) => {
            lemma_modifiers_inserted(p, i, w);
            lemma_main_inserted(p, i, w);
        },
        Edit::Move(i, j) => {
            let rest = p.remove(i);
            lemma_put_back(p, i, p[i]);
            lemma_modifiers_inserted(rest, i, p[i]);
            lemma_modifiers_inserted(rest, j, p[i]);
            lemma_main_inserted(rest, i, p[i]);
            lemma_main_inserted(rest, j, p[i]);
        },
        Edit::Repeat(i, j) => {
            lemma_modifiers_inserted(p, j, p[i]);
            lemma_main_inserted(p, j, p[i]);
        },
    }
    lemma_same_meaning(a, b);
}

/// However many harmless changes are made, one after the other, the shortcut stays
/// what it was.
pub proof fn many_harmless_edits_keep_the_shortcut(texts: Seq<Seq<char>>, edits: Seq<Edit>)
    requires
        texts.len() == edits.len() + 1,
        forall|i: int|
            0 <= i < edits.len() ==> harmless(split(texts[i], '+'), #[trigger] edits[i]),
        forall|i: int|
            0 <= i < edits.len() ==> split(texts[i + 1], '+') == edited(
                split(texts[i], '+'),
                #[trigger] edits[i],
            ),
    ensures
        parsed(texts.last()) == parsed(texts[0]),
    decreases edits.len(),
{
    if edits.len() > 0 {
        let n = edits.len() - 1;
        let t = texts.drop_last();
        let d = edits.drop_last();
        assert forall|i: int| 0 <= i < d.len() implies harmless(split(t[i], '+'), #[trigger] d[i]) && split(
            t[i + 1],
            '+',
        ) == edited(split(t[i], '+'), d[i]) by {
            assert(d[i] == edits[i]);
        }
        many_harmless_edits_keep_the_shortcut(t, d);
        assert(edits[n] == edits.last());
        harmless_edits_keep_the_shortcut(texts[n], texts[n + 1], edits[n]);
    }
}

// ---------------------------------------------------------------------------
// What a text means
// ---------------------------------------------------------------------------

/// Only these words, in lower case, are modifiers; every other word names a main key.
pub proof fn only_these_words_are_modifiers(low: Seq<char>)
    ensures
        kind_of(low) is Ctrl <==> low == "ctrl"@ || low == "control"@,
        kind_of(low) is Alt <==> low == "alt"@ || low == "option"@,
        kind_of(low) is Shift <==> low == "shift"@,
        kind_of(low) is Ignored <==> low == "win"@ || low == "super"@ || low == "meta"@ || low == "cmd"@,
{
    lemma_modifier_chars();
}

/// Whether one of the pieces is the modifier `kind`.
pub open spec fn names(pieces: Seq<Seq<char>>, kind: WordKind) -> bool {
    exists|i: int| 0 <= i < pieces.len() && piece_kind(#[trigger] pieces[i]) == kind
}

/// Every hotkey of a shortcut text has exactly the modifiers that the pieces of the text
/// name, and the number of its modifiers and its position.
pub proof fn a_text_names_its_modifiers(s: Seq<char>, k: int)
    requires
        0 <= k < parsed(s).len(),
    ensures
        parsed(s)[k].mods.ctrl <==> names(split(s, '+'), WordKind::Ctrl),
        parsed(s)[k].mods.alt <==> names(split(s, '+'), WordKind::Alt),
        parsed(s)[k].mods.shift <==> names(split(s, '+'), WordKind::Shift),
        parsed(s)[k].id == hotkey_number(parsed(s)[k].mods, parsed(s)[k].code),
{
    let p = split(s, '+');
    lemma_words_of_pieces(p);
    lemma_hotkeys(word_modifiers(parts(s, '+')), word_codes(parts(s, '+')), k);
    let m = piece_modifiers(p);
    if m.ctrl {
        let i = choose|i: int| 0 <= i < p.len() && piece_kind(#[trigger] p[i]) is Ctrl;
        assert(piece_kind(p[i]) == WordKind::Ctrl);
    }
    if m.alt {
        let i = choose|i: int| 0 <= i < p.len() && piece_kind(#[trigger] p[i]) is Alt;
        assert(piece_kind(p[i]) == WordKind::Alt);
    }
    if m.shift {
        let i = choose|i: int| 0 <= i < p.len() && piece_kind(#[trigger] p[i]) is Shift;
        assert(piece_kind(p[i]) == WordKind::Shift);
    }
}

/// A shortcut text stands for the positions of the last of its pieces that names a main
/// key, one hotkey for each, in order.
pub proof fn a_text_names_its_main_key(s: Seq<char>, i: int, k: int)
    requires
        0 <= i < split(s, '+').len(),
        piece_kind(split(s, '+')[i]) is Main,
        forall|j: int|
            i < j < split(s, '+').len() ==> !(piece_kind(#[trigger] split(s, '+')[j]) is Main),
    ensures
        parsed(s).len() == token_codes(upper(trimmed(split(s, '+')[i]))).len(),
        0 <= k < parsed(s).len() ==> parsed(s)[k].code == token_codes(
            upper(trimmed(split(s, '+')[i])),
        )[k],
{
    let p = split(s, '+');
    lemma_words_of_pieces(p);
    lemma_last_main(p, i);
    lemma_hotkeys(word_modifiers(parts(s, '+')), word_codes(parts(s, '+')), k);
}

/// A text without a main key stands for nothing.
pub proof fn a_text_without_a_main_key(s: Seq<char>)
    requires
        !names(split(s, '+'), WordKind::Main),
    ensures
        parsed(s).len() == 0,
{
    lemma_words_of_pieces(split(s, '+'));
    lemma_no_main(split(s, '+'));
}

proof fn lemma_hotkeys(m: Modifiers, codes: Seq<KeyCode>, k: int)
    ensures
        hotkeys(m, codes).len() == codes.len(),
        0 <= k < codes.len() ==> {
            &&& hotkeys(m, codes)[k].mods == m
            &&& hotkeys(m, codes)[k].code == codes[k]
            &&& hotkeys(m, codes)[k].id == hotkey_number(m, codes[k])
        },
{
}

proof fn lemma_last_main(p: Seq<Seq<char>>, i: int)
    requires
        0 <= i < p.len(),
        piece_kind(p[i]) is Main,
        forall|j: int| i < j < p.len() ==> !(piece_kind(#[trigger] p[j]) is Main),
    ensures
        main_piece(p) == Some(trimmed(p[i])),
    decreases p.len(),
{
    let n = p.len() - 1;
    assert(p.last() == p[n]);
    if i < n {
        assert(!(piece_kind(p[n]) is Main));
        assert forall|j: int| i < j < p.drop_last().len() implies !(piece_kind(
            #[trigger] p.drop_last()[j],
        ) is Main) by {
            assert(p.drop_last()[j] == p[j]);
        }
        lemma_last_main(p.drop_last(), i);
    }
}

proof fn lemma_no_main(p: Seq<Seq<char>>)
    requires
        !names(p, WordKind::Main),
    ensures
        main_piece(p) is None,
    decreases p.len(),
{
    if p.len() > 0 {
        let n = p.len() - 1;
        assert(p.last() == p[n]);
        assert(piece_kind(p[n]) != WordKind::Main);
        if names(p.drop_last(), WordKind::Main) {
            let i = choose|i: int|
                0 <= i < p.drop_last().len() && piece_kind(#[trigger] p.drop_last()[i]) == WordKind::Main;
            assert(piece_kind(p[i]) == WordKind::Main);
        }
        lemma_no_main(p.drop_last());
    }
}

/// What a key press is written as: Ctrl if it or the command key is down, Alt if it is
/// down, Shift if it is down, and the key, with plus signs between them.
pub proof fn a_captured_text_names_what_is_down(mods: KeyModifiers, key: Key)
    requires
        key_token(key) is Some,
    ensures
        ({
            let shift = if mods.shift {
                seq!["Shift"@, key_token(key)->0]
            } else {
                seq![key_token(key)->0]
            };
            let alt = if mods.alt {
                seq!["Alt"@] + shift
            } else {
                shift
            };
            let all = if mods.ctrl || mods.command {
                seq!["Ctrl"@] + alt
            } else {
                alt
            };
            combo_text(mods, key) == Some(joined(all))
        }),
        combo_text(mods, Key::Escape) is None && combo_text(mods, Key::Other) is None,
{
    reveal_with_fuel(joined, 5);
    reveal_strlit("Ctrl+");
    reveal_strlit("Alt+");
    reveal_strlit("Shift+");
    reveal_strlit("Ctrl");
    reveal_strlit("Alt");
    reveal_strlit("Shift");
    let t = key_token(key)->0;
    let shift = if mods.shift {
        seq!["Shift"@, t]
    } else {
        seq![t]
    };
    let alt = if mods.alt {
        seq!["Alt"@] + shift
    } else {
        shift
    };
    let all = if mods.ctrl || mods.command {
        seq!["Ctrl"@] + alt
    } else {
        alt
    };
    lemma_joined_first("Ctrl"@, alt);
    lemma_joined_first("Alt"@, shift);
    lemma_joined_first("Shift"@, seq![t]);
    assert(seq!["Shift"@] + seq![t] =~= seq!["Shift"@, t]);
    assert(joined(seq![t]) == t);
    assert("Ctrl"@.push('+') =~= "Ctrl+"@);
    assert("Alt"@.push('+') =~= "Alt+"@);
    assert("Shift"@.push('+') =~= "Shift+"@);
    assert(joined(all) =~= combo_text(mods, key)->0);
}

proof fn lemma_joined_first(w: Seq<char>, pieces: Seq<Seq<char>>)
    requires
        pieces.len() > 0,
    ensures
        joined(seq![w] + pieces) == w.push('+') + joined(pieces),
    decreases pieces.len(),
{
    let all = seq![w] + pieces;
    assert(all.last() == pieces.last());
    if pieces.len() == 1 {
        assert(all.drop_last() =~= seq![w]);
        assert(joined(seq![w]) == w);
        assert(pieces.last() == pieces[0]);
        assert(joined(all) =~= w.push('+') + joined(pieces));
    } else {
        assert(all.drop_last() =~= seq![w] + pieces.drop_last());
        lemma_joined_first(w, pieces.drop_last());
        assert(joined(all) =~= w.push('+') + joined(pieces));
    }
}

} // verus!

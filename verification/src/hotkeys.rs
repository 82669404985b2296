//! Global hotkeys: shortcut texts such as `Ctrl+Alt+S`, the hotkeys they stand
//! for, and the actions bound to them.

use crate::config::Volume;
use crate::keys::{
    code_name, code_number, egui_key_token, key_token, token_codes, token_to_codes, Key, KeyCode,
    KeyModifiers,
};
use crate::text::{lower, parts, split_parts, text_eq, texts, upper};
use global_hotkey::hotkey::{Code, HotKey as SystemHotKey, Modifiers as SystemModifiers};
use std::collections::HashMap;
use std::path::PathBuf;
use vstd::prelude::*;
use vstd::string::*;

verus! {

broadcast use vstd::std_specs::hash::group_hash_axioms;

/// The modifier keys of a hotkey.
#[derive(Clone, Copy, PartialEq, Eq, Structural, Debug)]
pub struct Modifiers {
    pub ctrl: bool,
    pub alt: bool,
    pub shift: bool,
}

/// A hotkey: modifiers, the position of the main key, and the number by which the
/// system reports it.
#[derive(Clone, Copy, PartialEq, Eq, Structural, Debug)]
pub struct HotKey {
    pub mods: Modifiers,
    pub code: KeyCode,
    pub id: u32,
}

// ---------------------------------------------------------------------------
// Numbers of hotkeys
// ---------------------------------------------------------------------------

/// The modifier flags as the system crate numbers them.
pub open spec fn modifier_bits(m: Modifiers) -> u32 {
    ((if m.alt { 0x1int } else { 0 }) + (if m.ctrl { 0x8int } else { 0 }) + (if m.shift {
        0x200int
    } else {
        0
    })) as u32
}

/// The number of the hotkey made of `m` and `code`.
pub open spec fn hotkey_number(m: Modifiers, code: KeyCode) -> u32 {
    (modifier_bits(m) * 0x10000 + code_number(code)) as u32
}

/// The hotkey made of `m` and `code`.
pub open spec fn hotkey(m: Modifiers, code: KeyCode) -> HotKey {
    HotKey { mods: m, code, id: hotkey_number(m, code) }
}

/// `global_hotkey::hotkey::HotKey::new`, and the `id` of what it makes: the modifier
/// flags in the upper half of the number, the position, counted as
/// `keyboard_types::Code` lists them, in the lower half. The position is handed over
/// by its name. No flags are the same as empty flags; the flag `META` (0x40), which
/// the call would turn into another one, is left out.
#[verifier::external_body]
fn system_id(mods: Option<u32>, code: &str) -> (id: u32)
    requires
        mods matches Some(m) ==> m < 0x4000 && (m / 0x40) % 2 == 0,
        exists|c: KeyCode| code@ == code_name(c),
    ensures
        forall|c: KeyCode|
            code@ == #[trigger] code_name(c) ==> id == (match mods {
                Some(m) => m as int,
                None => 0,
            }) * 0x10000 + code_number(c),
{
    let code: Code = code.parse().unwrap();
    SystemHotKey::new(mods.map(SystemModifiers::from_bits_retain), code).id()
}

impl HotKey {
    /// The hotkey made of `mods` and `code`.
    pub fn new(mods: Modifiers, code: KeyCode) -> (r: HotKey)
        ensures
            r == hotkey(mods, code),
    {
        let alt: u32 = if mods.alt { 0x1 } else { 0 };
        let ctrl: u32 = if mods.ctrl { 0x8 } else { 0 };
        let shift: u32 = if mods.shift { 0x200 } else { 0 };
        let bits: u32 = alt + ctrl + shift;
        let flags = if bits == 0 { None } else { Some(bits) };
        let id = system_id(flags, code.name());
        HotKey { mods, code, id }
    }
}

/// Different hotkeys have different numbers.
pub proof fn hotkey_numbers_differ(m: Modifiers, c: KeyCode, n: Modifiers, d: KeyCode)
    requires
        m != n || c != d,
    ensures
        hotkey_number(m, c) != hotkey_number(n, d),
{
}

/// The number of a hotkey holds its position in its lower half, and in its upper half a
/// flag for each modifier: one for Alt, eight for Control, 512 for Shift.
pub proof fn hotkey_numbers_hold_their_parts(m: Modifiers, c: KeyCode)
    ensures
        hotkey_number(m, c) % 0x10000 == code_number(c),
        ({
            let flags = hotkey_number(m, c) / 0x10000;
            &&& flags % 2 == 1 <==> m.alt
            &&& (flags / 8) % 2 == 1 <==> m.ctrl
            &&& (flags / 512) % 2 == 1 <==> m.shift
            &&& flags <= 0x209
        }),
{
}

// ---------------------------------------------------------------------------
// Shortcut texts
// ---------------------------------------------------------------------------

/// The modifiers that are down, each followed by a plus sign.
pub open spec fn modifier_prefix(mods: KeyModifiers) -> Seq<char> {
    (if mods.ctrl || mods.command {
        "Ctrl+"@
    } else {
        seq![]
    }) + (if mods.alt {
        "Alt+"@
    } else {
        seq![]
    }) + (if mods.shift {
        "Shift+"@
    } else {
        seq![]
    })
}

/// The text that a key press is written as; none for keys that cannot be bound.
pub open spec fn combo_text(mods: KeyModifiers, key: Key) -> Option<Seq<char>> {
    match key_token(key) {
        Some(token) => Some(modifier_prefix(mods) + token),
        None => None,
    }
}

/// The text of a captured key press, such as `Ctrl+Alt+S`. `None` for keys that
/// cannot be bound.
pub fn from_egui(mods: &KeyModifiers, key: Key) -> (r: Option<String>)
    ensures
        r matches Some(s) ==> combo_text(*mods, key) == Some(s@),
        r is None ==> combo_text(*mods, key) is None,
{
    match egui_key_token(key) {
        Some(token) => {
            let mut s = String::new();
            if mods.ctrl || mods.command {
                s.append("Ctrl+");
            }
            if mods.alt {
                s.append("Alt+");
            }
            if mods.shift {
                s.append("Shift+");
            }
            s.append(token);
            assert(s@ =~= modifier_prefix(*mods) + token@);
            Some(s)
        },
        None => None,
    }
}

/// What a word of a shortcut text is.
#[derive(Clone, Copy, PartialEq, Eq, Structural, Debug)]
pub enum WordKind {
    Ctrl,
    Alt,
    Shift,
    /// A modifier that cannot be bound; a shortcut works as if it were not there.
    Ignored,
    /// Every other word names the main key.
    Main,
}

/// What a word is, given its lower case.
pub open spec fn kind_of(low: Seq<char>) -> WordKind {
    if low == "ctrl"@ || low == "control"@ {
        WordKind::Ctrl
    } else if low == "alt"@ || low == "option"@ {
        WordKind::Alt
    } else if low == "shift"@ {
        WordKind::Shift
    } else if low == "win"@ || low == "super"@ || low == "meta"@ || low == "cmd"@ {
        WordKind::Ignored
    } else {
        WordKind::Main
    }
}

/// What a word is, given its lower case.
pub fn word_kind(low: &str) -> (r: WordKind)
    ensures
        r == kind_of(low@),
{
    if text_eq(low, "ctrl") || text_eq(low, "control") {
        WordKind::Ctrl
    } else if text_eq(low, "alt") || text_eq(low, "option") {
        WordKind::Alt
    } else if text_eq(low, "shift") {
        WordKind::Shift
    } else if text_eq(low, "win") || text_eq(low, "super") || text_eq(low, "meta") || text_eq(
        low,
        "cmd",
    ) {
        WordKind::Ignored
    } else {
        WordKind::Main
    }
}

pub open spec fn is_ctrl(word: Seq<char>) -> bool {
    kind_of(lower(word)) is Ctrl
}

pub open spec fn is_alt(word: Seq<char>) -> bool {
    kind_of(lower(word)) is Alt
}

pub open spec fn is_shift(word: Seq<char>) -> bool {
    kind_of(lower(word)) is Shift
}

pub open spec fn is_ignored(word: Seq<char>) -> bool {
    kind_of(lower(word)) is Ignored
}

pub open spec fn is_main(word: Seq<char>) -> bool {
    kind_of(lower(word)) is Main
}

/// The last word that names a main key.
pub open spec fn main_word(words: Seq<Seq<char>>) -> Option<Seq<char>>
    decreases words.len(),
{
    if words.len() == 0 {
        None
    } else if is_main(words.last()) {
        Some(words.last())
    } else {
        main_word(words.drop_last())
    }
}

/// The modifiers that the words name.
pub open spec fn word_modifiers(words: Seq<Seq<char>>) -> Modifiers {
    Modifiers {
        ctrl: exists|i: int| 0 <= i < words.len() && is_ctrl(#[trigger] words[i]),
        alt: exists|i: int| 0 <= i < words.len() && is_alt(#[trigger] words[i]),
        shift: exists|i: int| 0 <= i < words.len() && is_shift(#[trigger] words[i]),
    }
}

/// The positions that the words name.
pub open spec fn word_codes(words: Seq<Seq<char>>) -> Seq<KeyCode> {
    match main_word(words) {
        Some(word) => token_codes(upper(word)),
        None => seq![],
    }
}

/// The hotkeys made of `m` and each of the positions.
pub open spec fn hotkeys(m: Modifiers, codes: Seq<KeyCode>) -> Seq<HotKey> {
    codes.map_values(|c: KeyCode| hotkey(m, c))
}

/// The hotkeys that a shortcut text stands for. Its words stand between plus signs.
pub open spec fn parsed(combo: Seq<char>) -> Seq<HotKey> {
    let words = parts(combo, '+');
    hotkeys(word_modifiers(words), word_codes(words))
}

proof fn lemma_word_modifiers_step(words: Seq<Seq<char>>, i: int)
    requires
        0 <= i < words.len(),
    ensures
        ({
            let before = word_modifiers(words.take(i));
            word_modifiers(words.take(i + 1)) == (Modifiers {
                ctrl: before.ctrl || is_ctrl(words[i]),
                alt: before.alt || is_alt(words[i]),
                shift: before.shift || is_shift(words[i]),
            })
        }),
{
    let a = words.take(i);
    let b = words.take(i + 1);
    assert(b[i] == words[i]);
    assert forall|j: int| 0 <= j < i implies a[j] == b[j] by {}
    if word_modifiers(a).ctrl {
        let j = choose|j: int| 0 <= j < a.len() && is_ctrl(#[trigger] a[j]);
        assert(is_ctrl(b[j]));
    }
    if word_modifiers(a).alt {
        let j = choose|j: int| 0 <= j < a.len() && is_alt(#[trigger] a[j]);
        assert(is_alt(b[j]));
    }
    if word_modifiers(a).shift {
        let j = choose|j: int| 0 <= j < a.len() && is_shift(#[trigger] a[j]);
        assert(is_shift(b[j]));
    }
    if word_modifiers(b).ctrl {
        let j = choose|j: int| 0 <= j < b.len() && is_ctrl(#[trigger] b[j]);
        assert(j < i ==> is_ctrl(a[j]));
    }
    if word_modifiers(b).alt {
        let j = choose|j: int| 0 <= j < b.len() && is_alt(#[trigger] b[j]);
        assert(j < i ==> is_alt(a[j]));
    }
    if word_modifiers(b).shift {
        let j = choose|j: int| 0 <= j < b.len() && is_shift(#[trigger] b[j]);
        assert(j < i ==> is_shift(a[j]));
    }
}

/// The hotkeys that a shortcut text such as `Ctrl+Alt+1` stands for: one per
/// position of its main key, none if the text names no known key.
pub fn parse_all(combo: &str) -> (r: Vec<HotKey>)
    ensures
        r@ == parsed(combo@),
{
    let words = split_parts(combo, '+');
    let ghost w = texts(words@);
    let mut mods = Modifiers { ctrl: false, alt: false, shift: false };
    let mut codes: Vec<KeyCode> = Vec::new();
    let mut i: usize = 0;
    while i < words.len()
        invariant
            w == texts(words@),
            i <= words@.len(),
            mods == word_modifiers(w.take(i as int)),
            codes@ == word_codes(w.take(i as int)),
        decreases words@.len() - i,
    {
        let word = words[i].as_str();
        let low = word.to_lowercase();
        proof {
            assert(word@ == w[i as int]);
            assert(low@ == lower(word@));
            lemma_word_modifiers_step(w, i as int);
            assert(w.take(i + 1).drop_last() =~= w.take(i as int));
            assert(w.take(i + 1).last() == word@);
        }
        match word_kind(low.as_str()) {
            WordKind::Ctrl => {
                mods.ctrl = true;
            },
            WordKind::Alt => {
                mods.alt = true;
            },
            WordKind::Shift => {
                mods.shift = true;
            },
            WordKind::Ignored => {},
            WordKind::Main => {
                codes = token_to_codes(word);
            },
        }
        i = i + 1;
    }
    assert(w.take(i as int) =~= w);
    let mut r: Vec<HotKey> = Vec::new();
    let mut k: usize = 0;
    while k < codes.len()
        invariant
            k <= codes@.len(),
            r@ == hotkeys(mods, codes@.take(k as int)),
        decreases codes@.len() - k,
    {
        r.push(HotKey::new(mods, codes[k]));
        assert(hotkeys(mods, codes@.take(k + 1)) =~= hotkeys(mods, codes@.take(k as int)).push(
            hotkey(mods, codes@[k as int]),
        ));
        k = k + 1;
    }
    assert(codes@.take(k as int) =~= codes@);
    r
}

// ---------------------------------------------------------------------------
// Bound hotkeys
// ---------------------------------------------------------------------------

/// What a hotkey does when it is pressed.
#[derive(PartialEq, Eq, Debug)]
pub enum HkAction {
    Play { path: PathBuf, volume: Volume },
    StopAll,
}

impl Clone for HkAction {
    fn clone(&self) -> (r: Self)
        ensures
            r == *self,
    {
        match self {
            HkAction::Play { path, volume } => HkAction::Play {
                path: path.clone(),
                volume: *volume,
            },
            HkAction::StopAll => HkAction::StopAll,
        }
    }
}

/// The hotkeys that the system accepted, in the order of registration, and what
/// each of their numbers does.
pub struct Bindings {
    pub current: Seq<HotKey>,
    pub actions: Map<u32, HkAction>,
}

/// No hotkeys.
pub open spec fn no_bindings() -> Bindings {
    Bindings { current: seq![], actions: Map::empty() }
}

/// `b` after the system was asked for `keys`, one after the other, and accepted
/// those whose outcome is true.
pub open spec fn registered(
    b: Bindings,
    keys: Seq<HotKey>,
    outcomes: Seq<bool>,
    action: HkAction,
) -> Bindings
    decreases keys.len(),
{
    if keys.len() == 0 {
        b
    } else {
        let before = registered(b, keys.drop_last(), outcomes.drop_last(), action);
        if outcomes.last() {
            Bindings {
                current: before.current.push(keys.last()),
                actions: before.actions.insert(keys.last().id, action),
            }
        } else {
            before
        }
    }
}

/// What an event of the hotkey with number `id` sets off: the bound action when the
/// key goes down, nothing when it comes up.
pub open spec fn triggered(b: Bindings, id: u32, pressed: bool) -> Option<HkAction> {
    if pressed && b.actions.contains_key(id) {
        Some(b.actions[id])
    } else {
        None
    }
}

/// Exactly the accepted hotkeys have an action.
pub open spec fn consistent(b: Bindings) -> bool {
    forall|id: u32| #[trigger]
        b.actions.contains_key(id) <==> exists|i: int|
            0 <= i < b.current.len() && (#[trigger] b.current[i]).id == id
}

/// The bound hotkeys.
pub struct Hotkeys {
    current: Vec<HotKey>,
    actions: HashMap<u32, HkAction>,
}

impl View for Hotkeys {
    type V = Bindings;

    closed spec fn view(&self) -> Bindings {
        Bindings { current: self.current@, actions: self.actions@ }
    }
}

impl Hotkeys {
    /// No hotkeys.
    pub fn new() -> (r: Self)
        ensures
            r@ == no_bindings(),
    {
        let r = Hotkeys { current: Vec::new(), actions: HashMap::new() };
        assert(r@.current =~= Seq::<HotKey>::empty());
        assert(r@.actions =~= Map::<u32, HkAction>::empty());
        r
    }

    /// Drops all hotkeys, and returns those that the system has to release.
    pub fn clear(&mut self) -> (released: Vec<HotKey>)
        ensures
            released@ == old(self)@.current,
            final(self)@ == no_bindings(),
    {
        let mut released: Vec<HotKey> = Vec::new();
        std::mem::swap(&mut released, &mut self.current);
        self.actions.clear();
        assert(self@.current =~= Seq::<HotKey>::empty());
        assert(self@.actions =~= Map::<u32, HkAction>::empty());
        released
    }

    /// Binds `action` to those of `keys` that the system accepted. Returns whether
    /// there is any.
    pub fn register(&mut self, keys: &Vec<HotKey>, outcomes: &Vec<bool>, action: &HkAction) -> (any_ok:
        bool)
        requires
            keys@.len() == outcomes@.len(),
        ensures
            final(self)@ == registered(old(self)@, keys@, outcomes@, *action),
            any_ok == outcomes@.contains(true),
    {
        let mut any_ok = false;
        let mut i: usize = 0;
        while i < keys.len()
            invariant
                i <= keys@.len(),
                keys@.len() == outcomes@.len(),
                self@ == registered(
                    old(self)@,
                    keys@.take(i as int),
                    outcomes@.take(i as int),
                    *action,
                ),
                any_ok == exists|j: int| 0 <= j < i && #[trigger] outcomes@[j],
            decreases keys@.len() - i,
        {
            if outcomes[i] {
                self.current.push(keys[i]);
                self.actions.insert(keys[i].id, action.clone());
                any_ok = true;
                assert(outcomes@[i as int]);
            }
            proof {
                assert(keys@.take(i + 1).drop_last() =~= keys@.take(i as int));
                assert(outcomes@.take(i + 1).drop_last() =~= outcomes@.take(i as int));
            }
            i = i + 1;
        }
        proof {
            assert(keys@.take(i as int) =~= keys@);
            assert(outcomes@.take(i as int) =~= outcomes@);
            if any_ok {
                let j = choose|j: int| 0 <= j < i && #[trigger] outcomes@[j];
                assert(outcomes@[j] == true);
            }
        }
        any_ok
    }

    /// What an event of the hotkey with number `id` sets off.
    pub fn dispatch(&self, id: u32, pressed: bool) -> (r: Option<HkAction>)
        ensures
            r == triggered(self@, id, pressed),
    {
        if pressed {
            match self.actions.get(&id) {
                Some(action) => Some(action.clone()),
                None => None,
            }
        } else {
            None
        }
    }

    /// The hotkeys that the system accepted, in the order of registration.
    pub fn current(&self) -> (r: &Vec<HotKey>)
        ensures
            r@ == self@.current,
    {
        &self.current
    }
}

/// Without hotkeys nothing is set off, whatever event comes.
pub proof fn cleared_hotkeys_are_silent(id: u32, pressed: bool)
    ensures
        consistent(no_bindings()),
        triggered(no_bindings(), id, pressed) is None,
{
}

/// Binding keeps the accepted hotkeys and those with an action the same.
pub proof fn binding_stays_consistent(
    b: Bindings,
    keys: Seq<HotKey>,
    outcomes: Seq<bool>,
    action: HkAction,
)
    requires
        consistent(b),
        keys.len() == outcomes.len(),
    ensures
        consistent(registered(b, keys, outcomes, action)),
    decreases keys.len(),
{
    if keys.len() > 0 {
        let before = registered(b, keys.drop_last(), outcomes.drop_last(), action);
        binding_stays_consistent(b, keys.drop_last(), outcomes.drop_last(), action);
        if outcomes.last() {
            let after = registered(b, keys, outcomes, action);
            let n = before.current.len();
            assert(after.current[n as int] == keys.last());
            assert forall|id: u32| #[trigger]
                after.actions.contains_key(id) <==> exists|i: int|
                    0 <= i < after.current.len() && (#[trigger] after.current[i]).id == id by {
                if after.actions.contains_key(id) {
                    if id == keys.last().id {
                        assert(after.current[n as int].id == id);
                    } else {
                        assert(before.actions.contains_key(id));
                        let i = choose|i: int|
                            0 <= i < before.current.len() && (#[trigger] before.current[i]).id == id;
                        assert(after.current[i].id == id);
                    }
                }
                if exists|i: int|
                    0 <= i < after.current.len() && (#[trigger] after.current[i]).id == id {
                    let i = choose|i: int|
                        0 <= i < after.current.len() && (#[trigger] after.current[i]).id == id;
                    if i < n {
                        assert(before.current[i].id == id);
                        assert(before.actions.contains_key(id));
                    }
                }
            }
        }
    }
}

/// A hotkey that the system accepted sets off its action when it is pressed and
/// nothing when it is released.
pub proof fn accepted_hotkey_triggers_its_action(
    b: Bindings,
    keys: Seq<HotKey>,
    outcomes: Seq<bool>,
    action: HkAction,
    i: int,
)
    requires
        keys.len() == outcomes.len(),
        0 <= i < keys.len(),
        outcomes[i],
    ensures
        triggered(registered(b, keys, outcomes, action), keys[i].id, true) == Some(action),
        triggered(registered(b, keys, outcomes, action), keys[i].id, false) is None,
    decreases keys.len(),
{
    if i < keys.len() - 1 {
        accepted_hotkey_triggers_its_action(
            b,
            keys.drop_last(),
            outcomes.drop_last(),
            action,
            i,
        );
    }
}

/// Binding some hotkeys leaves the actions of all others as they were.
pub proof fn other_hotkeys_keep_their_action(
    b: Bindings,
    keys: Seq<HotKey>,
    outcomes: Seq<bool>,
    action: HkAction,
    id: u32,
    pressed: bool,
)
    requires
        keys.len() == outcomes.len(),
        forall|i: int| 0 <= i < keys.len() && outcomes[i] ==> (#[trigger] keys[i]).id != id,
    ensures
        triggered(registered(b, keys, outcomes, action), id, pressed) == triggered(b, id, pressed),
    decreases keys.len(),
{
    if keys.len() > 0 {
        let k = keys.drop_last();
        let o = outcomes.drop_last();
        assert forall|i: int| 0 <= i < k.len() && o[i] implies (#[trigger] k[i]).id != id by {
            assert(keys[i] == k[i]);
        }
        other_hotkeys_keep_their_action(b, k, o, action, id, pressed);
        assert(keys[keys.len() - 1] == keys.last());
    }
}

} // verus!

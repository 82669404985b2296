//! Settings.

use crate::text::{
    opt_text, str_le, text_eq, text_le, text_order_antisymmetric, text_order_total, text_order_transitive,
};
use std::path::PathBuf;
use vstd::prelude::*;

verus! {

/// A loudness factor, held as the bits of a 32-bit float. It is only carried
/// around here; the audio output multiplies it.
#[derive(Clone, Copy, PartialEq, Eq, Structural, Debug)]
pub struct Volume {
    pub bits: u32,
}

/// What pressing a hotkey again does while its sound still plays.
#[derive(Clone, Copy, PartialEq, Eq, Structural, Debug)]
pub enum RepeatMode {
    Restart,
    Overlap,
    Toggle,
}

// ---------------------------------------------------------------------------
// Folders outside the profiles directory
// ---------------------------------------------------------------------------

/// The directory listed under `name`, if there is one.
pub open spec fn lookup(entries: Seq<(Seq<char>, PathBuf)>, name: Seq<char>) -> Option<PathBuf>
    decreases entries.len(),
{
    if entries.len() == 0 {
        None
    } else if entries.last().0 == name {
        Some(entries.last().1)
    } else {
        lookup(entries.drop_last(), name)
    }
}

/// The entries with `name` listed for `dir`: in the place of the entry of that name,
/// or else where the order of names puts it.
pub open spec fn inserted(
    entries: Seq<(Seq<char>, PathBuf)>,
    name: Seq<char>,
    dir: PathBuf,
) -> Seq<(Seq<char>, PathBuf)>
    decreases entries.len(),
{
    if entries.len() == 0 {
        seq![(name, dir)]
    } else if entries.last().0 == name {
        entries.drop_last().push((name, dir))
    } else if text_le(entries.last().0, name) {
        entries.push((name, dir))
    } else {
        inserted(entries.drop_last(), name, dir).push(entries.last())
    }
}

/// The entries without the one for `name`.
pub open spec fn removed(entries: Seq<(Seq<char>, PathBuf)>, name: Seq<char>) -> Seq<
    (Seq<char>, PathBuf),
>
    decreases entries.len(),
{
    if entries.len() == 0 {
        seq![]
    } else if entries.last().0 == name {
        removed(entries.drop_last(), name)
    } else {
        removed(entries.drop_last(), name).push(entries.last())
    }
}

/// Whether the names are in strictly ascending order.
pub open spec fn in_order(entries: Seq<(Seq<char>, PathBuf)>) -> bool {
    forall|i: int, j: int|
        0 <= i < j < entries.len() ==> text_le((#[trigger] entries[i]).0, (#[trigger] entries[j]).0)
            && entries[i].0 != entries[j].0
}

/// The names of the entries.
pub open spec fn entry_names(entries: Seq<(Seq<char>, PathBuf)>) -> Seq<Seq<char>> {
    entries.map_values(|e: (Seq<char>, PathBuf)| e.0)
}

/// A folder outside the profiles directory, and the name it is listed under.
#[derive(Clone, PartialEq, Eq, Debug)]
pub struct ExternalProfile {
    pub name: String,
    pub dir: PathBuf,
}

impl View for ExternalProfile {
    type V = (Seq<char>, PathBuf);

    open spec fn view(&self) -> (Seq<char>, PathBuf) {
        (self.name@, self.dir)
    }
}

/// The folders outside the profiles directory that are used as profiles, by name.
#[derive(PartialEq, Eq, Debug)]
pub struct ExternalProfiles {
    entries: Vec<ExternalProfile>,
}

impl View for ExternalProfiles {
    type V = Seq<(Seq<char>, PathBuf)>;

    closed spec fn view(&self) -> Seq<(Seq<char>, PathBuf)> {
        self.entries@.map_values(|e: ExternalProfile| e@)
    }
}

impl ExternalProfiles {
    /// Each name occurs once, in ascending order.
    #[verifier::type_invariant]
    pub open spec fn wf(&self) -> bool {
        in_order(self@)
    }

    /// No folders.
    pub fn new() -> (r: Self)
        ensures
            r@ == Seq::<(Seq<char>, PathBuf)>::empty(),
    {
        let r = ExternalProfiles { entries: Vec::new() };
        assert(r@ =~= Seq::<(Seq<char>, PathBuf)>::empty());
        r
    }

    /// The number of folders.
    pub fn len(&self) -> (r: usize)
        ensures
            r == self@.len(),
    {
        self.entries.len()
    }

    /// The name at place `i`.
    pub fn name(&self, i: usize) -> (r: &String)
        requires
            i < self@.len(),
        ensures
            r@ == self@[i as int].0,
    {
        &self.entries[i].name
    }

    /// The directory at place `i`.
    pub fn dir(&self, i: usize) -> (r: &PathBuf)
        requires
            i < self@.len(),
        ensures
            *r == self@[i as int].1,
    {
        &self.entries[i].dir
    }

    /// The directory listed under `name`.
    pub fn get(&self, name: &str) -> (r: Option<PathBuf>)
        ensures
            r == lookup(self@, name@),
    {
        let mut i: usize = self.entries.len();
        assert(self@.take(i as int) =~= self@);
        while i > 0
            invariant
                i <= self@.len(),
                self@.len() == self.entries@.len(),
                lookup(self@.take(i as int), name@) == lookup(self@, name@),
            decreases i,
        {
            assert(self@.take(i as int).last() == self@[i - 1]);
            assert(self@[i - 1] == self.entries@[i - 1]@);
            assert(self@.take(i as int).drop_last() =~= self@.take(i - 1));
            if text_eq(self.entries[i - 1].name.as_str(), name) {
                return Some(self.entries[i - 1].dir.clone());
            }
            i = i - 1;
        }
        None
    }

    /// Whether a folder is listed under `name`.
    pub fn contains_key(&self, name: &str) -> (r: bool)
        ensures
            r == (lookup(self@, name@) is Some),
    {
        self.get(name).is_some()
    }

    /// Lists `dir` under `name`, in place of what was listed there before.
    pub fn insert(&mut self, name: String, dir: PathBuf)
        ensures
            final(self)@ == inserted(old(self)@, name@, dir),
            in_order(final(self)@),
    {
        let ghost before = self@;
        let ghost text = name@;
        proof {
            use_type_invariant(&*self);
            lemma_inserted_in_order(before, text, dir);
        }
        let mut entries: Vec<ExternalProfile> = Vec::new();
        std::mem::swap(&mut entries, &mut self.entries);
        put_entry(&mut entries, name, dir);
        self.entries = entries;
    }

    /// Takes the folder listed under `name` off the list.
    pub fn remove(&mut self, name: &str)
        ensures
            final(self)@ == removed(old(self)@, name@),
            in_order(final(self)@),
    {
        proof {
            use_type_invariant(&*self);
            lemma_removed_in_order(self@, name@);
        }
        let kept = other_entries(&self.entries, name);
        self.entries = kept;
    }
}

impl Clone for ExternalProfiles {
    fn clone(&self) -> (r: Self)
        ensures
            r@ == self@,
    {
        proof {
            use_type_invariant(self);
        }
        let mut entries: Vec<ExternalProfile> = Vec::new();
        let mut i: usize = 0;
        assert(entry_views(entries@) =~= self@.take(0));
        while i < self.entries.len()
            invariant
                i <= self.entries@.len(),
                self@.len() == self.entries@.len(),
                entry_views(entries@) == self@.take(i as int),
            decreases self.entries@.len() - i,
        {
            let e = &self.entries[i];
            let copy = ExternalProfile { name: e.name.clone(), dir: e.dir.clone() };
            assert(self@[i as int] == self.entries@[i as int]@);
            assert(entry_views(entries@.push(copy)) =~= entry_views(entries@).push(copy@));
            assert(self@.take(i + 1) =~= self@.take(i as int).push(self@[i as int]));
            entries.push(copy);
            i = i + 1;
        }
        assert(self@.take(i as int) =~= self@);
        ExternalProfiles { entries }
    }
}

/// What the entries say.
spec fn entry_views(entries: Seq<ExternalProfile>) -> Seq<(Seq<char>, PathBuf)> {
    entries.map_values(|e: ExternalProfile| e@)
}

/// Lists `dir` under `name` among the entries.
fn put_entry(entries: &mut Vec<ExternalProfile>, name: String, dir: PathBuf)
    ensures
        entry_views(final(entries)@) == inserted(entry_views(old(entries)@), name@, dir),
{
    let ghost before = entry_views(entries@);
    let ghost text = name@;
    let mut i: usize = entries.len();
    proof {
        assert(before.take(i as int) =~= before);
        assert(before.skip(i as int) =~= Seq::<(Seq<char>, PathBuf)>::empty());
        assert(inserted(before, text, dir) =~= inserted(before.take(i as int), text, dir)
            + before.skip(i as int));
    }
    while i > 0
        invariant
            i <= before.len(),
            before.len() == entries@.len(),
            before == entry_views(entries@),
            before == entry_views(old(entries)@),
            text == name@,
            inserted(before, text, dir) == inserted(before.take(i as int), text, dir)
                + before.skip(i as int),
        decreases i,
    {
        let ghost head = before.take(i as int);
        assert(head.last() == before[i - 1]);
        assert(before[i - 1] == entries@[i - 1]@);
        assert(head.drop_last() =~= before.take(i - 1));
        if text_eq(entries[i - 1].name.as_str(), name.as_str()) {
            entries[i - 1] = ExternalProfile { name, dir };
            assert(entry_views(entries@) =~= before.update(i - 1, (text, dir)));
            assert(entry_views(entries@) =~= inserted(before, text, dir));
            return;
        }
        if str_le(entries[i - 1].name.as_str(), name.as_str()) {
            entries.insert(i, ExternalProfile { name, dir });
            assert(entry_views(entries@) =~= before.insert(i as int, (text, dir)));
            assert(entry_views(entries@) =~= inserted(before, text, dir));
            return;
        }
        assert(inserted(before, text, dir) =~= inserted(before.take(i - 1), text, dir) + before.skip(
            i - 1,
        ));
        i = i - 1;
    }
    entries.insert(0, ExternalProfile { name, dir });
    assert(before.take(0) =~= Seq::<(Seq<char>, PathBuf)>::empty());
    assert(entry_views(entries@) =~= before.insert(0, (text, dir)));
    assert(entry_views(entries@) =~= inserted(before, text, dir));
}

/// The entries but the one for `name`.
fn other_entries(entries: &Vec<ExternalProfile>, name: &str) -> (kept: Vec<ExternalProfile>)
    ensures
        entry_views(kept@) == removed(entry_views(entries@), name@),
{
    let ghost before = entry_views(entries@);
    let mut kept: Vec<ExternalProfile> = Vec::new();
    let mut i: usize = 0;
    assert(entry_views(kept@) =~= removed(before.take(0), name@));
    while i < entries.len()
        invariant
            i <= before.len(),
            before.len() == entries@.len(),
            before == entry_views(entries@),
            entry_views(kept@) == removed(before.take(i as int), name@),
        decreases before.len() - i,
    {
        let ghost head = before.take(i + 1);
        assert(head.last() == before[i as int]);
        assert(before[i as int] == entries@[i as int]@);
        assert(head.drop_last() =~= before.take(i as int));
        let e = &entries[i];
        if !text_eq(e.name.as_str(), name) {
            let copy = ExternalProfile { name: e.name.clone(), dir: e.dir.clone() };
            assert(entry_views(kept@.push(copy)) =~= entry_views(kept@).push(copy@));
            kept.push(copy);
        }
        i = i + 1;
    }
    assert(before.take(i as int) =~= before);
    kept
}

proof fn lemma_inserted_members(entries: Seq<(Seq<char>, PathBuf)>, name: Seq<char>, dir: PathBuf)
    ensures
        forall|i: int|
            0 <= i < inserted(entries, name, dir).len() ==> (#[trigger] inserted(
                entries,
                name,
                dir,
            )[i]).0 == name || entries.contains(inserted(entries, name, dir)[i]),
    decreases entries.len(),
{
    let r = inserted(entries, name, dir);
    if entries.len() > 0 {
        lemma_inserted_members(entries.drop_last(), name, dir);
        assert forall|i: int| 0 <= i < r.len() implies (#[trigger] r[i]).0 == name
            || entries.contains(r[i]) by {
            if entries.last().0 == name || text_le(entries.last().0, name) {
                if i < r.len() - 1 {
                    assert(r[i] == entries[i]);
                }
            } else if i < r.len() - 1 {
                let before = inserted(entries.drop_last(), name, dir);
                assert(r[i] == before[i]);
                if before[i].0 != name {
                    let j = choose|j: int|
                        0 <= j < entries.drop_last().len() && entries.drop_last()[j] == before[i];
                    assert(entries[j] == r[i]);
                }
            } else {
                assert(r[i] == entries[entries.len() - 1]);
            }
        }
    }
}

proof fn lemma_inserted_in_order(entries: Seq<(Seq<char>, PathBuf)>, name: Seq<char>, dir: PathBuf)
    requires
        in_order(entries),
    ensures
        in_order(inserted(entries, name, dir)),
    decreases entries.len(),
{
    if entries.len() > 0 {
        let init = entries.drop_last();
        let last = entries.last();
        assert forall|i: int, j: int| 0 <= i < j < init.len() implies text_le(
            (#[trigger] init[i]).0,
            (#[trigger] init[j]).0,
        ) && init[i].0 != init[j].0 by {
            assert(init[i] == entries[i] && init[j] == entries[j]);
        }
        lemma_inserted_in_order(init, name, dir);
        let r = inserted(entries, name, dir);
        let n = entries.len() - 1;
        assert(entries[n] == last);
        if last.0 == name {
            assert forall|i: int, j: int| 0 <= i < j < r.len() implies text_le(
                (#[trigger] r[i]).0,
                (#[trigger] r[j]).0,
            ) && r[i].0 != r[j].0 by {
                assert(r[i].0 == entries[i].0 && r[j].0 == entries[j].0);
            }
        } else if text_le(last.0, name) {
            assert forall|i: int, j: int| 0 <= i < j < r.len() implies text_le(
                (#[trigger] r[i]).0,
                (#[trigger] r[j]).0,
            ) && r[i].0 != r[j].0 by {
                assert(r[i] == entries[i]);
                if j < entries.len() {
                    assert(r[j] == entries[j]);
                } else if i < n {
                    assert(text_le(entries[i].0, entries[n].0));
                    text_order_transitive(entries[i].0, last.0, name);
                    if entries[i].0 == name {
                        text_order_antisymmetric(entries[i].0, last.0);
                    }
                }
            }
        } else {
            text_order_total(last.0, name);
            let before = inserted(init, name, dir);
            lemma_inserted_members(init, name, dir);
            assert forall|i: int, j: int| 0 <= i < j < r.len() implies text_le(
                (#[trigger] r[i]).0,
                (#[trigger] r[j]).0,
            ) && r[i].0 != r[j].0 by {
                assert(r[i] == before[i]);
                if j < before.len() {
                    assert(r[j] == before[j]);
                } else if before[i].0 != name {
                    let k = choose|k: int| 0 <= k < init.len() && init[k] == before[i];
                    assert(entries[k] == before[i]);
                    assert(text_le(entries[k].0, entries[n].0));
                }
            }
        }
    }
}

proof fn lemma_removed_members(entries: Seq<(Seq<char>, PathBuf)>, name: Seq<char>)
    ensures
        forall|i: int|
            0 <= i < removed(entries, name).len() ==> (#[trigger] removed(entries, name)[i]).0
                != name && entries.contains(removed(entries, name)[i]),
    decreases entries.len(),
{
    let r = removed(entries, name);
    if entries.len() > 0 {
        let init = entries.drop_last();
        lemma_removed_members(init, name);
        assert forall|i: int| 0 <= i < r.len() implies (#[trigger] r[i]).0 != name
            && entries.contains(r[i]) by {
            let before = removed(init, name);
            if i < before.len() {
                assert(r[i] == before[i]);
                let k = choose|k: int| 0 <= k < init.len() && init[k] == before[i];
                assert(entries[k] == r[i]);
            } else {
                assert(r[i] == entries[entries.len() - 1]);
            }
        }
    }
}

proof fn lemma_removed_in_order(entries: Seq<(Seq<char>, PathBuf)>, name: Seq<char>)
    requires
        in_order(entries),
    ensures
        in_order(removed(entries, name)),
    decreases entries.len(),
{
    if entries.len() > 0 {
        let init = entries.drop_last();
        assert forall|i: int, j: int| 0 <= i < j < init.len() implies text_le(
            (#[trigger] init[i]).0,
            (#[trigger] init[j]).0,
        ) && init[i].0 != init[j].0 by {
            assert(init[i] == entries[i] && init[j] == entries[j]);
        }
        lemma_removed_in_order(init, name);
        lemma_removed_members(init, name);
        let before = removed(init, name);
        let r = removed(entries, name);
        let n = entries.len() - 1;
        assert(entries[n] == entries.last());
        assert forall|i: int, j: int| 0 <= i < j < r.len() implies text_le(
            (#[trigger] r[i]).0,
            (#[trigger] r[j]).0,
        ) && r[i].0 != r[j].0 by {
            assert(r[i] == before[i]);
            if j < before.len() {
                assert(r[j] == before[j]);
            } else {
                let k = choose|k: int| 0 <= k < init.len() && init[k] == before[i];
                assert(entries[k] == before[i]);
                assert(text_le(entries[k].0, entries[n].0));
            }
        }
    }
}

/// Listing a folder changes what its name is listed for, and no other name.
pub proof fn insert_then_lookup(
    entries: Seq<(Seq<char>, PathBuf)>,
    name: Seq<char>,
    dir: PathBuf,
    other: Seq<char>,
)
    ensures
        lookup(inserted(entries, name, dir), name) == Some(dir),
        other != name ==> lookup(inserted(entries, name, dir), other) == lookup(entries, other),
    decreases entries.len(),
{
    let r = inserted(entries, name, dir);
    reveal_with_fuel(lookup, 2);
    if entries.len() == 0 {
        assert(r.drop_last() =~= Seq::<(Seq<char>, PathBuf)>::empty());
    } else {
        insert_then_lookup(entries.drop_last(), name, dir, other);
        if entries.last().0 == name {
            assert(r.drop_last() =~= entries.drop_last());
        } else if text_le(entries.last().0, name) {
            assert(r.drop_last() =~= entries);
        } else {
            assert(r.drop_last() =~= inserted(entries.drop_last(), name, dir));
        }
    }
}

/// Taking a folder off the list forgets its name, and no other name.
pub proof fn remove_then_lookup(
    entries: Seq<(Seq<char>, PathBuf)>,
    name: Seq<char>,
    other: Seq<char>,
)
    ensures
        lookup(removed(entries, name), name) is None,
        other != name ==> lookup(removed(entries, name), other) == lookup(entries, other),
    decreases entries.len(),
{
    if entries.len() > 0 {
        remove_then_lookup(entries.drop_last(), name, other);
        if entries.last().0 != name {
            assert(removed(entries, name).drop_last() =~= removed(entries.drop_last(), name));
        }
    }
}

// ---------------------------------------------------------------------------
// All settings
// ---------------------------------------------------------------------------

/// The settings that are kept between runs.
#[derive(Clone, PartialEq, Eq, Debug)]
pub struct AppConfig {
    pub output_device: Option<String>,
    pub input_device: Option<String>,
    pub monitor_device: Option<String>,
    pub effect_volume: Volume,
    pub mic_passthrough: bool,
    pub repeat_mode: RepeatMode,
    pub autostart: bool,
    pub stop_hotkey: Option<String>,
    pub active_profile: Option<String>,
    pub external_profiles: ExternalProfiles,
}

/// The contents of the settings.
#[verifier::ext_equal]
pub struct Settings {
    pub output_device: Option<Seq<char>>,
    pub input_device: Option<Seq<char>>,
    pub monitor_device: Option<Seq<char>>,
    pub effect_volume: Volume,
    pub mic_passthrough: bool,
    pub repeat_mode: RepeatMode,
    pub autostart: bool,
    pub stop_hotkey: Option<Seq<char>>,
    pub active_profile: Option<Seq<char>>,
    pub external_profiles: Seq<(Seq<char>, PathBuf)>,
}

impl View for AppConfig {
    type V = Settings;

    open spec fn view(&self) -> Settings {
        Settings {
            output_device: opt_text(self.output_device),
            input_device: opt_text(self.input_device),
            monitor_device: opt_text(self.monitor_device),
            effect_volume: self.effect_volume,
            mic_passthrough: self.mic_passthrough,
            repeat_mode: self.repeat_mode,
            autostart: self.autostart,
            stop_hotkey: opt_text(self.stop_hotkey),
            active_profile: opt_text(self.active_profile),
            external_profiles: self.external_profiles@,
        }
    }
}

} // verus!

//! Profiles: folders of sounds, their names, and the sounds in them.

use crate::config::{entry_names, lookup, AppConfig, ExternalProfiles, Volume};
use crate::text::{
    decimal, decimal_reads_back, decimal_text, list_contains, opt_text, ordered, ordered_is_sorted,
    sort_texts, sorted, texts,
};
use std::path::PathBuf;
use vstd::prelude::*;
use vstd::string::*;

verus! {

// ---------------------------------------------------------------------------
// Sounds
// ---------------------------------------------------------------------------

/// A sound file, and how it is played.
#[derive(Clone, PartialEq, Eq, Debug)]
pub struct Sound {
    pub name: String,
    pub path: PathBuf,
    pub volume: Volume,
    pub hotkey: Option<String>,
}

/// The contents of a sound.
#[verifier::ext_equal]
pub struct SoundView {
    pub name: Seq<char>,
    pub path: PathBuf,
    pub volume: Volume,
    pub hotkey: Option<Seq<char>>,
}

impl View for Sound {
    type V = SoundView;

    open spec fn view(&self) -> SoundView {
        SoundView {
            name: self.name@,
            path: self.path,
            volume: self.volume,
            hotkey: opt_text(self.hotkey),
        }
    }
}

/// A folder of sounds.
#[derive(Clone, PartialEq, Eq, Debug)]
pub struct Profile {
    pub name: String,
    pub dir: PathBuf,
    pub sounds: Vec<Sound>,
}

/// The contents of a profile.
#[verifier::ext_equal]
pub struct ProfileView {
    pub name: Seq<char>,
    pub dir: PathBuf,
    pub sounds: Seq<SoundView>,
}

impl View for Profile {
    type V = ProfileView;

    open spec fn view(&self) -> ProfileView {
        ProfileView {
            name: self.name@,
            dir: self.dir,
            sounds: self.sounds@.map_values(|s: Sound| s@),
        }
    }
}

/// The contents of an optional profile.
pub open spec fn opt_profile(p: Option<Profile>) -> Option<ProfileView> {
    match p {
        Some(p) => Some(p@),
        None => None,
    }
}

/// `p` with the sound at place `i`, if there is one, played at `volume`.
pub open spec fn with_volume(p: ProfileView, i: int, volume: Volume) -> ProfileView {
    if 0 <= i < p.sounds.len() {
        ProfileView {
            sounds: p.sounds.update(i, SoundView { volume, ..p.sounds[i] }),
            ..p
        }
    } else {
        p
    }
}

/// `p` with the sound at place `i`, if there is one, bound to `hotkey`.
pub open spec fn with_hotkey(p: ProfileView, i: int, hotkey: Option<Seq<char>>) -> ProfileView {
    if 0 <= i < p.sounds.len() {
        ProfileView {
            sounds: p.sounds.update(i, SoundView { hotkey, ..p.sounds[i] }),
            ..p
        }
    } else {
        p
    }
}

impl Profile {
    /// Changes how loud the sound at place `i` is, if there is one.
    pub fn set_volume(&mut self, i: usize, volume: Volume)
        ensures
            final(self)@ == with_volume(old(self)@, i as int, volume),
    {
        let ghost before = self@;
        if i < self.sounds.len() {
            self.sounds[i].volume = volume;
            assert(self@.sounds =~= with_volume(before, i as int, volume).sounds);
        }
    }

    /// Changes the shortcut of the sound at place `i`, if there is one.
    pub fn set_hotkey(&mut self, i: usize, hotkey: Option<String>)
        ensures
            final(self)@ == with_hotkey(old(self)@, i as int, opt_text(hotkey)),
    {
        let ghost before = self@;
        let ghost text = opt_text(hotkey);
        if i < self.sounds.len() {
            self.sounds[i].hotkey = hotkey;
            assert(self@.sounds =~= with_hotkey(before, i as int, text).sounds);
        }
    }
}

// ---------------------------------------------------------------------------
// Names of profiles
// ---------------------------------------------------------------------------

/// `names`, and behind them those of `more` that are not among them yet.
pub open spec fn merged(names: Seq<Seq<char>>, more: Seq<Seq<char>>) -> Seq<Seq<char>>
    decreases more.len(),
{
    if more.len() == 0 {
        names
    } else {
        let before = merged(names, more.drop_last());
        if before.contains(more.last()) {
            before
        } else {
            before.push(more.last())
        }
    }
}

/// The names of all profiles: those in the profiles directory and those of the
/// folders elsewhere, in ascending order.
pub open spec fn all_names(
    listed: Seq<Seq<char>>,
    external: Seq<(Seq<char>, PathBuf)>,
) -> Seq<Seq<char>> {
    ordered(merged(listed, entry_names(external)))
}

/// The names of all profiles: those in the profiles directory and those of the
/// folders elsewhere, in ascending order.
pub fn all_profiles(listed: Vec<String>, external: &ExternalProfiles) -> (r: Vec<String>)
    ensures
        texts(r@) == all_names(texts(listed@), external@),
{
    let ghost first = texts(listed@);
    let ghost more = entry_names(external@);
    let mut names = listed;
    let mut i: usize = 0;
    assert(more.take(0) =~= Seq::<Seq<char>>::empty());
    while i < external.len()
        invariant
            i <= external@.len(),
            more == entry_names(external@),
            texts(names@) == merged(first, more.take(i as int)),
        decreases external@.len() - i,
    {
        let name = external.name(i);
        assert(more.take(i + 1).drop_last() =~= more.take(i as int));
        assert(more.take(i + 1).last() == name@);
        if !list_contains(&names, name.as_str()) {
            let copy = name.clone();
            assert(texts(names@.push(copy)) =~= texts(names@).push(name@));
            names.push(copy);
        }
        i = i + 1;
    }
    assert(more.take(i as int) =~= more);
    sort_texts(names)
}

proof fn lemma_merged_members(names: Seq<Seq<char>>, more: Seq<Seq<char>>)
    ensures
        forall|n: Seq<char>| #[trigger]
            merged(names, more).contains(n) <==> names.contains(n) || more.contains(n),
        names.no_duplicates() ==> merged(names, more).no_duplicates(),
    decreases more.len(),
{
    if more.len() > 0 {
        let init = more.drop_last();
        let before = merged(names, init);
        let r = merged(names, more);
        lemma_merged_members(names, init);
        assert forall|n: Seq<char>| #[trigger] r.contains(n) <==> names.contains(n)
            || more.contains(n) by {
            assert(before.contains(n) <==> names.contains(n) || init.contains(n));
            if init.contains(n) {
                let k = choose|k: int| 0 <= k < init.len() && init[k] == n;
                assert(more[k] == n);
            }
            if more.contains(n) && !init.contains(n) {
                let k = choose|k: int| 0 <= k < more.len() && more[k] == n;
                if k < init.len() {
                    assert(init[k] == n);
                }
                assert(n == more.last());
            }
            assert(more[more.len() - 1] == more.last());
            if before.contains(n) {
                let k = choose|k: int| 0 <= k < before.len() && before[k] == n;
                assert(r[k] == n);
            }
            if r.contains(n) && !before.contains(n) {
                let k = choose|k: int| 0 <= k < r.len() && r[k] == n;
                if k < before.len() {
                    assert(before[k] == n);
                }
            }
            if n == more.last() && !before.contains(n) {
                assert(r[r.len() - 1] == n);
            }
        }
    } else {
        assert forall|n: Seq<char>| #[trigger] merged(names, more).contains(n) <==> names.contains(
            n,
        ) || more.contains(n) by {}
    }
}

/// The list of all profiles names every folder, in ascending order, and nothing
/// else. A name that stands for two folders is listed once.
pub proof fn all_profiles_are_listed(
    listed: Seq<Seq<char>>,
    external: Seq<(Seq<char>, PathBuf)>,
)
    ensures
        sorted(all_names(listed, external)),
        forall|n: Seq<char>| #[trigger]
            all_names(listed, external).contains(n) <==> listed.contains(n) || entry_names(
                external,
            ).contains(n),
        listed.no_duplicates() ==> all_names(listed, external).no_duplicates(),
{
    broadcast use vstd::seq_lib::group_to_multiset_ensures;

    let m = merged(listed, entry_names(external));
    lemma_merged_members(listed, entry_names(external));
    ordered_is_sorted(m);
    let r = ordered(m);
    assert forall|n: Seq<char>| #[trigger] r.contains(n) <==> listed.contains(n) || entry_names(
        external,
    ).contains(n) by {
        assert(r.to_multiset().count(n) == m.to_multiset().count(n));
        assert(r.contains(n) <==> r.to_multiset().count(n) > 0);
        assert(m.contains(n) <==> m.to_multiset().count(n) > 0);
    }
    if listed.no_duplicates() {
        m.lemma_multiset_has_no_duplicates();
        r.lemma_multiset_has_no_duplicates_conv();
    }
}

/// The `k`th name to try for a folder that is called `base`: the name itself, then
/// the name with a number from 2 on.
pub open spec fn candidate(base: Seq<char>, k: nat) -> Seq<char> {
    if k <= 1 {
        base
    } else {
        base + " ("@ + decimal(k) + ")"@
    }
}

/// Whether the `k`th name is the first that is not taken.
pub open spec fn is_first_free(base: Seq<char>, taken: Seq<Seq<char>>, k: nat) -> bool {
    &&& k >= 1
    &&& !taken.contains(candidate(base, k))
    &&& forall|j: nat| 1 <= j < k ==> taken.contains(#[trigger] candidate(base, j))
}

/// The first name for `base` that is not taken.
pub open spec fn free_name(base: Seq<char>, taken: Seq<Seq<char>>) -> Seq<char> {
    candidate(base, choose|k: nat| is_first_free(base, taken, k))
}

proof fn lemma_candidates_differ(base: Seq<char>, i: nat, j: nat)
    requires
        1 <= i < j,
    ensures
        candidate(base, i) != candidate(base, j),
{
    reveal_strlit(" (");
    reveal_strlit(")");
    let b = candidate(base, j);
    if i == 1 {
        assert(b.len() > base.len());
    } else {
        let a = candidate(base, i);
        let n = base.len() + 2;
        if a == b {
            assert(a.len() == n + decimal(i).len() + 1);
            assert(b.len() == n + decimal(j).len() + 1);
            assert(a.subrange(n as int, a.len() - 1) =~= decimal(i));
            assert(b.subrange(n as int, b.len() - 1) =~= decimal(j));
            decimal_reads_back(i);
            decimal_reads_back(j);
        }
    }
}

/// Among more names to try than there are taken ones, one is free.
proof fn lemma_one_is_free(base: Seq<char>, taken: Seq<Seq<char>>, n: nat)
    requires
        forall|j: nat| 1 <= j <= n ==> taken.contains(#[trigger] candidate(base, j)),
    ensures
        n <= taken.len(),
{
    let tried = Seq::new(n, |i: int| candidate(base, (i + 1) as nat));
    assert forall|i: int, j: int| 0 <= i < tried.len() && 0 <= j < tried.len() && i != j implies tried[i]
        != tried[j] by {
        if i < j {
            lemma_candidates_differ(base, (i + 1) as nat, (j + 1) as nat);
        } else {
            lemma_candidates_differ(base, (j + 1) as nat, (i + 1) as nat);
        }
    }
    assert(tried.no_duplicates());
    tried.unique_seq_to_set();
    taken.lemma_cardinality_of_set();
    assert(tried.to_set().subset_of(taken.to_set())) by {
        assert forall|t: Seq<char>| tried.to_set().contains(t) implies taken.to_set().contains(
            t,
        ) by {
            let i = choose|i: int| 0 <= i < tried.len() && tried[i] == t;
            assert(taken.contains(candidate(base, (i + 1) as nat)));
        }
    }
    vstd::seq_lib::seq_to_set_is_finite(taken);
    vstd::set_lib::lemma_len_subset(tried.to_set(), taken.to_set());
}

proof fn lemma_first_free_exists(base: Seq<char>, taken: Seq<Seq<char>>, from: nat)
    requires
        from >= 1,
        forall|j: nat| 1 <= j < from ==> taken.contains(#[trigger] candidate(base, j)),
    ensures
        exists|k: nat| is_first_free(base, taken, k),
    decreases taken.len() + 2 - from,
{
    if taken.contains(candidate(base, from)) {
        assert forall|j: nat| 1 <= j <= from implies taken.contains(
            #[trigger] candidate(base, j),
        ) by {
            if j < from {
            }
        }
        lemma_one_is_free(base, taken, from);
        lemma_first_free_exists(base, taken, from + 1);
    } else {
        assert(is_first_free(base, taken, from));
    }
}

proof fn lemma_first_free_unique(base: Seq<char>, taken: Seq<Seq<char>>, k: nat)
    requires
        is_first_free(base, taken, k),
    ensures
        free_name(base, taken) == candidate(base, k),
{
    let c = choose|k: nat| is_first_free(base, taken, k);
    assert(is_first_free(base, taken, c));
    if c < k {
        assert(taken.contains(candidate(base, c)));
    } else if k < c {
        assert(taken.contains(candidate(base, k)));
    }
}

/// A name can always be found, and it is one that is not taken: the wished name if
/// that is free, else the wished name with the smallest number that is free.
pub proof fn free_name_is_free(base: Seq<char>, taken: Seq<Seq<char>>)
    ensures
        exists|k: nat| #[trigger]
            is_first_free(base, taken, k) && free_name(base, taken) == candidate(base, k),
        !taken.contains(free_name(base, taken)),
        !taken.contains(base) ==> free_name(base, taken) == base,
{
    lemma_first_free_exists(base, taken, 1);
    let k = choose|k: nat| is_first_free(base, taken, k);
    assert(is_first_free(base, taken, k) && free_name(base, taken) == candidate(base, k));
    if !taken.contains(base) {
        assert(candidate(base, 1) == base);
        assert(is_first_free(base, taken, 1));
        lemma_first_free_unique(base, taken, 1);
    }
}

/// The first name for `base` that is not taken: `base` itself, else `base (2)`,
/// `base (3)` and so on.
pub fn unique_name(base: &String, taken: &Vec<String>) -> (r: String)
    ensures
        r@ == free_name(base@, texts(taken@)),
{
    let ghost names = texts(taken@);
    let mut name = base.clone();
    let mut i: u128 = 1;
    let len: usize = taken.len();
    while list_contains(taken, name.as_str())
        invariant
            names == texts(taken@),
            len == taken@.len(),
            1 <= i <= len + 1,
            name@ == candidate(base@, i as nat),
            forall|j: nat| 1 <= j < i ==> names.contains(#[trigger] candidate(base@, j)),
        decreases len + 1 - i,
    {
        proof {
            assert forall|j: nat| 1 <= j <= i implies names.contains(
                #[trigger] candidate(base@, j),
            ) by {
                if j < i {
                }
            }
            lemma_one_is_free(base@, names, i as nat);
        }
        i = i + 1;
        let mut next = base.clone();
        next.append(" (");
        let number = decimal_text(i);
        next.append(number.as_str());
        next.append(")");
        name = next;
    }
    proof {
        assert(is_first_free(base@, names, i as nat));
        lemma_first_free_unique(base@, names, i as nat);
    }
    name
}

// ---------------------------------------------------------------------------
// Places of profiles
// ---------------------------------------------------------------------------

/// Where a profile is kept.
#[derive(PartialEq, Eq, Debug)]
pub enum ProfileDir {
    /// A folder anywhere.
    External(PathBuf),
    /// The folder of this name in the profiles directory.
    Builtin(String),
}

/// The contents of a place.
pub enum DirView {
    External(PathBuf),
    Builtin(Seq<char>),
}

impl View for ProfileDir {
    type V = DirView;

    open spec fn view(&self) -> DirView {
        match self {
            ProfileDir::External(d) => DirView::External(*d),
            ProfileDir::Builtin(n) => DirView::Builtin(n@),
        }
    }
}

/// Where the profile called `name` is kept. A folder that is listed under that name
/// comes first.
pub open spec fn place_of(external: Seq<(Seq<char>, PathBuf)>, name: Seq<char>) -> DirView {
    match lookup(external, name) {
        Some(dir) => DirView::External(dir),
        None => DirView::Builtin(name),
    }
}

/// Where the profile called `name` is kept.
pub fn dir_for_config(cfg: &AppConfig, name: &str) -> (r: ProfileDir)
    ensures
        r@ == place_of(cfg@.external_profiles, name@),
{
    match cfg.external_profiles.get(name) {
        Some(dir) => ProfileDir::External(dir),
        None => ProfileDir::Builtin(name.to_owned()),
    }
}

} // verus!

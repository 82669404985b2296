//! Laws of profiles: what editing a sound leaves alone, where profiles are kept, and what
//! they are called, said of the sounds, folders and names themselves.

use crate::config::{entry_names, in_order, inserted, lookup, removed, Volume};
use crate::profile::{
    all_names, candidate, free_name, free_name_is_free, is_first_free, merged,
    place_of, with_hotkey, with_volume, DirView, ProfileView,
};
use crate::text::{decimal, ordered, ordered_is_sorted, text_le};
use std::path::PathBuf;
use vstd::prelude::*;

verus! {

// ---------------------------------------------------------------------------
// Sounds
// ---------------------------------------------------------------------------

/// Changing the shortcut of a sound changes the shortcut of that sound, and nothing else:
/// every other sound is exactly what it was, and so is the rest of the profile.
pub proof fn other_sounds_keep_their_shortcuts(
    p: ProfileView,
    i: int,
    hotkey: Option<Seq<char>>,
    j: int,
)
    ensures
        ({
            let r = with_hotkey(p, i, hotkey);
            &&& r.name == p.name
            &&& r.dir == p.dir
            &&& r.sounds.len() == p.sounds.len()
            &&& 0 <= j < p.sounds.len() && j != i ==> r.sounds[j] == p.sounds[j]
            &&& 0 <= i < p.sounds.len() ==> {
                &&& r.sounds[i].hotkey == hotkey
                &&& r.sounds[i].name == p.sounds[i].name
                &&& r.sounds[i].path == p.sounds[i].path
                &&& r.sounds[i].volume == p.sounds[i].volume
            }
        }),
{
}

/// Changing how loud a sound is changes that sound, and nothing else about it or about
/// the profile.
pub proof fn other_sounds_keep_their_volume(p: ProfileView, i: int, volume: Volume, j: int)
    ensures
        ({
            let r = with_volume(p, i, volume);
            &&& r.name == p.name
            &&& r.dir == p.dir
            &&& r.sounds.len() == p.sounds.len()
            &&& 0 <= j < p.sounds.len() && j != i ==> r.sounds[j] == p.sounds[j]
            &&& 0 <= i < p.sounds.len() ==> {
                &&& r.sounds[i].volume == volume
                &&& r.sounds[i].name == p.sounds[i].name
                &&& r.sounds[i].path == p.sounds[i].path
                &&& r.sounds[i].hotkey == p.sounds[i].hotkey
            }
        }),
{
}

// ---------------------------------------------------------------------------
// Folders
// ---------------------------------------------------------------------------

/// Each listed folder is found under its own name, and a name that is not listed finds
/// none. Names are listed once.
pub proof fn folders_are_found_by_name(entries: Seq<(Seq<char>, PathBuf)>, name: Seq<char>)
    requires
        forall|i: int, j: int|
            0 <= i < j < entries.len() ==> (#[trigger] entries[i]).0 != (#[trigger] entries[j]).0,
    ensures
        forall|i: int|
            0 <= i < entries.len() && (#[trigger] entries[i]).0 == name ==> lookup(entries, name) == Some(
                entries[i].1,
            ),
        (forall|i: int| 0 <= i < entries.len() ==> (#[trigger] entries[i]).0 != name) ==> lookup(
            entries,
            name,
        ) is None,
    decreases entries.len(),
{
    if entries.len() > 0 {
        let init = entries.drop_last();
        let n = entries.len() - 1;
        assert forall|i: int, j: int| 0 <= i < j < init.len() implies (#[trigger] init[i]).0 != (
        #[trigger] init[j]).0 by {
            assert(entries[i].0 != entries[j].0);
        }
        folders_are_found_by_name(init, name);
        assert(entries[n] == entries.last());
        assert forall|i: int| 0 <= i < entries.len() && (#[trigger] entries[i]).0 == name implies lookup(
            entries,
            name,
        ) == Some(entries[i].1) by {
            if i < n {
                assert(init[i] == entries[i]);
                assert(entries[i].0 != entries[n].0);
            }
        }
        if forall|i: int| 0 <= i < entries.len() ==> (#[trigger] entries[i]).0 != name {
            assert forall|i: int| 0 <= i < init.len() implies (#[trigger] init[i]).0 != name by {
                assert(entries[i].0 != name);
            }
        }
    }
}

/// The profile called by the name of an outside folder is kept in that very folder; every
/// other profile is kept in the profiles directory, under its own name.
pub proof fn profiles_are_kept_in_their_own_place(
    external: Seq<(Seq<char>, PathBuf)>,
    name: Seq<char>,
)
    requires
        forall|i: int, j: int|
            0 <= i < j < external.len() ==> (#[trigger] external[i]).0 != (#[trigger] external[j]).0,
    ensures
        forall|i: int|
            0 <= i < external.len() && (#[trigger] external[i]).0 == name ==> place_of(external, name)
                == DirView::External(external[i].1),
        (forall|i: int| 0 <= i < external.len() ==> (#[trigger] external[i]).0 != name) ==> place_of(
            external,
            name,
        ) == DirView::Builtin(name),
{
    folders_are_found_by_name(external, name);
}

/// Outside folders are listed by name, in ascending order, and each name once.
pub proof fn folders_are_listed_in_order(entries: Seq<(Seq<char>, PathBuf)>, i: int, j: int)
    requires
        in_order(entries),
        0 <= i < j < entries.len(),
    ensures
        text_le(entries[i].0, entries[j].0),
        entries[i].0 != entries[j].0,
{
}

proof fn lemma_inserted(entries: Seq<(Seq<char>, PathBuf)>, name: Seq<char>, dir: PathBuf)
    requires
        in_order(entries),
    ensures
        inserted(entries, name, dir).contains((name, dir)),
        forall|i: int|
            0 <= i < entries.len() && (#[trigger] entries[i]).0 != name ==> inserted(
                entries,
                name,
                dir,
            ).contains(entries[i]),
        forall|e: (Seq<char>, PathBuf)| #[trigger]
            inserted(entries, name, dir).contains(e) ==> e == (name, dir) || (e.0 != name
                && entries.contains(e)),
    decreases entries.len(),
{
    let r = inserted(entries, name, dir);
    if entries.len() == 0 {
        assert(r[0] == (name, dir));
    } else {
        let init = entries.drop_last();
        let n = entries.len() - 1;
        let last = entries.last();
        assert(entries[n] == last);
        assert forall|i: int, j: int| 0 <= i < j < init.len() implies text_le(
            (#[trigger] init[i]).0,
            (#[trigger] init[j]).0,
        ) && init[i].0 != init[j].0 by {
            assert(init[i] == entries[i] && init[j] == entries[j]);
        }
        lemma_inserted(init, name, dir);
        if last.0 == name {
            assert(r[n] == (name, dir));
            assert forall|i: int| 0 <= i < entries.len() && (#[trigger] entries[i]).0 != name implies r.contains(
                entries[i],
            ) by {
                assert(r[i] == entries[i]);
            }
            assert forall|e: (Seq<char>, PathBuf)| #[trigger] r.contains(e) implies e == (name, dir) || (e.0
                != name && entries.contains(e)) by {
                let k = choose|k: int| 0 <= k < r.len() && r[k] == e;
                if k < n {
                    assert(entries[k] == e);
                    assert(entries[k].0 != entries[n].0);
                }
            }
        } else if text_le(last.0, name) {
            assert(r[n + 1] == (name, dir));
            assert forall|i: int| 0 <= i < entries.len() && (#[trigger] entries[i]).0 != name implies r.contains(
                entries[i],
            ) by {
                assert(r[i] == entries[i]);
            }
            assert forall|e: (Seq<char>, PathBuf)| #[trigger] r.contains(e) implies e == (name, dir) || (e.0
                != name && entries.contains(e)) by {
                let k = choose|k: int| 0 <= k < r.len() && r[k] == e;
                if k <= n {
                    assert(entries[k] == e);
                    if k < n && e.0 == name {
                        assert(text_le(entries[k].0, entries[n].0));
                        crate::text::text_order_antisymmetric(name, last.0);
                    }
                }
            }
        } else {
            let before = inserted(init, name, dir);
            let k0 = choose|k: int| 0 <= k < before.len() && before[k] == (name, dir);
            assert(r[k0] == (name, dir));
            assert forall|i: int| 0 <= i < entries.len() && (#[trigger] entries[i]).0 != name implies r.contains(
                entries[i],
            ) by {
                if i < n {
                    assert(init[i] == entries[i]);
                    let k = choose|k: int| 0 <= k < before.len() && before[k] == init[i];
                    assert(r[k] == entries[i]);
                } else {
                    assert(r[before.len() as int] == entries[i]);
                }
            }
            assert forall|e: (Seq<char>, PathBuf)| #[trigger] r.contains(e) implies e == (name, dir) || (e.0
                != name && entries.contains(e)) by {
                let k = choose|k: int| 0 <= k < r.len() && r[k] == e;
                if k < before.len() {
                    assert(before[k] == e);
                    assert(before.contains(e));
                    if e != (name, dir) {
                        let m = choose|m: int| 0 <= m < init.len() && init[m] == e;
                        assert(entries[m] == e);
                    }
                } else {
                    assert(entries[n] == e);
                }
            }
        }
    }
}

/// Listing a folder adds it under its name, in place of a folder that had the name
/// before, and leaves all other folders listed.
pub proof fn listing_a_folder_adds_it(
    entries: Seq<(Seq<char>, PathBuf)>,
    name: Seq<char>,
    dir: PathBuf,
    e: (Seq<char>, PathBuf),
)
    requires
        in_order(entries),
    ensures
        inserted(entries, name, dir).contains(e) <==> e == (name, dir) || (e.0 != name && entries.contains(
            e,
        )),
{
    lemma_inserted(entries, name, dir);
    if e.0 != name && entries.contains(e) {
        let i = choose|i: int| 0 <= i < entries.len() && entries[i] == e;
        assert(entries[i].0 != name);
    }
}

/// Taking a name off the list leaves exactly the folders with other names.
pub proof fn removing_a_folder_leaves_the_others(
    entries: Seq<(Seq<char>, PathBuf)>,
    name: Seq<char>,
    e: (Seq<char>, PathBuf),
)
    ensures
        removed(entries, name).contains(e) <==> e.0 != name && entries.contains(e),
        (forall|i: int| 0 <= i < entries.len() ==> (#[trigger] entries[i]).0 != name) ==> removed(
            entries,
            name,
        ) == entries,
    decreases entries.len(),
{
    let r = removed(entries, name);
    if entries.len() > 0 {
        let init = entries.drop_last();
        let n = entries.len() - 1;
        let before = removed(init, name);
        removing_a_folder_leaves_the_others(init, name, e);
        assert(entries[n] == entries.last());
        if before.contains(e) {
            let k = choose|k: int| 0 <= k < before.len() && before[k] == e;
            assert(r[k] == e);
            let m = choose|m: int| 0 <= m < init.len() && init[m] == e;
            assert(entries[m] == e);
        }
        if r.contains(e) && !before.contains(e) {
            let k = choose|k: int| 0 <= k < r.len() && r[k] == e;
            if k < before.len() {
                assert(before[k] == e);
            }
        }
        if e.0 != name && entries.contains(e) {
            let k = choose|k: int| 0 <= k < entries.len() && entries[k] == e;
            if k < n {
                assert(init[k] == e);
            } else {
                assert(r[before.len() as int] == e);
            }
        }
        if forall|i: int| 0 <= i < entries.len() ==> (#[trigger] entries[i]).0 != name {
            assert forall|i: int| 0 <= i < init.len() implies (#[trigger] init[i]).0 != name by {
                assert(entries[i].0 != name);
            }
            assert(entries[n].0 != name);
            assert(r =~= entries);
        }
    }
}

// ---------------------------------------------------------------------------
// Names
// ---------------------------------------------------------------------------

proof fn lemma_merged_counts(names: Seq<Seq<char>>, more: Seq<Seq<char>>, n: Seq<char>)
    ensures
        merged(names, more).to_multiset().count(n) == if names.contains(n) {
            names.to_multiset().count(n)
        } else if more.contains(n) {
            1
        } else {
            0
        },
    decreases more.len(),
{
    broadcast use vstd::seq_lib::group_to_multiset_ensures;

    if more.len() > 0 {
        let init = more.drop_last();
        let before = merged(names, init);
        lemma_merged_counts(names, init, n);
        let last = more.last();
        assert(more[more.len() - 1] == last);
        assert(before.contains(last) <==> before.to_multiset().count(last) > 0);
        lemma_merged_counts(names, init, last);
        assert(names.contains(last) ==> names.to_multiset().count(last) > 0);
        if init.contains(n) {
            let k = choose|k: int| 0 <= k < init.len() && init[k] == n;
            assert(more[k] == n);
        }
        if more.contains(n) && !init.contains(n) {
            let k = choose|k: int| 0 <= k < more.len() && more[k] == n;
            if k < init.len() {
                assert(init[k] == n);
            }
        }
    } else {
        assert(names.contains(n) <==> names.to_multiset().count(n) > 0);
    }
}

/// In the list of all profiles a name stands as often as in the profiles directory; a
/// name that is not there but is that of an outside folder stands once; and no other
/// name stands in it.
pub proof fn every_profile_is_listed_once(
    listed: Seq<Seq<char>>,
    external: Seq<(Seq<char>, PathBuf)>,
    n: Seq<char>,
)
    ensures
        all_names(listed, external).to_multiset().count(n) == if listed.contains(n) {
            listed.to_multiset().count(n)
        } else if exists|i: int| 0 <= i < external.len() && (#[trigger] external[i]).0 == n {
            1
        } else {
            0
        },
        forall|i: int, j: int|
            0 <= i <= j < all_names(listed, external).len() ==> text_le(
                #[trigger] all_names(listed, external)[i],
                #[trigger] all_names(listed, external)[j],
            ),
{
    let names = entry_names(external);
    lemma_merged_counts(listed, names, n);
    ordered_is_sorted(merged(listed, names));
    assert(all_names(listed, external) == ordered(merged(listed, names)));
    if names.contains(n) {
        let i = choose|i: int| 0 <= i < names.len() && names[i] == n;
        assert(external[i].0 == n);
    }
    if exists|i: int| 0 <= i < external.len() && (#[trigger] external[i]).0 == n {
        let i = choose|i: int| 0 <= i < external.len() && (#[trigger] external[i]).0 == n;
        assert(names[i] == n);
    }
}

/// A folder gets its own name if that is free. Else it gets the name with a number in
/// brackets, the smallest from two on that is free.
pub proof fn a_new_folder_gets_the_first_free_name(base: Seq<char>, taken: Seq<Seq<char>>)
    ensures
        !taken.contains(free_name(base, taken)),
        !taken.contains(base) ==> free_name(base, taken) == base,
        taken.contains(base) ==> exists|k: nat|
            k >= 2 && free_name(base, taken) == base + " ("@ + #[trigger] decimal(k) + ")"@ && (forall|j: nat|
                2 <= j < k ==> taken.contains(base + " ("@ + #[trigger] decimal(j) + ")"@)),
{
    free_name_is_free(base, taken);
    let k = choose|k: nat| #[trigger]
        is_first_free(base, taken, k) && free_name(base, taken) == candidate(base, k);
    if taken.contains(base) {
        assert(k >= 2);
        assert(free_name(base, taken) == base + " ("@ + decimal(k) + ")"@);
        assert forall|j: nat| 2 <= j < k implies taken.contains(
            base + " ("@ + #[trigger] decimal(j) + ")"@,
        ) by {
            assert(taken.contains(candidate(base, j)));
        }
    }
}

} // verus!

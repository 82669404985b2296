//! Laws of single tasks: what each task, each answer and each wish comes to, said of the
//! state, the tasks that follow and what has to be done.

use crate::app::{AppView, CaptureTarget};
use crate::config::{in_order, Settings, Volume};
use crate::paths::{absolute_on, file_name_on, label_of, path_from, same_on, shown_on};
use crate::profile::{all_names, free_name, DirView, ProfileView};
use crate::profile_laws::{
    listing_a_folder_adds_it, other_sounds_keep_their_shortcuts, other_sounds_keep_their_volume,
    profiles_are_kept_in_their_own_place, removing_a_folder_leaves_the_others,
};
use crate::text::trimmed;
use crate::work::{
    facts_fit, known_folder, only_if, plan, replied, rescan, same_fits, stepped, ActionView, FactsView, PendingView, ReplyView, TaskView,
    WorkView,
};
use std::path::PathBuf;
use vstd::prelude::*;

verus! {

/// The work whose first task is done and replaced by `next`.
pub open spec fn followed_by(w: WorkView, next: Seq<TaskView>, need_reregister: bool) -> WorkView {
    WorkView { tasks: next + w.tasks.drop_first(), need_reregister }
}

/// Whether `task` is the one that is next.
pub open spec fn is_next(w: WorkView, task: TaskView) -> bool {
    w.tasks.len() > 0 && w.tasks[0] == task
}

// ---------------------------------------------------------------------------
// Sounds
// ---------------------------------------------------------------------------

/// Setting a volume changes the volume of that sound, and nothing else; the change is kept,
/// and the hotkeys will be registered anew.
pub proof fn setting_a_volume(a: AppView, w: WorkView, f: FactsView, i: usize, v: Volume, j: int)
    requires
        is_next(w, TaskView::SetVolume(i, v)),
    ensures
        ({
            let (b, r, action) = stepped(a, w, f);
            &&& b == (AppView { profile: b.profile, ..a })
            &&& r == followed_by(w, seq![], true)
            &&& a.profile is None ==> b.profile is None && action is Nothing
            &&& a.profile is Some ==> {
                &&& action is SaveBindings
                &&& b.profile is Some
                &&& b.profile->0 == (ProfileView { sounds: b.profile->0.sounds, ..a.profile->0 })
                &&& b.profile->0.sounds.len() == a.profile->0.sounds.len()
                &&& 0 <= j < a.profile->0.sounds.len() && j != i ==> b.profile->0.sounds[j]
                    == a.profile->0.sounds[j]
                &&& i < a.profile->0.sounds.len() ==> {
                    let s = a.profile->0.sounds[i as int];
                    let t = b.profile->0.sounds[i as int];
                    t.volume == v && t.name == s.name && t.path == s.path && t.hotkey == s.hotkey
                }
            }
        }),
{
    if a.profile is Some {
        other_sounds_keep_their_volume(a.profile->0, i as int, v, j);
    }
}

/// Taking the shortcut off a sound leaves that sound without one, and changes nothing else;
/// the change is kept, and the hotkeys will be registered anew.
pub proof fn clearing_a_shortcut(a: AppView, w: WorkView, f: FactsView, i: usize, j: int)
    requires
        is_next(w, TaskView::ClearHotkey(i)),
    ensures
        ({
            let (b, r, action) = stepped(a, w, f);
            &&& b == (AppView { profile: b.profile, ..a })
            &&& r == followed_by(w, seq![], true)
            &&& a.profile is None ==> b.profile is None && action is Nothing
            &&& a.profile is Some ==> {
                &&& action is SaveBindings
                &&& b.profile is Some
                &&& b.profile->0 == (ProfileView { sounds: b.profile->0.sounds, ..a.profile->0 })
                &&& b.profile->0.sounds.len() == a.profile->0.sounds.len()
                &&& 0 <= j < a.profile->0.sounds.len() && j != i ==> b.profile->0.sounds[j]
                    == a.profile->0.sounds[j]
                &&& i < a.profile->0.sounds.len() ==> {
                    let s = a.profile->0.sounds[i as int];
                    let t = b.profile->0.sounds[i as int];
                    t.hotkey is None && t.name == s.name && t.path == s.path && t.volume == s.volume
                }
            }
        }),
{
    if a.profile is Some {
        other_sounds_keep_their_shortcuts(a.profile->0, i as int, None, j);
    }
}

/// Taking away the shortcut that stops all sounds changes that setting only; the settings
/// are kept, and the hotkeys will be registered anew.
pub proof fn clearing_the_stop_shortcut(a: AppView, w: WorkView, f: FactsView)
    requires
        is_next(w, TaskView::ClearStop),
    ensures
        stepped(a, w, f).0 == (AppView {
            config: Settings { stop_hotkey: None, ..a.config },
            ..a
        }),
        stepped(a, w, f).1 == followed_by(w, seq![], true),
        stepped(a, w, f).2 is SaveConfig,
{
}

/// Playing a sound plays the file of that sound, as loud as it is set; without such a
/// sound nothing is played. The state stays as it is.
pub proof fn playing_a_sound(a: AppView, w: WorkView, f: FactsView, i: usize)
    requires
        is_next(w, TaskView::Play(i)),
    ensures
        stepped(a, w, f).0 == a,
        stepped(a, w, f).1 == followed_by(w, seq![], w.need_reregister),
        stepped(a, w, f).2 == if a.profile is Some && i < a.profile->0.sounds.len() {
            ActionView::Play {
                path: a.profile->0.sounds[i as int].path,
                volume: a.profile->0.sounds[i as int].volume,
            }
        } else {
            ActionView::Nothing
        },
{
}

/// Opening the folder opens that of the profile in use.
pub proof fn opening_the_folder(a: AppView, w: WorkView, f: FactsView)
    requires
        is_next(w, TaskView::OpenFolder),
    ensures
        stepped(a, w, f).0 == a,
        stepped(a, w, f).1 == followed_by(w, seq![], w.need_reregister),
        stepped(a, w, f).2 == if a.profile is Some {
            ActionView::OpenFolder(a.profile->0.dir)
        } else {
            ActionView::Nothing
        },
{
}

/// Starting a capture notes what it is for, and changes nothing else.
pub proof fn starting_a_capture(a: AppView, w: WorkView, f: FactsView, t: CaptureTarget)
    requires
        is_next(w, TaskView::Capture(t)),
    ensures
        stepped(a, w, f).0 == (AppView { capturing: Some(t), ..a }),
        stepped(a, w, f).1 == followed_by(w, seq![], w.need_reregister),
        stepped(a, w, f).2 is Nothing,
{
}

// ---------------------------------------------------------------------------
// Profiles
// ---------------------------------------------------------------------------

/// A new profile from what was typed in, without the white space around it: an absolute
/// path is made sure of and then added, a plain name gets a folder in the profiles
/// directory, and nothing happens for an empty text or a name with slashes.
pub proof fn asking_for_a_new_profile(a: AppView, w: WorkView, f: FactsView, input: Seq<char>)
    requires
        is_next(w, TaskView::NewProfile(input)),
    ensures
        ({
            let name = trimmed(input);
            let (b, r, action) = stepped(a, w, f);
            &&& b == a
            &&& action is Nothing
            &&& r == followed_by(
                w,
                if name.len() > 0 && f.absolute {
                    seq![TaskView::EnsureFolder(path_from(name))]
                } else if name.len() > 0 && !name.contains('/') && !name.contains('\\') {
                    seq![TaskView::CreateProfile(name)]
                } else {
                    seq![]
                },
                w.need_reregister,
            )
        }),
{
}

/// Switching to a profile makes it active, loads it, keeps the settings and registers the
/// hotkeys; nothing else changes.
pub proof fn switching_to_a_profile(a: AppView, w: WorkView, f: FactsView, name: Seq<char>)
    requires
        is_next(w, TaskView::SwitchProfile(name)),
    ensures
        stepped(a, w, f).0 == (AppView {
            config: Settings { active_profile: Some(name), ..a.config },
            ..a
        }),
        stepped(a, w, f).1 == followed_by(
            w,
            seq![TaskView::LoadProfile(name), TaskView::SaveConfig, TaskView::Reregister],
            w.need_reregister,
        ),
        stepped(a, w, f).2 is Nothing,
{
}

/// A profile is loaded from its own folder: from the outside folder that is listed under
/// its name, or from the folder of its name in the profiles directory.
pub proof fn loading_a_profile(a: AppView, w: WorkView, f: FactsView, name: Seq<char>)
    requires
        is_next(w, TaskView::LoadProfile(name)),
        in_order(a.config.external_profiles),
    ensures
        stepped(a, w, f).0 == a,
        stepped(a, w, f).1 == w,
        forall|i: int|
            0 <= i < a.config.external_profiles.len() && (#[trigger] a.config.external_profiles[i]).0 == name
                ==> stepped(a, w, f).2 == (ActionView::LoadProfile {
                name,
                dir: DirView::External(a.config.external_profiles[i].1),
            }),
        (forall|i: int|
            0 <= i < a.config.external_profiles.len() ==> (#[trigger] a.config.external_profiles[i]).0
                != name) ==> stepped(a, w, f).2 == (ActionView::LoadProfile {
            name,
            dir: DirView::Builtin(name),
        }),
{
    profiles_are_kept_in_their_own_place(a.config.external_profiles, name);
    assert(seq![w.tasks[0]] + w.tasks.drop_first() =~= w.tasks);
}

/// Taking a folder off the list forgets exactly that folder. The profiles are listed
/// again, and the profile is left if it was in use.
pub proof fn taking_a_folder_off_the_list(
    a: AppView,
    w: WorkView,
    f: FactsView,
    name: Seq<char>,
    e: (Seq<char>, PathBuf),
)
    requires
        is_next(w, TaskView::RemoveExternal(name)),
    ensures
        ({
            let (b, r, action) = stepped(a, w, f);
            &&& b == (AppView {
                config: Settings { external_profiles: b.config.external_profiles, ..a.config },
                ..a
            })
            &&& b.config.external_profiles.contains(e) <==> e.0 != name
                && a.config.external_profiles.contains(e)
            &&& r == followed_by(
                w,
                seq![TaskView::ListProfiles, TaskView::LeaveProfile(name)],
                w.need_reregister,
            )
            &&& action is Nothing
        }),
{
    removing_a_folder_leaves_the_others(a.config.external_profiles, name, e);
}

/// Leaving a profile that is not in use only keeps the settings. Leaving the one in use
/// switches to the first of the list; without any, no profile is in use any more.
pub proof fn leaving_a_profile(a: AppView, w: WorkView, f: FactsView, name: Seq<char>)
    requires
        is_next(w, TaskView::LeaveProfile(name)),
    ensures
        a.config.active_profile != Some(name) ==> stepped(a, w, f) == (
            a,
            followed_by(w, seq![], w.need_reregister),
            ActionView::SaveConfig,
        ),
        a.config.active_profile == Some(name) && a.profiles.len() > 0 ==> stepped(a, w, f) == (
            a,
            followed_by(w, seq![TaskView::SwitchProfile(a.profiles[0])], w.need_reregister),
            ActionView::Nothing,
        ),
        a.config.active_profile == Some(name) && a.profiles.len() == 0 ==> stepped(a, w, f) == (
            AppView {
                config: Settings { active_profile: None, ..a.config },
                profile: None,
                ..a
            },
            followed_by(w, seq![], true),
            ActionView::SaveConfig,
        ),
{
}

proof fn lemma_known(external: Seq<(Seq<char>, PathBuf)>, same: Seq<bool>, i: int)
    requires
        external.len() == same.len(),
        0 <= i < same.len(),
        same[i],
        forall|j: int| 0 <= j < i ==> !(#[trigger] same[j]),
    ensures
        known_folder(external, same) == Some(external[i].0),
    decreases i,
{
    if i > 0 {
        assert(!same[0]);
        let s = same.drop_first();
        let e = external.drop_first();
        assert forall|j: int| 0 <= j < i - 1 implies !(#[trigger] s[j]) by {
            assert(s[j] == same[j + 1]);
        }
        lemma_known(e, s, i - 1);
    }
}

proof fn lemma_unknown(external: Seq<(Seq<char>, PathBuf)>, same: Seq<bool>)
    requires
        external.len() == same.len(),
        forall|j: int| 0 <= j < same.len() ==> !(#[trigger] same[j]),
    ensures
        known_folder(external, same) is None,
    decreases same.len(),
{
    if same.len() > 0 {
        assert(!same[0]);
        let s = same.drop_first();
        assert forall|j: int| 0 <= j < s.len() implies !(#[trigger] s[j]) by {
            assert(s[j] == same[j + 1]);
        }
        lemma_unknown(external.drop_first(), s);
    }
}

/// Adding a folder that is listed switches to the first profile that has it; nothing is
/// listed twice.
pub proof fn adding_a_listed_folder(a: AppView, w: WorkView, f: FactsView, dir: PathBuf, i: int)
    requires
        is_next(w, TaskView::AddFolder(dir)),
        f.same.len() == a.config.external_profiles.len(),
        0 <= i < f.same.len(),
        f.same[i],
        forall|j: int| 0 <= j < i ==> !(#[trigger] f.same[j]),
    ensures
        stepped(a, w, f) == (
            a,
            followed_by(
                w,
                seq![TaskView::SwitchProfile(a.config.external_profiles[i].0)],
                w.need_reregister,
            ),
            ActionView::Nothing,
        ),
{
    lemma_known(a.config.external_profiles, f.same, i);
}

/// Adding a folder that is not listed lists it, under a name made of what the folder is
/// called and not taken yet, and switches to it. All other folders stay listed, and
/// nothing else changes.
pub proof fn adding_a_new_folder(
    a: AppView,
    w: WorkView,
    f: FactsView,
    dir: PathBuf,
    e: (Seq<char>, PathBuf),
)
    requires
        is_next(w, TaskView::AddFolder(dir)),
        in_order(a.config.external_profiles),
        f.same.len() == a.config.external_profiles.len(),
        forall|j: int| 0 <= j < f.same.len() ==> !(#[trigger] f.same[j]),
    ensures
        ({
            let (b, r, action) = stepped(a, w, f);
            let name = free_name(f.base, a.profiles);
            &&& b == (AppView {
                config: Settings { external_profiles: b.config.external_profiles, ..a.config },
                ..a
            })
            &&& b.config.external_profiles.contains(e) <==> e == (name, dir) || (e.0 != name
                && a.config.external_profiles.contains(e))
            &&& r == followed_by(
                w,
                seq![TaskView::SaveConfig, TaskView::ListProfiles, TaskView::SwitchProfile(name)],
                w.need_reregister,
            )
            &&& action is Nothing
        }),
{
    lemma_unknown(a.config.external_profiles, f.same);
    listing_a_folder_adds_it(a.config.external_profiles, free_name(f.base, a.profiles), dir, e);
}

/// What is known of the facts about a path: what was typed in is absolute if some platform
/// says so of that path, without the white space around it; a listed folder is the same if
/// some platform says so, and certainly if its path is the very path; and the folder is
/// called by its last component, or by its whole path where it has none.
pub proof fn facts_are_about_the_path(a: AppView, w: WorkView, f: FactsView, input: Seq<char>, dir: PathBuf)
    requires
        facts_fit(a, w, f),
    ensures
        is_next(w, TaskView::NewProfile(input)) ==> exists|platform: int|
            f.absolute == #[trigger] absolute_on(platform, path_from(trimmed(input))),
        is_next(w, TaskView::AddFolder(dir)) ==> {
            &&& f.same.len() == a.config.external_profiles.len()
            &&& forall|i: int|
                #![trigger a.config.external_profiles[i]]
                0 <= i < f.same.len() ==> {
                    &&& a.config.external_profiles[i].1 == dir ==> f.same[i]
                    &&& exists|platform: int|
                        f.same[i] == #[trigger] same_on(platform, a.config.external_profiles[i].1, dir)
                }
            &&& exists|p: int, q: int|
                f.base == if (#[trigger] file_name_on(p, dir)) is Some {
                    file_name_on(p, dir)->0
                } else {
                    #[trigger] shown_on(q, dir)
                }
        },
{
    if is_next(w, TaskView::AddFolder(dir)) {
        let (p, q) = choose|p: int, q: int|
            f.base == label_of(#[trigger] file_name_on(p, dir), #[trigger] shown_on(q, dir));
        assert(f.base == if file_name_on(p, dir) is Some {
            file_name_on(p, dir)->0
        } else {
            shown_on(q, dir)
        });
        assert forall|i: int|
            #![trigger a.config.external_profiles[i]]
            0 <= i < f.same.len() implies (a.config.external_profiles[i].1 == dir ==> f.same[i]) && (
        exists|platform: int|
            f.same[i] == #[trigger] same_on(platform, a.config.external_profiles[i].1, dir)) by {
            assert(same_fits(a.config.external_profiles[i].1, dir, f.same[i]));
        }
    }
}

// ---------------------------------------------------------------------------
// Other tasks
// ---------------------------------------------------------------------------

/// Tasks that ask something ask about what they hold, change nothing and wait.
pub proof fn tasks_that_ask(
    a: AppView,
    w: WorkView,
    f: FactsView,
    path: PathBuf,
    name: Seq<char>,
)
    requires
        w.tasks.len() > 0,
    ensures
        w.tasks[0] is PickFolder ==> stepped(a, w, f) == (a, w, ActionView::PickFolder),
        w.tasks[0] == TaskView::EnsureFolder(path) ==> stepped(a, w, f) == (
            a,
            w,
            ActionView::EnsureFolder(path),
        ),
        w.tasks[0] == TaskView::CreateProfile(name) ==> stepped(a, w, f) == (
            a,
            w,
            ActionView::CreateProfile(name),
        ),
        w.tasks[0] is ListProfiles ==> stepped(a, w, f) == (a, w, ActionView::ListProfiles),
        w.tasks[0] is CheckSignature && a.profile is Some ==> stepped(a, w, f) == (
            a,
            w,
            ActionView::ReadSignature(a.profile->0.dir),
        ),
        w.tasks[0] is ReloadProfile && a.profile is Some ==> stepped(a, w, f) == (
            a,
            w,
            ActionView::ReloadProfile { name: a.profile->0.name, folder: a.profile->0.dir },
        ),
        (w.tasks[0] is CheckSignature || w.tasks[0] is ReloadProfile) && a.profile is None ==> stepped(
            a,
            w,
            f,
        ) == (a, followed_by(w, seq![], w.need_reregister), ActionView::Nothing),
{
    assert(seq![w.tasks[0]] + w.tasks.drop_first() =~= w.tasks);
}

/// Tasks that are nothing but something to be done have it done, and change nothing.
pub proof fn tasks_that_act(a: AppView, w: WorkView, f: FactsView)
    requires
        w.tasks.len() > 0,
    ensures
        ({
            let r = followed_by(w, seq![], w.need_reregister);
            &&& w.tasks[0] is RebuildEngine ==> stepped(a, w, f) == (a, r, ActionView::RebuildEngine)
            &&& w.tasks[0] is StartAudio ==> stepped(a, w, f) == (a, r, ActionView::StartAudio)
            &&& w.tasks[0] is SaveConfig ==> stepped(a, w, f) == (a, r, ActionView::SaveConfig)
            &&& w.tasks[0] is Reregister ==> stepped(a, w, f) == (a, r, ActionView::Reregister)
            &&& w.tasks[0] is ClearNewName ==> stepped(a, w, f) == (
                AppView { new_profile_name: seq![], ..a },
                r,
                ActionView::Nothing,
            )
        }),
        w.tasks[0] is ReregisterIfNeeded ==> stepped(a, w, f) == (
            a,
            followed_by(w, seq![], false),
            if w.need_reregister {
                ActionView::Reregister
            } else {
                ActionView::Nothing
            },
        ),
{
}

/// Without a task there is nothing to do.
pub proof fn nothing_to_do(a: AppView, w: WorkView, f: FactsView)
    requires
        w.tasks.len() == 0,
    ensures
        stepped(a, w, f) == (a, w, ActionView::Done),
{
}

// ---------------------------------------------------------------------------
// Answers
// ---------------------------------------------------------------------------

/// What the answers come to. A folder that is there is added and the field for names is
/// emptied; a profile that was made is listed and switched to, and the field is emptied;
/// the list of profiles, the loaded profile and the files are noted; a picked folder is
/// added; and a folder that has changed is loaded again. A refusal changes nothing.
pub proof fn what_answers_come_to(
    a: AppView,
    w: WorkView,
    path: PathBuf,
    name: Seq<char>,
    names: Seq<Seq<char>>,
    p: ProfileView,
)
    requires
        w.tasks.len() > 0,
    ensures
        ({
            let done = followed_by(w, seq![], w.need_reregister);
            &&& w.tasks[0] == TaskView::EnsureFolder(path) ==> {
                &&& replied(a, w, ReplyView::Folder(true)) == (
                    a,
                    followed_by(
                        w,
                        seq![TaskView::AddFolder(path), TaskView::ClearNewName],
                        w.need_reregister,
                    ),
                )
                &&& replied(a, w, ReplyView::Folder(false)) == (a, done)
            }
            &&& w.tasks[0] == TaskView::CreateProfile(name) ==> {
                &&& replied(a, w, ReplyView::Created(true)) == (
                    a,
                    followed_by(
                        w,
                        seq![
                            TaskView::ListProfiles,
                            TaskView::SwitchProfile(name),
                            TaskView::ClearNewName,
                        ],
                        w.need_reregister,
                    ),
                )
                &&& replied(a, w, ReplyView::Created(false)) == (a, done)
            }
            &&& w.tasks[0] is ListProfiles ==> replied(a, w, ReplyView::Listed(names)) == (
                AppView { profiles: all_names(names, a.config.external_profiles), ..a },
                done,
            )
            &&& w.tasks[0] is LoadProfile ==> replied(a, w, ReplyView::Loaded(p, names)) == (
                AppView { profile: Some(p), last_signature: names, ..a },
                done,
            )
            &&& w.tasks[0] is PickFolder ==> {
                &&& replied(a, w, ReplyView::Picked(Some(path))) == (
                    a,
                    followed_by(w, seq![TaskView::AddFolder(path)], w.need_reregister),
                )
                &&& replied(a, w, ReplyView::Picked(None)) == (a, done)
            }
            &&& w.tasks[0] is CheckSignature ==> replied(a, w, ReplyView::Signature(names)) == if names
                == a.last_signature {
                (a, done)
            } else {
                (
                    AppView { last_signature: names, ..a },
                    followed_by(
                        w,
                        seq![TaskView::ReloadProfile, TaskView::Reregister],
                        w.need_reregister,
                    ),
                )
            }
            &&& w.tasks[0] is ReloadProfile ==> replied(a, w, ReplyView::Reloaded(p)) == (
                AppView { profile: Some(p), ..a },
                done,
            )
        }),
{
}

/// An answer to another question than the one that waits changes nothing.
pub proof fn other_answers_change_nothing(a: AppView, w: WorkView, reply: ReplyView)
    requires
        w.tasks.len() == 0 || !(match reply {
            ReplyView::Folder(_) => w.tasks[0] is EnsureFolder,
            ReplyView::Created(_) => w.tasks[0] is CreateProfile,
            ReplyView::Listed(_) => w.tasks[0] is ListProfiles,
            ReplyView::Loaded(_, _) => w.tasks[0] is LoadProfile,
            ReplyView::Picked(_) => w.tasks[0] is PickFolder,
            ReplyView::Signature(_) => w.tasks[0] is CheckSignature,
            ReplyView::Reloaded(_) => w.tasks[0] is ReloadProfile,
        }),
    ensures
        replied(a, w, reply) == (a, w),
{
}

// ---------------------------------------------------------------------------
// Looks at the folder
// ---------------------------------------------------------------------------

/// One and a half seconds after the last look the folder of the profile in use is looked
/// at again, and the time is noted; before that nothing happens.
pub proof fn the_folder_is_looked_at(a: AppView, now: u64)
    ensures
        now < a.last_scan + 1_500_000_000 ==> rescan(a, now).0 == a && rescan(a, now).1.tasks.len() == 0,
        now >= a.last_scan + 1_500_000_000 ==> {
            &&& rescan(a, now).0 == (AppView { last_scan: now, ..a })
            &&& a.profile is None ==> rescan(a, now).1.tasks.len() == 0
            &&& a.profile is Some ==> rescan(a, now).1.tasks.len() == 1 && rescan(a, now).1.tasks[0] is CheckSignature
        },
        !rescan(a, now).1.need_reregister,
{
}

// ---------------------------------------------------------------------------
// Wishes
// ---------------------------------------------------------------------------

/// Whether `t` is made of these parts, one behind the other.
#[verifier::opaque]
spec fn is_made_of(
    a: Seq<TaskView>,
    b: Seq<TaskView>,
    c: Seq<TaskView>,
    d: Seq<TaskView>,
    e: Seq<TaskView>,
    f: Seq<TaskView>,
    g: Seq<TaskView>,
    h: Seq<TaskView>,
    i: Seq<TaskView>,
    j: Seq<TaskView>,
    m: Seq<TaskView>,
    n: Seq<TaskView>,
    t: Seq<TaskView>,
) -> bool {
    let s0 = 0int;
    let s1 = s0 + a.len();
    let s2 = s1 + b.len();
    let s3 = s2 + c.len();
    let s4 = s3 + d.len();
    let s5 = s4 + e.len();
    let s6 = s5 + f.len();
    let s7 = s6 + g.len();
    let s8 = s7 + h.len();
    let s9 = s8 + i.len();
    let s10 = s9 + j.len();
    let s11 = s10 + m.len();
    &&& t.len() == s11 + n.len()
    &&& forall|k: int| 0 <= k < a.len() ==> t[s0 + k] == #[trigger] a[k]
    &&& forall|k: int| 0 <= k < b.len() ==> t[s1 + k] == #[trigger] b[k]
    &&& forall|k: int| 0 <= k < c.len() ==> t[s2 + k] == #[trigger] c[k]
    &&& forall|k: int| 0 <= k < d.len() ==> t[s3 + k] == #[trigger] d[k]
    &&& forall|k: int| 0 <= k < e.len() ==> t[s4 + k] == #[trigger] e[k]
    &&& forall|k: int| 0 <= k < f.len() ==> t[s5 + k] == #[trigger] f[k]
    &&& forall|k: int| 0 <= k < g.len() ==> t[s6 + k] == #[trigger] g[k]
    &&& forall|k: int| 0 <= k < h.len() ==> t[s7 + k] == #[trigger] h[k]
    &&& forall|k: int| 0 <= k < i.len() ==> t[s8 + k] == #[trigger] i[k]
    &&& forall|k: int| 0 <= k < j.len() ==> t[s9 + k] == #[trigger] j[k]
    &&& forall|k: int| 0 <= k < m.len() ==> t[s10 + k] == #[trigger] m[k]
    &&& forall|k: int| 0 <= k < n.len() ==> t[s11 + k] == #[trigger] n[k]
}

#[verifier::rlimit(60)]
proof fn lemma_made_of(
    a: Seq<TaskView>,
    b: Seq<TaskView>,
    c: Seq<TaskView>,
    d: Seq<TaskView>,
    e: Seq<TaskView>,
    f: Seq<TaskView>,
    g: Seq<TaskView>,
    h: Seq<TaskView>,
    i: Seq<TaskView>,
    j: Seq<TaskView>,
    m: Seq<TaskView>,
    n: Seq<TaskView>,
    t: Seq<TaskView>,
)
    requires
        t == a + b + c + d + e + f + g + h + i + j + m + n,
    ensures
        is_made_of(a, b, c, d, e, f, g, h, i, j, m, n, t),
{
    reveal(is_made_of);
}

/// Whether the tasks are what was asked for, in order; `k` is any place among them.
pub open spec fn are_the_wishes(p: PendingView, t: Seq<TaskView>, k: int) -> bool {
    let clears = p.set_volume.len() as int;
    let stop = clears + p.clear_hotkey.len();
    let plays = stop + if p.clear_stop { 1int } else { 0 };
    let folder = plays + p.play.len();
    let capture = folder + if p.open_folder { 1int } else { 0 };
    let new_profile = capture + if p.capture is Some { 1int } else { 0 };
    let pick = new_profile + if p.new_profile is Some { 1int } else { 0 };
    let remove = pick + if p.pick_folder { 1int } else { 0 };
    let switch = remove + if p.remove_external is Some { 1int } else { 0 };
    let rebuild = switch + if p.switch_profile is Some { 1int } else { 0 };
    let end = rebuild + if p.rebuild_engine { 1int } else { 0 };
    &&& t.len() == end + 1
    &&& 0 <= k < clears ==> t[k] == TaskView::SetVolume(p.set_volume[k].0, p.set_volume[k].1)
    &&& clears <= k < stop ==> t[k] == TaskView::ClearHotkey(p.clear_hotkey[k - clears])
    &&& p.clear_stop ==> t[stop] is ClearStop
    &&& plays <= k < folder ==> t[k] == TaskView::Play(p.play[k - plays])
    &&& p.open_folder ==> t[folder] is OpenFolder
    &&& p.capture is Some ==> t[capture] == TaskView::Capture(p.capture->0)
    &&& p.new_profile is Some ==> t[new_profile] == TaskView::NewProfile(p.new_profile->0)
    &&& p.pick_folder ==> t[pick] is PickFolder
    &&& p.remove_external is Some ==> t[remove] == TaskView::RemoveExternal(p.remove_external->0)
    &&& p.switch_profile is Some ==> t[switch] == TaskView::SwitchProfile(p.switch_profile->0)
    &&& p.rebuild_engine ==> t[rebuild] is RebuildEngine
    &&& t[end] is ReregisterIfNeeded
}

#[verifier::rlimit(60)]
proof fn lemma_made_of_wishes(
    p: PendingView,
    a: Seq<TaskView>,
    b: Seq<TaskView>,
    c: Seq<TaskView>,
    d: Seq<TaskView>,
    e: Seq<TaskView>,
    f: Seq<TaskView>,
    g: Seq<TaskView>,
    h: Seq<TaskView>,
    i: Seq<TaskView>,
    j: Seq<TaskView>,
    m: Seq<TaskView>,
    n: Seq<TaskView>,
    t: Seq<TaskView>,
    k: int,
)
    requires
        is_made_of(a, b, c, d, e, f, g, h, i, j, m, n, t),
        a.len() == p.set_volume.len(),
        forall|i: int|
            0 <= i < a.len() ==> #[trigger] a[i] == TaskView::SetVolume(
                p.set_volume[i].0,
                p.set_volume[i].1,
            ),
        b.len() == p.clear_hotkey.len(),
        forall|i: int| 0 <= i < b.len() ==> #[trigger] b[i] == TaskView::ClearHotkey(p.clear_hotkey[i]),
        c.len() == if p.clear_stop { 1int } else { 0 },
        p.clear_stop ==> c[0] is ClearStop,
        d.len() == p.play.len(),
        forall|i: int| 0 <= i < d.len() ==> #[trigger] d[i] == TaskView::Play(p.play[i]),
        e.len() == if p.open_folder { 1int } else { 0 },
        p.open_folder ==> e[0] is OpenFolder,
        f.len() == if p.capture is Some { 1int } else { 0 },
        p.capture is Some ==> f[0] == TaskView::Capture(p.capture->0),
        g.len() == if p.new_profile is Some { 1int } else { 0 },
        p.new_profile is Some ==> g[0] == TaskView::NewProfile(p.new_profile->0),
        h.len() == if p.pick_folder { 1int } else { 0 },
        p.pick_folder ==> h[0] is PickFolder,
        i.len() == if p.remove_external is Some { 1int } else { 0 },
        p.remove_external is Some ==> i[0] == TaskView::RemoveExternal(p.remove_external->0),
        j.len() == if p.switch_profile is Some { 1int } else { 0 },
        p.switch_profile is Some ==> j[0] == TaskView::SwitchProfile(p.switch_profile->0),
        m.len() == if p.rebuild_engine { 1int } else { 0 },
        p.rebuild_engine ==> m[0] is RebuildEngine,
        n.len() == 1,
        n[0] is ReregisterIfNeeded,
    ensures
        are_the_wishes(p, t, k),
{
    reveal(is_made_of);
    let stop = a.len() as int + b.len();
    let plays = stop + c.len();
    if 0 <= k < a.len() {
        assert(t[0 + k] == a[k]);
    }
    if a.len() <= k < stop {
        assert(t[a.len() + (k - a.len())] == b[k - a.len()]);
    }
    if plays <= k < plays + d.len() {
        assert(t[plays + (k - plays)] == d[k - plays]);
    }
}

/// The tasks of a frame are what was asked for in it, in this order: volumes, shortcuts to
/// clear, the stop shortcut to clear, sounds to play, the folder to open, a capture, a new
/// profile, a folder to pick, a folder to take off the list, a profile to switch to, the
/// audio chain; and at the end the hotkeys, if need be.
pub proof fn wishes_become_tasks_in_order(p: PendingView, k: int)
    ensures
        are_the_wishes(p, plan(p), k),
{
    let a = p.set_volume.map_values(|e: (usize, Volume)| TaskView::SetVolume(e.0, e.1));
    let b = p.clear_hotkey.map_values(|i: usize| TaskView::ClearHotkey(i));
    let c = only_if(p.clear_stop, TaskView::ClearStop);
    let d = p.play.map_values(|i: usize| TaskView::Play(i));
    let e = only_if(p.open_folder, TaskView::OpenFolder);
    let f = match p.capture {
        Some(t) => seq![TaskView::Capture(t)],
        None => seq![],
    };
    let g = match p.new_profile {
        Some(s) => seq![TaskView::NewProfile(s)],
        None => seq![],
    };
    let h = only_if(p.pick_folder, TaskView::PickFolder);
    let i = match p.remove_external {
        Some(s) => seq![TaskView::RemoveExternal(s)],
        None => seq![],
    };
    let j = match p.switch_profile {
        Some(s) => seq![TaskView::SwitchProfile(s)],
        None => seq![],
    };
    let m = only_if(p.rebuild_engine, TaskView::RebuildEngine);
    let n = seq![TaskView::ReregisterIfNeeded];
    lemma_made_of(a, b, c, d, e, f, g, h, i, j, m, n, plan(p));
    lemma_made_of_wishes(p, a, b, c, d, e, f, g, h, i, j, m, n, plan(p), k);
}

} // verus!

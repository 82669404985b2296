//! Laws of what is done: it comes to an end, the hotkeys always follow the state,
//! the settings are always kept, the active profile is the loaded one, and folders are
//! neither doubled nor lost.

use crate::app::{after_capture, bindings, start_work, started, AppView, KeyEvent};
use crate::config::{
    entry_names, insert_then_lookup, lookup, remove_then_lookup, Settings, Volume,
};
use crate::hotkeys::HkAction;
use crate::profile::{all_profiles_are_listed, free_name, free_name_is_free, place_of};
use crate::text::trimmed;
use crate::ui::{changed_settings, Offered, SettingsEventView};
use crate::work::{
    facts_fit, known_folder, no_wishes, only_if, outcome, plan, replied, reply_outcome, rescan, stepped,
    wishes, ActionView, FactsView, PendingView, ReplyView, TaskView, WorkView,
};
use std::path::PathBuf;
use vstd::prelude::*;

verus! {

// ---------------------------------------------------------------------------
// The work comes to an end
// ---------------------------------------------------------------------------

/// Whether doing the task means to ask the program around this library.
pub open spec fn is_question(a: AppView, task: TaskView) -> bool {
    match task {
        TaskView::PickFolder => true,
        TaskView::EnsureFolder(_) => true,
        TaskView::CreateProfile(_) => true,
        TaskView::ListProfiles => true,
        TaskView::LoadProfile(_) => true,
        TaskView::CheckSignature => a.profile is Some,
        TaskView::ReloadProfile => a.profile is Some,
        _ => false,
    }
}

/// How many steps and answers a task takes at most, with all that follows from it.
pub open spec fn weight(task: TaskView) -> nat {
    match task {
        TaskView::CheckSignature => 3,
        TaskView::SwitchProfile(_) => 4,
        TaskView::LeaveProfile(_) => 5,
        TaskView::AddFolder(_) => 7,
        TaskView::CreateProfile(_) => 7,
        TaskView::RemoveExternal(_) => 7,
        TaskView::PickFolder => 8,
        TaskView::EnsureFolder(_) => 9,
        TaskView::NewProfile(_) => 10,
        _ => 1,
    }
}

/// How many steps and answers the tasks take at most.
pub open spec fn total_weight(tasks: Seq<TaskView>) -> nat
    decreases tasks.len(),
{
    if tasks.len() == 0 {
        0
    } else {
        weight(tasks[0]) + total_weight(tasks.drop_first())
    }
}

proof fn lemma_weight_sum(a: Seq<TaskView>, b: Seq<TaskView>)
    ensures
        total_weight(a + b) == total_weight(a) + total_weight(b),
    decreases a.len(),
{
    if a.len() == 0 {
        assert(a + b =~= b);
    } else {
        assert((a + b).drop_first() =~= a.drop_first() + b);
        lemma_weight_sum(a.drop_first(), b);
    }
}

proof fn lemma_small_weights(a: TaskView, b: TaskView, c: TaskView)
    ensures
        total_weight(seq![]) == 0,
        total_weight(seq![a]) == weight(a),
        total_weight(seq![a, b]) == weight(a) + weight(b),
        total_weight(seq![a, b, c]) == weight(a) + weight(b) + weight(c),
{
    reveal_with_fuel(total_weight, 4);
    assert(seq![a].drop_first() =~= Seq::<TaskView>::empty());
    assert(seq![a, b].drop_first() =~= seq![b]);
    assert(seq![b].drop_first() =~= Seq::<TaskView>::empty());
    assert(seq![a, b, c].drop_first() =~= seq![b, c]);
    assert(seq![b, c].drop_first() =~= seq![c]);
    assert(seq![c].drop_first() =~= Seq::<TaskView>::empty());
}

/// A step either asks a question, and then changes nothing, or brings the end
/// closer.
pub proof fn steps_come_to_an_end(a: AppView, w: WorkView, f: FactsView)
    requires
        w.tasks.len() > 0,
    ensures
        is_question(a, w.tasks[0]) ==> {
            &&& stepped(a, w, f).0 == a
            &&& stepped(a, w, f).1 == w
            &&& !(stepped(a, w, f).2 is Nothing) && !(stepped(a, w, f).2 is Done)
        },
        !is_question(a, w.tasks[0]) ==> total_weight(stepped(a, w, f).1.tasks) < total_weight(
            w.tasks,
        ),
{
    let rest = w.tasks.drop_first();
    let o = outcome(a, w.need_reregister, w.tasks[0], f);
    lemma_weight_sum(o.next, rest);
    if is_question(a, w.tasks[0]) {
        assert(o.next + rest =~= w.tasks);
    } else {
        match w.tasks[0] {
            TaskView::NewProfile(input) => {
                let name = trimmed(input);
                let e = TaskView::EnsureFolder(crate::paths::path_from(name));
                let c = TaskView::CreateProfile(name);
                lemma_small_weights(e, e, e);
                lemma_small_weights(c, c, c);
            },
            TaskView::RemoveExternal(name) => {
                lemma_small_weights(
                    TaskView::ListProfiles,
                    TaskView::LeaveProfile(name),
                    TaskView::ListProfiles,
                );
            },
            TaskView::LeaveProfile(name) => {
                let s = TaskView::SwitchProfile(a.profiles[0]);
                lemma_small_weights(s, s, s);
            },
            TaskView::SwitchProfile(name) => {
                lemma_small_weights(
                    TaskView::LoadProfile(name),
                    TaskView::SaveConfig,
                    TaskView::Reregister,
                );
            },
            TaskView::AddFolder(dir) => {
                match known_folder(a.config.external_profiles, f.same) {
                    Some(name) => {
                        let s = TaskView::SwitchProfile(name);
                        lemma_small_weights(s, s, s);
                    },
                    None => {
                        lemma_small_weights(
                            TaskView::SaveConfig,
                            TaskView::ListProfiles,
                            TaskView::SwitchProfile(free_name(f.base, a.profiles)),
                        );
                    },
                }
            },
            _ => {
                assert(o.next =~= Seq::<TaskView>::empty());
            },
        }
    }
}

/// Every answer to a question brings the end closer.
pub proof fn answers_come_to_an_end(a: AppView, w: WorkView, reply: ReplyView)
    requires
        w.tasks.len() > 0,
        reply_outcome(a, w.tasks[0], reply) is Some,
    ensures
        total_weight(replied(a, w, reply).1.tasks) < total_weight(w.tasks),
{
    let rest = w.tasks.drop_first();
    let (app, next) = reply_outcome(a, w.tasks[0], reply)->0;
    lemma_weight_sum(next, rest);
    match w.tasks[0] {
        TaskView::EnsureFolder(path) => {
            lemma_small_weights(
                TaskView::AddFolder(path),
                TaskView::ClearNewName,
                TaskView::ClearNewName,
            );
        },
        TaskView::CreateProfile(name) => {
            lemma_small_weights(
                TaskView::ListProfiles,
                TaskView::SwitchProfile(name),
                TaskView::ClearNewName,
            );
        },
        TaskView::PickFolder => {
            if let ReplyView::Picked(Some(dir)) = reply {
                let t = TaskView::AddFolder(dir);
                lemma_small_weights(t, t, t);
            }
        },
        TaskView::CheckSignature => {
            lemma_small_weights(
                TaskView::ReloadProfile,
                TaskView::Reregister,
                TaskView::Reregister,
            );
        },
        _ => {},
    }
}

/// For every question there is an answer.
pub proof fn questions_can_be_answered(a: AppView, task: TaskView)
    requires
        is_question(a, task),
    ensures
        exists|reply: ReplyView| #[trigger] reply_outcome(a, task, reply) is Some,
{
    match task {
        TaskView::PickFolder => {
            assert(reply_outcome(a, task, ReplyView::Picked(None)) is Some);
        },
        TaskView::EnsureFolder(_) => {
            assert(reply_outcome(a, task, ReplyView::Folder(true)) is Some);
        },
        TaskView::CreateProfile(_) => {
            assert(reply_outcome(a, task, ReplyView::Created(true)) is Some);
        },
        TaskView::ListProfiles => {
            assert(reply_outcome(a, task, ReplyView::Listed(seq![])) is Some);
        },
        TaskView::LoadProfile(_) => {
            let p = crate::profile::ProfileView {
                name: seq![],
                dir: crate::paths::path_from(seq![]),
                sounds: seq![],
            };
            assert(reply_outcome(a, task, ReplyView::Loaded(p, seq![])) is Some);
        },
        TaskView::CheckSignature => {
            assert(reply_outcome(a, task, ReplyView::Signature(seq![])) is Some);
        },
        TaskView::ReloadProfile => {
            assert(reply_outcome(a, task, ReplyView::Reloaded(a.profile->0)) is Some);
        },
        _ => {},
    }
}

// ---------------------------------------------------------------------------
// The hotkeys follow the state
// ---------------------------------------------------------------------------

/// Whether the hotkeys will be registered anew in any case.
pub open spec fn will_reregister(tasks: Seq<TaskView>) -> bool {
    exists|i: int| 0 <= i < tasks.len() && (#[trigger] tasks[i]) is Reregister
}

/// Whether it will be looked whether the hotkeys have to be registered anew.
pub open spec fn will_check(tasks: Seq<TaskView>) -> bool {
    exists|i: int| 0 <= i < tasks.len() && (#[trigger] tasks[i]) is ReregisterIfNeeded
}

/// Tasks that put another profile in use.
pub open spec fn changes_profile(task: TaskView) -> bool {
    task is LoadProfile || task is ReloadProfile
}

/// Tasks that may make it necessary to register the hotkeys anew.
pub open spec fn may_need_reregister(task: TaskView) -> bool {
    task is SetVolume || task is ClearHotkey || task is ClearStop || task is LeaveProfile
        || task is RemoveExternal
}

/// Whether every task that changes the hotkeys is followed by one that registers
/// them.
pub open spec fn followed_up(tasks: Seq<TaskView>) -> bool
    decreases tasks.len(),
{
    tasks.len() > 0 ==> {
        let rest = tasks.drop_first();
        &&& changes_profile(tasks[0]) ==> will_reregister(rest)
        &&& may_need_reregister(tasks[0]) ==> will_check(rest)
        &&& followed_up(rest)
    }
}

/// The registered hotkeys are those of the state, or will be registered anew.
pub open spec fn hotkeys_in_step(
    a: AppView,
    w: WorkView,
    registered: Seq<(Seq<char>, HkAction)>,
) -> bool {
    &&& followed_up(w.tasks)
    &&& bindings(a) == registered || will_reregister(w.tasks) || (w.need_reregister && will_check(
        w.tasks,
    ))
}

proof fn lemma_front(t: TaskView, tasks: Seq<TaskView>)
    ensures
        will_reregister(seq![t] + tasks) == (t is Reregister || will_reregister(tasks)),
        will_check(seq![t] + tasks) == (t is ReregisterIfNeeded || will_check(tasks)),
        followed_up(seq![t] + tasks) == ((changes_profile(t) ==> will_reregister(tasks)) && (
        may_need_reregister(t) ==> will_check(tasks)) && followed_up(tasks)),
        will_save(seq![t] + tasks) == (saves(t) || will_save(tasks)),
{
    let all = seq![t] + tasks;
    assert(all.drop_first() =~= tasks);
    assert(all[0] == t);
    assert forall|i: int| 0 <= i < tasks.len() implies #[trigger] tasks[i] == all[i + 1] by {}
    assert forall|i: int| 1 <= i < all.len() implies #[trigger] all[i] == tasks[i - 1] by {}
    if will_reregister(tasks) {
        let i = choose|i: int| 0 <= i < tasks.len() && (#[trigger] tasks[i]) is Reregister;
        assert(all[i + 1] is Reregister);
    }
    if will_check(tasks) {
        let i = choose|i: int| 0 <= i < tasks.len() && (#[trigger] tasks[i]) is ReregisterIfNeeded;
        assert(all[i + 1] is ReregisterIfNeeded);
    }
    if will_save(tasks) {
        let i = choose|i: int| 0 <= i < tasks.len() && saves(#[trigger] tasks[i]);
        assert(saves(all[i + 1]));
    }
    if will_reregister(all) && !(t is Reregister) {
        let i = choose|i: int| 0 <= i < all.len() && (#[trigger] all[i]) is Reregister;
        assert(tasks[i - 1] is Reregister);
    }
    if will_check(all) && !(t is ReregisterIfNeeded) {
        let i = choose|i: int| 0 <= i < all.len() && (#[trigger] all[i]) is ReregisterIfNeeded;
        assert(tasks[i - 1] is ReregisterIfNeeded);
    }
    if will_save(all) && !saves(t) {
        let i = choose|i: int| 0 <= i < all.len() && saves(#[trigger] all[i]);
        assert(saves(tasks[i - 1]));
    }
}

/// What `lemma_front` says of up to three tasks in front.
proof fn lemma_fronts(next: Seq<TaskView>, rest: Seq<TaskView>)
    requires
        next.len() <= 3,
    ensures
        next.len() == 0 ==> next + rest == rest,
        next.len() >= 1 ==> next + rest == seq![next[0]] + (next.drop_first() + rest),
        next.len() == 1 ==> next.drop_first() + rest == rest,
        next.len() == 2 ==> next.drop_first() + rest == seq![next[1]] + rest,
        next.len() == 3 ==> next.drop_first() + rest == seq![next[1]] + (seq![next[2]] + rest),
{
    if next.len() == 0 {
        assert(next + rest =~= rest);
    }
    if next.len() >= 1 {
        assert(next + rest =~= seq![next[0]] + (next.drop_first() + rest));
    }
    if next.len() == 1 {
        assert(next.drop_first() + rest =~= rest);
    }
    if next.len() == 2 {
        assert(next.drop_first() + rest =~= seq![next[1]] + rest);
    }
    if next.len() == 3 {
        assert(next.drop_first() + rest =~= seq![next[1]] + (seq![next[2]] + rest));
    }
}

/// What the tasks in front and the others together will do.
proof fn lemma_next_and_rest(next: Seq<TaskView>, rest: Seq<TaskView>)
    requires
        next.len() <= 3,
    ensures
        ({
            let reregister = |k: int| k < next.len() && next[k] is Reregister;
            let check = |k: int| k < next.len() && next[k] is ReregisterIfNeeded;
            let save = |k: int| k < next.len() && saves(next[k]);
            let all = next + rest;
            &&& will_reregister(all) == (reregister(0) || reregister(1) || reregister(2)
                || will_reregister(rest))
            &&& will_check(all) == (check(0) || check(1) || check(2) || will_check(rest))
            &&& will_save(all) == (save(0) || save(1) || save(2) || will_save(rest))
            &&& followed_up(all) == {
                &&& 0 < next.len() && changes_profile(next[0]) ==> reregister(1) || reregister(2)
                    || will_reregister(rest)
                &&& 1 < next.len() && changes_profile(next[1]) ==> reregister(2)
                    || will_reregister(rest)
                &&& 2 < next.len() && changes_profile(next[2]) ==> will_reregister(rest)
                &&& 0 < next.len() && may_need_reregister(next[0]) ==> check(1) || check(2)
                    || will_check(rest)
                &&& 1 < next.len() && may_need_reregister(next[1]) ==> check(2) || will_check(
                    rest,
                )
                &&& 2 < next.len() && may_need_reregister(next[2]) ==> will_check(rest)
                &&& followed_up(rest)
            }
        }),
{
    lemma_fronts(next, rest);
    if next.len() == 1 {
        lemma_front(next[0], rest);
    } else if next.len() == 2 {
        lemma_front(next[1], rest);
        lemma_front(next[0], seq![next[1]] + rest);
    } else if next.len() == 3 {
        lemma_front(next[2], rest);
        lemma_front(next[1], seq![next[2]] + rest);
        lemma_front(next[0], seq![next[1]] + (seq![next[2]] + rest));
    }
}

proof fn lemma_tasks_front(w: WorkView)
    requires
        w.tasks.len() > 0,
    ensures
        w.tasks == seq![w.tasks[0]] + w.tasks.drop_first(),
{
    assert(w.tasks =~= seq![w.tasks[0]] + w.tasks.drop_first());
}

/// A step keeps the hotkeys in step with the state.
pub proof fn step_keeps_hotkeys_in_step(
    a: AppView,
    w: WorkView,
    f: FactsView,
    registered: Seq<(Seq<char>, HkAction)>,
)
    requires
        hotkeys_in_step(a, w, registered),
    ensures
        ({
            let (app, work, action) = stepped(a, w, f);
            hotkeys_in_step(
                app,
                work,
                if action is Reregister {
                    bindings(app)
                } else {
                    registered
                },
            )
        }),
{
    if w.tasks.len() > 0 {
        let rest = w.tasks.drop_first();
        let o = outcome(a, w.need_reregister, w.tasks[0], f);
        lemma_tasks_front(w);
        lemma_front(w.tasks[0], rest);
        lemma_next_and_rest(o.next, rest);
    }
}

/// An answer keeps the hotkeys in step with the state.
pub proof fn answer_keeps_hotkeys_in_step(
    a: AppView,
    w: WorkView,
    reply: ReplyView,
    registered: Seq<(Seq<char>, HkAction)>,
)
    requires
        hotkeys_in_step(a, w, registered),
    ensures
        hotkeys_in_step(replied(a, w, reply).0, replied(a, w, reply).1, registered),
{
    if w.tasks.len() > 0 && reply_outcome(a, w.tasks[0], reply) is Some {
        let rest = w.tasks.drop_first();
        let (app, next) = reply_outcome(a, w.tasks[0], reply)->0;
        lemma_tasks_front(w);
        lemma_front(w.tasks[0], rest);
        lemma_next_and_rest(next, rest);
    }
}

/// When all is done, the registered hotkeys are those of the state.
pub proof fn done_work_leaves_hotkeys_registered(
    a: AppView,
    w: WorkView,
    registered: Seq<(Seq<char>, HkAction)>,
)
    requires
        hotkeys_in_step(a, w, registered),
        w.tasks.len() == 0,
    ensures
        registered == bindings(a),
{
}

proof fn lemma_check_at_the_end(tasks: Seq<TaskView>)
    requires
        forall|i: int| 0 <= i < tasks.len() ==> !changes_profile(#[trigger] tasks[i]),
    ensures
        followed_up(tasks + seq![TaskView::ReregisterIfNeeded]),
        will_check(tasks + seq![TaskView::ReregisterIfNeeded]),
    decreases tasks.len(),
{
    let end = seq![TaskView::ReregisterIfNeeded];
    if tasks.len() == 0 {
        assert(tasks + end =~= seq![TaskView::ReregisterIfNeeded] + Seq::<TaskView>::empty());
        lemma_front(TaskView::ReregisterIfNeeded, Seq::empty());
    } else {
        let rest = tasks.drop_first();
        assert forall|i: int| 0 <= i < rest.len() implies !changes_profile(#[trigger] rest[i]) by {
            assert(rest[i] == tasks[i + 1]);
        }
        lemma_check_at_the_end(rest);
        assert(tasks + end =~= seq![tasks[0]] + (rest + end));
        lemma_front(tasks[0], rest + end);
    }
}

/// What the user asks for in a frame starts with the hotkeys in step.
pub proof fn frames_start_in_step(a: AppView, p: PendingView)
    ensures
        hotkeys_in_step(
            a,
            WorkView { tasks: plan(p), need_reregister: p.reregister },
            bindings(a),
        ),
{
    lemma_wishes_keep_profile(p);
    lemma_check_at_the_end(wishes(p));
}

/// Whether none of the tasks puts another profile in use by itself.
spec fn keeps_profile(tasks: Seq<TaskView>) -> bool {
    forall|i: int| 0 <= i < tasks.len() ==> !changes_profile(#[trigger] tasks[i])
}

proof fn lemma_both_keep_profile(a: Seq<TaskView>, b: Seq<TaskView>)
    requires
        keeps_profile(a),
        keeps_profile(b),
    ensures
        keeps_profile(a + b),
{
}

proof fn lemma_wishes_keep_profile(p: PendingView)
    ensures
        keeps_profile(wishes(p)),
{
    let a = p.set_volume.map_values(|e: (usize, Volume)| TaskView::SetVolume(e.0, e.1));
    let b = p.clear_hotkey.map_values(|i: usize| TaskView::ClearHotkey(i));
    let c = only_if(p.clear_stop, TaskView::ClearStop);
    let d = p.play.map_values(|i: usize| TaskView::Play(i));
    let e = only_if(p.open_folder, TaskView::OpenFolder);
    let f = match p.capture {
        Some(t) => seq![TaskView::Capture(t)],
        None => seq![],
    };
    let g = match p.new_profile {
        Some(s) => seq![TaskView::NewProfile(s)],
        None => seq![],
    };
    let h = only_if(p.pick_folder, TaskView::PickFolder);
    let i = match p.remove_external {
        Some(s) => seq![TaskView::RemoveExternal(s)],
        None => seq![],
    };
    let j = match p.switch_profile {
        Some(s) => seq![TaskView::SwitchProfile(s)],
        None => seq![],
    };
    let k = only_if(p.rebuild_engine, TaskView::RebuildEngine);
    lemma_both_keep_profile(a, b);
    lemma_both_keep_profile(a + b, c);
    lemma_both_keep_profile(a + b + c, d);
    lemma_both_keep_profile(a + b + c + d, e);
    lemma_both_keep_profile(a + b + c + d + e, f);
    lemma_both_keep_profile(a + b + c + d + e + f, g);
    lemma_both_keep_profile(a + b + c + d + e + f + g, h);
    lemma_both_keep_profile(a + b + c + d + e + f + g + h, i);
    lemma_both_keep_profile(a + b + c + d + e + f + g + h + i, j);
    lemma_both_keep_profile(a + b + c + d + e + f + g + h + i + j, k);
}

/// A look at the folder starts with the hotkeys in step.
pub proof fn rescans_start_in_step(a: AppView, now: u64)
    ensures
        hotkeys_in_step(rescan(a, now).0, rescan(a, now).1, bindings(a)),
{
    let w = rescan(a, now).1;
    if w.tasks.len() > 0 {
        assert(w.tasks =~= seq![TaskView::CheckSignature] + Seq::<TaskView>::empty());
        lemma_front(TaskView::CheckSignature, Seq::empty());
    }
}

/// The program starts with no hotkeys registered, and with all of them to be.
pub proof fn programs_start_in_step(
    config: Settings,
    out_devices: Seq<Seq<char>>,
    in_devices: Seq<Seq<char>>,
    listed: Seq<Seq<char>>,
    now: u64,
)
    ensures
        ({
            let a = started(config, out_devices, in_devices, listed, now);
            let w = start_work(a.config.active_profile);
            hotkeys_in_step(a, w, seq![]) && will_save(w.tasks)
        }),
{
    let a = started(config, out_devices, in_devices, listed, now);
    let w = start_work(a.config.active_profile);
    let none = Seq::<TaskView>::empty();
    let tail = seq![TaskView::StartAudio, TaskView::SaveConfig, TaskView::Reregister];
    lemma_next_and_rest(tail, none);
    assert(tail + none =~= tail);
    match a.config.active_profile {
        Some(name) => {
            assert(w.tasks =~= seq![TaskView::LoadProfile(name)] + tail);
            lemma_front(TaskView::LoadProfile(name), tail);
        },
        None => {
            assert(w.tasks =~= tail);
        },
    }
}

// ---------------------------------------------------------------------------
// The settings are kept
// ---------------------------------------------------------------------------

/// Tasks that lead to the settings being kept.
pub open spec fn saves(task: TaskView) -> bool {
    task is SaveConfig || task is SwitchProfile || task is LeaveProfile
}

/// Whether the settings will be kept.
pub open spec fn will_save(tasks: Seq<TaskView>) -> bool {
    exists|i: int| 0 <= i < tasks.len() && saves(#[trigger] tasks[i])
}

/// The settings are kept, or will be.
pub open spec fn settings_kept(a: AppView, w: WorkView, on_disk: Settings) -> bool {
    a.config == on_disk || will_save(w.tasks)
}

/// A step that changes the settings keeps them, or leaves that to be done.
pub proof fn step_keeps_settings(a: AppView, w: WorkView, f: FactsView, on_disk: Settings)
    requires
        settings_kept(a, w, on_disk),
    ensures
        ({
            let (app, work, action) = stepped(a, w, f);
            settings_kept(
                app,
                work,
                if action is SaveConfig {
                    app.config
                } else {
                    on_disk
                },
            )
        }),
{
    if w.tasks.len() > 0 {
        let rest = w.tasks.drop_first();
        let o = outcome(a, w.need_reregister, w.tasks[0], f);
        lemma_tasks_front(w);
        lemma_front(w.tasks[0], rest);
        lemma_next_and_rest(o.next, rest);
    }
}

/// An answer changes no settings, and forgets none that are to be kept.
pub proof fn answer_keeps_settings(a: AppView, w: WorkView, reply: ReplyView, on_disk: Settings)
    requires
        settings_kept(a, w, on_disk),
    ensures
        replied(a, w, reply).0.config == a.config,
        settings_kept(replied(a, w, reply).0, replied(a, w, reply).1, on_disk),
{
    if w.tasks.len() > 0 && reply_outcome(a, w.tasks[0], reply) is Some {
        let rest = w.tasks.drop_first();
        let (app, next) = reply_outcome(a, w.tasks[0], reply)->0;
        lemma_tasks_front(w);
        lemma_front(w.tasks[0], rest);
        lemma_next_and_rest(next, rest);
    }
}

/// When all is done, the settings are kept.
pub proof fn done_work_leaves_settings_kept(a: AppView, w: WorkView, on_disk: Settings)
    requires
        settings_kept(a, w, on_disk),
        w.tasks.len() == 0,
    ensures
        on_disk == a.config,
{
}

/// Whenever a step changes the shortcuts or volumes of the profile in use, they are
/// kept at once; the only other change that a step makes is to use no profile.
pub proof fn changed_sounds_are_kept(a: AppView, w: WorkView, f: FactsView)
    ensures
        ({
            let (app, _, action) = stepped(a, w, f);
            app.profile != a.profile ==> action is SaveBindings || app.profile is None
        }),
{
}

// ---------------------------------------------------------------------------
// Folders
// ---------------------------------------------------------------------------

proof fn lemma_known_folder(external: Seq<(Seq<char>, PathBuf)>, same: Seq<bool>, i: int)
    requires
        external.len() == same.len(),
        0 <= i < same.len(),
        same[i],
    ensures
        known_folder(external, same) matches Some(name) && entry_names(external).contains(name),
    decreases i,
{
    if same[0] {
        assert(entry_names(external)[0] == external[0].0);
    } else {
        let e = external.drop_first();
        let s = same.drop_first();
        assert(s[i - 1] == same[i]);
        lemma_known_folder(e, s, i - 1);
        let name = known_folder(e, s)->0;
        let k = choose|k: int| 0 <= k < entry_names(e).len() && entry_names(e)[k] == name;
        assert(entry_names(external)[k + 1] == name);
    }
}

/// Adding a folder that is listed already lists nothing new: the program just
/// switches to it.
pub proof fn listed_folder_is_not_added_again(
    a: AppView,
    w: WorkView,
    f: FactsView,
    dir: PathBuf,
    i: int,
)
    requires
        w.tasks.len() > 0,
        w.tasks[0] == TaskView::AddFolder(dir),
        facts_fit(a, w, f),
        0 <= i < a.config.external_profiles.len(),
        a.config.external_profiles[i].1 == dir,
    ensures
        stepped(a, w, f).0 == a,
        stepped(a, w, f).1.tasks[0] matches TaskView::SwitchProfile(name) && entry_names(
            a.config.external_profiles,
        ).contains(name),
{
    assert(f.same[i]);
    lemma_known_folder(a.config.external_profiles, f.same, i);
}

/// Adding a folder that is not listed lists it under a name that was free, and
/// leaves all other names listed for what they were. The program then switches to
/// it.
pub proof fn new_folder_is_listed(
    a: AppView,
    w: WorkView,
    f: FactsView,
    dir: PathBuf,
    other: Seq<char>,
)
    requires
        w.tasks.len() > 0,
        w.tasks[0] == TaskView::AddFolder(dir),
        known_folder(a.config.external_profiles, f.same) is None,
    ensures
        ({
            let name = free_name(f.base, a.profiles);
            let external = stepped(a, w, f).0.config.external_profiles;
            &&& !a.profiles.contains(name)
            &&& lookup(external, name) == Some(dir)
            &&& other != name ==> lookup(external, other) == lookup(
                a.config.external_profiles,
                other,
            )
            &&& stepped(a, w, f).1.tasks[2] == TaskView::SwitchProfile(name)
        }),
{
    let name = free_name(f.base, a.profiles);
    free_name_is_free(f.base, a.profiles);
    insert_then_lookup(a.config.external_profiles, name, dir, other);
}

/// Taking a folder off the list forgets that folder, and no other.
pub proof fn removed_folder_is_forgotten(
    a: AppView,
    w: WorkView,
    f: FactsView,
    name: Seq<char>,
    other: Seq<char>,
)
    requires
        w.tasks.len() > 0,
        w.tasks[0] == TaskView::RemoveExternal(name),
    ensures
        ({
            let external = stepped(a, w, f).0.config.external_profiles;
            &&& lookup(external, name) is None
            &&& other != name ==> lookup(external, other) == lookup(
                a.config.external_profiles,
                other,
            )
        }),
{
    remove_then_lookup(a.config.external_profiles, name, other);
}

/// A typed name that is no absolute path makes a profile only if it is the name of
/// a single folder: with a slash or a backslash in it nothing happens.
pub proof fn names_with_slashes_are_refused(
    a: AppView,
    w: WorkView,
    f: FactsView,
    input: Seq<char>,
)
    requires
        w.tasks.len() > 0,
        w.tasks[0] == TaskView::NewProfile(input),
        !f.absolute,
        trimmed(input).contains('/') || trimmed(input).contains('\\'),
    ensures
        stepped(a, w, f).0 == a,
        stepped(a, w, f).1 == (WorkView { tasks: w.tasks.drop_first(), ..w }),
        stepped(a, w, f).2 is Nothing,
{
    assert(Seq::<TaskView>::empty() + w.tasks.drop_first() =~= w.tasks.drop_first());
}

/// A frame in which nothing was asked for changes nothing.
pub proof fn idle_frames_change_nothing(a: AppView, f: FactsView)
    ensures
        ({
            let w = WorkView { tasks: plan(no_wishes()), need_reregister: false };
            let (app, work, action) = stepped(a, w, f);
            app == a && work.tasks.len() == 0 && action is Nothing
        }),
{
    assert(plan(no_wishes()) =~= seq![TaskView::ReregisterIfNeeded]);
}

/// Switching to a profile loads it from its place, and says so in the settings.
pub proof fn switching_loads_the_profile(a: AppView, w: WorkView, f: FactsView, g: FactsView, name: Seq<char>)
    requires
        w.tasks.len() > 0,
        w.tasks[0] == TaskView::SwitchProfile(name),
    ensures
        ({
            let (b, v, _) = stepped(a, w, f);
            let (_, _, action) = stepped(b, v, g);
            &&& b.config.active_profile == Some(name)
            &&& action == ActionView::LoadProfile {
                name,
                dir: place_of(a.config.external_profiles, name),
            }
        }),
{
}

// ---------------------------------------------------------------------------
// The profile in use
// ---------------------------------------------------------------------------

/// Whether a profile is active exactly when one is loaded.
pub open spec fn active_is_loaded(a: AppView) -> bool {
    a.config.active_profile is Some <==> a.profile is Some
}

/// Whether the loaded profile, if there is one, is the active one.
pub open spec fn loaded_is_active(a: AppView) -> bool {
    a.profile matches Some(p) ==> a.config.active_profile == Some(p.name)
}

/// Whether a profile is only ever loaded at once, before all else, and is the active
/// one.
pub open spec fn loads_at_once(a: AppView, tasks: Seq<TaskView>) -> bool {
    forall|i: int|
        0 <= i < tasks.len() ==> ((#[trigger] tasks[i]) matches TaskView::LoadProfile(name) ==> i == 0
            && a.config.active_profile == Some(name))
}

/// Whether a profile is about to be loaded.
pub open spec fn is_loading(tasks: Seq<TaskView>) -> bool {
    tasks.len() > 0 && tasks[0] is LoadProfile
}

/// A profile is active exactly when one is loaded, or will be at once.
pub open spec fn profile_in_step(a: AppView, w: WorkView) -> bool {
    loads_at_once(a, w.tasks) && (active_is_loaded(a) || is_loading(w.tasks))
}

/// The loaded profile is the active one, or the active one will be loaded at once.
pub open spec fn names_in_step(a: AppView, w: WorkView) -> bool {
    loads_at_once(a, w.tasks) && (loaded_is_active(a) || is_loading(w.tasks))
}

/// Whether a reply with a profile holds the one that was asked for.
pub open spec fn is_what_was_asked(a: AppView, task: TaskView, reply: ReplyView) -> bool {
    match (task, reply) {
        (TaskView::LoadProfile(name), ReplyView::Loaded(p, _)) => p.name == name,
        (TaskView::ReloadProfile, ReplyView::Reloaded(p)) => a.profile is Some && p.name
            == a.profile->0.name,
        _ => true,
    }
}

proof fn lemma_loads_kept(
    a: AppView,
    b: AppView,
    task: TaskView,
    next: Seq<TaskView>,
    rest: Seq<TaskView>,
)
    requires
        loads_at_once(a, seq![task] + rest),
        forall|i: int|
            0 <= i < next.len() ==> ((#[trigger] next[i]) matches TaskView::LoadProfile(name) ==> i == 0
                && b.config.active_profile == Some(name)),
    ensures
        loads_at_once(b, next + rest),
{
    let before = seq![task] + rest;
    let after = next + rest;
    assert forall|i: int| 0 <= i < after.len() implies ((#[trigger] after[i]) matches TaskView::LoadProfile(
        name,
    ) ==> i == 0 && b.config.active_profile == Some(name)) by {
        if i < next.len() {
            assert(after[i] == next[i]);
        } else {
            assert(after[i] == before[i - next.len() + 1]);
        }
    }
}

/// A step keeps the loaded profile in step with the active one.
pub proof fn step_keeps_profile_in_step(a: AppView, w: WorkView, f: FactsView)
    ensures
        profile_in_step(a, w) ==> profile_in_step(stepped(a, w, f).0, stepped(a, w, f).1),
        names_in_step(a, w) ==> names_in_step(stepped(a, w, f).0, stepped(a, w, f).1),
{
    if w.tasks.len() > 0 && loads_at_once(a, w.tasks) {
        let rest = w.tasks.drop_first();
        let o = outcome(a, w.need_reregister, w.tasks[0], f);
        lemma_tasks_front(w);
        lemma_loads_kept(a, o.app, w.tasks[0], o.next, rest);
        if w.tasks[0] is SwitchProfile || w.tasks[0] is LoadProfile {
            assert((o.next + rest)[0] == o.next[0]);
        }
    }
}

/// An answer to a question keeps the loaded profile in step with the active one; the
/// names are in step if every profile that is handed over is the one that was asked
/// for.
pub proof fn answer_keeps_profile_in_step(a: AppView, w: WorkView, reply: ReplyView)
    requires
        w.tasks.len() > 0,
        is_question(a, w.tasks[0]),
    ensures
        profile_in_step(a, w) ==> profile_in_step(replied(a, w, reply).0, replied(a, w, reply).1),
        names_in_step(a, w) && is_what_was_asked(a, w.tasks[0], reply) ==> names_in_step(
            replied(a, w, reply).0,
            replied(a, w, reply).1,
        ),
{
    if reply_outcome(a, w.tasks[0], reply) is Some && loads_at_once(a, w.tasks) {
        let rest = w.tasks.drop_first();
        let (app, next) = reply_outcome(a, w.tasks[0], reply)->0;
        lemma_tasks_front(w);
        lemma_loads_kept(a, app, w.tasks[0], next, rest);
    }
}

/// The program starts with the profile in step.
pub proof fn programs_start_with_profile_in_step(
    config: Settings,
    out_devices: Seq<Seq<char>>,
    in_devices: Seq<Seq<char>>,
    listed: Seq<Seq<char>>,
    now: u64,
)
    ensures
        ({
            let a = started(config, out_devices, in_devices, listed, now);
            let w = start_work(a.config.active_profile);
            profile_in_step(a, w) && names_in_step(a, w)
        }),
{
}

/// What is begun after all was done, after a frame or for a look at the folder, starts
/// with the profile in step.
pub proof fn work_starts_with_profile_in_step(a: AppView, p: PendingView, now: u64)
    ensures
        active_is_loaded(a) ==> {
            &&& profile_in_step(a, WorkView { tasks: plan(p), need_reregister: p.reregister })
            &&& profile_in_step(rescan(a, now).0, rescan(a, now).1)
        },
        loaded_is_active(a) ==> {
            &&& names_in_step(a, WorkView { tasks: plan(p), need_reregister: p.reregister })
            &&& names_in_step(rescan(a, now).0, rescan(a, now).1)
        },
{
    lemma_wishes_keep_profile(p);
    assert forall|i: int| 0 <= i < plan(p).len() implies !changes_profile(#[trigger] plan(p)[i]) by {
        if i < wishes(p).len() {
            assert(plan(p)[i] == wishes(p)[i]);
        }
    }
}

/// When all is done, a profile is active exactly when one is loaded, and it is that
/// one.
pub proof fn done_work_leaves_the_active_profile_loaded(a: AppView, w: WorkView)
    requires
        profile_in_step(a, w),
        w.tasks.len() == 0,
    ensures
        a.config.active_profile is Some <==> a.profile is Some,
        names_in_step(a, w) && a.profile is Some ==> a.config.active_profile == Some(
            a.profile->0.name,
        ),
{
}

// ---------------------------------------------------------------------------
// Outside folders are listed
// ---------------------------------------------------------------------------

/// Whether the names of all outside folders are among those of the profiles.
pub open spec fn folders_listed(a: AppView) -> bool {
    forall|name: Seq<char>| #[trigger]
        entry_names(a.config.external_profiles).contains(name) ==> a.profiles.contains(name)
}

/// Whether the names of the profiles will be read.
pub open spec fn will_list(tasks: Seq<TaskView>) -> bool {
    exists|i: int| 0 <= i < tasks.len() && (#[trigger] tasks[i]) is ListProfiles
}

/// The outside folders are listed, or will be.
pub open spec fn list_in_step(a: AppView, w: WorkView) -> bool {
    folders_listed(a) || will_list(w.tasks)
}

/// The names that are to be read stay to be read when other tasks come in front.
proof fn lemma_list_kept(task: TaskView, next: Seq<TaskView>, rest: Seq<TaskView>)
    requires
        !(task is ListProfiles) && will_list(seq![task] + rest) || will_list(next),
    ensures
        will_list(next + rest),
{
    let after = next + rest;
    if will_list(next) {
        let i = choose|i: int| 0 <= i < next.len() && (#[trigger] next[i]) is ListProfiles;
        assert(after[i] is ListProfiles);
    } else {
        let before = seq![task] + rest;
        let i = choose|i: int| 0 <= i < before.len() && (#[trigger] before[i]) is ListProfiles;
        assert(after[i - 1 + next.len()] is ListProfiles);
    }
}

/// A step keeps the list of profiles in step with the outside folders.
pub proof fn step_keeps_list_in_step(a: AppView, w: WorkView, f: FactsView)
    requires
        list_in_step(a, w),
    ensures
        list_in_step(stepped(a, w, f).0, stepped(a, w, f).1),
{
    if w.tasks.len() > 0 {
        let task = w.tasks[0];
        let rest = w.tasks.drop_first();
        let o = outcome(a, w.need_reregister, task, f);
        lemma_tasks_front(w);
        if o.next.len() > 0 && o.next[0] is ListProfiles || o.next.len() > 1 && o.next[1] is ListProfiles {
            lemma_list_kept(task, o.next, rest);
        } else if will_list(w.tasks) {
            lemma_list_kept(task, o.next, rest);
        }
    }
}

/// An answer keeps the list of profiles in step with the outside folders.
pub proof fn answer_keeps_list_in_step(a: AppView, w: WorkView, reply: ReplyView)
    requires
        list_in_step(a, w),
    ensures
        list_in_step(replied(a, w, reply).0, replied(a, w, reply).1),
{
    if w.tasks.len() > 0 && reply_outcome(a, w.tasks[0], reply) is Some {
        let task = w.tasks[0];
        let rest = w.tasks.drop_first();
        let (app, next) = reply_outcome(a, task, reply)->0;
        lemma_tasks_front(w);
        if let ReplyView::Listed(names) = reply {
            all_profiles_are_listed(names, a.config.external_profiles);
        } else if will_list(w.tasks) {
            lemma_list_kept(task, next, rest);
        }
    }
}

/// The program starts with all outside folders listed.
pub proof fn programs_start_with_folders_listed(
    config: Settings,
    out_devices: Seq<Seq<char>>,
    in_devices: Seq<Seq<char>>,
    listed: Seq<Seq<char>>,
    now: u64,
)
    ensures
        folders_listed(started(config, out_devices, in_devices, listed, now)),
{
    all_profiles_are_listed(listed, config.external_profiles);
}

/// Captures and changed settings touch neither which profile is active and loaded nor
/// which folders are listed.
pub proof fn captures_and_settings_keep_profiles(
    a: AppView,
    events: Seq<KeyEvent>,
    o: Offered,
    e: SettingsEventView,
)
    ensures
        ({
            let b = after_capture(a, events);
            let c = AppView { config: changed_settings(a.config, o, e), ..a };
            &&& active_is_loaded(a) ==> active_is_loaded(b) && active_is_loaded(c)
            &&& loaded_is_active(a) ==> loaded_is_active(b) && loaded_is_active(c)
            &&& folders_listed(a) ==> folders_listed(b) && folders_listed(c)
        }),
{
}

/// When all is done, the name of every outside folder is among those of the profiles.
pub proof fn done_work_leaves_folders_listed(a: AppView, w: WorkView, name: Seq<char>)
    requires
        list_in_step(a, w),
        w.tasks.len() == 0,
        entry_names(a.config.external_profiles).contains(name),
    ensures
        a.profiles.contains(name),
{
}

// ---------------------------------------------------------------------------
// Folders that change
// ---------------------------------------------------------------------------

/// A folder whose files have changed is loaded again, and the hotkeys are
/// registered anew; one whose files have not is left alone.
pub proof fn changed_folder_is_loaded_again(a: AppView, w: WorkView, files: Seq<Seq<char>>)
    requires
        w.tasks.len() > 0,
        w.tasks[0] == TaskView::CheckSignature,
    ensures
        ({
            let (b, v) = replied(a, w, ReplyView::Signature(files));
            &&& b.last_signature == files
            &&& files != a.last_signature ==> v.tasks == seq![
                TaskView::ReloadProfile,
                TaskView::Reregister,
            ] + w.tasks.drop_first()
            &&& files == a.last_signature ==> b == a && v.tasks == w.tasks.drop_first()
        }),
{
    assert(Seq::<TaskView>::empty() + w.tasks.drop_first() =~= w.tasks.drop_first());
}

/// Looks at the folder are at least one and a half seconds apart.
pub proof fn looks_are_apart(a: AppView, first: u64, second: u64)
    requires
        rescan(a, first).1.tasks.len() > 0,
        first <= second,
        rescan(rescan(a, first).0, second).1.tasks.len() > 0,
    ensures
        second - first >= 1_500_000_000,
{
}

} // verus!

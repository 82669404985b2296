//! What is to be done.

use crate::app::{App, AppView, CaptureTarget};
use crate::config::{inserted, removed, Settings, Volume};
use crate::profile::{
    all_names, all_profiles, dir_for_config, free_name, place_of, unique_name, with_hotkey,
    with_volume, DirView, Profile, ProfileDir, ProfileView,
};
use crate::paths::{
    absolute_on, folder_name, is_absolute, listed_as, path_from, path_of_text, same_on, same_path,
};
use crate::text::{has_char, is_text, list_eq, opt_text, texts, trim, trimmed};
use std::collections::VecDeque;
use std::path::PathBuf;
use vstd::prelude::*;

verus! {

/// Something that is to be done.
pub enum Task {
    /// Make the sound at this place as loud.
    SetVolume(usize, Volume),
    /// Take the shortcut off the sound at this place.
    ClearHotkey(usize),
    /// Take the shortcut off the command that stops all sounds.
    ClearStop,
    /// Play the sound at this place.
    Play(usize),
    /// Show the folder of the profile.
    OpenFolder,
    /// Capture a shortcut.
    Capture(CaptureTarget),
    /// Make a profile from what was typed in: a name, or the path of a folder.
    NewProfile(String),
    /// Let the user pick a folder, and use it as a profile.
    PickFolder,
    /// Take the folder of this name off the list.
    RemoveExternal(String),
    /// Use the profile of this name.
    SwitchProfile(String),
    /// Set the audio chain up anew.
    RebuildEngine,
    /// Register the hotkeys anew if that has become necessary.
    ReregisterIfNeeded,
    /// Make sure that this folder is there, and use it as a profile.
    EnsureFolder(PathBuf),
    /// Use this folder as a profile.
    AddFolder(PathBuf),
    /// Make a folder of this name in the profiles directory, and use it.
    CreateProfile(String),
    /// Read the names of the profiles.
    ListProfiles,
    /// Load the profile of this name.
    LoadProfile(String),
    /// Go on after the folder of this name was taken off the list.
    LeaveProfile(String),
    /// Empty the field for the name of a new profile.
    ClearNewName,
    /// Look whether sounds have been added to the folder, or taken out.
    CheckSignature,
    /// Load the profile in use again.
    ReloadProfile,
    /// Start the audio.
    StartAudio,
    /// Keep the settings.
    SaveConfig,
    /// Register the hotkeys anew.
    Reregister,
}

/// The contents of a task.
pub enum TaskView {
    SetVolume(usize, Volume),
    ClearHotkey(usize),
    ClearStop,
    Play(usize),
    OpenFolder,
    Capture(CaptureTarget),
    NewProfile(Seq<char>),
    PickFolder,
    RemoveExternal(Seq<char>),
    SwitchProfile(Seq<char>),
    RebuildEngine,
    ReregisterIfNeeded,
    EnsureFolder(PathBuf),
    AddFolder(PathBuf),
    CreateProfile(Seq<char>),
    ListProfiles,
    LoadProfile(Seq<char>),
    LeaveProfile(Seq<char>),
    ClearNewName,
    CheckSignature,
    ReloadProfile,
    StartAudio,
    SaveConfig,
    Reregister,
}

impl View for Task {
    type V = TaskView;

    open spec fn view(&self) -> TaskView {
        match self {
            Task::SetVolume(i, v) => TaskView::SetVolume(*i, *v),
            Task::ClearHotkey(i) => TaskView::ClearHotkey(*i),
            Task::ClearStop => TaskView::ClearStop,
            Task::Play(i) => TaskView::Play(*i),
            Task::OpenFolder => TaskView::OpenFolder,
            Task::Capture(t) => TaskView::Capture(*t),
            Task::NewProfile(s) => TaskView::NewProfile(s@),
            Task::PickFolder => TaskView::PickFolder,
            Task::RemoveExternal(s) => TaskView::RemoveExternal(s@),
            Task::SwitchProfile(s) => TaskView::SwitchProfile(s@),
            Task::RebuildEngine => TaskView::RebuildEngine,
            Task::ReregisterIfNeeded => TaskView::ReregisterIfNeeded,
            Task::EnsureFolder(p) => TaskView::EnsureFolder(*p),
            Task::AddFolder(p) => TaskView::AddFolder(*p),
            Task::CreateProfile(s) => TaskView::CreateProfile(s@),
            Task::ListProfiles => TaskView::ListProfiles,
            Task::LoadProfile(s) => TaskView::LoadProfile(s@),
            Task::LeaveProfile(s) => TaskView::LeaveProfile(s@),
            Task::ClearNewName => TaskView::ClearNewName,
            Task::CheckSignature => TaskView::CheckSignature,
            Task::ReloadProfile => TaskView::ReloadProfile,
            Task::StartAudio => TaskView::StartAudio,
            Task::SaveConfig => TaskView::SaveConfig,
            Task::Reregister => TaskView::Reregister,
        }
    }
}

/// What the program around this library has to do.
#[derive(PartialEq, Eq, Debug)]
pub enum Action {
    /// Nothing; there is more to be done.
    Nothing,
    /// Nothing; all is done.
    Done,
    /// Keep the shortcuts and volumes of the profile in use.
    SaveBindings,
    /// Keep the settings.
    SaveConfig,
    /// Register the hotkeys anew.
    Reregister,
    /// Start the audio.
    StartAudio,
    /// Set the audio chain up anew.
    RebuildEngine,
    /// Play a sound.
    Play { path: PathBuf, volume: Volume },
    /// Show a folder.
    OpenFolder(PathBuf),
    /// Say whether the folder is there or could be made.
    EnsureFolder(PathBuf),
    /// Say whether the folder could be made in the profiles directory.
    CreateProfile(String),
    /// Name the folders in the profiles directory.
    ListProfiles,
    /// Load a profile and say which files it has.
    LoadProfile { name: String, dir: ProfileDir },
    /// Load a profile.
    ReloadProfile { name: String, folder: PathBuf },
    /// Say which files the folder has.
    ReadSignature(PathBuf),
    /// Ask the user for a folder.
    PickFolder,
}

/// The contents of an action.
pub enum ActionView {
    Nothing,
    Done,
    SaveBindings,
    SaveConfig,
    Reregister,
    StartAudio,
    RebuildEngine,
    Play { path: PathBuf, volume: Volume },
    OpenFolder(PathBuf),
    EnsureFolder(PathBuf),
    CreateProfile(Seq<char>),
    ListProfiles,
    LoadProfile { name: Seq<char>, dir: DirView },
    ReloadProfile { name: Seq<char>, folder: PathBuf },
    ReadSignature(PathBuf),
    PickFolder,
}

impl View for Action {
    type V = ActionView;

    open spec fn view(&self) -> ActionView {
        match self {
            Action::Nothing => ActionView::Nothing,
            Action::Done => ActionView::Done,
            Action::SaveBindings => ActionView::SaveBindings,
            Action::SaveConfig => ActionView::SaveConfig,
            Action::Reregister => ActionView::Reregister,
            Action::StartAudio => ActionView::StartAudio,
            Action::RebuildEngine => ActionView::RebuildEngine,
            Action::Play { path, volume } => ActionView::Play { path: *path, volume: *volume },
            Action::OpenFolder(p) => ActionView::OpenFolder(*p),
            Action::EnsureFolder(p) => ActionView::EnsureFolder(*p),
            Action::CreateProfile(s) => ActionView::CreateProfile(s@),
            Action::ListProfiles => ActionView::ListProfiles,
            Action::LoadProfile { name, dir } => ActionView::LoadProfile {
                name: name@,
                dir: dir@,
            },
            Action::ReloadProfile { name, folder } => ActionView::ReloadProfile {
                name: name@,
                folder: *folder,
            },
            Action::ReadSignature(p) => ActionView::ReadSignature(*p),
            Action::PickFolder => ActionView::PickFolder,
        }
    }
}

/// The contents of actions.
pub open spec fn action_views(actions: Seq<Action>) -> Seq<ActionView> {
    actions.map_values(|a: Action| a@)
}

/// The contents of tasks.
pub open spec fn task_views(tasks: Seq<Task>) -> Seq<TaskView> {
    tasks.map_values(|t: Task| t@)
}

/// What is to be done, in order.
pub struct Work {
    tasks: VecDeque<Task>,
    need_reregister: bool,
}

/// The contents of what is to be done.
#[verifier::ext_equal]
pub struct WorkView {
    pub tasks: Seq<TaskView>,
    pub need_reregister: bool,
}

impl View for Work {
    type V = WorkView;

    closed spec fn view(&self) -> WorkView {
        WorkView {
            tasks: task_views(self.tasks@),
            need_reregister: self.need_reregister,
        }
    }
}

impl Work {
    /// The tasks, in this order.
    pub fn of(tasks: Vec<Task>, need_reregister: bool) -> (r: Work)
        ensures
            r@.tasks == task_views(tasks@),
            r@.need_reregister == need_reregister,
    {
        let mut queue: VecDeque<Task> = VecDeque::new();
        let ghost all = tasks@;
        let mut rest = tasks;
        assert(rest@ =~= all.take(all.len() as int));
        while rest.len() > 0
            invariant
                rest@.len() <= all.len(),
                rest@ == all.take(rest@.len() as int),
                queue@ == all.skip(rest@.len() as int),
            decreases rest@.len(),
        {
            let ghost n = rest@.len() as int;
            match rest.pop() {
                Some(t) => {
                    queue.push_front(t);
                    assert(rest@ =~= all.take(n - 1));
                    assert(queue@ =~= all.skip(n - 1));
                },
                None => {},
            }
        }
        assert(queue@ =~= all);
        Work { tasks: queue, need_reregister }
    }
}

impl Work {
    /// Takes off the task that comes next.
    fn pop(&mut self) -> (r: Option<Task>)
        ensures
            match r {
                Some(t) => {
                    &&& old(self)@.tasks.len() > 0
                    &&& t@ == old(self)@.tasks[0]
                    &&& final(self)@.tasks == old(self)@.tasks.drop_first()
                },
                None => old(self)@.tasks.len() == 0 && final(self)@ == old(self)@,
            },
            final(self)@.need_reregister == old(self)@.need_reregister,
    {
        let r = self.tasks.pop_front();
        assert(r is Some ==> self@.tasks =~= old(self)@.tasks.drop_first());
        r
    }

    /// Puts tasks in front of those that are to be done.
    fn put_front(&mut self, next: Vec<Task>)
        ensures
            final(self)@.tasks == task_views(next@) + old(self)@.tasks,
            final(self)@.need_reregister == old(self)@.need_reregister,
    {
        let ghost before = self.tasks@;
        let ghost all = next@;
        let mut rest = next;
        assert(rest@ =~= all.take(all.len() as int));
        assert(self.tasks@ =~= all.skip(all.len() as int) + before);
        while rest.len() > 0
            invariant
                rest@.len() <= all.len(),
                rest@ == all.take(rest@.len() as int),
                self.tasks@ == all.skip(rest@.len() as int) + before,
                self.need_reregister == old(self).need_reregister,
            decreases rest@.len(),
        {
            let ghost n = rest@.len() as int;
            match rest.pop() {
                Some(t) => {
                    self.tasks.push_front(t);
                    assert(rest@ =~= all.take(n - 1));
                    assert(self.tasks@ =~= all.skip(n - 1) + before);
                },
                None => {},
            }
        }
        assert(self.tasks@ =~= all + before);
        assert(self@.tasks =~= task_views(all) + task_views(before));
    }

    /// Whether all is done.
    pub fn is_done(&self) -> (r: bool)
        ensures
            r == (self@.tasks.len() == 0),
    {
        self.tasks.len() == 0
    }
}

// ---------------------------------------------------------------------------
// What the user asked for in a frame
// ---------------------------------------------------------------------------

/// What the user asked for while a frame was drawn. It is done after the frame.
pub struct Pending {
    pub rebuild_engine: bool,
    pub switch_profile: Option<String>,
    pub new_profile: Option<String>,
    pub pick_folder: bool,
    pub remove_external: Option<String>,
    pub play: Vec<usize>,
    pub capture: Option<CaptureTarget>,
    pub clear_hotkey: Vec<usize>,
    pub clear_stop: bool,
    pub set_volume: Vec<(usize, Volume)>,
    pub open_folder: bool,
    pub reregister: bool,
}

/// The contents of what the user asked for.
#[verifier::ext_equal]
pub struct PendingView {
    pub rebuild_engine: bool,
    pub switch_profile: Option<Seq<char>>,
    pub new_profile: Option<Seq<char>>,
    pub pick_folder: bool,
    pub remove_external: Option<Seq<char>>,
    pub play: Seq<usize>,
    pub capture: Option<CaptureTarget>,
    pub clear_hotkey: Seq<usize>,
    pub clear_stop: bool,
    pub set_volume: Seq<(usize, Volume)>,
    pub open_folder: bool,
    pub reregister: bool,
}

impl View for Pending {
    type V = PendingView;

    open spec fn view(&self) -> PendingView {
        PendingView {
            rebuild_engine: self.rebuild_engine,
            switch_profile: opt_text(self.switch_profile),
            new_profile: opt_text(self.new_profile),
            pick_folder: self.pick_folder,
            remove_external: opt_text(self.remove_external),
            play: self.play@,
            capture: self.capture,
            clear_hotkey: self.clear_hotkey@,
            clear_stop: self.clear_stop,
            set_volume: self.set_volume@,
            open_folder: self.open_folder,
            reregister: self.reregister,
        }
    }
}

/// Nothing asked for.
pub open spec fn no_wishes() -> PendingView {
    PendingView {
        rebuild_engine: false,
        switch_profile: None,
        new_profile: None,
        pick_folder: false,
        remove_external: None,
        play: seq![],
        capture: None,
        clear_hotkey: seq![],
        clear_stop: false,
        set_volume: seq![],
        open_folder: false,
        reregister: false,
    }
}

/// One task, if it is wished for.
pub open spec fn only_if(wished: bool, task: TaskView) -> Seq<TaskView> {
    if wished {
        seq![task]
    } else {
        seq![]
    }
}

/// The tasks for what the user asked for, in order.
pub open spec fn wishes(p: PendingView) -> Seq<TaskView> {
    p.set_volume.map_values(|e: (usize, Volume)| TaskView::SetVolume(e.0, e.1))
        + p.clear_hotkey.map_values(|i: usize| TaskView::ClearHotkey(i)) + only_if(
        p.clear_stop,
        TaskView::ClearStop,
    ) + p.play.map_values(|i: usize| TaskView::Play(i)) + only_if(
        p.open_folder,
        TaskView::OpenFolder,
    ) + (match p.capture {
        Some(t) => seq![TaskView::Capture(t)],
        None => seq![],
    }) + (match p.new_profile {
        Some(s) => seq![TaskView::NewProfile(s)],
        None => seq![],
    }) + only_if(p.pick_folder, TaskView::PickFolder) + (match p.remove_external {
        Some(s) => seq![TaskView::RemoveExternal(s)],
        None => seq![],
    }) + (match p.switch_profile {
        Some(s) => seq![TaskView::SwitchProfile(s)],
        None => seq![],
    }) + only_if(p.rebuild_engine, TaskView::RebuildEngine)
}

/// What is to be done after a frame. Registering the hotkeys anew comes last.
pub open spec fn plan(p: PendingView) -> Seq<TaskView> {
    wishes(p) + seq![TaskView::ReregisterIfNeeded]
}

fn add_task(tasks: &mut Vec<Task>, task: Task)
    ensures
        task_views(final(tasks)@) == task_views(old(tasks)@) + seq![task@],
{
    tasks.push(task);
    assert(task_views(tasks@) =~= task_views(old(tasks)@) + seq![task@]);
}

impl Pending {
    /// Nothing asked for.
    pub fn new() -> (r: Self)
        ensures
            r@ == no_wishes(),
    {
        Pending {
            rebuild_engine: false,
            switch_profile: None,
            new_profile: None,
            pick_folder: false,
            remove_external: None,
            play: Vec::new(),
            capture: None,
            clear_hotkey: Vec::new(),
            clear_stop: false,
            set_volume: Vec::new(),
            open_folder: false,
            reregister: false,
        }
    }
}

/// What is to be done after a frame.
pub fn apply(pending: Pending) -> (r: Work)
    ensures
        r@ == (WorkView { tasks: plan(pending@), need_reregister: pending@.reregister }),
{
    let ghost p = pending@;
    let mut tasks: Vec<Task> = Vec::new();
    let mut i: usize = 0;
    let ghost volumes = p.set_volume.map_values(|e: (usize, Volume)| TaskView::SetVolume(e.0, e.1));
    assert(task_views(tasks@) =~= volumes.take(0));
    while i < pending.set_volume.len()
        invariant
            i <= pending.set_volume@.len(),
            volumes == pending.set_volume@.map_values(
                |e: (usize, Volume)| TaskView::SetVolume(e.0, e.1),
            ),
            task_views(tasks@) == volumes.take(i as int),
        decreases pending.set_volume@.len() - i,
    {
        let e = pending.set_volume[i];
        add_task(&mut tasks, Task::SetVolume(e.0, e.1));
        assert(volumes.take(i + 1) =~= volumes.take(i as int) + seq![volumes[i as int]]);
        i = i + 1;
    }
    assert(volumes.take(i as int) =~= volumes);

    let ghost done1 = task_views(tasks@);
    let ghost clears = p.clear_hotkey.map_values(|i: usize| TaskView::ClearHotkey(i));
    i = 0;
    assert(done1 =~= done1 + clears.take(0));
    while i < pending.clear_hotkey.len()
        invariant
            i <= pending.clear_hotkey@.len(),
            clears == pending.clear_hotkey@.map_values(|i: usize| TaskView::ClearHotkey(i)),
            task_views(tasks@) == done1 + clears.take(i as int),
        decreases pending.clear_hotkey@.len() - i,
    {
        add_task(&mut tasks, Task::ClearHotkey(pending.clear_hotkey[i]));
        assert(done1 + clears.take(i + 1) =~= done1 + clears.take(i as int) + seq![
            clears[i as int],
        ]);
        i = i + 1;
    }
    assert(clears.take(i as int) =~= clears);

    if pending.clear_stop {
        add_task(&mut tasks, Task::ClearStop);
    }
    let ghost done2 = task_views(tasks@);
    let ghost plays = p.play.map_values(|i: usize| TaskView::Play(i));
    i = 0;
    assert(done2 =~= done2 + plays.take(0));
    while i < pending.play.len()
        invariant
            i <= pending.play@.len(),
            plays == pending.play@.map_values(|i: usize| TaskView::Play(i)),
            task_views(tasks@) == done2 + plays.take(i as int),
        decreases pending.play@.len() - i,
    {
        add_task(&mut tasks, Task::Play(pending.play[i]));
        assert(done2 + plays.take(i + 1) =~= done2 + plays.take(i as int) + seq![
            plays[i as int],
        ]);
        i = i + 1;
    }
    assert(plays.take(i as int) =~= plays);

    if pending.open_folder {
        add_task(&mut tasks, Task::OpenFolder);
    }
    if let Some(t) = pending.capture {
        add_task(&mut tasks, Task::Capture(t));
    }
    if let Some(s) = pending.new_profile {
        add_task(&mut tasks, Task::NewProfile(s));
    }
    if pending.pick_folder {
        add_task(&mut tasks, Task::PickFolder);
    }
    if let Some(s) = pending.remove_external {
        add_task(&mut tasks, Task::RemoveExternal(s));
    }
    if let Some(s) = pending.switch_profile {
        add_task(&mut tasks, Task::SwitchProfile(s));
    }
    if pending.rebuild_engine {
        add_task(&mut tasks, Task::RebuildEngine);
    }
    assert(task_views(tasks@) =~= wishes(p));
    add_task(&mut tasks, Task::ReregisterIfNeeded);
    Work::of(tasks, pending.reregister)
}

// ---------------------------------------------------------------------------
// Doing a task
// ---------------------------------------------------------------------------

/// What the operating system says of the path that the next task is about.
pub struct PathFacts {
    /// Whether what was typed in is an absolute path.
    pub absolute: bool,
    /// Which of the listed folders is the same.
    pub same: Vec<bool>,
    /// What the folder is called.
    pub base: String,
}

/// The contents of path facts.
pub struct FactsView {
    pub absolute: bool,
    pub same: Seq<bool>,
    pub base: Seq<char>,
}

impl View for PathFacts {
    type V = FactsView;

    open spec fn view(&self) -> FactsView {
        FactsView { absolute: self.absolute, same: self.same@, base: self.base@ }
    }
}

/// The name of the first listed folder that is the same.
pub open spec fn known_folder(
    external: Seq<(Seq<char>, PathBuf)>,
    same: Seq<bool>,
) -> Option<Seq<char>>
    decreases external.len(),
{
    if external.len() == 0 || same.len() == 0 {
        None
    } else if same[0] {
        Some(external[0].0)
    } else {
        known_folder(external.drop_first(), same.drop_first())
    }
}

/// What comes of a task: the state, what is to be done next, before all else, and
/// what the program around this library has to do.
#[verifier::ext_equal]
pub struct Outcome {
    pub app: AppView,
    pub next: Seq<TaskView>,
    pub need_reregister: bool,
    pub action: ActionView,
}

/// What comes of a task.
pub open spec fn outcome(a: AppView, need: bool, task: TaskView, f: FactsView) -> Outcome {
    let idle = Outcome {
        app: a,
        next: seq![],
        need_reregister: need,
        action: ActionView::Nothing,
    };
    let saved = if a.profile is Some {
        ActionView::SaveBindings
    } else {
        ActionView::Nothing
    };
    match task {
        TaskView::SetVolume(i, v) => Outcome {
            app: AppView {
                profile: match a.profile {
                    Some(p) => Some(with_volume(p, i as int, v)),
                    None => None,
                },
                ..a
            },
            need_reregister: true,
            action: saved,
            ..idle
        },
        TaskView::ClearHotkey(i) => Outcome {
            app: AppView {
                profile: match a.profile {
                    Some(p) => Some(with_hotkey(p, i as int, None)),
                    None => None,
                },
                ..a
            },
            need_reregister: true,
            action: saved,
            ..idle
        },
        TaskView::ClearStop => Outcome {
            app: AppView { config: Settings { stop_hotkey: None, ..a.config }, ..a },
            need_reregister: true,
            action: ActionView::SaveConfig,
            ..idle
        },
        TaskView::Play(i) => if a.profile is Some && i < a.profile->0.sounds.len() {
            let s = a.profile->0.sounds[i as int];
            Outcome { action: ActionView::Play { path: s.path, volume: s.volume }, ..idle }
        } else {
            idle
        },
        TaskView::OpenFolder => match a.profile {
            Some(p) => Outcome { action: ActionView::OpenFolder(p.dir), ..idle },
            None => idle,
        },
        TaskView::Capture(t) => Outcome {
            app: AppView { capturing: Some(t), ..a },
            ..idle
        },
        TaskView::NewProfile(input) => {
            let name = trimmed(input);
            if name.len() == 0 {
                idle
            } else if f.absolute {
                Outcome { next: seq![TaskView::EnsureFolder(path_from(name))], ..idle }
            } else if !name.contains('/') && !name.contains('\\') {
                Outcome { next: seq![TaskView::CreateProfile(name)], ..idle }
            } else {
                idle
            }
        },
        TaskView::PickFolder => Outcome {
            next: seq![task],
            action: ActionView::PickFolder,
            ..idle
        },
        TaskView::RemoveExternal(name) => Outcome {
            app: AppView {
                config: Settings {
                    external_profiles: removed(a.config.external_profiles, name),
                    ..a.config
                },
                ..a
            },
            next: seq![TaskView::ListProfiles, TaskView::LeaveProfile(name)],
            ..idle
        },
        TaskView::LeaveProfile(name) => if a.config.active_profile != Some(name) {
            Outcome { action: ActionView::SaveConfig, ..idle }
        } else if a.profiles.len() > 0 {
            Outcome { next: seq![TaskView::SwitchProfile(a.profiles[0])], ..idle }
        } else {
            Outcome {
                app: AppView {
                    config: Settings { active_profile: None, ..a.config },
                    profile: None,
                    ..a
                },
                need_reregister: true,
                action: ActionView::SaveConfig,
                ..idle
            }
        },
        TaskView::SwitchProfile(name) => Outcome {
            app: AppView {
                config: Settings { active_profile: Some(name), ..a.config },
                ..a
            },
            next: seq![TaskView::LoadProfile(name), TaskView::SaveConfig, TaskView::Reregister],
            ..idle
        },
        TaskView::RebuildEngine => Outcome { action: ActionView::RebuildEngine, ..idle },
        TaskView::ReregisterIfNeeded => Outcome {
            need_reregister: false,
            action: if need {
                ActionView::Reregister
            } else {
                ActionView::Nothing
            },
            ..idle
        },
        TaskView::EnsureFolder(path) => Outcome {
            next: seq![task],
            action: ActionView::EnsureFolder(path),
            ..idle
        },
        TaskView::AddFolder(dir) => match known_folder(a.config.external_profiles, f.same) {
            Some(name) => Outcome { next: seq![TaskView::SwitchProfile(name)], ..idle },
            None => {
                let name = free_name(f.base, a.profiles);
                Outcome {
                    app: AppView {
                        config: Settings {
                            external_profiles: inserted(a.config.external_profiles, name, dir),
                            ..a.config
                        },
                        ..a
                    },
                    next: seq![
                        TaskView::SaveConfig,
                        TaskView::ListProfiles,
                        TaskView::SwitchProfile(name),
                    ],
                    ..idle
                }
            },
        },
        TaskView::CreateProfile(name) => Outcome {
            next: seq![task],
            action: ActionView::CreateProfile(name),
            ..idle
        },
        TaskView::ListProfiles => Outcome {
            next: seq![task],
            action: ActionView::ListProfiles,
            ..idle
        },
        TaskView::LoadProfile(name) => Outcome {
            next: seq![task],
            action: ActionView::LoadProfile {
                name,
                dir: place_of(a.config.external_profiles, name),
            },
            ..idle
        },
        TaskView::ClearNewName => Outcome {
            app: AppView { new_profile_name: seq![], ..a },
            ..idle
        },
        TaskView::CheckSignature => match a.profile {
            Some(p) => Outcome {
                next: seq![task],
                action: ActionView::ReadSignature(p.dir),
                ..idle
            },
            None => idle,
        },
        TaskView::ReloadProfile => match a.profile {
            Some(p) => Outcome {
                next: seq![task],
                action: ActionView::ReloadProfile { name: p.name, folder: p.dir },
                ..idle
            },
            None => idle,
        },
        TaskView::StartAudio => Outcome { action: ActionView::StartAudio, ..idle },
        TaskView::SaveConfig => Outcome { action: ActionView::SaveConfig, ..idle },
        TaskView::Reregister => Outcome { action: ActionView::Reregister, ..idle },
    }
}

/// The name of the first listed folder that is the same, in executable form.
fn find_known(app: &App, same: &Vec<bool>) -> (r: Option<String>)
    ensures
        opt_text(r) == known_folder(app@.config.external_profiles, same@),
{
    let ghost all = app@.config.external_profiles;
    let mut i: usize = 0;
    assert(all.skip(0) =~= all);
    assert(same@.skip(0) =~= same@);
    while i < app.config.external_profiles.len() && i < same.len()
        invariant
            all == app@.config.external_profiles,
            i <= all.len(),
            i <= same@.len(),
            known_folder(all.skip(i as int), same@.skip(i as int)) == known_folder(all, same@),
        decreases all.len() - i,
    {
        assert(all.skip(i as int)[0] == all[i as int]);
        assert(same@.skip(i as int)[0] == same@[i as int]);
        assert(all.skip(i as int).drop_first() =~= all.skip(i + 1));
        assert(same@.skip(i as int).drop_first() =~= same@.skip(i + 1));
        if same[i] {
            return Some(app.config.external_profiles.name(i).clone());
        }
        i = i + 1;
    }
    None
}

impl App {
    /// Does a task. Returns what is to be done next, whether the hotkeys have to be
    /// registered anew, and what the program around this library has to do.
    fn perform(&mut self, task: Task, need: bool, facts: &PathFacts) -> (r: (
        Vec<Task>,
        bool,
        Action,
    ))
        ensures
            final(self)@ == outcome(old(self)@, need, task@, facts@).app,
            task_views(r.0@) == outcome(old(self)@, need, task@, facts@).next,
            r.1 == outcome(old(self)@, need, task@, facts@).need_reregister,
            r.2@ == outcome(old(self)@, need, task@, facts@).action,
    {
        let ghost a = self@;
        let ghost o = outcome(a, need, task@, facts@);
        let mut next: Vec<Task> = Vec::new();
        let mut need_now = need;
        let mut action = Action::Nothing;
        assert(task_views(next@) =~= Seq::<TaskView>::empty());
        match task {
            Task::SetVolume(i, v) => {
                if let Some(p) = &mut self.profile {
                    p.set_volume(i, v);
                    action = Action::SaveBindings;
                }
                need_now = true;
            },
            Task::ClearHotkey(i) => {
                if let Some(p) = &mut self.profile {
                    p.set_hotkey(i, None);
                    action = Action::SaveBindings;
                }
                need_now = true;
            },
            Task::ClearStop => {
                self.config.stop_hotkey = None;
                need_now = true;
                action = Action::SaveConfig;
            },
            Task::Play(i) => {
                if let Some(p) = &self.profile {
                    if i < p.sounds.len() {
                        assert(p@.sounds[i as int] == p.sounds@[i as int]@);
                        action = Action::Play {
                            path: p.sounds[i].path.clone(),
                            volume: p.sounds[i].volume,
                        };
                    }
                }
            },
            Task::OpenFolder => {
                if let Some(p) = &self.profile {
                    action = Action::OpenFolder(p.dir.clone());
                }
            },
            Task::Capture(t) => {
                self.capturing = Some(t);
            },
            Task::NewProfile(input) => {
                let name = trim(input.as_str());
                if !name.as_str().is_empty() {
                    if facts.absolute {
                        add_task(&mut next, Task::EnsureFolder(path_of_text(name.as_str())));
                    } else if !has_char(name.as_str(), '/') && !has_char(name.as_str(), '\\') {
                        add_task(&mut next, Task::CreateProfile(name));
                    }
                }
            },
            Task::PickFolder => {
                add_task(&mut next, Task::PickFolder);
                action = Action::PickFolder;
            },
            Task::RemoveExternal(name) => {
                self.config.external_profiles.remove(name.as_str());
                add_task(&mut next, Task::ListProfiles);
                add_task(&mut next, Task::LeaveProfile(name));
            },
            Task::LeaveProfile(name) => {
                if !is_text(&self.config.active_profile, name.as_str()) {
                    action = Action::SaveConfig;
                } else if self.profiles.len() > 0 {
                    assert(a.profiles[0] == self.profiles@[0]@);
                    add_task(&mut next, Task::SwitchProfile(self.profiles[0].clone()));
                } else {
                    self.config.active_profile = None;
                    self.profile = None;
                    need_now = true;
                    action = Action::SaveConfig;
                }
            },
            Task::SwitchProfile(name) => {
                self.config.active_profile = Some(name.clone());
                add_task(&mut next, Task::LoadProfile(name));
                add_task(&mut next, Task::SaveConfig);
                add_task(&mut next, Task::Reregister);
            },
            Task::RebuildEngine => {
                action = Action::RebuildEngine;
            },
            Task::ReregisterIfNeeded => {
                if need {
                    action = Action::Reregister;
                }
                need_now = false;
            },
            Task::EnsureFolder(path) => {
                action = Action::EnsureFolder(path.clone());
                add_task(&mut next, Task::EnsureFolder(path));
            },
            Task::AddFolder(dir) => {
                match find_known(self, &facts.same) {
                    Some(name) => {
                        add_task(&mut next, Task::SwitchProfile(name));
                    },
                    None => {
                        let name = unique_name(&facts.base, &self.profiles);
                        self.config.external_profiles.insert(name.clone(), dir);
                        add_task(&mut next, Task::SaveConfig);
                        add_task(&mut next, Task::ListProfiles);
                        add_task(&mut next, Task::SwitchProfile(name));
                    },
                }
            },
            Task::CreateProfile(name) => {
                action = Action::CreateProfile(name.clone());
                add_task(&mut next, Task::CreateProfile(name));
            },
            Task::ListProfiles => {
                action = Action::ListProfiles;
                add_task(&mut next, Task::ListProfiles);
            },
            Task::LoadProfile(name) => {
                action = Action::LoadProfile {
                    dir: dir_for_config(&self.config, name.as_str()),
                    name: name.clone(),
                };
                add_task(&mut next, Task::LoadProfile(name));
            },
            Task::ClearNewName => {
                self.new_profile_name = String::new();
            },
            Task::CheckSignature => {
                if let Some(p) = &self.profile {
                    action = Action::ReadSignature(p.dir.clone());
                    add_task(&mut next, Task::CheckSignature);
                }
            },
            Task::ReloadProfile => {
                if let Some(p) = &self.profile {
                    action = Action::ReloadProfile {
                        name: p.name.clone(),
                        folder: p.dir.clone(),
                    };
                    add_task(&mut next, Task::ReloadProfile);
                }
            },
            Task::StartAudio => {
                action = Action::StartAudio;
            },
            Task::SaveConfig => {
                action = Action::SaveConfig;
            },
            Task::Reregister => {
                action = Action::Reregister;
            },
        }
        assert(task_views(next@) =~= o.next);
        assert(self@ =~= o.app);
        (next, need_now, action)
    }
}

/// What comes of doing the task that is next: the state, what is then to be done,
/// and what the program around this library has to do.
pub open spec fn stepped(a: AppView, w: WorkView, f: FactsView) -> (AppView, WorkView, ActionView) {
    if w.tasks.len() == 0 {
        (a, w, ActionView::Done)
    } else {
        let o = outcome(a, w.need_reregister, w.tasks[0], f);
        (
            o.app,
            WorkView {
                tasks: o.next + w.tasks.drop_first(),
                need_reregister: o.need_reregister,
            },
            o.action,
        )
    }
}

/// What is known of the path facts, whatever the platform: they are what some platform
/// says of the path that the next task is about; and a listed folder with the very
/// path of the folder that is to be added is the same.
pub open spec fn facts_fit(a: AppView, w: WorkView, f: FactsView) -> bool {
    w.tasks.len() > 0 ==> match w.tasks[0] {
        TaskView::NewProfile(input) => absolute_fits(path_from(trimmed(input)), f.absolute),
        TaskView::AddFolder(dir) => {
            &&& f.same.len() == a.config.external_profiles.len()
            &&& forall|i: int|
                0 <= i < f.same.len() ==> same_fits(
                    (#[trigger] a.config.external_profiles[i]).1,
                    dir,
                    f.same[i],
                )
            &&& listed_as(dir, f.base)
        },
        _ => true,
    }
}

/// What is known of whether a path is absolute, whatever the platform.
pub open spec fn absolute_fits(path: PathBuf, absolute: bool) -> bool {
    exists|platform: int| absolute == #[trigger] absolute_on(platform, path)
}

/// What is known of whether two folders are the same, whatever the platform.
pub open spec fn same_fits(a: PathBuf, b: PathBuf, same: bool) -> bool {
    &&& a == b ==> same
    &&& exists|platform: int| same == #[trigger] same_on(platform, a, b)
}

impl App {
    /// Asks the operating system about the path that the next task is about.
    pub fn path_facts(&self, work: &Work) -> (r: PathFacts)
        ensures
            facts_fit(self@, work@, r@),
    {
        let mut r = PathFacts { absolute: false, same: Vec::new(), base: String::new() };
        if work.tasks.len() > 0 {
            let task = &work.tasks[0];
            assert(work@.tasks[0] == task@);
            match task {
                Task::NewProfile(input) => {
                    let name = trim(input.as_str());
                    let path = path_of_text(name.as_str());
                    r.absolute = is_absolute(&path);
                    assert(absolute_fits(path, r.absolute));
                },
                Task::AddFolder(dir) => {
                    let ghost all = self@.config.external_profiles;
                    let mut same: Vec<bool> = Vec::new();
                    let mut i: usize = 0;
                    while i < self.config.external_profiles.len()
                        invariant
                            all == self@.config.external_profiles,
                            i <= all.len(),
                            same@.len() == i,
                            forall|j: int|
                                0 <= j < i ==> same_fits((#[trigger] all[j]).1, *dir, same@[j]),
                        decreases all.len() - i,
                    {
                        same.push(same_path(self.config.external_profiles.dir(i), dir));
                        i = i + 1;
                    }
                    r.same = same;
                    r.base = folder_name(dir);
                },
                _ => {},
            }
        }
        r
    }

    /// Does the task that is next, given what the operating system says of paths.
    pub fn step_with(&mut self, work: &mut Work, facts: &PathFacts) -> (r: Action)
        ensures
            (final(self)@, final(work)@, r@) == stepped(old(self)@, old(work)@, facts@),
    {
        match work.pop() {
            Some(task) => {
                let (next, need, action) = self.perform(task, work.need_reregister, facts);
                work.need_reregister = need;
                work.put_front(next);
                action
            },
            None => Action::Done,
        }
    }

    /// Does the task that is next. What the program around this library has to do
    /// may be a question; the task then stays until it is answered.
    pub fn step(&mut self, work: &mut Work) -> (r: Action)
        ensures
            exists|f: FactsView| #[trigger]
                stepped(old(self)@, old(work)@, f) == (final(self)@, final(work)@, r@)
                    && facts_fit(old(self)@, old(work)@, f),
    {
        let facts = self.path_facts(work);
        let r = self.step_with(work, &facts);
        assert(stepped(old(self)@, old(work)@, facts@) == (self@, work@, r@));
        r
    }
}

// ---------------------------------------------------------------------------
// Answers
// ---------------------------------------------------------------------------

/// The answer to a question.
pub enum Reply {
    /// Whether the folder is there or could be made.
    Folder(bool),
    /// Whether the folder could be made in the profiles directory.
    Created(bool),
    /// The folders in the profiles directory.
    Listed(Vec<String>),
    /// A profile, and which files it has.
    Loaded(Profile, Vec<String>),
    /// The folder that the user picked, if any.
    Picked(Option<PathBuf>),
    /// Which files the folder has.
    Signature(Vec<String>),
    /// A profile.
    Reloaded(Profile),
}

/// The contents of an answer.
pub enum ReplyView {
    Folder(bool),
    Created(bool),
    Listed(Seq<Seq<char>>),
    Loaded(ProfileView, Seq<Seq<char>>),
    Picked(Option<PathBuf>),
    Signature(Seq<Seq<char>>),
    Reloaded(ProfileView),
}

impl View for Reply {
    type V = ReplyView;

    open spec fn view(&self) -> ReplyView {
        match self {
            Reply::Folder(ok) => ReplyView::Folder(*ok),
            Reply::Created(ok) => ReplyView::Created(*ok),
            Reply::Listed(names) => ReplyView::Listed(texts(names@)),
            Reply::Loaded(p, files) => ReplyView::Loaded(p@, texts(files@)),
            Reply::Picked(dir) => ReplyView::Picked(*dir),
            Reply::Signature(files) => ReplyView::Signature(texts(files@)),
            Reply::Reloaded(p) => ReplyView::Reloaded(p@),
        }
    }
}

/// What comes of the answer to the question of a task: the state and what is to be
/// done next. `None` if it is no answer to that question.
pub open spec fn reply_outcome(a: AppView, task: TaskView, reply: ReplyView) -> Option<
    (AppView, Seq<TaskView>),
> {
    match (task, reply) {
        (TaskView::EnsureFolder(path), ReplyView::Folder(ok)) => Some(
            (
                a,
                if ok {
                    seq![TaskView::AddFolder(path), TaskView::ClearNewName]
                } else {
                    seq![]
                },
            ),
        ),
        (TaskView::CreateProfile(name), ReplyView::Created(ok)) => Some(
            (
                a,
                if ok {
                    seq![
                        TaskView::ListProfiles,
                        TaskView::SwitchProfile(name),
                        TaskView::ClearNewName,
                    ]
                } else {
                    seq![]
                },
            ),
        ),
        (TaskView::ListProfiles, ReplyView::Listed(names)) => Some(
            (
                AppView { profiles: all_names(names, a.config.external_profiles), ..a },
                seq![],
            ),
        ),
        (TaskView::LoadProfile(_), ReplyView::Loaded(p, files)) => Some(
            (AppView { profile: Some(p), last_signature: files, ..a }, seq![]),
        ),
        (TaskView::PickFolder, ReplyView::Picked(dir)) => Some(
            (
                a,
                match dir {
                    Some(dir) => seq![TaskView::AddFolder(dir)],
                    None => seq![],
                },
            ),
        ),
        (TaskView::CheckSignature, ReplyView::Signature(files)) => Some(
            if files != a.last_signature {
                (
                    AppView { last_signature: files, ..a },
                    seq![TaskView::ReloadProfile, TaskView::Reregister],
                )
            } else {
                (a, seq![])
            },
        ),
        (TaskView::ReloadProfile, ReplyView::Reloaded(p)) => Some(
            (AppView { profile: Some(p), ..a }, seq![]),
        ),
        _ => None,
    }
}

/// What comes of an answer. What is no answer to the question that waits changes
/// nothing.
pub open spec fn replied(a: AppView, w: WorkView, reply: ReplyView) -> (AppView, WorkView) {
    if w.tasks.len() == 0 {
        (a, w)
    } else {
        match reply_outcome(a, w.tasks[0], reply) {
            Some((app, next)) => (
                app,
                WorkView { tasks: next + w.tasks.drop_first(), ..w },
            ),
            None => (a, w),
        }
    }
}

impl App {
    /// Takes the answer to the question that waits. Returns whether it was one.
    pub fn answer(&mut self, work: &mut Work, reply: Reply) -> (r: bool)
        ensures
            (final(self)@, final(work)@) == replied(old(self)@, old(work)@, reply@),
            r == (old(work)@.tasks.len() > 0 && reply_outcome(
                old(self)@,
                old(work)@.tasks[0],
                reply@,
            ) is Some),
            final(self).config == old(self).config,
    {
        let ghost a = self@;
        let ghost w = work@;
        let ghost rv = reply@;
        let task = match work.pop() {
            Some(task) => task,
            None => {
                return false;
            },
        };
        let mut next: Vec<Task> = Vec::new();
        assert(task_views(next@) =~= Seq::<TaskView>::empty());
        match (task, reply) {
            (Task::EnsureFolder(path), Reply::Folder(ok)) => {
                if ok {
                    add_task(&mut next, Task::AddFolder(path));
                    add_task(&mut next, Task::ClearNewName);
                }
            },
            (Task::CreateProfile(name), Reply::Created(ok)) => {
                if ok {
                    add_task(&mut next, Task::ListProfiles);
                    add_task(&mut next, Task::SwitchProfile(name));
                    add_task(&mut next, Task::ClearNewName);
                }
            },
            (Task::ListProfiles, Reply::Listed(names)) => {
                self.profiles = all_profiles(names, &self.config.external_profiles);
            },
            (Task::LoadProfile(_), Reply::Loaded(p, files)) => {
                self.last_signature = files;
                self.profile = Some(p);
            },
            (Task::PickFolder, Reply::Picked(dir)) => {
                if let Some(dir) = dir {
                    add_task(&mut next, Task::AddFolder(dir));
                }
            },
            (Task::CheckSignature, Reply::Signature(files)) => {
                if !list_eq(&files, &self.last_signature) {
                    self.last_signature = files;
                    add_task(&mut next, Task::ReloadProfile);
                    add_task(&mut next, Task::Reregister);
                }
            },
            (Task::ReloadProfile, Reply::Reloaded(p)) => {
                self.profile = Some(p);
            },
            (task, _) => {
                add_task(&mut next, task);
                work.put_front(next);
                assert(work@.tasks =~= w.tasks);
                return false;
            },
        }
        work.put_front(next);
        proof {
            let (app, follow_ups) = reply_outcome(a, w.tasks[0], rv)->0;
            assert(self@ =~= app);
            assert(task_views(next@) =~= follow_ups);
        }
        true
    }

    /// What is to be done at the moment `now` about a folder that may have changed
    /// behind the program's back. It is not looked at within one and a half seconds
    /// of the last look.
    pub fn maybe_rescan(&mut self, now: u64) -> (r: Work)
        ensures
            (final(self)@, r@) == rescan(old(self)@, now),
            final(self).config == old(self).config,
    {
        let mut tasks: Vec<Task> = Vec::new();
        if now >= self.last_scan && now - self.last_scan >= 1_500_000_000 {
            self.last_scan = now;
            if self.profile.is_some() {
                tasks.push(Task::CheckSignature);
            }
        }
        let r = Work::of(tasks, false);
        assert(r@.tasks =~= rescan(old(self)@, now).1.tasks);
        r
    }
}

/// What is to be done at the moment `now` about a folder that may have changed.
pub open spec fn rescan(a: AppView, now: u64) -> (AppView, WorkView) {
    if now - a.last_scan >= 1_500_000_000 {
        (
            AppView { last_scan: now, ..a },
            WorkView {
                tasks: only_if(a.profile is Some, TaskView::CheckSignature),
                need_reregister: false,
            },
        )
    } else {
        (a, WorkView { tasks: seq![], need_reregister: false })
    }
}

} // verus!

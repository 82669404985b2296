//! Laws of contents: what the contents of a value say of its fields.

use crate::app::{App, Binding};
use crate::audio::device_names;
use crate::config::{entry_names, AppConfig, ExternalProfile};
use crate::profile::{opt_profile, DirView, Profile, ProfileDir, Sound};
use crate::text::{opt_text, texts};
use crate::ui::{SettingsEvent, SettingsEventView, SoundsEvent, SoundsEventView};
use crate::work::{Action, ActionView, PathFacts, Pending, Reply, ReplyView, Task, TaskView};
use std::path::PathBuf;
use vstd::prelude::*;

verus! {

/// A list of strings holds its texts in order, and so does a list of names that may be
/// missing.
pub proof fn contents_of_lists(
    list: Seq<String>,
    names: Seq<Option<String>>,
    entries: Seq<(Seq<char>, PathBuf)>,
    i: int,
)
    ensures
        texts(list).len() == list.len(),
        0 <= i < list.len() ==> texts(list)[i] == list[i]@,
        device_names(names).len() == names.len(),
        0 <= i < names.len() ==> device_names(names)[i] == opt_text(names[i]),
        entry_names(entries).len() == entries.len(),
        0 <= i < entries.len() ==> entry_names(entries)[i] == entries[i].0,
{
}

/// A string that may be missing holds its text, or none.
pub proof fn contents_of_an_optional_string(s: String)
    ensures
        opt_text(Some(s)) == Some(s@),
        opt_text(None) is None,
{
}

/// The contents of a sound, a profile and an outside folder are those of their fields.
pub proof fn contents_of_profiles(s: Sound, p: Profile, e: ExternalProfile, d: PathBuf, n: String, i: int)
    ensures
        s@.name == s.name@ && s@.path == s.path && s@.volume == s.volume && s@.hotkey == opt_text(s.hotkey),
        p@.name == p.name@ && p@.dir == p.dir,
        p@.sounds.len() == p.sounds@.len(),
        0 <= i < p.sounds@.len() ==> p@.sounds[i] == p.sounds@[i]@,
        opt_profile(Some(p)) == Some(p@) && opt_profile(None) is None,
        e@ == (e.name@, e.dir),
        ProfileDir::External(d)@ == DirView::External(d),
        ProfileDir::Builtin(n)@ == DirView::Builtin(n@),
{
}

/// The contents of the settings are those of their fields.
pub proof fn contents_of_settings(c: AppConfig)
    ensures
        c@.output_device == opt_text(c.output_device),
        c@.input_device == opt_text(c.input_device),
        c@.monitor_device == opt_text(c.monitor_device),
        c@.effect_volume == c.effect_volume,
        c@.mic_passthrough == c.mic_passthrough,
        c@.repeat_mode == c.repeat_mode,
        c@.autostart == c.autostart,
        c@.stop_hotkey == opt_text(c.stop_hotkey),
        c@.active_profile == opt_text(c.active_profile),
        c@.external_profiles == c.external_profiles@,
{
}

/// The contents of the state are those of its fields.
pub proof fn contents_of_the_state(a: App)
    ensures
        a@.config == a.config@,
        a@.profiles == texts(a.profiles@),
        a@.profile == opt_profile(a.profile),
        a@.out_devices == texts(a.out_devices@),
        a@.in_devices == texts(a.in_devices@),
        a@.vbcable == a.vbcable,
        a@.capturing == a.capturing,
        a@.new_profile_name == a.new_profile_name@,
        a@.last_signature == texts(a.last_signature@),
        a@.last_scan == a.last_scan,
{
}

/// The contents of wishes, shortcuts and path facts are those of their fields.
pub proof fn contents_of_wishes(p: Pending, b: Binding, f: PathFacts)
    ensures
        p@.rebuild_engine == p.rebuild_engine,
        p@.switch_profile == opt_text(p.switch_profile),
        p@.new_profile == opt_text(p.new_profile),
        p@.pick_folder == p.pick_folder,
        p@.remove_external == opt_text(p.remove_external),
        p@.play == p.play@,
        p@.capture == p.capture,
        p@.clear_hotkey == p.clear_hotkey@,
        p@.clear_stop == p.clear_stop,
        p@.set_volume == p.set_volume@,
        p@.open_folder == p.open_folder,
        p@.reregister == p.reregister,
        b@ == (b.combo@, b.action),
        f@.absolute == f.absolute && f@.same == f.same@ && f@.base == f.base@,
{
}

/// The contents of tasks with something in them.
pub proof fn contents_of_tasks(t: Task)
    ensures
        t matches Task::SetVolume(i, v) ==> t@ == TaskView::SetVolume(i, v),
        t matches Task::ClearHotkey(i) ==> t@ == TaskView::ClearHotkey(i),
        t matches Task::Play(i) ==> t@ == TaskView::Play(i),
        t matches Task::Capture(c) ==> t@ == TaskView::Capture(c),
        t matches Task::NewProfile(s) ==> t@ == TaskView::NewProfile(s@),
        t matches Task::RemoveExternal(s) ==> t@ == TaskView::RemoveExternal(s@),
        t matches Task::SwitchProfile(s) ==> t@ == TaskView::SwitchProfile(s@),
        t matches Task::EnsureFolder(p) ==> t@ == TaskView::EnsureFolder(p),
        t matches Task::AddFolder(p) ==> t@ == TaskView::AddFolder(p),
        t matches Task::CreateProfile(s) ==> t@ == TaskView::CreateProfile(s@),
        t matches Task::LoadProfile(s) ==> t@ == TaskView::LoadProfile(s@),
        t matches Task::LeaveProfile(s) ==> t@ == TaskView::LeaveProfile(s@),
        t is ClearStop <==> t@ is ClearStop,
        t is OpenFolder <==> t@ is OpenFolder,
        t is PickFolder <==> t@ is PickFolder,
        t is RebuildEngine <==> t@ is RebuildEngine,
        t is ReregisterIfNeeded <==> t@ is ReregisterIfNeeded,
        t is ListProfiles <==> t@ is ListProfiles,
        t is ClearNewName <==> t@ is ClearNewName,
        t is CheckSignature <==> t@ is CheckSignature,
        t is ReloadProfile <==> t@ is ReloadProfile,
        t is StartAudio <==> t@ is StartAudio,
        t is SaveConfig <==> t@ is SaveConfig,
        t is Reregister <==> t@ is Reregister,
{
}

/// The contents of what has to be done.
pub proof fn contents_of_actions(a: Action)
    ensures
        a matches Action::Play { path, volume } ==> a@ == (ActionView::Play { path, volume }),
        a matches Action::OpenFolder(p) ==> a@ == ActionView::OpenFolder(p),
        a matches Action::EnsureFolder(p) ==> a@ == ActionView::EnsureFolder(p),
        a matches Action::CreateProfile(s) ==> a@ == ActionView::CreateProfile(s@),
        a matches Action::LoadProfile { name, dir } ==> a@ == (ActionView::LoadProfile {
            name: name@,
            dir: dir@,
        }),
        a matches Action::ReloadProfile { name, folder } ==> a@ == (ActionView::ReloadProfile {
            name: name@,
            folder,
        }),
        a matches Action::ReadSignature(p) ==> a@ == ActionView::ReadSignature(p),
        a is Nothing <==> a@ is Nothing,
        a is Done <==> a@ is Done,
        a is SaveBindings <==> a@ is SaveBindings,
        a is SaveConfig <==> a@ is SaveConfig,
        a is Reregister <==> a@ is Reregister,
        a is StartAudio <==> a@ is StartAudio,
        a is RebuildEngine <==> a@ is RebuildEngine,
        a is ListProfiles <==> a@ is ListProfiles,
        a is PickFolder <==> a@ is PickFolder,
{
}

/// The contents of answers.
pub proof fn contents_of_answers(r: Reply)
    ensures
        r matches Reply::Folder(ok) ==> r@ == ReplyView::Folder(ok),
        r matches Reply::Created(ok) ==> r@ == ReplyView::Created(ok),
        r matches Reply::Listed(names) ==> r@ == ReplyView::Listed(texts(names@)),
        r matches Reply::Loaded(p, files) ==> r@ == ReplyView::Loaded(p@, texts(files@)),
        r matches Reply::Picked(dir) ==> r@ == ReplyView::Picked(dir),
        r matches Reply::Signature(files) ==> r@ == ReplyView::Signature(texts(files@)),
        r matches Reply::Reloaded(p) ==> r@ == ReplyView::Reloaded(p@),
{
}

/// The contents of what the user did.
pub proof fn contents_of_touches(e: SettingsEvent, s: SoundsEvent)
    ensures
        e matches SettingsEvent::ChooseOutput(d) ==> e@ == SettingsEventView::ChooseOutput(opt_text(d)),
        e matches SettingsEvent::ChooseInput(d) ==> e@ == SettingsEventView::ChooseInput(opt_text(d)),
        e matches SettingsEvent::ChooseMonitor(d) ==> e@ == SettingsEventView::ChooseMonitor(opt_text(d)),
        e matches SettingsEvent::SetMicPassthrough(on) ==> e@ == SettingsEventView::SetMicPassthrough(on),
        e matches SettingsEvent::SetEffectVolume(v) ==> e@ == SettingsEventView::SetEffectVolume(v),
        e matches SettingsEvent::SetRepeatMode(m) ==> e@ == SettingsEventView::SetRepeatMode(m),
        e matches SettingsEvent::SetAutostart(on) ==> e@ == SettingsEventView::SetAutostart(on),
        e is OpenDownloadPage <==> e@ is OpenDownloadPage,
        e is Redetect <==> e@ is Redetect,
        e is DevicesShown <==> e@ is DevicesShown,
        e is Retry <==> e@ is Retry,
        s matches SoundsEvent::ChooseProfile(n) ==> s@ == SoundsEventView::ChooseProfile(n@),
        s matches SoundsEvent::Play(i) ==> s@ == SoundsEventView::Play(i),
        s matches SoundsEvent::SetVolume(i, v) ==> s@ == SoundsEventView::SetVolume(i, v),
        s matches SoundsEvent::ClearHotkey(i) ==> s@ == SoundsEventView::ClearHotkey(i),
        s matches SoundsEvent::CaptureSound(i) ==> s@ == SoundsEventView::CaptureSound(i),
        s is OpenFolder <==> s@ is OpenFolder,
        s is RemoveProfile <==> s@ is RemoveProfile,
        s is NewProfile <==> s@ is NewProfile,
        s is PickFolder <==> s@ is PickFolder,
        s is CaptureStop <==> s@ is CaptureStop,
        s is ClearStop <==> s@ is ClearStop,
{
}

} // verus!

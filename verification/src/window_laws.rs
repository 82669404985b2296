//! Laws of the window: what each touch changes and what it leaves alone, said of the
//! settings, the wishes and the labels themselves.

use crate::app::{AppView, CaptureTarget};
use crate::config::{RepeatMode, Settings, Volume};
use crate::profile_laws::folders_are_found_by_name;
use crate::ui::{
    asked, changed_settings, has_hotkey, needs_rebuild, settings_actions, sounds_of, text_or, uses_external,
    Offered, SettingsAction, SettingsEventView, SoundsEventView,
};
use crate::work::PendingView;
use vstd::prelude::*;

verus! {

// ---------------------------------------------------------------------------
// Settings
// ---------------------------------------------------------------------------

/// Choosing an output device changes that setting only: to the choice, if it is none or a
/// device that is shown, and else not at all. The audio chain is set up anew exactly if the
/// setting changes, and nothing has to be done at once.
pub proof fn choosing_an_output(a: AppView, o: Offered, rebuild: bool, d: Option<Seq<char>>)
    ensures
        ({
            let e = SettingsEventView::ChooseOutput(d);
            let c = changed_settings(a.config, o, e);
            &&& c == (Settings { output_device: c.output_device, ..a.config })
            &&& d is None || o.outputs.contains(d->0) ==> c.output_device == d
            &&& d is Some && !o.outputs.contains(d->0) ==> c.output_device == a.config.output_device
            &&& needs_rebuild(a, o, e) <==> c.output_device != a.config.output_device
            &&& settings_actions(a, rebuild, e).len() == 0
        }),
{
}

/// Choosing a microphone changes that setting only, in the same way.
pub proof fn choosing_a_microphone(a: AppView, o: Offered, rebuild: bool, d: Option<Seq<char>>)
    ensures
        ({
            let e = SettingsEventView::ChooseInput(d);
            let c = changed_settings(a.config, o, e);
            &&& c == (Settings { input_device: c.input_device, ..a.config })
            &&& d is None || o.inputs.contains(d->0) ==> c.input_device == d
            &&& d is Some && !o.inputs.contains(d->0) ==> c.input_device == a.config.input_device
            &&& needs_rebuild(a, o, e) <==> c.input_device != a.config.input_device
            &&& settings_actions(a, rebuild, e).len() == 0
        }),
{
}

/// Choosing a monitor, one of the output devices, changes that setting only, in the same
/// way.
pub proof fn choosing_a_monitor(a: AppView, o: Offered, rebuild: bool, d: Option<Seq<char>>)
    ensures
        ({
            let e = SettingsEventView::ChooseMonitor(d);
            let c = changed_settings(a.config, o, e);
            &&& c == (Settings { monitor_device: c.monitor_device, ..a.config })
            &&& d is None || o.outputs.contains(d->0) ==> c.monitor_device == d
            &&& d is Some && !o.outputs.contains(d->0) ==> c.monitor_device == a.config.monitor_device
            &&& needs_rebuild(a, o, e) <==> c.monitor_device != a.config.monitor_device
            &&& settings_actions(a, rebuild, e).len() == 0
        }),
{
}

/// The switch of the microphone, the loudness of the effects, what pressing again does and
/// whether the program starts with the system each change their own setting only. The
/// change takes effect at once and is then kept; the audio chain is not set up anew.
pub proof fn changing_a_plain_setting(
    a: AppView,
    o: Offered,
    rebuild: bool,
    on: bool,
    v: Volume,
    m: RepeatMode,
)
    ensures
        ({
            let e = SettingsEventView::SetMicPassthrough(on);
            let acts = settings_actions(a, rebuild, e);
            &&& changed_settings(a.config, o, e) == (Settings { mic_passthrough: on, ..a.config })
            &&& !needs_rebuild(a, o, e)
            &&& acts.len() == 2 && acts[0] == SettingsAction::SetMicPassthrough(on)
                && acts[1] is SaveConfig
        }),
        ({
            let e = SettingsEventView::SetEffectVolume(v);
            let acts = settings_actions(a, rebuild, e);
            &&& changed_settings(a.config, o, e) == (Settings { effect_volume: v, ..a.config })
            &&& !needs_rebuild(a, o, e)
            &&& acts.len() == 2 && acts[0] == SettingsAction::SetEffectVolume(v) && acts[1] is SaveConfig
        }),
        ({
            let e = SettingsEventView::SetRepeatMode(m);
            let acts = settings_actions(a, rebuild, e);
            &&& changed_settings(a.config, o, e) == (Settings { repeat_mode: m, ..a.config })
            &&& !needs_rebuild(a, o, e)
            &&& acts.len() == 2 && acts[0] == SettingsAction::SetRepeatMode(m) && acts[1] is SaveConfig
        }),
        ({
            let e = SettingsEventView::SetAutostart(on);
            let acts = settings_actions(a, rebuild, e);
            &&& changed_settings(a.config, o, e) == (Settings { autostart: on, ..a.config })
            &&& !needs_rebuild(a, o, e)
            &&& acts.len() == 2 && acts[0] == SettingsAction::SetAutostart(on) && acts[1] is SaveConfig
        }),
{
}

/// The other touches change no setting. While the cable is missing its page is opened, or
/// it is looked for and the audio chain set up anew; trying again sets the chain up anew;
/// and the settings are kept once all devices have been shown, if the chain is to be set up
/// anew.
pub proof fn touches_that_change_no_setting(a: AppView, o: Offered, rebuild: bool)
    ensures
        ({
            let page = SettingsEventView::OpenDownloadPage;
            let look = SettingsEventView::Redetect;
            let shown = SettingsEventView::DevicesShown;
            let retry = SettingsEventView::Retry;
            &&& changed_settings(a.config, o, page) == a.config
            &&& changed_settings(a.config, o, look) == a.config
            &&& changed_settings(a.config, o, shown) == a.config
            &&& changed_settings(a.config, o, retry) == a.config
            &&& !needs_rebuild(a, o, page)
            &&& needs_rebuild(a, o, look) <==> !a.vbcable
            &&& !needs_rebuild(a, o, shown)
            &&& needs_rebuild(a, o, retry)
            &&& settings_actions(a, rebuild, page) == if a.vbcable {
                Seq::<SettingsAction>::empty()
            } else {
                seq![SettingsAction::OpenDownloadPage]
            }
            &&& settings_actions(a, rebuild, look) == if a.vbcable {
                Seq::<SettingsAction>::empty()
            } else {
                seq![SettingsAction::RefreshDevices]
            }
            &&& settings_actions(a, rebuild, shown) == if rebuild {
                seq![SettingsAction::SaveConfig]
            } else {
                Seq::<SettingsAction>::empty()
            }
            &&& settings_actions(a, rebuild, retry).len() == 0
        }),
{
}

// ---------------------------------------------------------------------------
// Profiles and sounds
// ---------------------------------------------------------------------------

/// Choosing a profile asks to switch to it if it is listed and not in use; nothing else is
/// asked for.
pub proof fn choosing_a_profile(a: AppView, p: PendingView, name: Seq<char>)
    ensures
        asked(a, p, SoundsEventView::ChooseProfile(name)) == if a.profiles.contains(name)
            && a.config.active_profile != Some(name) {
            PendingView { switch_profile: Some(name), ..p }
        } else {
            p
        },
{
}

/// Removing asks to take the profile in use off the list if it is an outside folder.
pub proof fn asking_to_remove_a_profile(a: AppView, p: PendingView)
    requires
        forall|i: int, j: int|
            0 <= i < j < a.config.external_profiles.len() ==> (#[trigger] a.config.external_profiles[i]).0
                != (#[trigger] a.config.external_profiles[j]).0,
    ensures
        forall|i: int|
            0 <= i < a.config.external_profiles.len() && a.config.active_profile == Some(
                (#[trigger] a.config.external_profiles[i]).0,
            ) ==> uses_external(a) && asked(a, p, SoundsEventView::RemoveProfile) == (PendingView {
                remove_external: Some(a.config.external_profiles[i].0),
                ..p
            }),
        (forall|i: int|
            0 <= i < a.config.external_profiles.len() ==> a.config.active_profile != Some(
                (#[trigger] a.config.external_profiles[i]).0,
            )) ==> !uses_external(a) && asked(a, p, SoundsEventView::RemoveProfile) == p,
{
    if let Some(name) = a.config.active_profile {
        folders_are_found_by_name(a.config.external_profiles, name);
        if forall|i: int|
            0 <= i < a.config.external_profiles.len() ==> a.config.active_profile != Some(
                (#[trigger] a.config.external_profiles[i]).0,
            ) {
            assert forall|i: int| 0 <= i < a.config.external_profiles.len() implies (
            #[trigger] a.config.external_profiles[i]).0 != name by {}
        }
    }
}

/// The buttons for folders and new profiles ask for just that; a new profile is made from
/// what is typed in.
pub proof fn asking_for_folders(a: AppView, p: PendingView)
    ensures
        asked(a, p, SoundsEventView::OpenFolder) == (PendingView { open_folder: true, ..p }),
        asked(a, p, SoundsEventView::NewProfile) == (PendingView {
            new_profile: Some(a.new_profile_name),
            ..p
        }),
        asked(a, p, SoundsEventView::PickFolder) == (PendingView { pick_folder: true, ..p }),
{
}

/// The buttons of the stop shortcut ask to capture one, or to take away the one that is
/// set.
pub proof fn asking_about_the_stop_shortcut(a: AppView, p: PendingView)
    ensures
        asked(a, p, SoundsEventView::CaptureStop) == (PendingView {
            capture: Some(CaptureTarget::Stop),
            ..p
        }),
        a.config.stop_hotkey is Some ==> asked(a, p, SoundsEventView::ClearStop) == (PendingView {
            clear_stop: true,
            ..p
        }),
        a.config.stop_hotkey is None ==> asked(a, p, SoundsEventView::ClearStop) == p,
{
}

/// The controls of a sound ask for something about that very sound: to play it, to make it
/// as loud, to take its shortcut away, to capture one. What is asked for comes behind what
/// was asked for before. Without such a sound nothing is asked for.
pub proof fn asking_about_a_sound(a: AppView, p: PendingView, i: usize, v: Volume)
    ensures
        ({
            let there = a.profile is Some && i < a.profile->0.sounds.len();
            &&& asked(a, p, SoundsEventView::Play(i)) == if there {
                PendingView { play: p.play.push(i), ..p }
            } else {
                p
            }
            &&& asked(a, p, SoundsEventView::SetVolume(i, v)) == if there {
                PendingView { set_volume: p.set_volume.push((i, v)), ..p }
            } else {
                p
            }
            &&& asked(a, p, SoundsEventView::ClearHotkey(i)) == if there
                && a.profile->0.sounds[i as int].hotkey is Some {
                PendingView { clear_hotkey: p.clear_hotkey.push(i), ..p }
            } else {
                p
            }
            &&& asked(a, p, SoundsEventView::CaptureSound(i)) == if there && a.capturing != Some(
                CaptureTarget::Sound(i),
            ) {
                PendingView { capture: Some(CaptureTarget::Sound(i)), ..p }
            } else {
                p
            }
        }),
{
}

/// The sounds that are shown are those of the profile in use, and a sound shows a shortcut
/// exactly if it has one.
pub proof fn the_sounds_of_the_profile_are_shown(a: AppView, i: int)
    ensures
        a.profile is Some ==> sounds_of(a) == a.profile->0.sounds,
        a.profile is None ==> sounds_of(a).len() == 0,
        has_hotkey(a, i) <==> a.profile is Some && 0 <= i < a.profile->0.sounds.len()
            && a.profile->0.sounds[i].hotkey is Some,
{
}

/// A label is the text that is set, or what stands for it where none is.
pub proof fn labels_show_what_is_set(t: Seq<char>, none: Seq<char>)
    ensures
        text_or(Some(t), none) == t,
        text_or(None, none) == none,
{
}

} // verus!

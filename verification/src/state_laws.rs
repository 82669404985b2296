//! Laws of the state: what the program starts with, which shortcuts work, and what a
//! capture changes, said of settings, sounds and keys themselves.

use crate::app::{
    after_capture, all_registered, bindings, capture_actions, captured, has_cable, sound_bindings,
    start_profile, start_work, started, AppView, CaptureTarget, Captured, KeyEvent,
};
use crate::audio::is_cable;
use crate::audio_laws::{no_cable_is_found, the_first_cable_is_found};
use crate::config::Settings;
use crate::hotkeys::{
    combo_text, other_hotkeys_keep_their_action, parsed, registered, triggered, Bindings, HkAction, HotKey,
};
use crate::profile::{all_names, SoundView};
use crate::work::TaskView;
use vstd::prelude::*;

verus! {

// ---------------------------------------------------------------------------
// Start
// ---------------------------------------------------------------------------

/// The start changes no setting but the output device and the active profile.
pub proof fn the_start_keeps_the_settings(
    config: Settings,
    out_devices: Seq<Seq<char>>,
    in_devices: Seq<Seq<char>>,
    listed: Seq<Seq<char>>,
    now: u64,
)
    ensures
        ({
            let a = started(config, out_devices, in_devices, listed, now);
            &&& a.config.input_device == config.input_device
            &&& a.config.monitor_device == config.monitor_device
            &&& a.config.effect_volume == config.effect_volume
            &&& a.config.mic_passthrough == config.mic_passthrough
            &&& a.config.repeat_mode == config.repeat_mode
            &&& a.config.autostart == config.autostart
            &&& a.config.stop_hotkey == config.stop_hotkey
            &&& a.config.external_profiles == config.external_profiles
            &&& config.output_device is Some ==> a.config.output_device == config.output_device
        }),
{
}

/// Where no output device was chosen, the start picks the first in whose name the cable
/// is, and none if there is none.
pub proof fn the_start_picks_the_cable(
    config: Settings,
    out_devices: Seq<Seq<char>>,
    in_devices: Seq<Seq<char>>,
    listed: Seq<Seq<char>>,
    now: u64,
)
    requires
        config.output_device is None,
    ensures
        forall|i: int|
            0 <= i < out_devices.len() && is_cable(#[trigger] out_devices[i]) && (forall|j: int|
                0 <= j < i ==> !is_cable(#[trigger] out_devices[j])) ==> started(
                config,
                out_devices,
                in_devices,
                listed,
                now,
            ).config.output_device == Some(out_devices[i]),
        (forall|i: int| 0 <= i < out_devices.len() ==> !is_cable(#[trigger] out_devices[i]))
            ==> started(config, out_devices, in_devices, listed, now).config.output_device is None,
{
    assert forall|i: int|
        0 <= i < out_devices.len() && is_cable(#[trigger] out_devices[i]) && (forall|j: int|
            0 <= j < i ==> !is_cable(#[trigger] out_devices[j])) implies started(
        config,
        out_devices,
        in_devices,
        listed,
        now,
    ).config.output_device == Some(out_devices[i]) by {
        the_first_cable_is_found(out_devices, i);
    }
    if forall|i: int| 0 <= i < out_devices.len() ==> !is_cable(#[trigger] out_devices[i]) {
        no_cable_is_found(out_devices);
    }
}

/// The profile that was active stays so if it is still there; else the first one of the
/// list is active, or none if the list is empty.
pub proof fn the_start_keeps_the_profile(active: Option<Seq<char>>, profiles: Seq<Seq<char>>)
    ensures
        active is Some && profiles.contains(active->0) ==> start_profile(active, profiles) == active,
        !(active is Some && profiles.contains(active->0)) && profiles.len() > 0 ==> start_profile(
            active,
            profiles,
        ) == Some(profiles[0]),
        profiles.len() == 0 ==> start_profile(active, profiles) is None,
{
}

/// The state at the start holds the devices and all profiles; nothing is loaded, nothing
/// is captured, nothing is typed in, and the folder counts as just looked at.
pub proof fn the_start_is_fresh(
    config: Settings,
    out_devices: Seq<Seq<char>>,
    in_devices: Seq<Seq<char>>,
    listed: Seq<Seq<char>>,
    now: u64,
)
    ensures
        ({
            let a = started(config, out_devices, in_devices, listed, now);
            &&& a.out_devices == out_devices
            &&& a.in_devices == in_devices
            &&& a.vbcable <==> exists|i: int|
                0 <= i < out_devices.len() && is_cable(#[trigger] out_devices[i])
            &&& a.profiles == all_names(listed, config.external_profiles)
            &&& a.config.active_profile == start_profile(config.active_profile, a.profiles)
            &&& a.profile is None
            &&& a.capturing is None
            &&& a.new_profile_name.len() == 0
            &&& a.last_signature.len() == 0
            &&& a.last_scan == now
        }),
        has_cable(out_devices) <==> exists|i: int|
            0 <= i < out_devices.len() && is_cable(#[trigger] out_devices[i]),
{
}

/// At the start the active profile is loaded, if there is one; then the audio starts, the
/// settings are kept, and the hotkeys are registered.
pub proof fn the_start_does_its_work(name: Seq<char>)
    ensures
        ({
            let w = start_work(Some(name));
            &&& w.tasks.len() == 4
            &&& w.tasks[0] == TaskView::LoadProfile(name)
            &&& w.tasks[1] is StartAudio
            &&& w.tasks[2] is SaveConfig
            &&& w.tasks[3] is Reregister
            &&& !w.need_reregister
        }),
        ({
            let w = start_work(None);
            &&& w.tasks.len() == 3
            &&& w.tasks[0] is StartAudio
            &&& w.tasks[1] is SaveConfig
            &&& w.tasks[2] is Reregister
            &&& !w.need_reregister
        }),
{
}

// ---------------------------------------------------------------------------
// Shortcuts that work
// ---------------------------------------------------------------------------

/// How many of the first `n` sounds have a shortcut.
pub open spec fn bound_before(sounds: Seq<SoundView>, n: int) -> nat
    decreases n,
{
    if n <= 0 {
        0
    } else {
        bound_before(sounds, n - 1) + if sounds[n - 1].hotkey is Some {
            1nat
        } else {
            0
        }
    }
}

proof fn lemma_bound_before(a: Seq<SoundView>, b: Seq<SoundView>, n: int)
    requires
        n <= a.len(),
        n <= b.len(),
        forall|i: int| 0 <= i < n ==> #[trigger] a[i] == b[i],
    ensures
        bound_before(a, n) == bound_before(b, n),
    decreases n,
{
    if n > 0 {
        assert(a[n - 1] == b[n - 1]);
        lemma_bound_before(a, b, n - 1);
    }
}

/// Whether `b` is the shortcut of the sound at place `i`, with its file and its volume.
pub open spec fn is_shortcut_of(sounds: Seq<SoundView>, i: int, b: (Seq<char>, HkAction)) -> bool {
    &&& 0 <= i < sounds.len()
    &&& sounds[i].hotkey == Some(b.0)
    &&& b.1 == HkAction::Play { path: sounds[i].path, volume: sounds[i].volume }
}

/// Each sound with a shortcut has a place of its own among the shortcuts, in the order of
/// the sounds, and that place holds its shortcut, its file and its volume.
proof fn lemma_sound_bindings(sounds: Seq<SoundView>)
    ensures
        sound_bindings(sounds).len() == bound_before(sounds, sounds.len() as int),
        forall|i: int|
            0 <= i < sounds.len() && (#[trigger] sounds[i]).hotkey is Some ==> {
                &&& 0 <= bound_before(sounds, i) < sound_bindings(sounds).len()
                &&& sound_bindings(sounds)[bound_before(sounds, i) as int] == (
                    sounds[i].hotkey->0,
                    HkAction::Play { path: sounds[i].path, volume: sounds[i].volume },
                )
            },
    decreases sounds.len(),
{
    if sounds.len() > 0 {
        let init = sounds.drop_last();
        let n = sounds.len() - 1;
        lemma_sound_bindings(init);
        lemma_bound_before(init, sounds, n);
        assert(sounds[n] == sounds.last());
        let r = sound_bindings(sounds);
        let before = sound_bindings(init);
        assert forall|i: int| 0 <= i < sounds.len() && (#[trigger] sounds[i]).hotkey is Some implies 0
            <= bound_before(sounds, i) < r.len() && r[bound_before(sounds, i) as int] == (
            sounds[i].hotkey->0,
            HkAction::Play { path: sounds[i].path, volume: sounds[i].volume },
        ) by {
            if i < n {
                assert(init[i] == sounds[i]);
                lemma_bound_before(init, sounds, i);
                assert(r[bound_before(init, i) as int] == before[bound_before(init, i) as int]);
            }
        }
    }
}

/// Every shortcut of the sounds is that of one of them.
proof fn lemma_from_a_sound(sounds: Seq<SoundView>, k: int)
    requires
        0 <= k < sound_bindings(sounds).len(),
    ensures
        exists|i: int| is_shortcut_of(sounds, i, sound_bindings(sounds)[k]),
    decreases sounds.len(),
{
    let b = sound_bindings(sounds)[k];
    if sounds.len() > 0 {
        let init = sounds.drop_last();
        let n = sounds.len() - 1;
        if k < sound_bindings(init).len() {
            lemma_from_a_sound(init, k);
            let i = choose|i: int| is_shortcut_of(init, i, sound_bindings(init)[k]);
            assert(sounds[i] == init[i]);
            assert(is_shortcut_of(sounds, i, b));
        } else {
            assert(sounds[n] == sounds.last());
            assert(is_shortcut_of(sounds, n, b));
        }
    }
}

/// The shortcut of each sound plays that very sound, as loud as it is set. The shortcuts
/// come in the order of the sounds.
pub proof fn every_shortcut_plays_its_own_sound(app: AppView, i: int)
    requires
        app.profile is Some,
        0 <= i < app.profile->0.sounds.len(),
        app.profile->0.sounds[i].hotkey is Some,
    ensures
        ({
            let s = app.profile->0.sounds[i];
            let k = bound_before(app.profile->0.sounds, i) as int;
            &&& 0 <= k < bindings(app).len()
            &&& bindings(app)[k] == (s.hotkey->0, HkAction::Play { path: s.path, volume: s.volume })
        }),
{
    let sounds = app.profile->0.sounds;
    lemma_sound_bindings(sounds);
    assert(sounds[i].hotkey is Some);
}

/// Every shortcut that plays something is that of a sound with this file and this volume;
/// the only other one stops all sounds, comes last, and is there exactly if it is set.
pub proof fn no_other_shortcuts_work(app: AppView, k: int)
    requires
        0 <= k < bindings(app).len(),
    ensures
        bindings(app).len() == (match app.profile {
            Some(p) => bound_before(p.sounds, p.sounds.len() as int),
            None => 0,
        }) + (if app.config.stop_hotkey is Some {
            1int
        } else {
            0
        }),
        bindings(app)[k].1 is Play ==> app.profile is Some && exists|i: int|
            is_shortcut_of(app.profile->0.sounds, i, bindings(app)[k]),
        bindings(app)[k].1 is StopAll ==> app.config.stop_hotkey == Some(bindings(app)[k].0) && k
            == bindings(app).len() - 1,
        app.config.stop_hotkey is Some ==> bindings(app).last() == (
            app.config.stop_hotkey->0,
            HkAction::StopAll,
        ),
{
    match app.profile {
        Some(p) => {
            lemma_sound_bindings(p.sounds);
            let s = sound_bindings(p.sounds);
            if k < s.len() {
                assert(bindings(app)[k] == s[k]);
                lemma_from_a_sound(p.sounds, k);
            }
        },
        None => {},
    }
}

/// A shortcut stops all sounds exactly if one is set for that.
pub proof fn the_stop_shortcut_works(app: AppView)
    ensures
        app.config.stop_hotkey is Some ==> bindings(app).contains(
            (app.config.stop_hotkey->0, HkAction::StopAll),
        ),
        app.profile is None && app.config.stop_hotkey is None ==> bindings(app).len() == 0,
{
    if app.config.stop_hotkey is Some {
        let n = bindings(app).len() - 1;
        assert(bindings(app)[n] == (app.config.stop_hotkey->0, HkAction::StopAll));
    }
}

/// Registering shortcuts leaves alone what all other hotkeys do.
pub proof fn hotkeys_of_others_are_left_alone(
    b: Bindings,
    list: Seq<(Seq<char>, HkAction)>,
    outcomes: Seq<Seq<bool>>,
    id: u32,
    pressed: bool,
)
    requires
        outcomes.len() == list.len(),
        forall|j: int|
            0 <= j < list.len() ==> (#[trigger] outcomes[j]).len() == parsed(list[j].0).len(),
        forall|j: int, l: int|
            0 <= j < list.len() && 0 <= l < outcomes[j].len() && #[trigger] outcomes[j][l] ==> parsed(
                list[j].0,
            )[l].id != id,
    ensures
        triggered(all_registered(b, list, outcomes), id, pressed) == triggered(b, id, pressed),
    decreases list.len(),
{
    if list.len() > 0 {
        let n = list.len() - 1;
        let l = list.drop_last();
        let o = outcomes.drop_last();
        assert forall|j: int| 0 <= j < l.len() implies (#[trigger] o[j]).len() == parsed(l[j].0).len() by {
            assert(outcomes[j].len() == parsed(list[j].0).len());
        }
        assert forall|j: int, m: int|
            0 <= j < l.len() && 0 <= m < o[j].len() && #[trigger] o[j][m] implies parsed(l[j].0)[m].id
            != id by {
            assert(outcomes[j][m]);
        }
        hotkeys_of_others_are_left_alone(b, l, o, id, pressed);
        assert(outcomes[n].len() == parsed(list[n].0).len());
        assert forall|m: int| 0 <= m < parsed(list[n].0).len() && outcomes[n][m] implies (
        #[trigger] parsed(list[n].0)[m]).id != id by {
            assert(outcomes[n][m]);
        }
        other_hotkeys_keep_their_action(
            all_registered(b, l, o),
            parsed(list[n].0),
            outcomes[n],
            list[n].1,
            id,
            pressed,
        );
    }
}

/// Nothing is set off when a hotkey comes up, nor by a number that no hotkey has.
pub proof fn only_pressed_hotkeys_do_something(b: Bindings, id: u32)
    ensures
        triggered(b, id, false) is None,
        !b.actions.contains_key(id) ==> triggered(b, id, true) is None,
        b.actions.contains_key(id) ==> triggered(b, id, true) == Some(b.actions[id]),
{
}

/// The hotkeys that have to be released later are those that were there and then the
/// accepted ones, each once, in order.
pub proof fn accepted_hotkeys_are_remembered(
    b: Bindings,
    keys: Seq<HotKey>,
    outcomes: Seq<bool>,
    key: HotKey,
    ok: bool,
    action: HkAction,
)
    requires
        keys.len() == outcomes.len(),
    ensures
        registered(b, Seq::empty(), Seq::empty(), action) == b,
        registered(b, keys.push(key), outcomes.push(ok), action).current == if ok {
            registered(b, keys, outcomes, action).current.push(key)
        } else {
            registered(b, keys, outcomes, action).current
        },
{
    assert(keys.push(key).drop_last() =~= keys);
    assert(outcomes.push(ok).drop_last() =~= outcomes);
}

// ---------------------------------------------------------------------------
// Captures
// ---------------------------------------------------------------------------

/// Whether a key decides a capture: it goes down, and is Escape or can be bound.
pub open spec fn decides(e: KeyEvent) -> bool {
    e.pressed && (e.key is Escape || combo_text(e.modifiers, e.key) is Some)
}

proof fn lemma_first_decides(events: Seq<KeyEvent>, i: int)
    requires
        0 <= i < events.len(),
        decides(events[i]),
        forall|j: int| 0 <= j < i ==> !decides(#[trigger] events[j]),
    ensures
        captured(events) == if events[i].key is Escape {
            Captured::Cancelled
        } else {
            Captured::Combo(combo_text(events[i].modifiers, events[i].key)->0)
        },
    decreases events.len(),
{
    if i > 0 {
        assert(!decides(events[0]));
        let rest = events.drop_first();
        assert forall|j: int| 0 <= j < i - 1 implies !decides(#[trigger] rest[j]) by {
            assert(rest[j] == events[j + 1]);
        }
        lemma_first_decides(rest, i - 1);
    }
}

proof fn lemma_none_decides(events: Seq<KeyEvent>)
    requires
        forall|j: int| 0 <= j < events.len() ==> !decides(#[trigger] events[j]),
    ensures
        captured(events) is Waiting,
    decreases events.len(),
{
    if events.len() > 0 {
        assert(!decides(events[0]));
        let rest = events.drop_first();
        assert forall|j: int| 0 <= j < rest.len() implies !decides(#[trigger] rest[j]) by {
            assert(rest[j] == events[j + 1]);
        }
        lemma_none_decides(rest);
    }
}

/// While nothing is captured, or no key decides, keys change nothing.
pub proof fn keys_change_nothing_else(app: AppView, events: Seq<KeyEvent>)
    requires
        app.capturing is None || forall|j: int|
            0 <= j < events.len() ==> !decides(#[trigger] events[j]),
    ensures
        after_capture(app, events) == app,
        capture_actions(app, events).len() == 0,
{
    if app.capturing is Some {
        lemma_none_decides(events);
    }
}

/// The first key that decides is the one that counts: Escape ends the capture and changes
/// nothing else.
pub proof fn escape_changes_nothing_else(app: AppView, events: Seq<KeyEvent>, i: int)
    requires
        app.capturing is Some,
        0 <= i < events.len(),
        events[i].pressed,
        events[i].key is Escape,
        forall|j: int| 0 <= j < i ==> !decides(#[trigger] events[j]),
    ensures
        ({
            let b = after_capture(app, events);
            &&& b.capturing is None
            &&& b.config == app.config
            &&& b.profile == app.profile
            &&& b.profiles == app.profiles
            &&& b.out_devices == app.out_devices
            &&& b.in_devices == app.in_devices
            &&& b.vbcable == app.vbcable
            &&& b.new_profile_name == app.new_profile_name
            &&& b.last_signature == app.last_signature
            &&& b.last_scan == app.last_scan
            &&& capture_actions(app, events).len() == 0
        }),
{
    lemma_first_decides(events, i);
}

/// A shortcut that is captured for a sound is bound to that sound. Every other sound is
/// exactly what it was, and the sound itself has only another shortcut; the settings and
/// the rest of the state stay. The shortcuts are kept and then the hotkeys registered.
pub proof fn a_capture_binds_its_own_sound(
    app: AppView,
    events: Seq<KeyEvent>,
    i: int,
    place: usize,
    j: int,
)
    requires
        app.capturing == Some(CaptureTarget::Sound(place)),
        app.profile is Some,
        0 <= i < events.len(),
        decides(events[i]),
        !(events[i].key is Escape),
        forall|k: int| 0 <= k < i ==> !decides(#[trigger] events[k]),
    ensures
        ({
            let b = after_capture(app, events);
            let before = app.profile->0.sounds;
            let after = b.profile->0.sounds;
            &&& b.profile is Some
            &&& b.profile->0.name == app.profile->0.name
            &&& b.profile->0.dir == app.profile->0.dir
            &&& after.len() == before.len()
            &&& 0 <= j < before.len() && j != place ==> after[j] == before[j]
            &&& place < before.len() ==> {
                &&& after[place as int].hotkey == combo_text(events[i].modifiers, events[i].key)
                &&& after[place as int].name == before[place as int].name
                &&& after[place as int].path == before[place as int].path
                &&& after[place as int].volume == before[place as int].volume
            }
            &&& b.capturing is None
            &&& b.config == app.config
            &&& b.profiles == app.profiles
            &&& b.out_devices == app.out_devices
            &&& b.in_devices == app.in_devices
            &&& b.vbcable == app.vbcable
            &&& b.new_profile_name == app.new_profile_name
            &&& b.last_signature == app.last_signature
            &&& b.last_scan == app.last_scan
        }),
        ({
            let actions = capture_actions(app, events);
            actions.len() == 2 && actions[0] is SaveBindings && actions[1] is Reregister
        }),
{
    lemma_first_decides(events, i);
}

/// A shortcut that is captured for stopping all sounds is set for that, and changes no
/// other setting and no sound. The settings are kept and then the hotkeys registered.
pub proof fn a_capture_sets_the_stop_shortcut(app: AppView, events: Seq<KeyEvent>, i: int)
    requires
        app.capturing == Some(CaptureTarget::Stop),
        0 <= i < events.len(),
        decides(events[i]),
        !(events[i].key is Escape),
        forall|k: int| 0 <= k < i ==> !decides(#[trigger] events[k]),
    ensures
        ({
            let b = after_capture(app, events);
            &&& b.config.stop_hotkey == combo_text(events[i].modifiers, events[i].key)
            &&& b.config.output_device == app.config.output_device
            &&& b.config.input_device == app.config.input_device
            &&& b.config.monitor_device == app.config.monitor_device
            &&& b.config.effect_volume == app.config.effect_volume
            &&& b.config.mic_passthrough == app.config.mic_passthrough
            &&& b.config.repeat_mode == app.config.repeat_mode
            &&& b.config.autostart == app.config.autostart
            &&& b.config.active_profile == app.config.active_profile
            &&& b.config.external_profiles == app.config.external_profiles
            &&& b.profile == app.profile
            &&& b.capturing is None
            &&& b.profiles == app.profiles
            &&& b.out_devices == app.out_devices
            &&& b.in_devices == app.in_devices
            &&& b.vbcable == app.vbcable
            &&& b.new_profile_name == app.new_profile_name
            &&& b.last_signature == app.last_signature
            &&& b.last_scan == app.last_scan
        }),
        ({
            let actions = capture_actions(app, events);
            actions.len() == 2 && actions[0] is SaveConfig && actions[1] is Reregister
        }),
{
    lemma_first_decides(events, i);
}

/// A capture for a sound without a profile ends, and changes nothing else.
pub proof fn a_capture_without_a_profile(app: AppView, events: Seq<KeyEvent>, i: int, place: usize)
    requires
        app.capturing == Some(CaptureTarget::Sound(place)),
        app.profile is None,
        0 <= i < events.len(),
        decides(events[i]),
        !(events[i].key is Escape),
        forall|k: int| 0 <= k < i ==> !decides(#[trigger] events[k]),
    ensures
        after_capture(app, events).capturing is None,
        after_capture(app, events).profile is None,
        after_capture(app, events).config == app.config,
        capture_actions(app, events).len() == 1 && capture_actions(app, events)[0] is Reregister,
{
    lemma_first_decides(events, i);
}

} // verus!

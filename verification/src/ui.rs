//! What the window shows, and what it means when the user touches it.

use crate::app::{App, AppView, CaptureTarget};
use crate::config::{lookup, RepeatMode, Settings, Volume};
use crate::profile::SoundView;
use crate::text::{is_text, list_contains, opt_text, text_eq, texts};
use crate::work::{Pending, PendingView};
use vstd::prelude::*;
use vstd::string::*;

verus! {

// ---------------------------------------------------------------------------
// Settings
// ---------------------------------------------------------------------------

/// What the user did to the settings.
pub enum SettingsEvent {
    /// Asked for the page that the virtual cable comes from.
    OpenDownloadPage,
    /// Asked to look for the virtual cable again.
    Redetect,
    /// Chose an output device; `None` is the default device.
    ChooseOutput(Option<String>),
    /// Chose a microphone; `None` is the default device.
    ChooseInput(Option<String>),
    /// Chose a monitor device; `None` is no monitor.
    ChooseMonitor(Option<String>),
    /// Nothing; all devices have been shown.
    DevicesShown,
    /// Switched the microphone on or off.
    SetMicPassthrough(bool),
    /// Changed how loud the effects are.
    SetEffectVolume(Volume),
    /// Chose what pressing a hotkey again does.
    SetRepeatMode(RepeatMode),
    /// Chose whether the program starts with the system.
    SetAutostart(bool),
    /// Asked to set the audio chain up again after an error.
    Retry,
}

/// The contents of what the user did to the settings.
pub enum SettingsEventView {
    OpenDownloadPage,
    Redetect,
    ChooseOutput(Option<Seq<char>>),
    ChooseInput(Option<Seq<char>>),
    ChooseMonitor(Option<Seq<char>>),
    DevicesShown,
    SetMicPassthrough(bool),
    SetEffectVolume(Volume),
    SetRepeatMode(RepeatMode),
    SetAutostart(bool),
    Retry,
}

impl View for SettingsEvent {
    type V = SettingsEventView;

    open spec fn view(&self) -> SettingsEventView {
        match self {
            SettingsEvent::OpenDownloadPage => SettingsEventView::OpenDownloadPage,
            SettingsEvent::Redetect => SettingsEventView::Redetect,
            SettingsEvent::ChooseOutput(d) => SettingsEventView::ChooseOutput(opt_text(*d)),
            SettingsEvent::ChooseInput(d) => SettingsEventView::ChooseInput(opt_text(*d)),
            SettingsEvent::ChooseMonitor(d) => SettingsEventView::ChooseMonitor(opt_text(*d)),
            SettingsEvent::DevicesShown => SettingsEventView::DevicesShown,
            SettingsEvent::SetMicPassthrough(on) => SettingsEventView::SetMicPassthrough(*on),
            SettingsEvent::SetEffectVolume(v) => SettingsEventView::SetEffectVolume(*v),
            SettingsEvent::SetRepeatMode(m) => SettingsEventView::SetRepeatMode(*m),
            SettingsEvent::SetAutostart(on) => SettingsEventView::SetAutostart(*on),
            SettingsEvent::Retry => SettingsEventView::Retry,
        }
    }
}

/// What has to be done at once when a setting changes.
#[derive(Clone, Copy, PartialEq, Eq, Structural, Debug)]
pub enum SettingsAction {
    OpenDownloadPage,
    RefreshDevices,
    SetMicPassthrough(bool),
    SetEffectVolume(Volume),
    SetRepeatMode(RepeatMode),
    SetAutostart(bool),
    SaveConfig,
}

/// The names of the devices that can be chosen while the settings are shown.
pub struct Offered {
    pub outputs: Seq<Seq<char>>,
    pub inputs: Seq<Seq<char>>,
}

/// Whether a choice is offered: a listed device, or none.
pub open spec fn is_offered(devices: Seq<Seq<char>>, choice: Option<Seq<char>>) -> bool {
    choice matches Some(name) ==> devices.contains(name)
}

/// The selected device after a choice. What is not offered cannot be chosen.
pub open spec fn chosen(
    selected: Option<Seq<char>>,
    devices: Seq<Seq<char>>,
    choice: Option<Seq<char>>,
) -> Option<Seq<char>> {
    if is_offered(devices, choice) {
        choice
    } else {
        selected
    }
}

/// The settings after the user touched them.
pub open spec fn changed_settings(c: Settings, o: Offered, e: SettingsEventView) -> Settings {
    match e {
        SettingsEventView::ChooseOutput(d) => Settings {
            output_device: chosen(c.output_device, o.outputs, d),
            ..c
        },
        SettingsEventView::ChooseInput(d) => Settings {
            input_device: chosen(c.input_device, o.inputs, d),
            ..c
        },
        SettingsEventView::ChooseMonitor(d) => Settings {
            monitor_device: chosen(c.monitor_device, o.outputs, d),
            ..c
        },
        SettingsEventView::SetMicPassthrough(on) => Settings { mic_passthrough: on, ..c },
        SettingsEventView::SetEffectVolume(v) => Settings { effect_volume: v, ..c },
        SettingsEventView::SetRepeatMode(m) => Settings { repeat_mode: m, ..c },
        SettingsEventView::SetAutostart(on) => Settings { autostart: on, ..c },
        _ => c,
    }
}

/// Whether the audio chain has to be set up anew: a device was changed, or it was
/// asked for. Looking for the cable again is only offered while it is missing.
pub open spec fn needs_rebuild(a: AppView, o: Offered, e: SettingsEventView) -> bool {
    let c = changed_settings(a.config, o, e);
    match e {
        SettingsEventView::Redetect => !a.vbcable,
        SettingsEventView::ChooseOutput(_) => c.output_device != a.config.output_device,
        SettingsEventView::ChooseInput(_) => c.input_device != a.config.input_device,
        SettingsEventView::ChooseMonitor(_) => c.monitor_device != a.config.monitor_device,
        SettingsEventView::Retry => true,
        _ => false,
    }
}

/// What has to be done at once. A change of devices is kept when all devices have
/// been shown.
pub open spec fn settings_actions(a: AppView, rebuild: bool, e: SettingsEventView) -> Seq<
    SettingsAction,
> {
    match e {
        SettingsEventView::OpenDownloadPage => if a.vbcable {
            seq![]
        } else {
            seq![SettingsAction::OpenDownloadPage]
        },
        SettingsEventView::Redetect => if a.vbcable {
            seq![]
        } else {
            seq![SettingsAction::RefreshDevices]
        },
        SettingsEventView::ChooseOutput(_) => seq![],
        SettingsEventView::ChooseInput(_) => seq![],
        SettingsEventView::ChooseMonitor(_) => seq![],
        SettingsEventView::DevicesShown => if rebuild {
            seq![SettingsAction::SaveConfig]
        } else {
            seq![]
        },
        SettingsEventView::SetMicPassthrough(on) => seq![
            SettingsAction::SetMicPassthrough(on),
            SettingsAction::SaveConfig,
        ],
        SettingsEventView::SetEffectVolume(v) => seq![
            SettingsAction::SetEffectVolume(v),
            SettingsAction::SaveConfig,
        ],
        SettingsEventView::SetRepeatMode(m) => seq![
            SettingsAction::SetRepeatMode(m),
            SettingsAction::SaveConfig,
        ],
        SettingsEventView::SetAutostart(on) => seq![
            SettingsAction::SetAutostart(on),
            SettingsAction::SaveConfig,
        ],
        SettingsEventView::Retry => seq![],
    }
}

/// Chooses one of the devices, or none. Takes note if that is a change.
pub fn device_combo(
    selected: &mut Option<String>,
    devices: &Vec<String>,
    choice: Option<String>,
    changed: &mut bool,
)
    ensures
        opt_text(*final(selected)) == chosen(
            opt_text(*old(selected)),
            texts(devices@),
            opt_text(choice),
        ),
        *final(changed) == (*old(changed) || opt_text(*final(selected)) != opt_text(*old(selected))),
{
    let offered = match &choice {
        Some(name) => list_contains(devices, name.as_str()),
        None => true,
    };
    let same = match (&*selected, &choice) {
        (Some(a), Some(b)) => text_eq(a.as_str(), b.as_str()),
        (None, None) => true,
        _ => false,
    };
    if offered && !same {
        *selected = choice;
        *changed = true;
    }
}

/// A choice leaves the device that was selected, or selects none, or one of those that
/// are offered.
pub proof fn only_offered_devices_are_chosen(
    selected: Option<Seq<char>>,
    devices: Seq<Seq<char>>,
    choice: Option<Seq<char>>,
)
    ensures
        ({
            let r = chosen(selected, devices, choice);
            r == selected || r is None || devices.contains(r->0)
        }),
        is_offered(devices, choice) ==> chosen(selected, devices, choice) == choice,
{
}

impl App {
    /// Handles what the user did to the settings, while these devices were shown.
    /// Returns what has to be done at once.
    pub fn ui_settings(
        &mut self,
        out_devices: &Vec<String>,
        in_devices: &Vec<String>,
        pending: &mut Pending,
        event: SettingsEvent,
    ) -> (r: Vec<SettingsAction>)
        ensures
            final(self)@ == (AppView {
                config: changed_settings(
                    old(self)@.config,
                    Offered { outputs: texts(out_devices@), inputs: texts(in_devices@) },
                    event@,
                ),
                ..old(self)@
            }),
            final(pending)@ == (PendingView {
                rebuild_engine: old(pending)@.rebuild_engine || needs_rebuild(
                    old(self)@,
                    Offered { outputs: texts(out_devices@), inputs: texts(in_devices@) },
                    event@,
                ),
                ..old(pending)@
            }),
            r@ == settings_actions(old(self)@, old(pending)@.rebuild_engine, event@),
            final(self).config.external_profiles == old(self).config.external_profiles,
    {
        let mut r: Vec<SettingsAction> = Vec::new();
        match event {
            SettingsEvent::OpenDownloadPage => {
                if !self.vbcable {
                    r.push(SettingsAction::OpenDownloadPage);
                }
            },
            SettingsEvent::Redetect => {
                if !self.vbcable {
                    r.push(SettingsAction::RefreshDevices);
                    pending.rebuild_engine = true;
                }
            },
            SettingsEvent::ChooseOutput(choice) => {
                device_combo(
                    &mut self.config.output_device,
                    out_devices,
                    choice,
                    &mut pending.rebuild_engine,
                );
            },
            SettingsEvent::ChooseInput(choice) => {
                device_combo(
                    &mut self.config.input_device,
                    in_devices,
                    choice,
                    &mut pending.rebuild_engine,
                );
            },
            SettingsEvent::ChooseMonitor(choice) => {
                device_combo(
                    &mut self.config.monitor_device,
                    out_devices,
                    choice,
                    &mut pending.rebuild_engine,
                );
            },
            SettingsEvent::DevicesShown => {
                if pending.rebuild_engine {
                    r.push(SettingsAction::SaveConfig);
                }
            },
            SettingsEvent::SetMicPassthrough(on) => {
                self.config.mic_passthrough = on;
                r.push(SettingsAction::SetMicPassthrough(on));
                r.push(SettingsAction::SaveConfig);
            },
            SettingsEvent::SetEffectVolume(v) => {
                self.config.effect_volume = v;
                r.push(SettingsAction::SetEffectVolume(v));
                r.push(SettingsAction::SaveConfig);
            },
            SettingsEvent::SetRepeatMode(m) => {
                self.config.repeat_mode = m;
                r.push(SettingsAction::SetRepeatMode(m));
                r.push(SettingsAction::SaveConfig);
            },
            SettingsEvent::SetAutostart(on) => {
                self.config.autostart = on;
                r.push(SettingsAction::SetAutostart(on));
                r.push(SettingsAction::SaveConfig);
            },
            SettingsEvent::Retry => {
                pending.rebuild_engine = true;
            },
        }
        r
    }
}

/// Every change of the settings is kept: at once, or, for a change of devices, when
/// all devices have been shown.
pub proof fn changed_settings_are_kept(
    a: AppView,
    o: Offered,
    rebuild: bool,
    e: SettingsEventView,
)
    ensures
        changed_settings(a.config, o, e) != a.config ==> {
            ||| settings_actions(a, rebuild, e).contains(SettingsAction::SaveConfig)
            ||| needs_rebuild(a, o, e) && settings_actions(
                a,
                true,
                SettingsEventView::DevicesShown,
            ).contains(SettingsAction::SaveConfig)
        },
{
    let shown = settings_actions(a, true, SettingsEventView::DevicesShown);
    assert(shown[0] == SettingsAction::SaveConfig);
    let now = settings_actions(a, rebuild, e);
    if now.len() == 2 {
        assert(now[1] == SettingsAction::SaveConfig);
    }
}

// ---------------------------------------------------------------------------
// Profiles and sounds
// ---------------------------------------------------------------------------

/// What the user did to the profiles and sounds.
pub enum SoundsEvent {
    /// Chose a profile.
    ChooseProfile(String),
    /// Asked to see the folder of the profile.
    OpenFolder,
    /// Asked to take the profile off the list.
    RemoveProfile,
    /// Asked for a new profile, from what is typed in.
    NewProfile,
    /// Asked to pick a folder.
    PickFolder,
    /// Asked for a shortcut that stops all sounds.
    CaptureStop,
    /// Asked to take that shortcut away.
    ClearStop,
    /// Asked to play a sound.
    Play(usize),
    /// Changed how loud a sound is.
    SetVolume(usize, Volume),
    /// Asked to take the shortcut of a sound away.
    ClearHotkey(usize),
    /// Asked for a shortcut for a sound.
    CaptureSound(usize),
}

/// The contents of what the user did to the profiles and sounds.
pub enum SoundsEventView {
    ChooseProfile(Seq<char>),
    OpenFolder,
    RemoveProfile,
    NewProfile,
    PickFolder,
    CaptureStop,
    ClearStop,
    Play(usize),
    SetVolume(usize, Volume),
    ClearHotkey(usize),
    CaptureSound(usize),
}

impl View for SoundsEvent {
    type V = SoundsEventView;

    open spec fn view(&self) -> SoundsEventView {
        match self {
            SoundsEvent::ChooseProfile(name) => SoundsEventView::ChooseProfile(name@),
            SoundsEvent::OpenFolder => SoundsEventView::OpenFolder,
            SoundsEvent::RemoveProfile => SoundsEventView::RemoveProfile,
            SoundsEvent::NewProfile => SoundsEventView::NewProfile,
            SoundsEvent::PickFolder => SoundsEventView::PickFolder,
            SoundsEvent::CaptureStop => SoundsEventView::CaptureStop,
            SoundsEvent::ClearStop => SoundsEventView::ClearStop,
            SoundsEvent::Play(i) => SoundsEventView::Play(*i),
            SoundsEvent::SetVolume(i, v) => SoundsEventView::SetVolume(*i, *v),
            SoundsEvent::ClearHotkey(i) => SoundsEventView::ClearHotkey(*i),
            SoundsEvent::CaptureSound(i) => SoundsEventView::CaptureSound(*i),
        }
    }
}

/// The sounds of the profile in use.
pub open spec fn sounds_of(a: AppView) -> Seq<SoundView> {
    match a.profile {
        Some(p) => p.sounds,
        None => seq![],
    }
}

/// Whether the profile in use is a folder outside the profiles directory.
pub open spec fn uses_external(a: AppView) -> bool {
    a.config.active_profile is Some && lookup(
        a.config.external_profiles,
        a.config.active_profile->0,
    ) is Some
}

/// Whether the sound at place `i` has a shortcut.
pub open spec fn has_hotkey(a: AppView, i: int) -> bool {
    0 <= i < sounds_of(a).len() && sounds_of(a)[i].hotkey is Some
}

/// What is asked for after the user touched the profiles and sounds. Only listed
/// profiles and sounds that are there count. The profile in use cannot be chosen again,
/// only outside folders can be taken off the list, only shortcuts that are there can be
/// taken away, and a capture that runs is not started again.
pub open spec fn asked(a: AppView, p: PendingView, e: SoundsEventView) -> PendingView {
    match e {
        SoundsEventView::ChooseProfile(name) => if a.config.active_profile != Some(name)
            && a.profiles.contains(name) {
            PendingView { switch_profile: Some(name), ..p }
        } else {
            p
        },
        SoundsEventView::OpenFolder => PendingView { open_folder: true, ..p },
        SoundsEventView::RemoveProfile => if uses_external(a) {
            PendingView { remove_external: a.config.active_profile, ..p }
        } else {
            p
        },
        SoundsEventView::NewProfile => PendingView { new_profile: Some(a.new_profile_name), ..p },
        SoundsEventView::PickFolder => PendingView { pick_folder: true, ..p },
        SoundsEventView::CaptureStop => PendingView { capture: Some(CaptureTarget::Stop), ..p },
        SoundsEventView::ClearStop => if a.config.stop_hotkey is Some {
            PendingView { clear_stop: true, ..p }
        } else {
            p
        },
        SoundsEventView::Play(i) => if i < sounds_of(a).len() {
            PendingView { play: p.play.push(i), ..p }
        } else {
            p
        },
        SoundsEventView::SetVolume(i, v) => if i < sounds_of(a).len() {
            PendingView { set_volume: p.set_volume.push((i, v)), ..p }
        } else {
            p
        },
        SoundsEventView::ClearHotkey(i) => if has_hotkey(a, i as int) {
            PendingView { clear_hotkey: p.clear_hotkey.push(i), ..p }
        } else {
            p
        },
        SoundsEventView::CaptureSound(i) => if i < sounds_of(a).len() && a.capturing != Some(
            CaptureTarget::Sound(i),
        ) {
            PendingView { capture: Some(CaptureTarget::Sound(i)), ..p }
        } else {
            p
        },
    }
}

impl App {
    /// Whether the profile in use is a folder outside the profiles directory.
    pub fn is_external(&self) -> (r: bool)
        ensures
            r == uses_external(self@),
    {
        match &self.config.active_profile {
            Some(name) => self.config.external_profiles.contains_key(name.as_str()),
            None => false,
        }
    }

    /// How many sounds the profile in use has.
    fn sound_count(&self) -> (r: usize)
        ensures
            r == sounds_of(self@).len(),
    {
        match &self.profile {
            Some(p) => p.sounds.len(),
            None => 0,
        }
    }

    /// Whether the sound at place `i` has a shortcut.
    pub fn sound_has_hotkey(&self, i: usize) -> (r: bool)
        ensures
            r == has_hotkey(self@, i as int),
    {
        match &self.profile {
            Some(p) => {
                if i < p.sounds.len() {
                    assert(p@.sounds[i as int] == p.sounds@[i as int]@);
                    p.sounds[i].hotkey.is_some()
                } else {
                    false
                }
            },
            None => false,
        }
    }

    /// Whether a shortcut for the sound at place `i` is being captured.
    pub fn is_capturing(&self, i: usize) -> (r: bool)
        ensures
            r == (self@.capturing == Some(CaptureTarget::Sound(i))),
    {
        match self.capturing {
            Some(CaptureTarget::Sound(j)) => i == j,
            _ => false,
        }
    }

    /// Handles what the user did to the profiles and sounds.
    pub fn ui_sounds(&self, pending: &mut Pending, event: SoundsEvent)
        ensures
            final(pending)@ == asked(self@, old(pending)@, event@),
    {
        match event {
            SoundsEvent::ChooseProfile(name) => {
                if !is_text(&self.config.active_profile, name.as_str()) && list_contains(
                    &self.profiles,
                    name.as_str(),
                ) {
                    pending.switch_profile = Some(name);
                }
            },
            SoundsEvent::OpenFolder => {
                pending.open_folder = true;
            },
            SoundsEvent::RemoveProfile => {
                if self.is_external() {
                    pending.remove_external = self.config.active_profile.clone();
                }
            },
            SoundsEvent::NewProfile => {
                pending.new_profile = Some(self.new_profile_name.clone());
            },
            SoundsEvent::PickFolder => {
                pending.pick_folder = true;
            },
            SoundsEvent::CaptureStop => {
                pending.capture = Some(CaptureTarget::Stop);
            },
            SoundsEvent::ClearStop => {
                if self.config.stop_hotkey.is_some() {
                    pending.clear_stop = true;
                }
            },
            SoundsEvent::Play(i) => {
                if i < self.sound_count() {
                    pending.play.push(i);
                }
            },
            SoundsEvent::SetVolume(i, v) => {
                if i < self.sound_count() {
                    pending.set_volume.push((i, v));
                }
            },
            SoundsEvent::ClearHotkey(i) => {
                if self.sound_has_hotkey(i) {
                    pending.clear_hotkey.push(i);
                }
            },
            SoundsEvent::CaptureSound(i) => {
                if i < self.sound_count() && !self.is_capturing(i) {
                    pending.capture = Some(CaptureTarget::Sound(i));
                }
            },
        }
    }
}

// ---------------------------------------------------------------------------
// Labels
// ---------------------------------------------------------------------------

/// The text, or what stands for it where there is none.
pub open spec fn text_or(s: Option<Seq<char>>, none: Seq<char>) -> Seq<char> {
    match s {
        Some(t) => t,
        None => none,
    }
}

/// The text, or what stands for it where there is none: the label of a device menu.
pub fn label_or(s: &Option<String>, none: &str) -> (r: String)
    ensures
        r@ == text_or(opt_text(*s), none@),
{
    match s {
        Some(t) => t.clone(),
        None => none.to_owned(),
    }
}

impl App {
    /// The label of the profile menu.
    pub fn current_profile_label(&self) -> (r: String)
        ensures
            r@ == text_or(self@.config.active_profile, "（无）"@),
    {
        label_or(&self.config.active_profile, "（无）")
    }

    /// The label of a profile in the menu: folders outside the profiles directory are
    /// marked.
    pub fn profile_label(&self, name: &str) -> (r: String)
        ensures
            r@ == if lookup(self@.config.external_profiles, name@) is Some {
                "📁 "@ + name@
            } else {
                name@
            },
    {
        if self.config.external_profiles.contains_key(name) {
            let mut s = "📁 ".to_owned();
            s.append(name);
            s
        } else {
            name.to_owned()
        }
    }

    /// The label of the shortcut that stops all sounds.
    pub fn stop_label(&self) -> (r: String)
        ensures
            r@ == "停止所有音效："@ + text_or(self@.config.stop_hotkey, "未设置"@),
    {
        let mut s = "停止所有音效：".to_owned();
        let key = label_or(&self.config.stop_hotkey, "未设置");
        s.append(key.as_str());
        s
    }

    /// The label of the shortcut button of the sound at place `i`.
    pub fn hotkey_label(&self, i: usize) -> (r: String)
        ensures
            r@ == if self@.capturing == Some(CaptureTarget::Sound(i)) {
                "按下快捷键…（Esc 取消）"@
            } else if has_hotkey(self@, i as int) {
                sounds_of(self@)[i as int].hotkey->0
            } else {
                "设快捷键"@
            },
    {
        if self.is_capturing(i) {
            return "按下快捷键…（Esc 取消）".to_owned();
        }
        if let Some(p) = &self.profile {
            if i < p.sounds.len() {
                assert(p@.sounds[i as int] == p.sounds@[i as int]@);
                return label_or(&p.sounds[i].hotkey, "设快捷键");
            }
        }
        "设快捷键".to_owned()
    }
}

// ---------------------------------------------------------------------------
// Fonts
// ---------------------------------------------------------------------------

/// The font files to try, best first.
pub open spec fn font_files() -> Seq<Seq<char>> {
    seq![
        "C:/Windows/Fonts/msyh.ttc"@,
        "C:/Windows/Fonts/simhei.ttf"@,
        "/System/Library/Fonts/PingFang.ttc"@,
        "/System/Library/Fonts/STHeiti Light.ttc"@,
    ]
}

/// The `i`th font file to try.
pub fn font_file(i: usize) -> (r: Option<&'static str>)
    ensures
        r matches Some(path) ==> i < font_files().len() && path@ == font_files()[i as int],
        r is None ==> i >= font_files().len(),
{
    if i == 0 {
        Some("C:/Windows/Fonts/msyh.ttc")
    } else if i == 1 {
        Some("C:/Windows/Fonts/simhei.ttf")
    } else if i == 2 {
        Some("/System/Library/Fonts/PingFang.ttc")
    } else if i == 3 {
        Some("/System/Library/Fonts/STHeiti Light.ttc")
    } else {
        None
    }
}

/// The search for a font file that can be read.
#[derive(Clone, Copy, PartialEq, Eq, Structural, Debug)]
pub enum FontSearch {
    /// The font file at this place has to be read.
    Try(usize),
    /// The font file at this place is used.
    Found(usize),
    /// None of the font files can be read.
    Missing,
}

/// The search after the font file that had to be read was, or could not be.
pub open spec fn font_step(s: FontSearch, readable: bool) -> FontSearch {
    match s {
        FontSearch::Try(i) => if readable {
            FontSearch::Found(i)
        } else if i + 1 < font_files().len() {
            FontSearch::Try((i + 1) as usize)
        } else {
            FontSearch::Missing
        },
        _ => s,
    }
}

impl FontSearch {
    /// The first font file has to be read.
    pub fn new() -> (r: Self)
        ensures
            r == FontSearch::Try(0),
    {
        FontSearch::Try(0)
    }

    /// Takes note of whether the font file could be read.
    pub fn answered(self, readable: bool) -> (r: Self)
        ensures
            r == font_step(self, readable),
    {
        match self {
            FontSearch::Try(i) => if readable {
                FontSearch::Found(i)
            } else if i < 3 {
                FontSearch::Try(i + 1)
            } else {
                FontSearch::Missing
            },
            FontSearch::Found(i) => FontSearch::Found(i),
            FontSearch::Missing => FontSearch::Missing,
        }
    }
}

/// The search after these answers.
pub open spec fn font_search(readable: Seq<bool>) -> FontSearch
    decreases readable.len(),
{
    if readable.len() == 0 {
        FontSearch::Try(0)
    } else {
        font_step(font_search(readable.drop_last()), readable.last())
    }
}

/// Whether none of the font files before place `i` can be read.
pub open spec fn none_before(readable: Seq<bool>, i: int) -> bool {
    forall|j: int| 0 <= j < i ==> !(#[trigger] readable[j])
}

/// The first font file that can be read is used; only if none can, the search ends
/// without one.
pub proof fn first_readable_font_is_used(readable: Seq<bool>)
    ensures
        match font_search(readable) {
            FontSearch::Try(i) => i == readable.len() && i < font_files().len() && none_before(
                readable,
                i as int,
            ),
            FontSearch::Found(i) => i < readable.len() && i < font_files().len() && readable[i as int]
                && none_before(readable, i as int),
            FontSearch::Missing => readable.len() >= font_files().len() && none_before(
                readable,
                font_files().len() as int,
            ),
        },
    decreases readable.len(),
{
    if readable.len() > 0 {
        let before = readable.drop_last();
        first_readable_font_is_used(before);
        assert forall|j: int| 0 <= j < before.len() implies #[trigger] readable[j] == before[j] by {}
    }
}

/// Makes the font `name` the first of the proportional fonts and the last of those of
/// fixed width.
pub fn add_font(proportional: &mut Vec<String>, monospace: &mut Vec<String>, name: &str)
    ensures
        texts(final(proportional)@) == seq![name@] + texts(old(proportional)@),
        texts(final(monospace)@) == texts(old(monospace)@).push(name@),
{
    proportional.insert(0, name.to_owned());
    monospace.push(name.to_owned());
    assert(texts(proportional@) =~= seq![name@] + texts(old(proportional)@));
    assert(texts(monospace@) =~= texts(old(monospace)@).push(name@));
}

} // verus!

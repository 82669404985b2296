//! The state of the program: settings, the profile in use, what is being captured.

use crate::audio::{first_cable, guess_cable_output, is_cable, vbcable_installed};
use crate::config::{AppConfig, Settings};
use crate::hotkeys::{
    accepted_hotkey_triggers_its_action, combo_text, from_egui, no_bindings,
    other_hotkeys_keep_their_action, parse_all, parsed, registered, triggered, Bindings, HkAction, HotKey,
    Hotkeys,
};
use crate::keys::{Key, KeyModifiers};
use crate::profile::{
    all_names, all_profiles, opt_profile, with_hotkey, Profile, ProfileView, Sound, SoundView,
};
use crate::text::{list_contains, opt_text, texts};
use crate::work::{action_views, Action, ActionView, Task, TaskView, Work, WorkView};
use vstd::prelude::*;

verus! {

/// What a shortcut is being captured for.
#[derive(Clone, Copy, PartialEq, Eq, Structural, Debug)]
pub enum CaptureTarget {
    Sound(usize),
    Stop,
}

/// The state of the program.
pub struct App {
    pub config: AppConfig,
    pub profiles: Vec<String>,
    pub profile: Option<Profile>,
    pub out_devices: Vec<String>,
    pub in_devices: Vec<String>,
    pub vbcable: bool,
    pub capturing: Option<CaptureTarget>,
    pub new_profile_name: String,
    pub last_signature: Vec<String>,
    /// When the folder was last looked at, in nanoseconds of a clock that never goes
    /// back.
    pub last_scan: u64,
}

/// The contents of the state.
#[verifier::ext_equal]
pub struct AppView {
    pub config: Settings,
    pub profiles: Seq<Seq<char>>,
    pub profile: Option<ProfileView>,
    pub out_devices: Seq<Seq<char>>,
    pub in_devices: Seq<Seq<char>>,
    pub vbcable: bool,
    pub capturing: Option<CaptureTarget>,
    pub new_profile_name: Seq<char>,
    pub last_signature: Seq<Seq<char>>,
    pub last_scan: u64,
}

impl View for App {
    type V = AppView;

    open spec fn view(&self) -> AppView {
        AppView {
            config: self.config@,
            profiles: texts(self.profiles@),
            profile: opt_profile(self.profile),
            out_devices: texts(self.out_devices@),
            in_devices: texts(self.in_devices@),
            vbcable: self.vbcable,
            capturing: self.capturing,
            new_profile_name: self.new_profile_name@,
            last_signature: texts(self.last_signature@),
            last_scan: self.last_scan,
        }
    }
}

// ---------------------------------------------------------------------------
// Start
// ---------------------------------------------------------------------------

/// Whether the virtual cable is among the devices.
pub open spec fn has_cable(devices: Seq<Seq<char>>) -> bool {
    exists|i: int| 0 <= i < devices.len() && is_cable(#[trigger] devices[i])
}

/// The profile to start with: the one that was in use, if it is still there, else
/// the first.
pub open spec fn start_profile(active: Option<Seq<char>>, profiles: Seq<Seq<char>>) -> Option<
    Seq<char>,
> {
    if active is Some && profiles.contains(active->0) {
        active
    } else if profiles.len() > 0 {
        Some(profiles[0])
    } else {
        None
    }
}

/// The state at the start. Where no output device was chosen yet, the virtual cable
/// is.
pub open spec fn started(
    config: Settings,
    out_devices: Seq<Seq<char>>,
    in_devices: Seq<Seq<char>>,
    listed: Seq<Seq<char>>,
    now: u64,
) -> AppView {
    let profiles = all_names(listed, config.external_profiles);
    AppView {
        config: Settings {
            output_device: if config.output_device is None {
                first_cable(out_devices)
            } else {
                config.output_device
            },
            active_profile: start_profile(config.active_profile, profiles),
            ..config
        },
        profiles,
        profile: None,
        out_devices,
        in_devices,
        vbcable: has_cable(out_devices),
        capturing: None,
        new_profile_name: seq![],
        last_signature: seq![],
        last_scan: now,
    }
}

/// What is to be done at the start: load the profile, start the audio, keep the
/// settings, register the hotkeys.
pub open spec fn start_work(active: Option<Seq<char>>) -> WorkView {
    WorkView {
        tasks: (match active {
            Some(name) => seq![TaskView::LoadProfile(name)],
            None => seq![],
        }) + seq![TaskView::StartAudio, TaskView::SaveConfig, TaskView::Reregister],
        need_reregister: false,
    }
}

impl App {
    /// The state at the start, from the settings, the devices, and the folders in
    /// the profiles directory; and what is to be done then.
    pub fn new(
        config: AppConfig,
        out_devices: Vec<String>,
        in_devices: Vec<String>,
        listed: Vec<String>,
        now: u64,
    ) -> (r: (App, Work))
        ensures
            r.0@ == started(config@, texts(out_devices@), texts(in_devices@), texts(listed@), now),
            r.1@ == start_work(r.0@.config.active_profile),
    {
        let mut config = config;
        let vbcable = vbcable_installed(&out_devices);
        if config.output_device.is_none() {
            config.output_device = guess_cable_output(&out_devices);
        }
        let profiles = all_profiles(listed, &config.external_profiles);
        let active = choose_active(&config.active_profile, &profiles);
        let mut tasks: Vec<Task> = Vec::new();
        if let Some(name) = &active {
            tasks.push(Task::LoadProfile(name.clone()));
        }
        tasks.push(Task::StartAudio);
        tasks.push(Task::SaveConfig);
        tasks.push(Task::Reregister);
        config.active_profile = active;
        let app = App {
            config,
            profiles,
            profile: None,
            out_devices,
            in_devices,
            vbcable,
            capturing: None,
            new_profile_name: String::new(),
            last_signature: Vec::new(),
            last_scan: now,
        };
        let work = Work::of(tasks, false);
        proof {
            assert(app@.last_signature =~= Seq::<Seq<char>>::empty());
            assert(app@.new_profile_name =~= Seq::<char>::empty());
            assert(work@.tasks =~= start_work(app@.config.active_profile).tasks);
        }
        (app, work)
    }

    /// Takes note of the devices that there are.
    pub fn set_devices(&mut self, out_devices: Vec<String>, in_devices: Vec<String>)
        ensures
            final(self)@ == (AppView {
                out_devices: texts(out_devices@),
                in_devices: texts(in_devices@),
                vbcable: has_cable(texts(out_devices@)),
                ..old(self)@
            }),
            final(self).config == old(self).config,
    {
        self.vbcable = vbcable_installed(&out_devices);
        self.out_devices = out_devices;
        self.in_devices = in_devices;
    }
}

fn choose_active(active: &Option<String>, profiles: &Vec<String>) -> (r: Option<String>)
    ensures
        opt_text(r) == start_profile(opt_text(*active), texts(profiles@)),
{
    if let Some(name) = active {
        if list_contains(profiles, name.as_str()) {
            return Some(name.clone());
        }
    }
    if profiles.len() > 0 {
        assert(texts(profiles@)[0] == profiles@[0]@);
        Some(profiles[0].clone())
    } else {
        None
    }
}

/// A program that starts with any profile at all has one in use, and one that is
/// there.
pub proof fn start_profile_is_there(active: Option<Seq<char>>, profiles: Seq<Seq<char>>)
    ensures
        start_profile(active, profiles) is Some <==> profiles.len() > 0,
        start_profile(active, profiles) matches Some(name) ==> profiles.contains(name),
{
    if profiles.len() > 0 {
        assert(profiles.contains(profiles[0]));
    }
    if active is Some && profiles.contains(active->0) {
        assert(profiles.len() > 0);
    }
}

// ---------------------------------------------------------------------------
// What the hotkeys do
// ---------------------------------------------------------------------------

/// A shortcut text and what it does.
pub struct Binding {
    pub combo: String,
    pub action: HkAction,
}

impl View for Binding {
    type V = (Seq<char>, HkAction);

    open spec fn view(&self) -> (Seq<char>, HkAction) {
        (self.combo@, self.action)
    }
}

/// The contents of shortcuts.
pub open spec fn binding_views(list: Seq<Binding>) -> Seq<(Seq<char>, HkAction)> {
    list.map_values(|b: Binding| b@)
}

/// The shortcuts of the sounds, in their order.
pub open spec fn sound_bindings(sounds: Seq<SoundView>) -> Seq<(Seq<char>, HkAction)>
    decreases sounds.len(),
{
    if sounds.len() == 0 {
        seq![]
    } else {
        let before = sound_bindings(sounds.drop_last());
        let s = sounds.last();
        match s.hotkey {
            Some(combo) => before.push(
                (combo, HkAction::Play { path: s.path, volume: s.volume }),
            ),
            None => before,
        }
    }
}

/// The shortcuts that work: those of the sounds of the profile in use, and then the
/// one that stops all sounds.
pub open spec fn bindings(app: AppView) -> Seq<(Seq<char>, HkAction)> {
    (match app.profile {
        Some(p) => sound_bindings(p.sounds),
        None => seq![],
    }) + (match app.config.stop_hotkey {
        Some(combo) => seq![(combo, HkAction::StopAll)],
        None => seq![],
    })
}

impl App {
    /// The shortcuts to register, in order.
    pub fn hotkey_bindings(&self) -> (r: Vec<Binding>)
        ensures
            binding_views(r@) == bindings(self@),
    {
        let mut r: Vec<Binding> = Vec::new();
        assert(binding_views(r@) =~= Seq::<(Seq<char>, HkAction)>::empty());
        if let Some(p) = &self.profile {
            let ghost sounds = p@.sounds;
            let mut i: usize = 0;
            assert(sounds.take(0) =~= Seq::<SoundView>::empty());
            while i < p.sounds.len()
                invariant
                    i <= p.sounds@.len(),
                    sounds == p@.sounds,
                    binding_views(r@) == sound_bindings(sounds.take(i as int)),
                decreases p.sounds@.len() - i,
            {
                let s = &p.sounds[i];
                assert(sounds.take(i + 1).drop_last() =~= sounds.take(i as int));
                assert(sounds.take(i + 1).last() == s@);
                if let Some(combo) = &s.hotkey {
                    let b = Binding {
                        combo: combo.clone(),
                        action: HkAction::Play { path: s.path.clone(), volume: s.volume },
                    };
                    assert(binding_views(r@.push(b)) =~= binding_views(r@).push(b@));
                    r.push(b);
                }
                i = i + 1;
            }
            assert(sounds.take(i as int) =~= sounds);
        }
        let ghost before = binding_views(r@);
        if let Some(combo) = &self.config.stop_hotkey {
            let b = Binding { combo: combo.clone(), action: HkAction::StopAll };
            assert(binding_views(r@.push(b)) =~= before + seq![b@]);
            r.push(b);
        } else {
            assert(before =~= before + Seq::<(Seq<char>, HkAction)>::empty());
        }
        r
    }
}

/// `b` after the system was asked for the hotkeys of each of the shortcuts, one after
/// the other.
pub open spec fn all_registered(
    b: Bindings,
    list: Seq<(Seq<char>, HkAction)>,
    outcomes: Seq<Seq<bool>>,
) -> Bindings
    decreases list.len(),
{
    if list.len() == 0 {
        b
    } else {
        registered(
            all_registered(b, list.drop_last(), outcomes.drop_last()),
            parsed(list.last().0),
            outcomes.last(),
            list.last().1,
        )
    }
}

/// The shortcuts while they are registered, one after the other.
pub struct Reregistration {
    list: Vec<Binding>,
    at: usize,
    keys: Vec<HotKey>,
}

/// The hotkeys of the shortcut at place `at`, if there is one.
fn keys_at(list: &Vec<Binding>, at: usize) -> (r: Vec<HotKey>)
    ensures
        at < list@.len() ==> r@ == parsed(list@[at as int].combo@),
{
    if at < list.len() {
        parse_all(list[at].combo.as_str())
    } else {
        Vec::new()
    }
}

impl Reregistration {
    /// The hotkeys at hand are those of the shortcut whose turn it is.
    #[verifier::type_invariant]
    closed spec fn inv(&self) -> bool {
        self.at < self.list@.len() ==> self.keys@ == parsed(self.list@[self.at as int].combo@)
    }

    /// The shortcuts that are registered.
    pub closed spec fn list(&self) -> Seq<(Seq<char>, HkAction)> {
        binding_views(self.list@)
    }

    /// How many of them have been dealt with.
    pub closed spec fn at(&self) -> nat {
        self.at as nat
    }

    /// The hotkeys of the shortcut whose turn it is.
    pub closed spec fn asked(&self) -> Seq<HotKey> {
        self.keys@
    }

    /// The hotkeys of the shortcut whose turn it is: the system has to be asked for
    /// each of them. `None` when all shortcuts have been dealt with.
    pub fn keys(&self) -> (r: Option<Vec<HotKey>>)
        ensures
            match r {
                Some(keys) => {
                    &&& self.at() < self.list().len()
                    &&& keys@ == parsed(self.list()[self.at() as int].0)
                    &&& keys@ == self.asked()
                },
                None => self.at() >= self.list().len(),
            },
    {
        proof {
            use_type_invariant(self);
        }
        if self.at < self.list.len() {
            assert(self.list()[self.at as int] == self.list@[self.at as int]@);
            Some(keys_at(&self.list, self.at))
        } else {
            None
        }
    }

    /// The text of the shortcut whose turn it is.
    pub fn combo(&self) -> (r: Option<String>)
        ensures
            match r {
                Some(combo) => self.at() < self.list().len() && combo@
                    == self.list()[self.at() as int].0,
                None => self.at() >= self.list().len(),
            },
    {
        if self.at < self.list.len() {
            assert(self.list()[self.at as int] == self.list@[self.at as int]@);
            Some(self.list[self.at].combo.clone())
        } else {
            None
        }
    }

    /// Takes note of which of the hotkeys of the shortcut whose turn it is the system
    /// accepted, and goes on to the next shortcut. Returns whether it accepted any.
    pub fn record(&mut self, hotkeys: &mut Hotkeys, outcomes: &Vec<bool>) -> (r: bool)
        requires
            outcomes@.len() == old(self).asked().len(),
            old(self).at() < old(self).list().len(),
        ensures
            final(hotkeys)@ == registered(
                old(hotkeys)@,
                parsed(old(self).list()[old(self).at() as int].0),
                outcomes@,
                old(self).list()[old(self).at() as int].1,
            ),
            final(self).list() == old(self).list(),
            final(self).at() == old(self).at() + 1,
            r == outcomes@.contains(true),
    {
        proof {
            use_type_invariant(&*self);
        }
        assert(self.list()[self.at as int] == self.list@[self.at as int]@);
        let r = hotkeys.register(&self.keys, outcomes, &self.list[self.at].action);
        let mut list: Vec<Binding> = Vec::new();
        let len: usize = self.list.len();
        assert(self.at < len);
        let next: usize = self.at + 1;
        std::mem::swap(&mut list, &mut self.list);
        let keys = keys_at(&list, next);
        self.at = next;
        self.keys = keys;
        self.list = list;
        r
    }
}

impl App {
    /// Drops all hotkeys, to register those of the state. Returns the hotkeys that
    /// the system has to release, and the shortcuts to register.
    pub fn reregister_hotkeys(&self, hotkeys: &mut Hotkeys) -> (r: (Vec<HotKey>, Reregistration))
        ensures
            r.0@ == old(hotkeys)@.current,
            final(hotkeys)@ == no_bindings(),
            r.1.list() == bindings(self@),
            r.1.at() == 0,
    {
        let released = hotkeys.clear();
        let list = self.hotkey_bindings();
        let keys = keys_at(&list, 0);
        (released, Reregistration { list, at: 0, keys })
    }
}

/// Registering the shortcuts of a state, one after the other, on no hotkeys, leads to
/// the hotkeys that the system accepted for all of them. `states` are the bound hotkeys
/// from the beginning to the end, and `outcomes` what the system said of each shortcut.
pub proof fn registration_leads_to_all_registered(
    app: AppView,
    states: Seq<Bindings>,
    outcomes: Seq<Seq<bool>>,
)
    requires
        states.len() == bindings(app).len() + 1,
        outcomes.len() == bindings(app).len(),
        states[0] == no_bindings(),
        forall|i: int|
            0 <= i < outcomes.len() ==> states[i + 1] == registered(
                states[i],
                parsed(bindings(app)[i].0),
                #[trigger] outcomes[i],
                bindings(app)[i].1,
            ),
    ensures
        states.last() == all_registered(no_bindings(), bindings(app), outcomes),
{
    lemma_registered_so_far(bindings(app), states, outcomes, outcomes.len() as int);
    assert(bindings(app).take(outcomes.len() as int) =~= bindings(app));
    assert(outcomes.take(outcomes.len() as int) =~= outcomes);
}

proof fn lemma_registered_so_far(
    list: Seq<(Seq<char>, HkAction)>,
    states: Seq<Bindings>,
    outcomes: Seq<Seq<bool>>,
    n: int,
)
    requires
        states.len() == list.len() + 1,
        outcomes.len() == list.len(),
        0 <= n <= list.len(),
        forall|i: int|
            0 <= i < outcomes.len() ==> states[i + 1] == registered(
                states[i],
                parsed(list[i].0),
                #[trigger] outcomes[i],
                list[i].1,
            ),
    ensures
        states[n] == all_registered(states[0], list.take(n), outcomes.take(n)),
    decreases n,
{
    if n > 0 {
        lemma_registered_so_far(list, states, outcomes, n - 1);
        assert(list.take(n).drop_last() =~= list.take(n - 1));
        assert(outcomes.take(n).drop_last() =~= outcomes.take(n - 1));
        assert(states[n] == registered(
            states[n - 1],
            parsed(list[n - 1].0),
            outcomes[n - 1],
            list[n - 1].1,
        ));
    }
}

/// Whether the system refuses a hotkey that it has accepted for an earlier shortcut.
pub open spec fn refuses_taken(
    list: Seq<(Seq<char>, HkAction)>,
    outcomes: Seq<Seq<bool>>,
) -> bool {
    forall|i: int, k: int, j: int, l: int|
        0 <= i < j < list.len() && 0 <= k < outcomes[i].len() && 0 <= l < outcomes[j].len()
            && #[trigger] outcomes[i][k] && parsed(list[i].0)[k].id == parsed(list[j].0)[l].id
            ==> !(#[trigger] outcomes[j][l])
}

/// Where the system refuses a hotkey that it has accepted before, the first of two
/// shortcuts with the same hotkey wins: the hotkey does what the first one is for.
pub proof fn first_shortcut_wins(
    b: Bindings,
    list: Seq<(Seq<char>, HkAction)>,
    outcomes: Seq<Seq<bool>>,
    i: int,
    k: int,
    j: int,
    l: int,
)
    requires
        outcomes.len() == list.len(),
        forall|m: int|
            0 <= m < list.len() ==> (#[trigger] outcomes[m]).len() == parsed(list[m].0).len(),
        refuses_taken(list, outcomes),
        0 <= i < j < list.len(),
        0 <= k < outcomes[i].len(),
        0 <= l < outcomes[j].len(),
        outcomes[i][k],
        parsed(list[j].0)[l].id == parsed(list[i].0)[k].id,
    ensures
        !outcomes[j][l],
        triggered(all_registered(b, list, outcomes), parsed(list[j].0)[l].id, true) == Some(
            list[i].1,
        ),
{
    assert forall|m: int, n: int|
        i < m < list.len() && 0 <= n < outcomes[m].len() && #[trigger] outcomes[m][n] implies parsed(
        list[m].0,
    )[n].id != parsed(list[i].0)[k].id by {
        assert(outcomes[i][k]);
    }
    registered_shortcuts_work(b, list, outcomes, i, k);
}

/// After all shortcuts were registered, an accepted hotkey does what its shortcut is
/// for, unless a later shortcut got the same hotkey.
pub proof fn registered_shortcuts_work(
    b: Bindings,
    list: Seq<(Seq<char>, HkAction)>,
    outcomes: Seq<Seq<bool>>,
    i: int,
    k: int,
)
    requires
        outcomes.len() == list.len(),
        forall|j: int|
            0 <= j < list.len() ==> (#[trigger] outcomes[j]).len() == parsed(list[j].0).len(),
        0 <= i < list.len(),
        0 <= k < outcomes[i].len(),
        outcomes[i][k],
        forall|j: int, l: int|
            i < j < list.len() && 0 <= l < outcomes[j].len() && #[trigger] outcomes[j][l] ==> parsed(
                list[j].0,
            )[l].id != parsed(list[i].0)[k].id,
    ensures
        triggered(all_registered(b, list, outcomes), parsed(list[i].0)[k].id, true) == Some(
            list[i].1,
        ),
    decreases list.len(),
{
    let n = list.len() - 1;
    let before = all_registered(b, list.drop_last(), outcomes.drop_last());
    assert(list.last() == list[n] && outcomes.last() == outcomes[n]);
    assert(outcomes[n].len() == parsed(list[n].0).len());
    if i == n {
        accepted_hotkey_triggers_its_action(
            before,
            parsed(list[n].0),
            outcomes[n],
            list[n].1,
            k,
        );
    } else {
        let l = list.drop_last();
        let o = outcomes.drop_last();
        assert forall|j: int| 0 <= j < l.len() implies (#[trigger] o[j]).len() == parsed(
            l[j].0,
        ).len() by {
            assert(outcomes[j].len() == parsed(list[j].0).len());
        }
        assert forall|j: int, m: int|
            i < j < l.len() && 0 <= m < o[j].len() && #[trigger] o[j][m] implies parsed(l[j].0)[m].id
            != parsed(l[i].0)[k].id by {
            assert(outcomes[j][m]);
        }
        registered_shortcuts_work(b, l, o, i, k);
        let id = parsed(list[i].0)[k].id;
        assert forall|m: int| 0 <= m < parsed(list[n].0).len() && outcomes[n][m] implies (
        #[trigger] parsed(list[n].0)[m]).id != id by {
            assert(outcomes[n][m]);
        }
        other_hotkeys_keep_their_action(
            before,
            parsed(list[n].0),
            outcomes[n],
            list[n].1,
            id,
            true,
        );
    }
}

// ---------------------------------------------------------------------------
// Capturing a shortcut
// ---------------------------------------------------------------------------

/// A key that went down or came up.
#[derive(Clone, Copy, PartialEq, Eq, Structural, Debug)]
pub struct KeyEvent {
    pub key: Key,
    pub pressed: bool,
    pub modifiers: KeyModifiers,
}

/// What the keys of a moment mean for a capture.
pub enum Captured {
    /// No key that counts was pressed.
    Waiting,
    /// The capture was given up.
    Cancelled,
    /// A shortcut was pressed.
    Combo(Seq<char>),
}

/// What the keys of a moment mean for a capture: the first key that went down and
/// is Escape or can be bound decides.
pub open spec fn captured(events: Seq<KeyEvent>) -> Captured
    decreases events.len(),
{
    if events.len() == 0 {
        Captured::Waiting
    } else {
        let e = events[0];
        if e.pressed && e.key is Escape {
            Captured::Cancelled
        } else if e.pressed && combo_text(e.modifiers, e.key) is Some {
            Captured::Combo(combo_text(e.modifiers, e.key)->0)
        } else {
            captured(events.drop_first())
        }
    }
}

/// The state after a capture for `target` got the shortcut `combo`.
pub open spec fn bound(app: AppView, target: CaptureTarget, combo: Seq<char>) -> AppView {
    match target {
        CaptureTarget::Sound(i) => AppView {
            profile: match app.profile {
                Some(p) => Some(with_hotkey(p, i as int, Some(combo))),
                None => None,
            },
            capturing: None,
            ..app
        },
        CaptureTarget::Stop => AppView {
            config: Settings { stop_hotkey: Some(combo), ..app.config },
            capturing: None,
            ..app
        },
    }
}

/// The state after the keys of a moment, if a shortcut is being captured.
pub open spec fn after_capture(app: AppView, events: Seq<KeyEvent>) -> AppView {
    match (app.capturing, captured(events)) {
        (Some(target), Captured::Combo(combo)) => bound(app, target, combo),
        (Some(_), Captured::Cancelled) => AppView { capturing: None, ..app },
        _ => app,
    }
}

/// What has to be done after the keys of a moment: what was bound is kept, and the
/// hotkeys are registered anew.
pub open spec fn capture_actions(app: AppView, events: Seq<KeyEvent>) -> Seq<ActionView> {
    match (app.capturing, captured(events)) {
        (Some(CaptureTarget::Sound(_)), Captured::Combo(_)) => if app.profile is Some {
            seq![ActionView::SaveBindings, ActionView::Reregister]
        } else {
            seq![ActionView::Reregister]
        },
        (Some(CaptureTarget::Stop), Captured::Combo(_)) => seq![
            ActionView::SaveConfig,
            ActionView::Reregister,
        ],
        _ => seq![],
    }
}

/// What the keys of a moment mean for a capture.
enum CaptureOutcome {
    Waiting,
    Cancelled,
    Combo(String),
}

fn capture_outcome(events: &Vec<KeyEvent>) -> (r: CaptureOutcome)
    ensures
        match r {
            CaptureOutcome::Waiting => captured(events@) is Waiting,
            CaptureOutcome::Cancelled => captured(events@) is Cancelled,
            CaptureOutcome::Combo(s) => captured(events@) == Captured::Combo(s@),
        },
{
    let mut i: usize = 0;
    assert(events@.skip(0) =~= events@);
    while i < events.len()
        invariant
            i <= events@.len(),
            captured(events@.skip(i as int)) == captured(events@),
        decreases events@.len() - i,
    {
        let e = events[i];
        assert(events@.skip(i as int)[0] == e);
        assert(events@.skip(i as int).drop_first() =~= events@.skip(i + 1));
        if e.pressed {
            if e.key == Key::Escape {
                return CaptureOutcome::Cancelled;
            }
            if let Some(combo) = from_egui(&e.modifiers, e.key) {
                return CaptureOutcome::Combo(combo);
            }
        }
        i = i + 1;
    }
    CaptureOutcome::Waiting
}

impl App {
    /// Handles the keys of a moment while a shortcut is being captured.
    pub fn handle_capture(&mut self, events: &Vec<KeyEvent>) -> (r: Vec<Action>)
        ensures
            final(self)@ == after_capture(old(self)@, events@),
            action_views(r@) == capture_actions(old(self)@, events@),
            final(self).config.external_profiles == old(self).config.external_profiles,
    {
        let mut r: Vec<Action> = Vec::new();
        let target = match self.capturing {
            Some(target) => target,
            None => {
                assert(action_views(r@) =~= seq![]);
                return r;
            },
        };
        match capture_outcome(events) {
            CaptureOutcome::Waiting => {},
            CaptureOutcome::Cancelled => {
                self.capturing = None;
            },
            CaptureOutcome::Combo(combo) => {
                self.capturing = None;
                match target {
                    CaptureTarget::Sound(i) => {
                        if let Some(p) = &mut self.profile {
                            p.set_hotkey(i, Some(combo));
                            r.push(Action::SaveBindings);
                        }
                    },
                    CaptureTarget::Stop => {
                        self.config.stop_hotkey = Some(combo);
                        r.push(Action::SaveConfig);
                    },
                }
                r.push(Action::Reregister);
            },
        }
        assert(action_views(r@) =~= capture_actions(old(self)@, events@));
        r
    }
}

/// Pressing Escape first gives a capture up: no shortcut changes.
pub proof fn escape_cancels_a_capture(app: AppView, events: Seq<KeyEvent>)
    requires
        events.len() > 0,
        events[0].pressed,
        events[0].key is Escape,
    ensures
        after_capture(app, events) == (AppView { capturing: None, ..app }),
        bindings(after_capture(app, events)) == bindings(app),
        capture_actions(app, events) == Seq::<ActionView>::empty(),
{
}

/// Keys that cannot be bound, and keys that come up, do not end a capture.
pub proof fn other_keys_are_passed_over(app: AppView, e: KeyEvent, events: Seq<KeyEvent>)
    requires
        !e.pressed || (!(e.key is Escape) && combo_text(e.modifiers, e.key) is None),
    ensures
        after_capture(app, seq![e] + events) == after_capture(app, events),
        capture_actions(app, seq![e] + events) == capture_actions(app, events),
{
    assert((seq![e] + events).drop_first() =~= events);
}

/// Whatever a capture changes is kept at once: the shortcuts of the sounds, or the
/// settings.
pub proof fn captured_shortcuts_are_kept(app: AppView, events: Seq<KeyEvent>)
    ensures
        after_capture(app, events).profile != app.profile ==> capture_actions(
            app,
            events,
        ).contains(ActionView::SaveBindings),
        after_capture(app, events).config != app.config ==> capture_actions(
            app,
            events,
        ).contains(ActionView::SaveConfig),
{
    let actions = capture_actions(app, events);
    if actions.len() == 2 {
        assert(actions.contains(actions[0]));
    }
}

/// Whenever a capture changes what the hotkeys do, they are registered anew after
/// it.
pub proof fn capture_updates_hotkeys(app: AppView, events: Seq<KeyEvent>)
    ensures
        bindings(after_capture(app, events)) != bindings(app) ==> capture_actions(
            app,
            events,
        ).len() > 0 && capture_actions(app, events).last() is Reregister,
{
}

} // verus!

use std::path::PathBuf;
use vocieplayer::app::{App, CaptureTarget, KeyEvent};
use vocieplayer::config::{AppConfig, ExternalProfiles, RepeatMode, Volume};
use vocieplayer::hotkeys::{parse_all, HkAction, Hotkeys};
use vocieplayer::keys::{Key, KeyModifiers};
use vocieplayer::profile::{Profile, ProfileDir, Sound};
use vocieplayer::ui::{SettingsEvent, SoundsEvent};
use vocieplayer::work::{apply, Action, PathFacts, Pending, Reply, Work};

const SECOND: u64 = 1_000_000_000;

fn strings(list: &[&str]) -> Vec<String> {
    list.iter().map(|s| s.to_string()).collect()
}

fn vol(v: f32) -> Volume {
    Volume { bits: v.to_bits() }
}

fn sound(name: &str, hotkey: Option<&str>) -> Sound {
    Sound {
        name: name.to_string(),
        path: PathBuf::from(format!("/sounds/{name}.mp3")),
        volume: vol(1.0),
        hotkey: hotkey.map(|s| s.to_string()),
    }
}

fn profile(name: &str, dir: &str, sounds: Vec<Sound>) -> Profile {
    Profile { name: name.to_string(), dir: PathBuf::from(dir), sounds }
}

fn config() -> AppConfig {
    AppConfig {
        output_device: None,
        input_device: None,
        monitor_device: None,
        effect_volume: vol(1.0),
        mic_passthrough: true,
        repeat_mode: RepeatMode::Restart,
        autostart: false,
        stop_hotkey: Some("Ctrl+0".to_string()),
        active_profile: Some("game".to_string()),
        external_profiles: ExternalProfiles::new(),
    }
}

/// What the file system and the user answer.
struct World {
    listed: Vec<String>,
    sounds: Vec<Sound>,
    files: Vec<String>,
    folder_ok: bool,
    create_ok: bool,
    picked: Option<PathBuf>,
}

fn world() -> World {
    World {
        listed: strings(&["game", "默认"]),
        sounds: vec![sound("boo", Some("Ctrl+Alt+B")), sound("yay", None)],
        files: strings(&["boo.mp3", "yay.mp3"]),
        folder_ok: true,
        create_ok: true,
        picked: None,
    }
}

fn dir_of(dir: &ProfileDir) -> PathBuf {
    match dir {
        ProfileDir::External(p) => p.clone(),
        ProfileDir::Builtin(name) => PathBuf::from(format!("/profiles/{name}")),
    }
}

/// Does all the work, and returns what had to be done.
fn run(app: &mut App, mut work: Work, world: &mut World) -> Vec<Action> {
    let mut log: Vec<Action> = Vec::new();
    loop {
        let action = app.step(&mut work);
        let reply = match &action {
            Action::Done => return log,
            Action::Nothing => continue,
            Action::EnsureFolder(_) => Some(Reply::Folder(world.folder_ok)),
            Action::CreateProfile(name) => {
                if world.create_ok {
                    world.listed.push(name.clone());
                }
                Some(Reply::Created(world.create_ok))
            }
            Action::ListProfiles => Some(Reply::Listed(world.listed.clone())),
            Action::LoadProfile { name, dir } => Some(Reply::Loaded(
                Profile { name: name.clone(), dir: dir_of(dir), sounds: world.sounds.clone() },
                world.files.clone(),
            )),
            Action::ReloadProfile { name, folder } => Some(Reply::Reloaded(Profile {
                name: name.clone(),
                dir: folder.clone(),
                sounds: world.sounds.clone(),
            })),
            Action::ReadSignature(_) => Some(Reply::Signature(world.files.clone())),
            Action::PickFolder => Some(Reply::Picked(world.picked.clone())),
            _ => None,
        };
        log.push(action);
        if let Some(reply) = reply {
            assert!(!work.is_done());
            assert!(app.answer(&mut work, reply));
        }
    }
}

fn started(world: &mut World) -> App {
    let (mut app, work) =
        App::new(config(), strings(&["Speakers", "CABLE Input (VB)"]), strings(&["Mic"]), world.listed.clone(), 0);
    run(&mut app, work, world);
    app
}

fn pressed(key: Key, ctrl: bool) -> KeyEvent {
    let modifiers = KeyModifiers { alt: false, ctrl, shift: false, mac_cmd: false, command: ctrl };
    KeyEvent { key, pressed: true, modifiers }
}

fn load(name: &str) -> Action {
    Action::LoadProfile { name: name.to_string(), dir: ProfileDir::Builtin(name.to_string()) }
}

fn external(name: &str, dir: &str) -> Action {
    Action::LoadProfile { name: name.to_string(), dir: ProfileDir::External(PathBuf::from(dir)) }
}

#[test]
fn the_program_starts() {
    let mut w = world();
    let devices = strings(&["Speakers", "CABLE Input (VB)"]);
    let (mut app, work) = App::new(config(), devices, strings(&["Mic"]), w.listed.clone(), 5);
    assert!(app.vbcable);
    assert_eq!(app.config.output_device, Some("CABLE Input (VB)".to_string()));
    assert_eq!(app.last_scan, 5);
    assert_eq!(
        run(&mut app, work, &mut w),
        vec![load("game"), Action::StartAudio, Action::SaveConfig, Action::Reregister]
    );
    assert_eq!(app.profile, Some(profile("game", "/profiles/game", w.sounds.clone())));
    assert_eq!(app.last_signature, w.files);
    assert_eq!(app.profiles, strings(&["game", "默认"]));
}

#[test]
fn the_program_starts_with_a_profile_that_is_there() {
    let mut cfg = config();
    cfg.active_profile = Some("gone".to_string());
    cfg.output_device = Some("Speakers".to_string());
    let (app, _) = App::new(cfg, strings(&["CABLE Input"]), Vec::new(), strings(&["z", "a"]), 0);
    assert_eq!(app.config.active_profile, Some("a".to_string()));
    assert_eq!(app.config.output_device, Some("Speakers".to_string()));

    let mut w = world();
    let (mut app, work) = App::new(config(), Vec::new(), Vec::new(), Vec::new(), 0);
    assert_eq!(app.config.active_profile, None);
    assert_eq!(app.config.output_device, None);
    assert!(!app.vbcable);
    assert_eq!(
        run(&mut app, work, &mut w),
        vec![Action::StartAudio, Action::SaveConfig, Action::Reregister]
    );
    assert_eq!(app.profile, None);
}

#[test]
fn an_idle_frame_changes_nothing() {
    let mut w = world();
    let mut app = started(&mut w);
    assert_eq!(run(&mut app, apply(Pending::new()), &mut w), Vec::new());
}

#[test]
fn wishes_are_done_in_order() {
    let mut w = world();
    let mut app = started(&mut w);
    let mut p = Pending::new();
    p.switch_profile = Some("默认".to_string());
    p.rebuild_engine = true;
    p.play.push(1);
    p.play.push(9);
    p.capture = Some(CaptureTarget::Sound(1));
    p.clear_stop = true;
    p.clear_hotkey.push(0);
    p.set_volume.push((1, vol(0.5)));
    p.open_folder = true;
    assert_eq!(
        run(&mut app, apply(p), &mut w),
        vec![
            Action::SaveBindings,
            Action::SaveBindings,
            Action::SaveConfig,
            Action::Play { path: PathBuf::from("/sounds/yay.mp3"), volume: vol(0.5) },
            Action::OpenFolder(PathBuf::from("/profiles/game")),
            load("默认"),
            Action::SaveConfig,
            Action::Reregister,
            Action::RebuildEngine,
            Action::Reregister,
        ]
    );
    assert_eq!(app.capturing, Some(CaptureTarget::Sound(1)));
    assert_eq!(app.config.stop_hotkey, None);
    assert_eq!(app.config.active_profile, Some("默认".to_string()));
}

#[test]
fn a_new_profile_gets_a_folder() {
    let mut w = world();
    let mut app = started(&mut w);
    app.new_profile_name = "  music ".to_string();
    let mut p = Pending::new();
    app.ui_sounds(&mut p, SoundsEvent::NewProfile);
    assert_eq!(
        run(&mut app, apply(p), &mut w),
        vec![
            Action::CreateProfile("music".to_string()),
            Action::ListProfiles,
            load("music"),
            Action::SaveConfig,
            Action::Reregister,
        ]
    );
    assert_eq!(app.profiles, strings(&["game", "music", "默认"]));
    assert_eq!(app.config.active_profile, Some("music".to_string()));
    assert_eq!(app.new_profile_name, "");
}

#[test]
fn a_profile_that_cannot_be_made_changes_nothing() {
    let mut w = world();
    let mut app = started(&mut w);
    w.create_ok = false;
    app.new_profile_name = "music".to_string();
    let mut p = Pending::new();
    app.ui_sounds(&mut p, SoundsEvent::NewProfile);
    assert_eq!(run(&mut app, apply(p), &mut w), vec![Action::CreateProfile("music".to_string())]);
    assert_eq!(app.config.active_profile, Some("game".to_string()));
    assert_eq!(app.new_profile_name, "music");
}

#[test]
fn bad_names_are_refused() {
    let mut w = world();
    let mut app = started(&mut w);
    for name in ["", "   ", "a/b", "a\\b", "./x"] {
        let mut p = Pending::new();
        p.new_profile = Some(name.to_string());
        assert_eq!(run(&mut app, apply(p), &mut w), Vec::new());
    }
}

#[test]
fn an_absolute_path_becomes_an_outside_folder() {
    let mut w = world();
    let mut app = started(&mut w);
    app.new_profile_name = "/music/game".to_string();
    let mut p = Pending::new();
    p.new_profile = Some(" /music/game ".to_string());
    assert_eq!(
        run(&mut app, apply(p), &mut w),
        vec![
            Action::EnsureFolder(PathBuf::from("/music/game")),
            Action::SaveConfig,
            Action::ListProfiles,
            external("game (2)", "/music/game"),
            Action::SaveConfig,
            Action::Reregister,
        ]
    );
    assert_eq!(app.profiles, strings(&["game", "game (2)", "默认"]));
    assert_eq!(app.config.external_profiles.get("game (2)"), Some(PathBuf::from("/music/game")));
    assert_eq!(app.config.active_profile, Some("game (2)".to_string()));
    assert_eq!(app.new_profile_name, "");
    assert!(app.is_external());
}

#[test]
fn a_folder_that_cannot_be_made_is_not_added() {
    let mut w = world();
    w.folder_ok = false;
    let mut app = started(&mut w);
    let mut p = Pending::new();
    p.new_profile = Some("/music".to_string());
    assert_eq!(
        run(&mut app, apply(p), &mut w),
        vec![Action::EnsureFolder(PathBuf::from("/music"))]
    );
    assert_eq!(app.config.external_profiles.len(), 0);
}

#[test]
fn the_same_folder_is_not_added_twice() {
    let mut w = world();
    let mut app = started(&mut w);
    w.picked = Some(PathBuf::from("/music/fun"));
    let mut p = Pending::new();
    app.ui_sounds(&mut p, SoundsEvent::PickFolder);
    run(&mut app, apply(p), &mut w);
    assert_eq!(app.config.active_profile, Some("fun".to_string()));
    w.picked = Some(PathBuf::from("/music/fun/"));
    let mut p = Pending::new();
    p.pick_folder = true;
    assert_eq!(
        run(&mut app, apply(p), &mut w),
        vec![Action::PickFolder, external("fun", "/music/fun"), Action::SaveConfig, Action::Reregister]
    );
    assert_eq!(app.config.external_profiles.len(), 1);
}

#[test]
fn a_folder_without_a_last_component_is_listed_by_its_path() {
    let mut w = world();
    let mut app = started(&mut w);
    w.picked = Some(PathBuf::from("/"));
    let mut p = Pending::new();
    p.pick_folder = true;
    run(&mut app, apply(p), &mut w);
    assert_eq!(app.config.active_profile, Some("/".to_string()));
}

#[test]
fn picking_nothing_changes_nothing() {
    let mut w = world();
    let mut app = started(&mut w);
    let mut p = Pending::new();
    p.pick_folder = true;
    assert_eq!(run(&mut app, apply(p), &mut w), vec![Action::PickFolder]);
    assert_eq!(app.config.active_profile, Some("game".to_string()));
}

#[test]
fn path_answers_decide() {
    let mut w = world();
    let mut app = started(&mut w);
    let mut p = Pending::new();
    p.new_profile = Some("C:\\music".to_string());
    let mut work = apply(p);
    let facts = PathFacts { absolute: true, same: Vec::new(), base: String::new() };
    assert_eq!(app.step_with(&mut work, &facts), Action::Nothing);
    assert_eq!(app.step(&mut work), Action::EnsureFolder(PathBuf::from("C:\\music")));
    assert!(app.answer(&mut work, Reply::Folder(true)));
    let facts = PathFacts { absolute: false, same: Vec::new(), base: "music".to_string() };
    assert_eq!(app.step_with(&mut work, &facts), Action::Nothing);
    assert_eq!(app.config.external_profiles.get("music"), Some(PathBuf::from("C:\\music")));
}

#[test]
fn the_folder_in_use_is_removed() {
    let mut w = world();
    let mut app = started(&mut w);
    w.picked = Some(PathBuf::from("/music/fun"));
    let mut p = Pending::new();
    p.pick_folder = true;
    run(&mut app, apply(p), &mut w);
    let mut p = Pending::new();
    app.ui_sounds(&mut p, SoundsEvent::RemoveProfile);
    assert_eq!(
        run(&mut app, apply(p), &mut w),
        vec![Action::ListProfiles, load("game"), Action::SaveConfig, Action::Reregister]
    );
    assert_eq!(app.config.external_profiles.len(), 0);
    assert_eq!(app.profiles, strings(&["game", "默认"]));
}

#[test]
fn another_folder_is_removed() {
    let mut w = world();
    let mut app = started(&mut w);
    w.picked = Some(PathBuf::from("/music/fun"));
    let mut p = Pending::new();
    p.pick_folder = true;
    p.switch_profile = Some("game".to_string());
    run(&mut app, apply(p), &mut w);
    let mut p = Pending::new();
    p.remove_external = Some("fun".to_string());
    assert_eq!(run(&mut app, apply(p), &mut w), vec![Action::ListProfiles, Action::SaveConfig]);
    assert_eq!(app.config.active_profile, Some("game".to_string()));
}

#[test]
fn the_last_profile_is_removed() {
    let mut w = world();
    w.listed = Vec::new();
    let mut app = started(&mut w);
    w.picked = Some(PathBuf::from("/music/fun"));
    let mut p = Pending::new();
    p.pick_folder = true;
    run(&mut app, apply(p), &mut w);
    let mut p = Pending::new();
    p.remove_external = Some("fun".to_string());
    assert_eq!(
        run(&mut app, apply(p), &mut w),
        vec![Action::ListProfiles, Action::SaveConfig, Action::Reregister]
    );
    assert_eq!(app.config.active_profile, None);
    assert_eq!(app.profile, None);
}

#[test]
fn the_folder_is_looked_at_every_one_and_a_half_seconds() {
    let mut w = world();
    let mut app = started(&mut w);
    let work = app.maybe_rescan(3 * SECOND / 2 - 1);
    assert!(work.is_done());
    assert_eq!(app.last_scan, 0);
    let work = app.maybe_rescan(3 * SECOND / 2);
    assert_eq!(app.last_scan, 3 * SECOND / 2);
    assert_eq!(
        run(&mut app, work, &mut w),
        vec![Action::ReadSignature(PathBuf::from("/profiles/game"))]
    );
    assert!(app.maybe_rescan(2 * SECOND).is_done());
    assert!(app.maybe_rescan(SECOND).is_done());

    w.files.push("new.mp3".to_string());
    w.sounds.push(sound("new", None));
    let work = app.maybe_rescan(4 * SECOND);
    assert_eq!(
        run(&mut app, work, &mut w),
        vec![
            Action::ReadSignature(PathBuf::from("/profiles/game")),
            Action::ReloadProfile { name: "game".to_string(), folder: PathBuf::from("/profiles/game") },
            Action::Reregister,
        ]
    );
    assert_eq!(app.profile, Some(profile("game", "/profiles/game", w.sounds.clone())));
    assert_eq!(app.last_signature, w.files);
}

#[test]
fn nothing_is_looked_at_without_a_profile() {
    let mut w = world();
    w.listed = Vec::new();
    let mut app = started(&mut w);
    assert!(app.maybe_rescan(9 * SECOND).is_done());
    assert_eq!(app.last_scan, 9 * SECOND);
}

#[test]
fn wrong_answers_are_refused() {
    let mut w = world();
    let mut app = started(&mut w);
    let mut p = Pending::new();
    p.pick_folder = true;
    let mut work = apply(p);
    assert_eq!(app.step(&mut work), Action::PickFolder);
    assert!(!app.answer(&mut work, Reply::Folder(true)));
    assert_eq!(app.step(&mut work), Action::PickFolder);
    assert!(app.answer(&mut work, Reply::Picked(None)));
    assert_eq!(app.step(&mut work), Action::Nothing);
    assert_eq!(app.step(&mut work), Action::Done);
    assert!(!app.answer(&mut work, Reply::Picked(None)));
}

#[test]
fn a_shortcut_is_captured_for_a_sound() {
    let mut w = world();
    let mut app = started(&mut w);
    let mut p = Pending::new();
    app.ui_sounds(&mut p, SoundsEvent::CaptureSound(1));
    run(&mut app, apply(p), &mut w);
    let up = KeyEvent { pressed: false, ..pressed(Key::A, false) };
    assert_eq!(app.handle_capture(&vec![up, pressed(Key::Other, false)]), Vec::new());
    assert!(app.is_capturing(1));
    assert_eq!(
        app.handle_capture(&vec![up, pressed(Key::Other, false), pressed(Key::S, true), pressed(Key::Escape, false)]),
        vec![Action::SaveBindings, Action::Reregister]
    );
    assert_eq!(app.profile.as_ref().unwrap().sounds[1].hotkey, Some("Ctrl+S".to_string()));
    assert_eq!(app.capturing, None);
    assert_eq!(app.handle_capture(&vec![pressed(Key::T, true)]), Vec::new());
}

#[test]
fn a_shortcut_is_captured_for_stopping() {
    let mut w = world();
    let mut app = started(&mut w);
    app.capturing = Some(CaptureTarget::Stop);
    assert_eq!(
        app.handle_capture(&vec![pressed(Key::F9, false)]),
        vec![Action::SaveConfig, Action::Reregister]
    );
    assert_eq!(app.config.stop_hotkey, Some("F9".to_string()));
}

#[test]
fn a_capture_without_a_profile_binds_nothing() {
    let mut w = world();
    w.listed = Vec::new();
    let mut app = started(&mut w);
    app.capturing = Some(CaptureTarget::Sound(0));
    assert_eq!(app.handle_capture(&vec![pressed(Key::F9, false)]), vec![Action::Reregister]);
    assert_eq!(app.capturing, None);
}

#[test]
fn escape_ends_a_capture() {
    let mut w = world();
    let mut app = started(&mut w);
    app.capturing = Some(CaptureTarget::Sound(0));
    assert_eq!(app.handle_capture(&vec![pressed(Key::Escape, true), pressed(Key::A, false)]), Vec::new());
    assert_eq!(app.capturing, None);
    assert_eq!(app.profile.as_ref().unwrap().sounds[0].hotkey, Some("Ctrl+Alt+B".to_string()));
}

#[test]
fn registered_shortcuts_do_what_they_are_for() {
    let mut w = world();
    let app = started(&mut w);
    let mut hotkeys = Hotkeys::new();
    let old = parse_all("Ctrl+Z");
    hotkeys.register(&old, &vec![true], &HkAction::StopAll);
    let (released, mut reg) = app.reregister_hotkeys(&mut hotkeys);
    assert_eq!(released, old);
    let mut asked: Vec<usize> = Vec::new();
    let mut combos: Vec<String> = Vec::new();
    while let Some(keys) = reg.keys() {
        asked.push(keys.len());
        combos.push(reg.combo().unwrap());
        let outcomes = vec![true; keys.len()];
        assert!(reg.record(&mut hotkeys, &outcomes));
    }
    assert_eq!(reg.combo(), None);
    assert_eq!(combos, strings(&["Ctrl+Alt+B", "Ctrl+0"]));
    assert_eq!(asked, vec![1, 2]);
    assert_eq!(
        hotkeys.dispatch(parse_all("Ctrl+Alt+B")[0].id, true),
        Some(HkAction::Play { path: PathBuf::from("/sounds/boo.mp3"), volume: vol(1.0) })
    );
    for key in parse_all("Ctrl+0") {
        assert_eq!(hotkeys.dispatch(key.id, true), Some(HkAction::StopAll));
    }
    assert_eq!(hotkeys.dispatch(old[0].id, true), None);
}

#[test]
fn bindings_are_those_of_the_profile_and_the_stop_key() {
    let mut w = world();
    let app = started(&mut w);
    let list = app.hotkey_bindings();
    assert_eq!(list.len(), 2);
    assert_eq!(list[0].combo, "Ctrl+Alt+B");
    assert_eq!(list[1].combo, "Ctrl+0");
    assert_eq!(list[1].action, HkAction::StopAll);
}

#[test]
fn changed_devices_set_the_audio_up_anew() {
    let mut w = world();
    let mut app = started(&mut w);
    let mut p = Pending::new();
    let (outputs, inputs) = (app.out_devices.clone(), app.in_devices.clone());
    app.ui_settings(&outputs, &inputs, &mut p, SettingsEvent::ChooseInput(Some("Mic".to_string())));
    assert_eq!(run(&mut app, apply(p), &mut w), vec![Action::RebuildEngine]);
    app.set_devices(strings(&["Speakers"]), Vec::new());
    assert!(!app.vbcable);
    assert_eq!(app.out_devices, strings(&["Speakers"]));
    assert_eq!(app.in_devices, Vec::<String>::new());
}

#[test]
fn the_first_shortcut_wins_where_the_system_refuses_the_second() {
    let mut w = world();
    w.sounds[1].hotkey = Some("alt+ctrl+b".to_string());
    let app = started(&mut w);
    let mut hotkeys = Hotkeys::new();
    let (_, mut reg) = app.reregister_hotkeys(&mut hotkeys);
    let mut taken: Vec<u32> = Vec::new();
    let mut accepted: Vec<bool> = Vec::new();
    while let Some(keys) = reg.keys() {
        let outcomes: Vec<bool> = keys.iter().map(|k| !taken.contains(&k.id)).collect();
        taken.extend(keys.iter().map(|k| k.id));
        accepted.push(reg.record(&mut hotkeys, &outcomes));
    }
    assert_eq!(accepted, vec![true, false, true]);
    assert_eq!(
        hotkeys.dispatch(parse_all("Ctrl+Alt+B")[0].id, true),
        Some(HkAction::Play { path: PathBuf::from("/sounds/boo.mp3"), volume: vol(1.0) })
    );
}

#[test]
fn the_active_profile_is_the_loaded_one_and_folders_are_listed() {
    let mut w = world();
    let mut app = started(&mut w);
    for dir in ["/music/fun", "/music/game", "/other/fun"] {
        w.picked = Some(PathBuf::from(dir));
        let mut p = Pending::new();
        p.pick_folder = true;
        run(&mut app, apply(p), &mut w);
        assert_eq!(app.config.active_profile, app.profile.as_ref().map(|p| p.name.clone()));
        for i in 0..app.config.external_profiles.len() {
            assert!(app.profiles.contains(app.config.external_profiles.name(i)));
        }
    }
    assert_eq!(app.profiles, strings(&["fun", "fun (2)", "game", "game (2)", "默认"]));
}

use std::path::PathBuf;
use vocieplayer::app::{App, CaptureTarget};
use vocieplayer::config::{AppConfig, ExternalProfiles, RepeatMode, Volume};
use vocieplayer::profile::{Profile, Sound};
use vocieplayer::ui::{add_font, device_combo, font_file, label_or, FontSearch, SettingsAction, SettingsEvent, SoundsEvent};
use vocieplayer::work::Pending;

fn vol(v: f32) -> Volume {
    Volume { bits: v.to_bits() }
}

fn app() -> App {
    let mut external_profiles = ExternalProfiles::new();
    external_profiles.insert("fun".to_string(), PathBuf::from("/music/fun"));
    let config = AppConfig {
        output_device: Some("Speakers".to_string()),
        input_device: None,
        monitor_device: None,
        effect_volume: vol(1.0),
        mic_passthrough: true,
        repeat_mode: RepeatMode::Restart,
        autostart: false,
        stop_hotkey: None,
        active_profile: Some("game".to_string()),
        external_profiles,
    };
    let (mut app, _) = App::new(config, Vec::new(), Vec::new(), vec!["game".to_string()], 0);
    let sound = |name: &str, hotkey: Option<&str>| Sound {
        name: name.to_string(),
        path: PathBuf::from(name),
        volume: vol(1.0),
        hotkey: hotkey.map(|s| s.to_string()),
    };
    app.profile = Some(Profile {
        name: "game".to_string(),
        dir: PathBuf::from("/profiles/game"),
        sounds: vec![sound("a", Some("Ctrl+A")), sound("b", None)],
    });
    app
}

/// Handles an event while these devices are shown.
fn settings(app: &mut App, p: &mut Pending, event: SettingsEvent) -> Vec<SettingsAction> {
    let outputs = vec!["Speakers".to_string(), "h".to_string()];
    let inputs = vec!["m".to_string()];
    app.ui_settings(&outputs, &inputs, p, event)
}

#[test]
fn choosing_a_device_is_a_change_only_if_it_differs() {
    let devices = vec!["a".to_string(), "b".to_string()];
    let mut selected = Some("a".to_string());
    let mut changed = false;
    device_combo(&mut selected, &devices, Some("a".to_string()), &mut changed);
    assert!(!changed);
    device_combo(&mut selected, &devices, None, &mut changed);
    assert!(changed);
    assert_eq!(selected, None);
    changed = false;
    device_combo(&mut selected, &devices, None, &mut changed);
    assert!(!changed);
    device_combo(&mut selected, &devices, Some("b".to_string()), &mut changed);
    assert!(changed);
    assert_eq!(selected, Some("b".to_string()));
    device_combo(&mut selected, &devices, Some("b".to_string()), &mut changed);
    assert!(changed);
}

#[test]
fn device_choices_are_kept_and_rebuild_the_audio() {
    let mut app = app();
    let mut p = Pending::new();
    assert_eq!(settings(&mut app, &mut p, SettingsEvent::DevicesShown), Vec::new());
    assert_eq!(settings(&mut app, &mut p, SettingsEvent::ChooseOutput(None)), Vec::new());
    assert!(p.rebuild_engine);
    assert_eq!(app.config.output_device, None);
    assert_eq!(settings(&mut app, &mut p, SettingsEvent::DevicesShown), vec![SettingsAction::SaveConfig]);
    settings(&mut app, &mut p, SettingsEvent::ChooseInput(Some("m".to_string())));
    settings(&mut app, &mut p, SettingsEvent::ChooseMonitor(Some("h".to_string())));
    assert_eq!(app.config.input_device, Some("m".to_string()));
    assert_eq!(app.config.monitor_device, Some("h".to_string()));
}

#[test]
fn settings_take_effect_and_are_kept_at_once() {
    let mut app = app();
    let mut p = Pending::new();
    assert_eq!(
        settings(&mut app, &mut p, SettingsEvent::SetMicPassthrough(false)),
        vec![SettingsAction::SetMicPassthrough(false), SettingsAction::SaveConfig]
    );
    assert!(!app.config.mic_passthrough);
    assert_eq!(
        settings(&mut app, &mut p, SettingsEvent::SetEffectVolume(vol(1.5))),
        vec![SettingsAction::SetEffectVolume(vol(1.5)), SettingsAction::SaveConfig]
    );
    assert_eq!(app.config.effect_volume, vol(1.5));
    assert_eq!(
        settings(&mut app, &mut p, SettingsEvent::SetRepeatMode(RepeatMode::Toggle)),
        vec![SettingsAction::SetRepeatMode(RepeatMode::Toggle), SettingsAction::SaveConfig]
    );
    assert_eq!(app.config.repeat_mode, RepeatMode::Toggle);
    assert_eq!(
        settings(&mut app, &mut p, SettingsEvent::SetAutostart(true)),
        vec![SettingsAction::SetAutostart(true), SettingsAction::SaveConfig]
    );
    assert!(app.config.autostart);
    assert!(!p.rebuild_engine);
    assert_eq!(settings(&mut app, &mut p, SettingsEvent::Retry), Vec::new());
    assert!(p.rebuild_engine);
}

#[test]
fn the_cable_is_looked_for_while_it_is_missing() {
    let mut app = app();
    let mut p = Pending::new();
    assert_eq!(
        settings(&mut app, &mut p, SettingsEvent::OpenDownloadPage),
        vec![SettingsAction::OpenDownloadPage]
    );
    assert_eq!(settings(&mut app, &mut p, SettingsEvent::Redetect), vec![SettingsAction::RefreshDevices]);
    assert!(p.rebuild_engine);
    app.set_devices(vec!["CABLE Input".to_string()], Vec::new());
    let mut p = Pending::new();
    assert_eq!(settings(&mut app, &mut p, SettingsEvent::OpenDownloadPage), Vec::new());
    assert_eq!(settings(&mut app, &mut p, SettingsEvent::Redetect), Vec::new());
    assert!(!p.rebuild_engine);
}

#[test]
fn the_profile_in_use_cannot_be_chosen_again() {
    let app = app();
    let mut p = Pending::new();
    app.ui_sounds(&mut p, SoundsEvent::ChooseProfile("game".to_string()));
    assert_eq!(p.switch_profile, None);
    app.ui_sounds(&mut p, SoundsEvent::ChooseProfile("fun".to_string()));
    assert_eq!(p.switch_profile, Some("fun".to_string()));
}

#[test]
fn only_outside_folders_can_be_removed() {
    let mut app = app();
    let mut p = Pending::new();
    assert!(!app.is_external());
    app.ui_sounds(&mut p, SoundsEvent::RemoveProfile);
    assert_eq!(p.remove_external, None);
    app.config.active_profile = Some("fun".to_string());
    assert!(app.is_external());
    app.ui_sounds(&mut p, SoundsEvent::RemoveProfile);
    assert_eq!(p.remove_external, Some("fun".to_string()));
    app.config.active_profile = None;
    assert!(!app.is_external());
}

#[test]
fn only_shortcuts_that_are_there_can_be_cleared() {
    let mut app = app();
    let mut p = Pending::new();
    assert!(app.sound_has_hotkey(0));
    assert!(!app.sound_has_hotkey(1));
    assert!(!app.sound_has_hotkey(2));
    app.ui_sounds(&mut p, SoundsEvent::ClearHotkey(1));
    app.ui_sounds(&mut p, SoundsEvent::ClearHotkey(0));
    assert_eq!(p.clear_hotkey, vec![0]);
    app.ui_sounds(&mut p, SoundsEvent::ClearStop);
    assert!(!p.clear_stop);
    app.config.stop_hotkey = Some("F9".to_string());
    app.ui_sounds(&mut p, SoundsEvent::ClearStop);
    assert!(p.clear_stop);
}

#[test]
fn a_running_capture_is_not_started_again() {
    let mut app = app();
    app.capturing = Some(CaptureTarget::Sound(1));
    let mut p = Pending::new();
    app.ui_sounds(&mut p, SoundsEvent::CaptureSound(1));
    assert_eq!(p.capture, None);
    app.ui_sounds(&mut p, SoundsEvent::CaptureSound(0));
    assert_eq!(p.capture, Some(CaptureTarget::Sound(0)));
    app.ui_sounds(&mut p, SoundsEvent::CaptureStop);
    assert_eq!(p.capture, Some(CaptureTarget::Stop));
}

#[test]
fn other_wishes_are_noted() {
    let mut app = app();
    app.new_profile_name = "x".to_string();
    let mut p = Pending::new();
    app.ui_sounds(&mut p, SoundsEvent::OpenFolder);
    app.ui_sounds(&mut p, SoundsEvent::NewProfile);
    app.ui_sounds(&mut p, SoundsEvent::PickFolder);
    app.ui_sounds(&mut p, SoundsEvent::Play(1));
    app.ui_sounds(&mut p, SoundsEvent::Play(0));
    app.ui_sounds(&mut p, SoundsEvent::SetVolume(1, vol(0.5)));
    assert!(p.open_folder && p.pick_folder && !p.reregister);
    assert_eq!(p.new_profile, Some("x".to_string()));
    assert_eq!(p.play, vec![1, 0]);
    assert_eq!(p.set_volume, vec![(1, vol(0.5))]);
}

#[test]
fn labels_say_what_is_set() {
    let mut app = app();
    assert_eq!(app.current_profile_label(), "game");
    assert_eq!(app.profile_label("game"), "game");
    assert_eq!(app.profile_label("fun"), "📁 fun");
    assert_eq!(app.stop_label(), "停止所有音效：未设置");
    assert_eq!(app.hotkey_label(0), "Ctrl+A");
    assert_eq!(app.hotkey_label(1), "设快捷键");
    assert_eq!(app.hotkey_label(2), "设快捷键");
    app.capturing = Some(CaptureTarget::Sound(0));
    assert_eq!(app.hotkey_label(0), "按下快捷键…（Esc 取消）");
    app.config.stop_hotkey = Some("F9".to_string());
    assert_eq!(app.stop_label(), "停止所有音效：F9");
    app.config.active_profile = None;
    assert_eq!(app.current_profile_label(), "（无）");
    assert_eq!(label_or(&None, "系统默认"), "系统默认");
    assert_eq!(label_or(&Some("x".to_string()), "系统默认"), "x");
}

#[test]
fn fonts_are_tried_in_order() {
    assert_eq!(font_file(0), Some("C:/Windows/Fonts/msyh.ttc"));
    assert_eq!(font_file(1), Some("C:/Windows/Fonts/simhei.ttf"));
    assert_eq!(font_file(2), Some("/System/Library/Fonts/PingFang.ttc"));
    assert_eq!(font_file(3), Some("/System/Library/Fonts/STHeiti Light.ttc"));
    assert_eq!(font_file(4), None);
    let mut proportional = vec!["p".to_string()];
    let mut monospace = vec!["m".to_string()];
    add_font(&mut proportional, &mut monospace, "cjk");
    assert_eq!(proportional, vec!["cjk".to_string(), "p".to_string()]);
    assert_eq!(monospace, vec!["m".to_string(), "cjk".to_string()]);
}

#[test]
fn the_first_font_that_can_be_read_is_used() {
    for readable in 0..5 {
        let mut search = FontSearch::new();
        let mut tried: Vec<usize> = Vec::new();
        while let FontSearch::Try(i) = search {
            assert!(font_file(i).is_some());
            tried.push(i);
            search = search.answered(i == readable);
        }
        let expected = if readable < 4 { FontSearch::Found(readable) } else { FontSearch::Missing };
        assert_eq!(search, expected);
        assert_eq!(search.answered(true), expected);
        assert_eq!(tried.len(), if readable < 4 { readable + 1 } else { 4 });
    }
}

#[test]
fn what_is_not_there_cannot_be_asked_for() {
    let app = app();
    let mut p = Pending::new();
    app.ui_sounds(&mut p, SoundsEvent::ChooseProfile("gone".to_string()));
    app.ui_sounds(&mut p, SoundsEvent::Play(2));
    app.ui_sounds(&mut p, SoundsEvent::SetVolume(2, vol(0.5)));
    app.ui_sounds(&mut p, SoundsEvent::CaptureSound(2));
    assert_eq!(p.switch_profile, None);
    assert_eq!(p.play, Vec::<usize>::new());
    assert_eq!(p.set_volume, Vec::new());
    assert_eq!(p.capture, None);
}

#[test]
fn only_devices_that_are_shown_can_be_chosen() {
    let devices = vec!["a".to_string()];
    let mut selected = Some("old".to_string());
    let mut changed = false;
    device_combo(&mut selected, &devices, Some("x".to_string()), &mut changed);
    assert!(!changed);
    assert_eq!(selected, Some("old".to_string()));
    device_combo(&mut selected, &devices, Some("a".to_string()), &mut changed);
    assert!(changed);
    assert_eq!(selected, Some("a".to_string()));

    let mut app = app();
    let mut p = Pending::new();
    settings(&mut app, &mut p, SettingsEvent::ChooseOutput(Some("m".to_string())));
    settings(&mut app, &mut p, SettingsEvent::ChooseInput(Some("Speakers".to_string())));
    settings(&mut app, &mut p, SettingsEvent::ChooseMonitor(Some("gone".to_string())));
    assert!(!p.rebuild_engine);
    assert_eq!(app.config.output_device, Some("Speakers".to_string()));
    assert_eq!(app.config.input_device, None);
    assert_eq!(app.config.monitor_device, None);
}

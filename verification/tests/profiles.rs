use std::path::PathBuf;
use vocieplayer::config::{AppConfig, ExternalProfiles, RepeatMode, Volume};
use vocieplayer::paths::folder_label;
use vocieplayer::profile::{all_profiles, dir_for_config, unique_name, Profile, ProfileDir, Sound};

fn strings(list: &[&str]) -> Vec<String> {
    list.iter().map(|s| s.to_string()).collect()
}

fn external(list: &[(&str, &str)]) -> ExternalProfiles {
    let mut r = ExternalProfiles::new();
    for (name, dir) in list {
        r.insert(name.to_string(), PathBuf::from(dir));
    }
    r
}

fn vol(v: f32) -> Volume {
    Volume { bits: v.to_bits() }
}

#[test]
fn external_folders_are_kept_in_order() {
    let mut e = external(&[("b", "/b"), ("a", "/a"), ("c", "/c")]);
    assert_eq!(e.len(), 3);
    assert_eq!(e.name(0), "a");
    assert_eq!(e.name(1), "b");
    assert_eq!(e.name(2), "c");
    assert_eq!(e.dir(1), &PathBuf::from("/b"));
    assert_eq!(e.get("c"), Some(PathBuf::from("/c")));
    assert_eq!(e.get("d"), None);
    e.insert("b".to_string(), PathBuf::from("/elsewhere"));
    assert_eq!(e.len(), 3);
    assert_eq!(e.get("b"), Some(PathBuf::from("/elsewhere")));
    assert_eq!(e.clone(), e);
    e.remove("a");
    assert_eq!(e.len(), 2);
    assert!(!e.contains_key("a"));
    assert!(e.contains_key("b"));
    e.remove("missing");
    assert_eq!(e.len(), 2);
}

#[test]
fn all_profiles_are_listed_once_and_sorted() {
    let names = all_profiles(strings(&["默认", "zoo", "alpha"]), &external(&[("beta", "/b"), ("alpha", "/a")]));
    assert_eq!(names, strings(&["alpha", "beta", "zoo", "默认"]));
    assert_eq!(all_profiles(Vec::new(), &ExternalProfiles::new()), Vec::<String>::new());
}

#[test]
fn names_get_a_number_when_taken() {
    let base = "sounds".to_string();
    assert_eq!(unique_name(&base, &strings(&["other"])), "sounds");
    assert_eq!(unique_name(&base, &strings(&["sounds"])), "sounds (2)");
    assert_eq!(unique_name(&base, &strings(&["sounds", "sounds (2)", "sounds (4)"])), "sounds (3)");
    let mut taken = vec![base.clone()];
    for i in 2..=12 {
        taken.push(format!("sounds ({i})"));
    }
    assert_eq!(unique_name(&base, &taken), "sounds (13)");
}

#[test]
fn external_folders_come_before_the_profiles_directory() {
    let cfg = AppConfig {
        output_device: None,
        input_device: None,
        monitor_device: None,
        effect_volume: vol(1.0),
        mic_passthrough: true,
        repeat_mode: RepeatMode::Restart,
        autostart: false,
        stop_hotkey: None,
        active_profile: None,
        external_profiles: external(&[("a", "/music/a")]),
    };
    assert_eq!(dir_for_config(&cfg, "a"), ProfileDir::External(PathBuf::from("/music/a")));
    assert_eq!(dir_for_config(&cfg, "b"), ProfileDir::Builtin("b".to_string()));
}

#[test]
fn sounds_are_edited_by_place() {
    let sound = |name: &str| Sound {
        name: name.to_string(),
        path: PathBuf::from(name),
        volume: vol(1.0),
        hotkey: None,
    };
    let mut p = Profile {
        name: "p".to_string(),
        dir: PathBuf::from("/p"),
        sounds: vec![sound("a"), sound("b")],
    };
    p.set_volume(1, vol(0.5));
    p.set_hotkey(0, Some("Ctrl+A".to_string()));
    p.set_volume(7, vol(0.1));
    p.set_hotkey(7, Some("Ctrl+B".to_string()));
    assert_eq!(p.sounds[0].hotkey, Some("Ctrl+A".to_string()));
    assert_eq!(p.sounds[0].volume, vol(1.0));
    assert_eq!(p.sounds[1].hotkey, None);
    assert_eq!(p.sounds[1].volume, vol(0.5));
    p.set_hotkey(0, None);
    assert_eq!(p.sounds[0], sound("a"));
}

#[test]
fn folders_are_called_by_their_last_component() {
    assert_eq!(folder_label(Some("sounds".to_string()), "/music/sounds".to_string()), "sounds");
    assert_eq!(folder_label(None, "/".to_string()), "/");
}

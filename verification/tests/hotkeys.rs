use std::path::PathBuf;
use vocieplayer::config::Volume;
use vocieplayer::hotkeys::{parse_all, HkAction, Hotkeys};

fn play(name: &str) -> HkAction {
    HkAction::Play { path: PathBuf::from(name), volume: Volume { bits: 1.0f32.to_bits() } }
}

#[test]
fn accepted_hotkeys_do_their_action_when_pressed() {
    let mut hotkeys = Hotkeys::new();
    let keys = parse_all("Ctrl+1");
    assert!(hotkeys.register(&keys, &vec![true, true], &play("a.mp3")));
    for k in &keys {
        assert_eq!(hotkeys.dispatch(k.id, true), Some(play("a.mp3")));
        assert_eq!(hotkeys.dispatch(k.id, false), None);
    }
    assert_eq!(hotkeys.current(), &keys);
    assert_eq!(hotkeys.dispatch(1, true), None);
}

#[test]
fn one_accepted_position_is_enough() {
    let mut hotkeys = Hotkeys::new();
    let keys = parse_all("1");
    assert!(hotkeys.register(&keys, &vec![false, true], &HkAction::StopAll));
    assert_eq!(hotkeys.dispatch(keys[0].id, true), None);
    assert_eq!(hotkeys.dispatch(keys[1].id, true), Some(HkAction::StopAll));
    assert_eq!(hotkeys.current(), &vec![keys[1]]);
}

#[test]
fn refused_hotkeys_fail() {
    let mut hotkeys = Hotkeys::new();
    let keys = parse_all("1");
    assert!(!hotkeys.register(&keys, &vec![false, false], &HkAction::StopAll));
    assert!(!hotkeys.register(&parse_all("nonsense"), &Vec::new(), &HkAction::StopAll));
    assert_eq!(hotkeys.current(), &Vec::new());
}

#[test]
fn other_hotkeys_keep_working() {
    let mut hotkeys = Hotkeys::new();
    let a = parse_all("Ctrl+A");
    let b = parse_all("Ctrl+B");
    hotkeys.register(&a, &vec![true], &play("a.mp3"));
    hotkeys.register(&b, &vec![true], &play("b.mp3"));
    assert_eq!(hotkeys.dispatch(a[0].id, true), Some(play("a.mp3")));
    hotkeys.register(&a, &vec![true], &HkAction::StopAll);
    assert_eq!(hotkeys.dispatch(a[0].id, true), Some(HkAction::StopAll));
    assert_eq!(hotkeys.dispatch(b[0].id, true), Some(play("b.mp3")));
}

#[test]
fn cleared_hotkeys_do_nothing() {
    let mut hotkeys = Hotkeys::new();
    let a = parse_all("Ctrl+A");
    hotkeys.register(&a, &vec![true], &play("a.mp3"));
    assert_eq!(hotkeys.clear(), a);
    assert_eq!(hotkeys.dispatch(a[0].id, true), None);
    assert_eq!(hotkeys.clear(), Vec::new());
}

//! The core of VociePlayer, a tool that plays sounds into the microphone of a game
//! when hotkeys are pressed.
//!
//! Shortcuts are written as text ("Ctrl+Alt+S") and turned into hotkeys of the system
//! (`keys`, `hotkeys`). Sounds live in folders, one per profile (`profile`, `config`).
//! The audio chain mixes sounds and microphone and sends them to a virtual cable
//! (`audio`). The state of the program (`app`) changes as the user touches the window
//! (`ui`); what that entails is done task by task (`work`). A task that needs the file
//! system, the sound devices or the user says so, and waits for the answer.
//!
//! What holds of the library as a whole stands in modules of its own: of texts
//! (`text_laws`), of shortcuts (`shortcut_laws`, `shortcut_edits`), of audio
//! (`audio_laws`), of profiles (`profile_laws`), of the state (`state_laws`), of single
//! tasks (`task_laws`) and of work as a whole (`work_laws`), of the window
//! (`window_laws`), and of the contents of values (`view_laws`). `text` and `paths` are
//! what the rest is built on.

pub mod app;
pub mod audio;
pub mod audio_laws;
pub mod config;
pub mod hotkeys;
pub mod keys;
pub mod paths;
pub mod profile;
pub mod profile_laws;
pub mod shortcut_edits;
pub mod shortcut_laws;
pub mod state_laws;
pub mod task_laws;
pub mod text;
pub mod text_laws;
pub mod ui;
pub mod view_laws;
pub mod window_laws;
pub mod work;
pub mod work_laws;

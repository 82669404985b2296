# VociePlayer

A small sound board: press a global hotkey, and a sound is mixed into your microphone,
so that the people you play with hear it while you go on talking.

```
microphone ──┐
             ├─► mixed here ──► CABLE Input ──► the game's microphone = CABLE Output
sound file ──┘                  (VB-CABLE, a virtual sound card)
```

Sounds live in folders, one per profile. A folder that changes is loaded again by
itself. Each sound may have a shortcut, and one more shortcut stops all sounds. Any
folder outside the profiles directory can be used as a profile too.

## Layout

- `src/` is the verified core, in Verus: shortcuts and hotkeys, profiles and settings,
  the audio chain, the state of the program, and what has to be done when the user
  touches the window. It does no input or output. Each function states in its contract
  what it returns; `shortcut_laws.rs`, `shortcut_edits.rs`, `work_laws.rs` and the proof
  functions of the other modules state what holds of the library as a whole.
- `tests/` runs the core on concrete values.
- `app/` is ordinary Rust around the core: the window (egui), the hotkeys of the system
  (global-hotkey) and the sound devices (cpal, rodio). It asks the core what is to be
  done, does it, and hands back the answer.

## Trusted

The core takes these on trust, each stated beside its declaration: how the standard
library turns text to upper and lower case, what it counts as white space, that
`String::push` adds a character at the end, paths of the file system, and the number that
global-hotkey gives to a hotkey.

## Building app/

`app/audio.rs` needs cpal and rodio, which on Linux need the ALSA development files.
They are left out of `Cargo.toml` so that the core builds without a sound system; add
them there to build the program.

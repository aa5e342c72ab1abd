# tune

The verified core of a terminal music player with synced lyrics and "listen together"
rooms. The library in `src/` is written in Verus: every function states what it returns
or changes in `requires` / `ensures`, over mathematical views of its types, and Verus
proves it. `app/` is the thin program around it (argument handling, files, sockets, the
console), which Verus does not see.

## Layout

| Module | What it holds |
|--------|---------------|
| `tune_core` | The library, queue, playlists, browser and playback-mode state machine |
| `browser`, `keymap`, `action_panel`, `panel` | Key handling and the actions panel, as state + key → state + effect |
| `playback` | Crossfade, scrubbing, auto-advance and following a room's playback position |
| `lyrics`, `lrc_laws`, `lyrics_tab`, `editor`, `id3` | LRC reading and writing (with its round-trip law), the lyrics editor, embedded tags |
| `online`, `online_net`, `online_keys`, `online_events` | Room sessions, the actions participants send, the online tab, and the handling of room events |
| `home`, `invite`, `stun`, `netaddr` | The home server's room directory, invite codes, STUN replies, addresses |
| `config`, `paths`, `recovery`, `cli` | The configuration directory, path handling, damaged-path recovery, command-line parsing |
| `stats_tab`, `library`, `model`, `text`, `random` | Statistics view, audio-quality summaries, shared types, text helpers, randomness |

Calls into other crates (`rand`, `sha2`) and a few `std` functions stand behind small
trusted wrappers whose contracts say what those functions' documentation promises.

## Configuration directory

`config::config_root` gives `TUNETUI_CONFIG_DIR` when set; otherwise `tunetui` under
`XDG_CONFIG_HOME`; otherwise `.config/tunetui` under `USERPROFILE` (Windows) or `HOME`.

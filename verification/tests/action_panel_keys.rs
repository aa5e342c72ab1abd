use tune::action_panel::{
    audio_output_options, audio_reset_status, finish_folder_pick, finish_metadata_write, handle_panel_key,
    output_switch_status, sort_by_lowercase, ActionPanelState, MetadataEditorState, PanelEffect, PanelEnv, PanelKey,
    PanelSettings,
};
use tune::browser::{BrowserEntry, BrowserEntryKind};
use tune::model::{CoverArtTemplate, LegacyPlaybackMode, Theme};
use tune::panel::RootActionId;
use tune::tune_core::{FolderProbe, NamedPlaylist, PersistedLibrary, TuneCore};

/// A stand-in for the audio engine, with the two outputs of a test machine.
struct TestAudio {
    outputs: Vec<String>,
    selected_output: Option<String>,
    current: Option<String>,
    reload_calls: u32,
    loudness_normalization: bool,
    crossfade_seconds: u16,
    played: Vec<String>,
}

impl TestAudio {
    fn new() -> Self {
        TestAudio {
            outputs: vec![String::from("Headphones"), String::from("Speakers")],
            selected_output: None,
            current: None,
            reload_calls: 0,
            loudness_normalization: false,
            crossfade_seconds: 0,
            played: Vec::new(),
        }
    }

    fn output_name(&self) -> String {
        self.selected_output.clone().unwrap_or_else(|| String::from("System default output (test)"))
    }
}

/// The library, the panel and the audio engine, driven one key at a time as the player does.
struct Harness {
    core: TuneCore,
    panel: ActionPanelState,
    recent: Vec<RootActionId>,
    settings: PanelSettings,
    audio: TestAudio,
    saves: u32,
}

impl Harness {
    fn new(core: TuneCore, panel: ActionPanelState) -> Self {
        Harness {
            core,
            panel,
            recent: Vec::new(),
            settings: PanelSettings::default(),
            audio: TestAudio::new(),
            saves: 0,
        }
    }

    fn env(&self) -> PanelEnv {
        PanelEnv {
            audio_outputs: self.audio.outputs.clone(),
            selected_output: self.audio.selected_output.clone(),
            current_track: self.audio.current.clone(),
        }
    }

    fn press(&mut self, key: PanelKey) -> PanelEffect {
        let env = self.env();
        let effect = handle_panel_key(&mut self.core, &mut self.panel, &mut self.recent, &mut self.settings, &env, key);
        match &effect {
            PanelEffect::AutoSave | PanelEffect::SaveState => self.saves += 1,
            PanelEffect::Play(path) => self.audio.played.push(path.clone()),
            PanelEffect::ReloadAudioDriver => {
                self.audio.reload_calls += 1;
                let status = audio_reset_status(None, Some(self.audio.output_name().as_str()));
                self.core.show_status(&status);
            },
            PanelEffect::SelectOutput(output) => {
                self.audio.selected_output = output.clone();
                let status = output_switch_status(None, Some(self.audio.output_name().as_str()));
                self.core.show_status(&status);
                self.saves += 1;
            },
            PanelEffect::ApplyLoudness(on) => {
                self.audio.loudness_normalization = *on;
                self.saves += 1;
            },
            PanelEffect::ApplyCrossfade(seconds) => {
                self.audio.crossfade_seconds = *seconds;
                self.saves += 1;
            },
            PanelEffect::AddFolder(path) => {
                let probe = FolderProbe { path: path.clone(), is_dir: true };
                self.core.add_folder(path, Some(probe));
                self.saves += 1;
            },
            PanelEffect::RemoveFolder(path) => {
                self.core.remove_folder(path, None);
                self.saves += 1;
            },
            _ => {},
        }
        effect
    }

    fn type_text(&mut self, text: &str) {
        for ch in text.chars() {
            self.press(PanelKey::Char(ch));
        }
    }
}

fn empty_core() -> TuneCore {
    TuneCore::from_persisted(PersistedLibrary::default(), Vec::new())
}

fn root(selected: usize) -> ActionPanelState {
    ActionPanelState::Root { selected, query: String::new() }
}

fn playlist_tracks(core: &TuneCore, name: &str) -> Option<Vec<String>> {
    core.playlists.iter().find(|p| p.name == name).map(|p| p.tracks.clone())
}

#[test]
fn action_panel_mode_selection_applies_mode() {
    let mut h = Harness::new(empty_core(), root(3));

    h.press(PanelKey::Enter);
    assert!(matches!(h.panel, ActionPanelState::Mode { .. }));

    h.press(PanelKey::Down);
    h.press(PanelKey::Enter);

    assert_eq!(h.core.playback_mode, LegacyPlaybackMode::Shuffle);
    assert!(matches!(h.panel, ActionPanelState::Closed));
}

#[test]
fn root_action_search_executes_selected_filtered_action() {
    let mut h = Harness::new(empty_core(), root(0));

    h.type_text("theme");
    h.press(PanelKey::Enter);

    assert!(matches!(h.panel, ActionPanelState::ThemeSettings { .. }));
    assert_eq!(h.recent, vec![RootActionId::Theme]);
}

#[test]
fn metadata_editor_action_requires_selectable_entry() {
    let mut core = empty_core();
    core.browser_entries = vec![BrowserEntry {
        kind: BrowserEntryKind::Back,
        path: String::new(),
        label: String::from("[..] Back"),
    }];
    core.selected_browser = 0;
    let mut h = Harness::new(core, root(15));

    h.press(PanelKey::Enter);

    assert_eq!(h.core.status, "Select a track, folder, playlist, or [ALL] entry first");
    assert!(matches!(h.panel, ActionPanelState::Closed));
}

#[test]
fn metadata_editor_action_opens_for_selected_track() {
    let mut core = empty_core();
    core.browser_entries = vec![BrowserEntry {
        kind: BrowserEntryKind::Track,
        path: String::from("song.mp3"),
        label: String::from("song"),
    }];
    core.selected_browser = 0;
    let mut h = Harness::new(core, root(15));

    let effect = h.press(PanelKey::Enter);

    assert!(matches!(effect, PanelEffect::LoadMetadata(ref path) if path == "song.mp3"));
    match h.panel {
        ActionPanelState::MetadataEditor { selected: 0, ref state } => {
            let options = state.options();
            assert_eq!(options.len(), 7);
            assert_eq!(options[5], "Copy now playing cover art to selected track");
        },
        _ => panic!("expected metadata editor"),
    }
}

#[test]
fn metadata_editor_all_songs_copy_requires_confirmation() {
    let panel = ActionPanelState::MetadataEditor {
        selected: 0,
        state: MetadataEditorState {
            selected_track_path: None,
            copy_target_label: String::from("all songs"),
            copy_target_paths: vec![String::from("song.mp3")],
            title_input: String::new(),
            artist_input: String::new(),
            album_input: String::new(),
            confirm_all_songs_cover_copy: true,
        },
    };
    let mut h = Harness::new(empty_core(), panel);

    h.press(PanelKey::Enter);

    assert_eq!(h.core.status, "Press Enter again to confirm copying cover art to all songs");
    assert!(matches!(
        h.panel,
        ActionPanelState::MetadataEditor {
            selected: 0,
            state: MetadataEditorState { confirm_all_songs_cover_copy: false, .. }
        }
    ));
}

#[test]
fn action_panel_playlist_add_requires_playlist() {
    let mut h = Harness::new(empty_core(), root(1));

    h.press(PanelKey::Enter);

    assert_eq!(h.core.status, "No playlists available");
    assert!(matches!(h.panel, ActionPanelState::Closed));
}

#[test]
fn action_panel_now_playing_add_requires_playlist() {
    let mut h = Harness::new(empty_core(), root(2));
    h.audio.current = Some(String::from("now.mp3"));

    h.press(PanelKey::Enter);

    assert_eq!(h.core.status, "No playlists available");
    assert!(matches!(h.panel, ActionPanelState::Closed));
}

#[test]
fn action_panel_adds_now_playing_track_to_playlist() {
    let mut core = empty_core();
    core.create_playlist("mix");
    let mut h = Harness::new(core, root(2));
    h.audio.current = Some(String::from("now.mp3"));

    h.press(PanelKey::Enter);
    assert!(matches!(h.panel, ActionPanelState::PlaylistAddNowPlaying { .. }));

    h.press(PanelKey::Enter);
    assert!(matches!(h.panel, ActionPanelState::Closed));

    assert_eq!(playlist_tracks(&h.core, "mix"), Some(vec![String::from("now.mp3")]));
}

#[test]
fn action_panel_add_directory_from_typed_path() {
    let mut h = Harness::new(empty_core(), root(0));

    h.press(PanelKey::Enter);
    assert!(matches!(h.panel, ActionPanelState::AddDirectory { selected: 1, .. }));

    h.type_text("/music/typed-folder");
    let effect = h.press(PanelKey::Enter);

    assert!(matches!(effect, PanelEffect::AddFolder(ref path) if path == "/music/typed-folder"));
    assert!(h.core.folders.iter().any(|folder| folder == "/music/typed-folder"));
    assert!(matches!(h.panel, ActionPanelState::Closed));
}

#[test]
fn action_panel_remove_directory_from_list() {
    let mut state = PersistedLibrary::default();
    state.folders.push(String::from(r"E:\LOCALMUSIC"));
    let core = TuneCore::from_persisted(state, Vec::new());
    let mut h = Harness::new(core, root(9));

    h.press(PanelKey::Enter);
    assert!(matches!(h.panel, ActionPanelState::RemoveDirectory { .. }));

    h.press(PanelKey::Enter);
    assert!(h.core.folders.is_empty());
    assert!(matches!(h.panel, ActionPanelState::Closed));
}

#[test]
fn action_panel_create_playlist_from_input() {
    let mut h = Harness::new(empty_core(), root(7));

    h.press(PanelKey::Enter);
    assert!(matches!(h.panel, ActionPanelState::PlaylistCreate { selected: 0, .. }));

    h.type_text("mix");
    h.press(PanelKey::Enter);

    assert!(playlist_tracks(&h.core, "mix").is_some());
    assert!(h
        .core
        .browser_entries
        .iter()
        .any(|entry| entry.kind == BrowserEntryKind::Playlist && entry.label == "[PL] mix"));
    assert!(matches!(h.panel, ActionPanelState::Closed));
}

#[test]
fn action_panel_remove_playlist_from_list() {
    let mut state = PersistedLibrary::default();
    state.playlists.push(NamedPlaylist { name: String::from("mix"), tracks: Vec::new() });
    let core = TuneCore::from_persisted(state, Vec::new());
    let mut h = Harness::new(core, root(8));

    h.press(PanelKey::Enter);
    assert!(matches!(h.panel, ActionPanelState::PlaylistRemove { .. }));

    h.press(PanelKey::Enter);
    assert!(playlist_tracks(&h.core, "mix").is_none());
    assert_eq!(h.core.status, "Playlist removed");
    assert!(matches!(h.panel, ActionPanelState::Closed));
}

#[test]
fn action_panel_audio_driver_reload_updates_status() {
    let mut h = Harness::new(empty_core(), root(11));

    h.press(PanelKey::Enter);
    assert!(matches!(h.panel, ActionPanelState::AudioSettings { .. }));

    h.press(PanelKey::Enter);

    assert_eq!(h.audio.reload_calls, 1);
    assert_eq!(h.core.status, "Audio reset on System default output (test). Reload again if needed");
    assert!(matches!(h.panel, ActionPanelState::Closed));
}

#[test]
fn action_panel_audio_output_selection_sets_device() {
    let mut h = Harness::new(empty_core(), root(11));

    h.press(PanelKey::Enter);
    h.press(PanelKey::Down);
    h.press(PanelKey::Enter);
    assert!(matches!(h.panel, ActionPanelState::AudioOutput { selected: 0 }));

    h.press(PanelKey::Down);
    h.press(PanelKey::Down);
    h.press(PanelKey::Enter);

    assert_eq!(h.audio.selected_output, Some(String::from("Speakers")));
    assert_eq!(h.core.status, "Output: Speakers");
    assert!(matches!(h.panel, ActionPanelState::Closed));
}

#[test]
fn playback_settings_toggle_loudness_and_crossfade() {
    let mut h = Harness::new(empty_core(), root(4));

    h.press(PanelKey::Enter);
    assert!(matches!(h.panel, ActionPanelState::PlaybackSettings { .. }));

    h.press(PanelKey::Enter);
    assert!(h.core.loudness_normalization);
    assert!(h.audio.loudness_normalization);

    h.press(PanelKey::Down);
    h.press(PanelKey::Enter);
    assert_eq!(h.core.crossfade_seconds, 2);
    assert_eq!(h.audio.crossfade_seconds, 2);

    h.press(PanelKey::Down);
    h.press(PanelKey::Enter);
    assert_eq!(h.core.scrub_seconds, 10);

    h.press(PanelKey::Down);
    h.press(PanelKey::Enter);
    assert!(!h.core.stats_enabled);

    h.press(PanelKey::Down);
    h.press(PanelKey::Enter);
    assert_eq!(h.settings.stats_top_songs_count, 12);

    h.press(PanelKey::Down);
    h.press(PanelKey::Enter);
    assert_eq!(h.settings.fallback_cover_template, CoverArtTemplate::Aurora);
}

#[test]
fn online_delay_settings_cycles_sync_correction_threshold() {
    let mut h = Harness::new(empty_core(), ActionPanelState::OnlineDelaySettings { selected: 4 });

    h.press(PanelKey::Enter);

    assert_eq!(h.settings.online_sync_correction_threshold_ms, 400);
    assert_eq!(h.core.status, "Online sync correction threshold: 400ms");
}

#[test]
fn playback_settings_cover_template_cycle_stays_music_note() {
    let mut h = Harness::new(empty_core(), ActionPanelState::PlaybackSettings { selected: 5 });
    h.settings.fallback_cover_template = CoverArtTemplate::Aurora;

    h.press(PanelKey::Enter);

    assert_eq!(h.settings.fallback_cover_template, CoverArtTemplate::Aurora);
    assert_eq!(h.core.status, "Missing cover fallback: Music Note");
}

#[test]
fn theme_settings_updates_core() {
    let mut h = Harness::new(empty_core(), root(12));

    h.press(PanelKey::Enter);
    assert!(matches!(h.panel, ActionPanelState::ThemeSettings { selected: 0 }));

    h.press(PanelKey::Down);
    h.press(PanelKey::Enter);
    assert_eq!(h.core.theme, Theme::PitchBlack);
    assert_eq!(h.core.status, "Theme: Pitch Black");
}

#[test]
fn panel_back_returns_to_root_on_the_opening_action() {
    let mut h = Harness::new(empty_core(), root(12));
    h.press(PanelKey::Enter);
    h.press(PanelKey::Left);
    // The theme action was just used, so it now heads the menu as a recent action.
    assert!(matches!(h.panel, ActionPanelState::Root { selected: 0, .. }));
    h.press(PanelKey::Esc);
    assert!(matches!(h.panel, ActionPanelState::Closed));
}

#[test]
fn panel_cursor_wraps_and_root_cursor_is_kept_on_a_row() {
    let mut h = Harness::new(empty_core(), ActionPanelState::Mode { selected: 0 });
    h.press(PanelKey::Up);
    assert!(matches!(h.panel, ActionPanelState::Mode { selected: 3 }));
    h.press(PanelKey::Down);
    assert!(matches!(h.panel, ActionPanelState::Mode { selected: 0 }));

    let mut h = Harness::new(empty_core(), root(500));
    h.press(PanelKey::Other);
    assert!(matches!(h.panel, ActionPanelState::Root { selected: 18, .. }));
}

#[test]
fn lyrics_import_interval_takes_digits_only() {
    let panel = ActionPanelState::LyricsImportTxt {
        selected: 1,
        path_input: String::from(" /lyrics/song.txt "),
        interval_input: String::new(),
    };
    let mut h = Harness::new(empty_core(), panel);
    h.type_text("0x");
    match &h.panel {
        ActionPanelState::LyricsImportTxt { interval_input, .. } => assert_eq!(interval_input, "0"),
        _ => panic!("expected the import form"),
    }
    h.press(PanelKey::Down);
    let effect = h.press(PanelKey::Enter);
    match effect {
        PanelEffect::ImportLyrics { path, interval_seconds } => {
            assert_eq!(path, "/lyrics/song.txt");
            assert_eq!(interval_seconds, 1);
        },
        _ => panic!("expected an import"),
    }
    assert!(matches!(h.panel, ActionPanelState::Closed));
}

#[test]
fn playlist_play_loads_and_plays_first_track() {
    let mut state = PersistedLibrary::default();
    state.playlists.push(NamedPlaylist {
        name: String::from("mix"),
        tracks: vec![String::from("/m/b.mp3"), String::from("/m/a.mp3")],
    });
    let tracks = vec![
        tune::model::Track { path: String::from("/m/a.mp3"), title: String::from("a"), artist: None, album: None },
        tune::model::Track { path: String::from("/m/b.mp3"), title: String::from("b"), artist: None, album: None },
    ];
    let core = TuneCore::from_persisted(state, tracks);
    let mut h = Harness::new(core, ActionPanelState::PlaylistPlay { selected: 0 });

    h.press(PanelKey::Enter);

    assert_eq!(h.audio.played, vec![String::from("/m/b.mp3")]);
    assert!(matches!(h.panel, ActionPanelState::Closed));
}

#[test]
fn follow_up_reports_metadata_writes_and_folder_picks() {
    let mut core = empty_core();
    let mut panel = ActionPanelState::AddDirectory { selected: 0, input: String::new() };
    assert_eq!(finish_folder_pick(&mut core, &mut panel, Ok(None)), None);
    assert_eq!(core.status, "Folder selection cancelled");
    assert_eq!(finish_folder_pick(&mut core, &mut panel, Err(String::from("no dialog"))), None);
    assert_eq!(core.status, "Folder picker failed: no dialog");
    assert_eq!(
        finish_folder_pick(&mut core, &mut panel, Ok(Some(String::from("/music")))),
        Some(String::from("/music"))
    );
    assert!(matches!(panel, ActionPanelState::Closed));

    let mut editor = ActionPanelState::Mode { selected: 0 };
    finish_metadata_write(&mut core, &mut editor, false, Some(String::from("read-only")));
    assert_eq!(core.status, "Metadata save failed: read-only");
    assert!(matches!(editor, ActionPanelState::Mode { .. }));
    finish_metadata_write(&mut core, &mut editor, true, None);
    assert_eq!(core.status, "Metadata cleared");
    assert!(matches!(editor, ActionPanelState::Closed));
}

#[test]
fn audio_statuses_and_output_rows() {
    assert_eq!(
        audio_reset_status(Some("busy"), None),
        "Audio reset failed: busy. Use / -> Audio driver settings"
    );
    assert_eq!(output_switch_status(None, None), "Output: unknown output");
    assert_eq!(
        output_switch_status(Some("gone"), None),
        "Output switch failed: gone. Try Reload audio driver"
    );
    let env = PanelEnv {
        audio_outputs: vec![String::from("Headphones"), String::from("Speakers")],
        selected_output: Some(String::from("Speakers")),
        current_track: None,
    };
    assert_eq!(audio_output_options(&env), vec!["System default output", "Headphones", "* Speakers"]);
    assert_eq!(
        sort_by_lowercase(&vec![String::from("b"), String::from("A"), String::from("a")]),
        vec!["A", "a", "b"]
    );
}

#[test]
fn panel_view_lists_rows_of_each_menu() {
    let core = empty_core();
    let env = PanelEnv { audio_outputs: Vec::new(), selected_output: None, current_track: None };
    let settings = PanelSettings::default();
    let view = root(0).to_view(&core, &env, &Vec::new(), &settings, None).expect("open panel");
    assert_eq!(view.title, "Actions");
    assert_eq!(view.options.len(), 19);
    assert_eq!(view.options[0], "Add directory");
    let playlists = ActionPanelState::PlaylistPlay { selected: 0 }
        .to_view(&core, &env, &Vec::new(), &settings, None)
        .expect("open panel");
    assert_eq!(playlists.options, vec!["(no playlists)"]);
    let form = ActionPanelState::LyricsImportTxt {
        selected: 0,
        path_input: String::new(),
        interval_input: String::new(),
    }
    .to_view(&core, &env, &Vec::new(), &settings, None)
    .expect("open panel");
    assert_eq!(form.options, vec!["TXT path: ", "Seed interval seconds: 3", "Import and save sidecar"]);
    assert!(ActionPanelState::Closed.to_view(&core, &env, &Vec::new(), &settings, None).is_none());
}

use tune::browser::{BrowserEntry, BrowserEntryKind, HeaderSection};
use tune::model::{LegacyPlaybackMode, Track};
use tune::tune_core::{DirectoryItem, FolderProbe, NamedPlaylist, PersistedLibrary, TuneCore};

fn track(path: &str, title: &str) -> Track {
    Track {
        path: String::from(path),
        title: String::from(title),
        artist: None,
        album: None,
    }
}

fn empty_core() -> TuneCore {
    TuneCore::from_persisted(PersistedLibrary::default(), Vec::new())
}

fn playlist<'a>(core: &'a TuneCore, name: &str) -> Option<&'a NamedPlaylist> {
    core.playlists.iter().find(|p| p.name == name)
}

#[test]
fn loop_mode_wraps() {
    let mut core = empty_core();
    core.tracks = vec![track("a", "a"), track("b", "b")];
    core.queue = vec![0, 1];
    core.playback_mode = LegacyPlaybackMode::Loop;
    core.current_queue_index = Some(1);

    let next = core.next_track_path().expect("next");
    assert_eq!(next, "a");
}

#[test]
fn cycle_header_section_wraps_and_updates_status() {
    let mut core = empty_core();
    assert_eq!(core.header_section, HeaderSection::Library);

    core.cycle_header_section();
    assert_eq!(core.header_section, HeaderSection::Lyrics);
    assert_eq!(core.status, "Section: Lyrics");

    core.cycle_header_section();
    core.cycle_header_section();
    core.cycle_header_section();
    assert_eq!(core.header_section, HeaderSection::Library);
}

#[test]
fn root_browser_uses_folders() {
    let mut state = PersistedLibrary::default();
    state.folders.push(String::from(r"E:\LOCALMUSIC"));
    let core = TuneCore::from_persisted(state, Vec::new());
    assert!(core
        .browser_entries
        .iter()
        .any(|entry| entry.kind == BrowserEntryKind::Folder));
}

#[test]
fn remove_folder_removes_matching_entry() {
    let mut state = PersistedLibrary::default();
    state.folders.push(String::from(r"E:\LOCALMUSIC"));
    let mut core = TuneCore::from_persisted(state, Vec::new());

    core.remove_folder(r"E:\LOCALMUSIC", None);

    assert!(core.folders.is_empty());
    assert_eq!(core.status, "Folder removed");
}

#[test]
fn root_browser_includes_all_songs_entry() {
    let core = empty_core();
    assert!(core
        .browser_entries
        .iter()
        .any(|entry| entry.kind == BrowserEntryKind::AllSongs));
}

#[test]
fn root_browser_includes_playlists() {
    let mut state = PersistedLibrary::default();
    state.playlists.push(NamedPlaylist {
        name: String::from("mix"),
        tracks: vec![String::from("song.mp3")],
    });
    let core = TuneCore::from_persisted(state, Vec::new());
    assert!(core
        .browser_entries
        .iter()
        .any(|entry| entry.kind == BrowserEntryKind::Playlist && entry.label == "[PL] mix"));
}

#[test]
fn activating_playlist_uses_playlist_queue() {
    let mut state = PersistedLibrary::default();
    state.playlists.push(NamedPlaylist {
        name: String::from("mix"),
        tracks: vec![String::from("song.mp3")],
    });
    let mut core = TuneCore::from_persisted(state, Vec::new());

    core.selected_browser = core
        .browser_entries
        .iter()
        .position(|entry| entry.kind == BrowserEntryKind::Playlist)
        .expect("playlist entry");

    core.activate_selected();
    assert_eq!(core.browser_playlist.as_deref(), Some("mix"));
    assert_eq!(core.browser_entries[0].kind, BrowserEntryKind::Back);
    assert_eq!(core.browser_entries[1].kind, BrowserEntryKind::Track);

    core.selected_browser = 1;
    let selected = core.activate_selected().expect("track selected");
    assert_eq!(selected, "song.mp3");
    assert_eq!(core.queue, vec![0]);
    assert_eq!(core.current_queue_index, Some(0));
}

#[test]
fn activating_track_matches_queue_index_by_normalized_path() {
    let mut core = empty_core();
    core.tracks = vec![Track {
        path: String::from(r"\\?\E:\LOCALMUSIC\song.mp3"),
        title: String::from("song"),
        artist: Some(String::from("artist")),
        album: Some(String::from("album")),
    }];
    core.browser_entries = vec![BrowserEntry {
        kind: BrowserEntryKind::Track,
        path: String::from(r"E:\LOCALMUSIC\song.mp3"),
        label: String::from("song"),
    }];
    core.selected_browser = 0;

    let selected = core.activate_selected().expect("track selected");
    assert_eq!(selected, r"E:\LOCALMUSIC\song.mp3");
    assert_eq!(core.current_queue_index, Some(0));
}

#[test]
fn playlist_browser_prefers_track_title_labels() {
    let mut state = PersistedLibrary::default();
    state.playlists.push(NamedPlaylist {
        name: String::from("mix"),
        tracks: vec![String::from("song.mp3")],
    });

    let mut core = TuneCore::from_persisted(state, Vec::new());
    core.tracks = vec![Track {
        path: String::from("song.mp3"),
        title: String::from("Metadata Title"),
        artist: Some(String::from("Metadata Artist")),
        album: None,
    }];
    core.browser_playlist = Some(String::from("mix"));
    core.refresh_browser_entries();

    assert_eq!(core.browser_entries[1].label, "Metadata Title");
}

#[test]
fn navigate_back_stops_at_added_root() {
    let mut state = PersistedLibrary::default();
    state.folders.push(String::from(r"E:\LOCALMUSIC"));
    let mut core = TuneCore::from_persisted(state, Vec::new());

    core.browser_path = Some(String::from(r"e:\localmusic"));
    core.navigate_back();

    assert_eq!(core.browser_path, None);
}

#[test]
fn shuffle_visits_each_track_before_repeat() {
    let mut core = empty_core();
    core.queue = vec![0, 1, 2, 3];
    core.tracks = vec![
        track("a.mp3", "a"),
        track("b.mp3", "b"),
        track("c.mp3", "c"),
        track("d.mp3", "d"),
    ];
    core.rebuild_shuffle_order();
    core.playback_mode = LegacyPlaybackMode::Shuffle;

    let mut seen = std::collections::HashSet::new();
    for _ in 0..4 {
        let path = core.next_track_path().expect("next");
        seen.insert(path);
    }

    assert_eq!(seen.len(), 4);
}

#[test]
fn main_queue_is_sorted_by_metadata_title() {
    let mut core = empty_core();
    core.tracks = vec![
        track("a.mp3", "Zulu"),
        track("b.mp3", "alpha"),
        track("c.mp3", "Mike"),
    ];

    core.reset_main_queue();

    let queued_titles: Vec<&str> = core
        .queue
        .iter()
        .map(|idx| core.tracks[*idx].title.as_str())
        .collect();
    assert_eq!(queued_titles, vec!["alpha", "Mike", "Zulu"]);
}

#[test]
fn activating_library_track_uses_metadata_sorted_queue() {
    let mut core = empty_core();
    core.tracks = vec![track("a.mp3", "Zulu"), track("b.mp3", "Alpha")];
    core.browser_entries = vec![BrowserEntry {
        kind: BrowserEntryKind::Track,
        path: String::from("b.mp3"),
        label: String::from("Alpha"),
    }];
    core.selected_browser = 0;

    let selected = core.activate_selected().expect("track selected");

    assert_eq!(selected, "b.mp3");
    assert_eq!(core.queue, vec![1, 0]);
    assert_eq!(core.current_queue_index, Some(0));
}

#[test]
fn activating_folder_track_uses_folder_local_queue() {
    let mut core = empty_core();
    core.tracks = vec![
        track(r"music\folder\a.mp3", "a"),
        track(r"music\folder\b.mp3", "b"),
        track(r"music\other\c.mp3", "c"),
    ];
    core.browser_path = Some(String::from(r"music\folder"));
    core.browser_entries = vec![
        BrowserEntry {
            kind: BrowserEntryKind::Back,
            path: String::from(r"music\folder"),
            label: String::from("[..] Back"),
        },
        BrowserEntry {
            kind: BrowserEntryKind::Track,
            path: String::from(r"music\folder\a.mp3"),
            label: String::from("a"),
        },
        BrowserEntry {
            kind: BrowserEntryKind::Track,
            path: String::from(r"music\folder\b.mp3"),
            label: String::from("b"),
        },
    ];
    core.selected_browser = 2;

    let selected = core.activate_selected().expect("track selected");

    assert_eq!(selected, r"music\folder\b.mp3");
    assert_eq!(core.queue, vec![0, 1]);
    assert_eq!(core.current_queue_index, Some(1));
}

#[test]
fn adding_playlist_selection_to_playlist_copies_tracks() {
    let mut core = empty_core();
    core.playlists.push(NamedPlaylist {
        name: String::from("source"),
        tracks: vec![String::from("a.mp3"), String::from("b.mp3")],
    });
    core.browser_entries = vec![BrowserEntry {
        kind: BrowserEntryKind::Playlist,
        path: String::from("source"),
        label: String::from("[PL] source"),
    }];

    core.add_selected_to_playlist("target");

    let target = playlist(&core, "target").expect("target exists");
    assert_eq!(
        target.tracks,
        vec![String::from("a.mp3"), String::from("b.mp3")]
    );
}

#[test]
fn adding_all_songs_selection_to_playlist_adds_full_library() {
    let mut core = empty_core();
    core.tracks = vec![track("z.mp3", "Zulu"), track("a.mp3", "Alpha")];
    core.browser_entries = vec![BrowserEntry {
        kind: BrowserEntryKind::AllSongs,
        path: String::new(),
        label: String::from("[ALL] All Songs"),
    }];

    core.add_selected_to_playlist("mix");

    let mix = playlist(&core, "mix").expect("playlist exists");
    assert_eq!(mix.tracks, vec![String::from("a.mp3"), String::from("z.mp3")]);
}

#[test]
fn remove_selected_from_current_playlist_removes_track() {
    let mut core = empty_core();
    core.playlists.push(NamedPlaylist {
        name: String::from("mix"),
        tracks: vec![String::from("a.mp3"), String::from("b.mp3")],
    });
    core.browser_playlist = Some(String::from("mix"));
    core.browser_entries = vec![
        BrowserEntry {
            kind: BrowserEntryKind::Back,
            path: String::new(),
            label: String::from("[..] Back"),
        },
        BrowserEntry {
            kind: BrowserEntryKind::Track,
            path: String::from("b.mp3"),
            label: String::from("b"),
        },
    ];
    core.selected_browser = 1;

    core.remove_selected_from_current_playlist();

    let mix = playlist(&core, "mix").expect("playlist exists");
    assert_eq!(mix.tracks, vec![String::from("a.mp3")]);
}

#[test]
fn remove_playlist_refreshes_root_browser_entries() {
    let mut core = empty_core();
    core.create_playlist("mix");
    assert!(core
        .browser_entries
        .iter()
        .any(|entry| entry.kind == BrowserEntryKind::Playlist && entry.label == "[PL] mix"));

    core.remove_playlist("mix");

    assert!(!core
        .browser_entries
        .iter()
        .any(|entry| entry.kind == BrowserEntryKind::Playlist && entry.label == "[PL] mix"));
}

#[test]
fn prev_track_path_moves_back_in_queue() {
    let mut core = empty_core();
    core.tracks = vec![track("a.mp3", "a"), track("b.mp3", "b")];
    core.queue = vec![0, 1];
    core.current_queue_index = Some(1);
    core.playback_mode = LegacyPlaybackMode::Normal;

    let prev = core.prev_track_path().expect("prev track");

    assert_eq!(prev, "a.mp3");
    assert_eq!(core.current_queue_index, Some(0));
}

// ---------------------------------------------------------------------------
// Further cases
// ---------------------------------------------------------------------------

#[test]
fn root_rows_are_sorted_by_label_ignoring_case() {
    let mut state = PersistedLibrary::default();
    state.folders.push(String::from("/music/Zed"));
    state.folders.push(String::from("/music/abba"));
    state.playlists.push(NamedPlaylist {
        name: String::from("Mix"),
        tracks: Vec::new(),
    });
    let core = TuneCore::from_persisted(state, Vec::new());
    let labels: Vec<&str> = core.browser_entries.iter().map(|e| e.label.as_str()).collect();
    assert_eq!(
        labels,
        vec!["[ALL] All Songs", "[DIR] abba", "[DIR] Zed", "[PL] Mix"]
    );
    assert_eq!(core.status, "Ready");
}

#[test]
fn folder_listing_shows_sorted_folders_then_audio_files() {
    let mut state = PersistedLibrary::default();
    state.folders.push(String::from("/music"));
    let tracks = vec![track("/music/b.mp3", "Bravo")];
    let mut core = TuneCore::from_persisted(state, tracks);
    core.selected_browser = core
        .browser_entries
        .iter()
        .position(|e| e.kind == BrowserEntryKind::Folder)
        .expect("folder row");
    assert_eq!(core.activate_selected(), None);
    assert_eq!(core.browser_path.as_deref(), Some("/music"));
    assert_eq!(core.pending_listing().as_deref(), Some("/music"));

    core.set_folder_listing(
        String::from("/music"),
        vec![
            DirectoryItem {
                path: String::from("/music/notes.txt"),
                file_name: String::from("notes.txt"),
                is_dir: false,
            },
            DirectoryItem {
                path: String::from("/music/b.mp3"),
                file_name: String::from("b.mp3"),
                is_dir: false,
            },
            DirectoryItem {
                path: String::from("/music/live"),
                file_name: String::from("live"),
                is_dir: true,
            },
            DirectoryItem {
                path: String::from("/music/A.FLAC"),
                file_name: String::from("A.FLAC"),
                is_dir: false,
            },
        ],
    );
    assert_eq!(core.pending_listing(), None);
    let rows: Vec<(BrowserEntryKind, &str)> = core
        .browser_entries
        .iter()
        .map(|e| (e.kind, e.label.as_str()))
        .collect();
    assert_eq!(
        rows,
        vec![
            (BrowserEntryKind::Back, "[..] Back"),
            (BrowserEntryKind::Folder, "[DIR] live"),
            (BrowserEntryKind::Track, "A.FLAC"),
            (BrowserEntryKind::Track, "Bravo"),
        ]
    );

    core.selected_browser = 1;
    assert_eq!(core.activate_selected(), None);
    assert_eq!(core.browser_path.as_deref(), Some("/music/live"));
    core.navigate_back();
    assert_eq!(core.browser_path.as_deref(), Some("/music"));
    assert_eq!(core.status, "Went back");
    core.navigate_back();
    assert_eq!(core.browser_path, None);
}

#[test]
fn playing_row_is_marked_once_for_a_repeated_track() {
    let mut state = PersistedLibrary::default();
    state.playlists.push(NamedPlaylist {
        name: String::from("twice"),
        tracks: vec![String::from("x.mp3"), String::from("x.mp3")],
    });
    let mut core = TuneCore::from_persisted(state, Vec::new());
    core.selected_browser = core
        .browser_entries
        .iter()
        .position(|e| e.kind == BrowserEntryKind::Playlist)
        .expect("playlist row");
    core.activate_selected();
    core.selected_browser = 2;
    assert_eq!(core.activate_selected().as_deref(), Some("x.mp3"));
    assert_eq!(core.queue, vec![0, 0]);
    assert_eq!(core.current_queue_index, Some(1));
    assert!(!core.is_browser_entry_playing(1));
    assert!(core.is_browser_entry_playing(2));
    assert_eq!(core.tracks[0].title, "x");
}

#[test]
fn playlist_edits_report_what_happened() {
    let mut core = empty_core();
    core.create_playlist("mix");
    assert_eq!(core.status, "Playlist created");
    core.create_playlist("mix");
    assert_eq!(core.status, "Playlist already exists");
    core.add_track_to_playlist("mix", "/m/a.mp3");
    assert_eq!(core.status, "Added now playing track to playlist");
    assert_eq!(playlist(&core, "mix").unwrap().tracks, vec![String::from("/m/a.mp3")]);
    core.remove_playlist("nope");
    assert_eq!(core.status, "Playlist not found");
    core.remove_selected_from_current_playlist();
    assert_eq!(core.status, "Open a playlist to remove tracks");
    core.load_playlist_queue("mix");
    assert_eq!(core.status, "Loaded playlist: mix");
    assert_eq!(core.queue, vec![0]);
    assert_eq!(core.tracks[0].title, "a");
    assert_eq!(core.current_queue_index, None);
}

#[test]
fn selection_stays_within_rows() {
    let mut core = empty_core();
    assert_eq!(core.browser_entries.len(), 1);
    core.select_next();
    assert_eq!(core.selected_browser, 0);
    core.select_prev();
    assert_eq!(core.selected_browser, 0);
    core.create_playlist("a");
    core.select_next();
    assert_eq!(core.selected_browser, 1);
    core.select_next();
    assert_eq!(core.selected_browser, 1);
}

#[test]
fn empty_queue_reports_instead_of_moving() {
    let mut core = empty_core();
    assert_eq!(core.next_track_path(), None);
    assert_eq!(core.status, "Queue is empty");
    assert_eq!(core.prev_track_path(), None);
}

#[test]
fn normal_mode_stops_at_the_end_and_lookups_follow_paths() {
    let mut core = empty_core();
    core.tracks = vec![
        Track {
            path: String::from("/m/a.mp3"),
            title: String::from("A"),
            artist: Some(String::from("Ann")),
            album: None,
        },
        track("/m/b.mp3", "B"),
    ];
    core.reset_main_queue();
    assert_eq!(core.next_track_path().as_deref(), Some("/m/a.mp3"));
    assert_eq!(core.current_path().as_deref(), Some("/m/a.mp3"));
    assert_eq!(core.next_track_path().as_deref(), Some("/m/b.mp3"));
    assert_eq!(core.next_track_path(), None);
    assert_eq!(core.current_queue_index, Some(1));
    assert_eq!(core.queue_position_for_path("/m//b.mp3"), Some(1));
    assert_eq!(core.title_for_path("/m/a.mp3").as_deref(), Some("A"));
    assert_eq!(core.artist_for_path("/m/a.mp3").as_deref(), Some("Ann"));
    assert_eq!(core.album_for_path("/m/a.mp3"), None);
    assert_eq!(core.title_for_path("/m/zz.mp3"), None);
}

#[test]
fn removing_an_unknown_folder_changes_nothing() {
    let mut state = PersistedLibrary::default();
    state.folders.push(String::from("/music"));
    let mut core = TuneCore::from_persisted(state, Vec::new());
    assert!(!core.remove_folder("/other", None));
    assert_eq!(core.status, "Folder not found");
    assert!(!core.remove_folder("", None));
    assert_eq!(core.status, "Invalid folder path");
    assert!(core.remove_folder("• /music/", None));
    assert!(core.folders.is_empty());
}

#[test]
fn adding_a_folder_merges_its_tracks_in_path_order() {
    let mut core = TuneCore::from_persisted(PersistedLibrary::default(), vec![track("/m/b.mp3", "B")]);
    assert!(!core.add_folder("   ", None));
    assert_eq!(core.status, "Invalid folder path");
    assert!(!core.add_folder("/x", None));
    assert_eq!(core.status, "Folder not found");
    let file = FolderProbe {
        path: String::from("/x"),
        is_dir: false,
    };
    assert!(!core.add_folder("/x", Some(file)));
    assert_eq!(core.status, "Path is not a folder");

    let music = FolderProbe {
        path: String::from("/m"),
        is_dir: true,
    };
    assert!(core.add_folder("• /m", Some(music)));
    assert_eq!(core.folders, vec![String::from("/m")]);
    core.add_scanned_tracks(vec![
        track("/m/c.mp3", "C"),
        track("/m/b.mp3", "B again"),
        track("/m/a.mp3", "A"),
    ]);
    let titles: Vec<&str> = core.tracks.iter().map(|t| t.title.as_str()).collect();
    assert_eq!(titles, vec!["A", "B", "C"]);
    assert_eq!(core.status, "Added folder with 3 tracks");
    assert_eq!(core.queue, vec![0, 1, 2]);

    let again = FolderProbe {
        path: String::from("/m/"),
        is_dir: true,
    };
    assert!(!core.add_folder("/m/", Some(again)));
    assert_eq!(core.status, "Folder already added");
}

#[test]
fn shuffle_order_naming_missing_positions_is_drawn_again() {
    let mut core = empty_core();
    core.tracks = vec![track("a.mp3", "a"), track("b.mp3", "b"), track("c.mp3", "c")];
    core.queue = vec![0, 1, 2];
    core.current_queue_index = Some(0);
    core.playback_mode = LegacyPlaybackMode::Shuffle;
    core.shuffle_order = vec![0, 7, 9];
    for _ in 0..6 {
        let path = core.next_track_path().expect("next");
        let index = core.current_queue_index.expect("playing");
        assert!(index < core.queue.len());
        assert_eq!(core.tracks[core.queue[index]].path, path);
    }
    assert!(core.shuffle_order.iter().all(|k| *k < 3));
}

#[test]
fn moving_through_the_queue_keeps_positions_valid_in_every_mode() {
    for mode in [
        LegacyPlaybackMode::Normal,
        LegacyPlaybackMode::Loop,
        LegacyPlaybackMode::LoopOne,
        LegacyPlaybackMode::Shuffle,
    ] {
        let mut core = empty_core();
        core.tracks = vec![track("a.mp3", "a"), track("b.mp3", "b")];
        core.queue = vec![1, 0];
        core.playback_mode = mode;
        for step in 0..5 {
            let before = core.current_queue_index;
            let result = if step % 2 == 0 { core.next_track_path() } else { core.prev_track_path() };
            match result {
                Some(path) => {
                    let index = core.current_queue_index.expect("playing");
                    assert_eq!(core.tracks[core.queue[index]].path, path);
                },
                None => assert_eq!(core.current_queue_index, before),
            }
            assert_eq!(core.queue, vec![1, 0]);
        }
    }
}

use tune::browser::{HeaderSection, LyricsMode};
use tune::lyrics::{LyricLine, LyricsDocument, LyricsSource, LyricsTimingPrecision};
use tune::lyrics_tab::{empty_lyrics_document, lyrics_key_action, LyricsKey, LyricsKeyAction, LyricsKeyCode, LyricsTab};
use tune::tune_core::{PersistedLibrary, TuneCore};

fn core_on(section: HeaderSection) -> TuneCore {
    let mut core = TuneCore::from_persisted(PersistedLibrary::default(), Vec::new());
    core.header_section = section;
    core
}

fn key(code: LyricsKeyCode) -> LyricsKey {
    LyricsKey { code, ctrl: false }
}

fn ctrl(code: LyricsKeyCode) -> LyricsKey {
    LyricsKey { code, ctrl: true }
}

fn one_line(text: &str) -> LyricsDocument {
    LyricsDocument {
        lines: vec![LyricLine { timestamp_ms: Some(1000), text: String::from(text) }],
        source: LyricsSource::Sidecar,
        precision: LyricsTimingPrecision::Line,
    }
}

#[test]
fn lyrics_keys_follow_the_mode_and_the_creation_offer() {
    let core = core_on(HeaderSection::Lyrics);
    let mut tab = LyricsTab::new();

    assert_eq!(lyrics_key_action(&core, &tab, key(LyricsKeyCode::Char('a'))), LyricsKeyAction::PassOn);
    assert_eq!(lyrics_key_action(&core, &tab, key(LyricsKeyCode::Down)), LyricsKeyAction::MoveDown);
    assert_eq!(lyrics_key_action(&core, &tab, ctrl(LyricsKeyCode::Char('E'))), LyricsKeyAction::ToggleMode);

    tab.mode = LyricsMode::Edit;
    assert_eq!(lyrics_key_action(&core, &tab, key(LyricsKeyCode::Char('a'))), LyricsKeyAction::Insert('a'));
    assert_eq!(lyrics_key_action(&core, &tab, ctrl(LyricsKeyCode::Char('t'))), LyricsKeyAction::Stamp);
    assert_eq!(lyrics_key_action(&core, &tab, key(LyricsKeyCode::Enter)), LyricsKeyAction::NewLine);
    assert_eq!(lyrics_key_action(&core, &tab, key(LyricsKeyCode::Delete)), LyricsKeyAction::DeleteLine);
    assert_eq!(lyrics_key_action(&core, &tab, key(LyricsKeyCode::Tab)), LyricsKeyAction::PassOn);
    assert_eq!(lyrics_key_action(&core, &tab, key(LyricsKeyCode::Char('/'))), LyricsKeyAction::PassOn);

    tab.missing_prompt = true;
    assert_eq!(lyrics_key_action(&core, &tab, key(LyricsKeyCode::Enter)), LyricsKeyAction::CreateSidecar);
    assert_eq!(lyrics_key_action(&core, &tab, key(LyricsKeyCode::Esc)), LyricsKeyAction::DeclineCreation);
    assert_eq!(lyrics_key_action(&core, &tab, key(LyricsKeyCode::Char('x'))), LyricsKeyAction::Swallow);

    let library = core_on(HeaderSection::Library);
    assert_eq!(lyrics_key_action(&library, &tab, key(LyricsKeyCode::Enter)), LyricsKeyAction::PassOn);
}

#[test]
fn following_a_track_loads_its_lyrics_once() {
    let mut core = core_on(HeaderSection::Lyrics);
    let mut tab = LyricsTab::new();

    assert_eq!(tab.sync_for_track(Some("/music/a.mp3")), Some(String::from("/music/a.mp3")));
    tab.lyrics_loaded(&mut core, Ok(Some(one_line("hello"))));
    assert!(tab.editor.lyrics.is_some());
    assert!(!tab.missing_prompt);

    assert_eq!(tab.sync_for_track(Some("/music/./a.mp3")), None);

    assert_eq!(tab.sync_for_track(Some("/music/b.mp3")), Some(String::from("/music/b.mp3")));
    tab.lyrics_loaded(&mut core, Ok(None));
    assert!(tab.editor.lyrics.is_none());
    assert!(tab.missing_prompt);

    tab.lyrics_loaded(&mut core, Err(String::from("unreadable")));
    assert_eq!(core.status, "Lyrics load failed: unreadable");
    assert!(!tab.missing_prompt);

    assert_eq!(tab.sync_for_track(None), None);
    assert!(tab.track_path.is_none());
}

#[test]
fn creating_saving_and_declining_lyrics_report_in_the_status_line() {
    let mut core = core_on(HeaderSection::Lyrics);
    let mut tab = LyricsTab::new();
    assert_eq!(tab.sidecar_target(&mut core), None);
    assert_eq!(core.status, "No active track for lyrics");

    tab.sync_for_track(Some("/music/a.mp3"));
    tab.missing_prompt = true;
    assert_eq!(tab.sidecar_target(&mut core), Some(String::from("/music/a.mp3")));
    tab.sidecar_created(&mut core, Ok(String::from("/config/lyrics/a.lrc")));
    assert_eq!(core.status, "Created /config/lyrics/a.lrc");
    assert_eq!(tab.mode, LyricsMode::Edit);
    assert!(!tab.missing_prompt);
    assert_eq!(tab.editor.lyrics.as_ref().map(|doc| doc.lines.len()), Some(1));

    assert!(tab.toggle_mode(&mut core));
    assert_eq!(core.status, "Lyrics mode: View");
    assert!(!tab.toggle_mode(&mut core));
    assert_eq!(core.status, "Lyrics mode: Edit");

    assert!(tab.can_save(&mut core));
    LyricsTab::sidecar_saved(&mut core, Err(String::from("disk full")));
    assert_eq!(core.status, "Lyrics save failed: disk full");

    tab.missing_prompt = true;
    tab.decline_creation(&mut core);
    assert!(tab.creation_declined);
    assert!(!tab.missing_prompt);
    assert_eq!(core.status, "Lyrics creation skipped");

    let doc = empty_lyrics_document();
    assert_eq!(doc.lines.len(), 1);
    assert_eq!(doc.lines[0].text, "");
}

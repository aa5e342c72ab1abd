use tune::action_panel::{handle_panel_key, ActionPanelState, PanelEnv, PanelKey, PanelSettings};
use tune::browser::{HeaderSection, StatsFilterFocus};
use tune::stats_tab::{handle_stats_inline_input, StatsFilters, StatsKey, StatsKeyCode, StatsRange, StatsSort};
use tune::tune_core::{PersistedLibrary, TuneCore};

fn core_on_stats() -> TuneCore {
    let mut core = TuneCore::from_persisted(PersistedLibrary::default(), Vec::new());
    core.header_section = HeaderSection::Stats;
    core
}

fn key(code: StatsKeyCode) -> StatsKey {
    StatsKey { code, shift: false, ctrl: false, alt: false, super_key: false }
}

/// The mouse wheel as the player handles it: over the statistics table it scrolls; with
/// the action panel open it moves the panel's cursor.
fn wheel(core: &mut TuneCore, filters: &mut StatsFilters, panel: &mut ActionPanelState, down: bool) {
    if !matches!(panel, ActionPanelState::Closed) {
        let env = PanelEnv { audio_outputs: Vec::new(), selected_output: None, current_track: None };
        let mut recent = Vec::new();
        let mut settings = PanelSettings::default();
        let key = if down { PanelKey::Down } else { PanelKey::Up };
        handle_panel_key(core, panel, &mut recent, &mut settings, &env, key);
        return;
    }
    match core.header_section {
        HeaderSection::Library => {
            if down {
                core.select_next();
            } else {
                core.select_prev();
            }
        },
        HeaderSection::Stats => filters.wheel(core, down),
        HeaderSection::Lyrics | HeaderSection::Online => {},
    }
}

#[test]
fn stats_left_on_range_cycles_back() {
    let mut core = core_on_stats();
    let mut filters = StatsFilters::new();
    filters.focus = StatsFilterFocus::Range(3);
    filters.range = StatsRange::Days30;

    assert!(handle_stats_inline_input(&mut core, &mut filters, key(StatsKeyCode::Left)));
    assert_eq!(filters.range, StatsRange::Days7);
    assert!(matches!(filters.focus, StatsFilterFocus::Range(2)));
}

#[test]
fn stats_left_from_search_scrolls_up_when_scrolled() {
    let mut core = core_on_stats();
    let mut filters = StatsFilters::new();
    filters.focus = StatsFilterFocus::Search;
    filters.scroll = 3;

    assert!(handle_stats_inline_input(&mut core, &mut filters, key(StatsKeyCode::Left)));
    assert_eq!(filters.scroll, 2);
    assert!(matches!(filters.focus, StatsFilterFocus::Search));
}

#[test]
fn stats_shift_up_resets_scroll_to_top() {
    let mut core = core_on_stats();
    let mut filters = StatsFilters::new();
    filters.focus = StatsFilterFocus::Search;
    filters.range = StatsRange::Days7;
    filters.scroll = 9;

    let shift_up = StatsKey { code: StatsKeyCode::Up, shift: true, ctrl: false, alt: false, super_key: false };
    assert!(handle_stats_inline_input(&mut core, &mut filters, shift_up));
    assert_eq!(filters.scroll, 0);
    assert!(matches!(filters.focus, StatsFilterFocus::Range(2)));
}

#[test]
fn stats_mouse_scroll_down_moves_scroll_and_focuses_search() {
    let mut core = core_on_stats();
    let mut filters = StatsFilters::new();
    filters.focus = StatsFilterFocus::Range(0);
    filters.scroll = 0;

    wheel(&mut core, &mut filters, &mut ActionPanelState::Closed, true);

    assert_eq!(filters.scroll, 1);
    assert!(matches!(filters.focus, StatsFilterFocus::Search));
}

#[test]
fn stats_mouse_scroll_up_moves_scroll_and_focuses_search() {
    let mut core = core_on_stats();
    let mut filters = StatsFilters::new();
    filters.focus = StatsFilterFocus::Range(3);
    filters.scroll = 3;

    wheel(&mut core, &mut filters, &mut ActionPanelState::Closed, false);

    assert_eq!(filters.scroll, 2);
    assert!(matches!(filters.focus, StatsFilterFocus::Search));
}

#[test]
fn mouse_scroll_targets_action_panel_when_open() {
    let mut core = TuneCore::from_persisted(PersistedLibrary::default(), Vec::new());
    let mut filters = StatsFilters::new();
    let mut panel = ActionPanelState::Root { selected: 0, query: String::new() };

    wheel(&mut core, &mut filters, &mut panel, true);

    assert!(matches!(panel, ActionPanelState::Root { selected: 1, query: _ }));
}

#[test]
fn stats_tab_does_not_consume_ctrl_c() {
    let mut core = core_on_stats();
    let mut filters = StatsFilters::new();
    filters.focus = StatsFilterFocus::Search;

    let ctrl_c = StatsKey { code: StatsKeyCode::Char('c'), shift: false, ctrl: true, alt: false, super_key: false };
    assert!(!handle_stats_inline_input(&mut core, &mut filters, ctrl_c));
}

#[test]
fn stats_tab_does_not_consume_etx_char_or_mutate_filters() {
    let mut core = core_on_stats();
    let mut filters = StatsFilters::new();
    filters.focus = StatsFilterFocus::Artist;

    assert!(!handle_stats_inline_input(&mut core, &mut filters, key(StatsKeyCode::Char('\u{3}'))));
    assert!(filters.artist_filter.is_empty());
}

#[test]
fn stats_text_filters_and_sort_follow_the_keys() {
    let mut core = core_on_stats();
    let mut filters = StatsFilters::new();

    assert!(handle_stats_inline_input(&mut core, &mut filters, key(StatsKeyCode::Down)));
    assert!(matches!(filters.focus, StatsFilterFocus::Sort(0)));
    assert!(handle_stats_inline_input(&mut core, &mut filters, key(StatsKeyCode::Enter)));
    assert_eq!(filters.sort, StatsSort::Plays);
    assert!(matches!(filters.focus, StatsFilterFocus::Sort(1)));

    handle_stats_inline_input(&mut core, &mut filters, key(StatsKeyCode::Down));
    assert!(matches!(filters.focus, StatsFilterFocus::Artist));
    for ch in "abc".chars() {
        assert!(handle_stats_inline_input(&mut core, &mut filters, key(StatsKeyCode::Char(ch))));
    }
    assert_eq!(filters.artist_filter, "abc");
    assert_eq!(core.status, "Artist filter updated");
    handle_stats_inline_input(&mut core, &mut filters, key(StatsKeyCode::Backspace));
    assert_eq!(filters.artist_filter, "ab");
    assert!(handle_stats_inline_input(&mut core, &mut filters, key(StatsKeyCode::Delete)));
    assert_eq!(filters.artist_filter, "");
    assert_eq!(core.status, "Artist filter cleared");

    filters.search = String::from("x");
    filters.clear_filters(&mut core);
    assert_eq!(filters.search, "");
    assert_eq!(core.status, "Stats filters cleared");

    core.header_section = HeaderSection::Library;
    assert!(!handle_stats_inline_input(&mut core, &mut filters, key(StatsKeyCode::Down)));
}

//! The action panel: a keyboard-driven menu over the library, its settings and the audio
//! output. A key moves the panel from one state to the next and may change the library;
//! work that needs the audio engine, the file system or the network is handed back to the
//! caller as a `PanelEffect`.

use crate::model::{CoverArtTemplate, LegacyPlaybackMode, Theme};
use crate::config::{display_text, sanitize_display_text};
use crate::online::{effective_delay, text_opt, ParticipantView};
use crate::panel::{
    crossfade_label, crossfade_step, crossfade_text, next_crossfade_seconds,
    next_online_sync_correction_threshold_ms, next_scrub_seconds, next_stats_top_songs_count,
    offered_themes, root_selected_for_action, root_visible_actions, scrub_label, scrub_step,
    scrub_text, theme_label, theme_name, threshold_step, top_songs_step, update_recent_root_actions,
    recent_after, row_label, theme_option_text, visible_rows, RootActionId,
};
use crate::playback::{on_off, on_off_text};
use crate::text::{
    chars_of, decimal, extend_str, is_ascii_digit, lower_chars, lower_seq, push_decimal,
    string_from_chars, string_push, sub_chars, trim, trimmed,
};
use crate::browser::BrowserEntryKind;
use crate::text::parse_unsigned;
use crate::tune_core::{
    add_paths, add_selected_outcome, create_playlist_outcome, is_order_of,
    lemma_stable_order_bounds, load_playlist_outcome, needs_new_order, next_track_outcome, path_at,
    playlist_names_of, playlist_position, remove_playlist_outcome, remove_selected_outcome,
    selected_paths, stable_order, stable_order_exec, texts, with_setting, with_status, CoreView,
    SettingChange, TuneCore,
};
use vstd::prelude::*;

verus! {

// ---------------------------------------------------------------------------
// Keys, states and their views
// ---------------------------------------------------------------------------

/// The keys the panel reacts to.
#[derive(Debug, Clone, Copy, PartialEq, Eq, Structural)]
pub enum PanelKey {
    Char(char),
    Backspace,
    Esc,
    Up,
    Down,
    Left,
    Enter,
    Other,
}

/// The metadata editor: the fields of the selected track, or, for a folder, a playlist or
/// the whole library, only the cover art copy.
#[derive(Debug)]
pub struct MetadataEditorState {
    pub selected_track_path: Option<String>,
    pub copy_target_label: String,
    pub copy_target_paths: Vec<String>,
    pub title_input: String,
    pub artist_input: String,
    pub album_input: String,
    pub confirm_all_songs_cover_copy: bool,
}

pub struct EditorView {
    pub track: Option<Seq<char>>,
    pub label: Seq<char>,
    pub targets: Seq<Seq<char>>,
    pub title: Seq<char>,
    pub artist: Seq<char>,
    pub album: Seq<char>,
    pub confirm: bool,
}

impl View for MetadataEditorState {
    type V = EditorView;

    open spec fn view(&self) -> EditorView {
        EditorView {
            track: text_opt(self.selected_track_path),
            label: self.copy_target_label@,
            targets: texts(self.copy_target_paths@),
            title: self.title_input@,
            artist: self.artist_input@,
            album: self.album_input@,
            confirm: self.confirm_all_songs_cover_copy,
        }
    }
}

/// Where the panel is: closed, the searchable root menu, or one of its sub-menus with the
/// row the cursor is on.
#[derive(Debug)]
pub enum ActionPanelState {
    Closed,
    Root { selected: usize, query: String },
    Mode { selected: usize },
    PlaylistPlay { selected: usize },
    PlaylistAdd { selected: usize },
    PlaylistAddNowPlaying { selected: usize },
    PlaylistCreate { selected: usize, input: String },
    PlaylistRemove { selected: usize },
    AudioSettings { selected: usize },
    AudioOutput { selected: usize },
    PlaybackSettings { selected: usize },
    OnlineDelaySettings { selected: usize },
    ThemeSettings { selected: usize },
    LyricsImportTxt { selected: usize, path_input: String, interval_input: String },
    MetadataEditor { selected: usize, state: MetadataEditorState },
    AddDirectory { selected: usize, input: String },
    RemoveDirectory { selected: usize },
}

pub enum PanelView {
    Closed,
    Root { selected: usize, query: Seq<char> },
    Mode { selected: usize },
    PlaylistPlay { selected: usize },
    PlaylistAdd { selected: usize },
    PlaylistAddNowPlaying { selected: usize },
    PlaylistCreate { selected: usize, input: Seq<char> },
    PlaylistRemove { selected: usize },
    AudioSettings { selected: usize },
    AudioOutput { selected: usize },
    PlaybackSettings { selected: usize },
    OnlineDelaySettings { selected: usize },
    ThemeSettings { selected: usize },
    LyricsImportTxt { selected: usize, path_input: Seq<char>, interval_input: Seq<char> },
    MetadataEditor { selected: usize, state: EditorView },
    AddDirectory { selected: usize, input: Seq<char> },
    RemoveDirectory { selected: usize },
}

impl View for ActionPanelState {
    type V = PanelView;

    open spec fn view(&self) -> PanelView {
        match self {
            ActionPanelState::Closed => PanelView::Closed,
            ActionPanelState::Root { selected, query } => PanelView::Root { selected: *selected, query: query@ },
            ActionPanelState::Mode { selected } => PanelView::Mode { selected: *selected },
            ActionPanelState::PlaylistPlay { selected } => PanelView::PlaylistPlay { selected: *selected },
            ActionPanelState::PlaylistAdd { selected } => PanelView::PlaylistAdd { selected: *selected },
            ActionPanelState::PlaylistAddNowPlaying { selected } => PanelView::PlaylistAddNowPlaying {
                selected: *selected,
            },
            ActionPanelState::PlaylistCreate { selected, input } => PanelView::PlaylistCreate {
                selected: *selected,
                input: input@,
            },
            ActionPanelState::PlaylistRemove { selected } => PanelView::PlaylistRemove { selected: *selected },
            ActionPanelState::AudioSettings { selected } => PanelView::AudioSettings { selected: *selected },
            ActionPanelState::AudioOutput { selected } => PanelView::AudioOutput { selected: *selected },
            ActionPanelState::PlaybackSettings { selected } => PanelView::PlaybackSettings { selected: *selected },
            ActionPanelState::OnlineDelaySettings { selected } => PanelView::OnlineDelaySettings {
                selected: *selected,
            },
            ActionPanelState::ThemeSettings { selected } => PanelView::ThemeSettings { selected: *selected },
            ActionPanelState::LyricsImportTxt { selected, path_input, interval_input } => PanelView::LyricsImportTxt {
                selected: *selected,
                path_input: path_input@,
                interval_input: interval_input@,
            },
            ActionPanelState::MetadataEditor { selected, state } => PanelView::MetadataEditor {
                selected: *selected,
                state: state@,
            },
            ActionPanelState::AddDirectory { selected, input } => PanelView::AddDirectory {
                selected: *selected,
                input: input@,
            },
            ActionPanelState::RemoveDirectory { selected } => PanelView::RemoveDirectory { selected: *selected },
        }
    }
}

/// What the audio engine tells the panel.
pub struct PanelEnv {
    /// The output devices it offers.
    pub audio_outputs: Vec<String>,
    /// The device chosen by the user, if any (else the system default plays).
    pub selected_output: Option<String>,
    /// The track it is playing.
    pub current_track: Option<String>,
}

pub struct EnvView {
    pub outputs: Seq<Seq<char>>,
    pub selected_output: Option<Seq<char>>,
    pub current_track: Option<Seq<char>>,
}

impl View for PanelEnv {
    type V = EnvView;

    open spec fn view(&self) -> EnvView {
        EnvView {
            outputs: texts(self.audio_outputs@),
            selected_output: text_opt(self.selected_output),
            current_track: text_opt(self.current_track),
        }
    }
}

/// Settings the panel changes that the library itself does not hold.
#[derive(Debug, Clone, Copy, PartialEq, Eq, Structural)]
pub struct PanelSettings {
    pub stats_top_songs_count: u8,
    pub fallback_cover_template: CoverArtTemplate,
    pub online_sync_correction_threshold_ms: u16,
}

impl Default for PanelSettings {
    fn default() -> (r: Self)
        ensures
            r.stats_top_songs_count == 10,
            r.fallback_cover_template == CoverArtTemplate::Aurora,
            r.online_sync_correction_threshold_ms == 300,
    {
        PanelSettings {
            stats_top_songs_count: crate::model::default_stats_top_songs_count(),
            fallback_cover_template: CoverArtTemplate::Aurora,
            online_sync_correction_threshold_ms: crate::model::default_online_sync_correction_threshold_ms(),
        }
    }
}

// ---------------------------------------------------------------------------
// Typing into a field
// ---------------------------------------------------------------------------

/// A field after a key: a character is appended (digits only, where asked), Backspace
/// removes the last one; `None` when the key does not edit the field.
pub open spec fn edited(text: Seq<char>, key: PanelKey, digits_only: bool) -> Option<Seq<char>> {
    match key {
        PanelKey::Char(c) => if !digits_only || is_ascii_digit(c) {
            Some(text.push(c))
        } else {
            None
        },
        PanelKey::Backspace => if text.len() > 0 {
            Some(text.drop_last())
        } else {
            None
        },
        _ => None,
    }
}

/// The panel after a key typed into its text field, when the key types: the search of the
/// root menu (which moves the cursor to the top), the typed folder path, the new
/// playlist's name, the lyrics import path and interval (digits only), and the title,
/// artist and album of the track being edited.
pub open spec fn typed(p: PanelView, key: PanelKey) -> Option<PanelView> {
    match p {
        PanelView::Root { selected, query } => match edited(query, key, false) {
            Some(q) => Some(PanelView::Root { selected: 0, query: q }),
            None => None,
        },
        PanelView::AddDirectory { selected, input } => if selected == 1 {
            match edited(input, key, false) {
                Some(t) => Some(PanelView::AddDirectory { selected, input: t }),
                None => None,
            }
        } else {
            None
        },
        PanelView::PlaylistCreate { selected, input } => if selected == 0 {
            match edited(input, key, false) {
                Some(t) => Some(PanelView::PlaylistCreate { selected, input: t }),
                None => None,
            }
        } else {
            None
        },
        PanelView::LyricsImportTxt { selected, path_input, interval_input } => if selected == 0 {
            match edited(path_input, key, false) {
                Some(t) => Some(PanelView::LyricsImportTxt { selected, path_input: t, interval_input }),
                None => None,
            }
        } else if selected == 1 {
            match edited(interval_input, key, true) {
                Some(t) => Some(PanelView::LyricsImportTxt { selected, path_input, interval_input: t }),
                None => None,
            }
        } else {
            None
        },
        PanelView::MetadataEditor { selected, state } => if state.track is Some && selected == 0 {
            match edited(state.title, key, false) {
                Some(t) => Some(PanelView::MetadataEditor { selected, state: EditorView { title: t, ..state } }),
                None => None,
            }
        } else if state.track is Some && selected == 1 {
            match edited(state.artist, key, false) {
                Some(t) => Some(PanelView::MetadataEditor { selected, state: EditorView { artist: t, ..state } }),
                None => None,
            }
        } else if state.track is Some && selected == 2 {
            match edited(state.album, key, false) {
                Some(t) => Some(PanelView::MetadataEditor { selected, state: EditorView { album: t, ..state } }),
                None => None,
            }
        } else {
            None
        },
        _ => None,
    }
}

fn pop_last_char(s: String) -> (r: String)
    requires
        s@.len() > 0,
    ensures
        r@ == s@.drop_last(),
{
    let cs = chars_of(s.as_str());
    let kept = sub_chars(cs.as_slice(), 0, cs.len() - 1);
    string_from_chars(kept.as_slice())
}

fn edit_text(text: String, key: PanelKey, digits_only: bool) -> (r: (String, bool))
    ensures
        match edited(text@, key, digits_only) {
            Some(t) => r.1 && r.0@ == t,
            None => !r.1 && r.0@ == text@,
        },
{
    match key {
        PanelKey::Char(c) => {
            if !digits_only || ('0' <= c && c <= '9') {
                let mut t = text;
                string_push(&mut t, c);
                (t, true)
            } else {
                (text, false)
            }
        },
        PanelKey::Backspace => {
            if text.as_str().unicode_len() > 0 {
                (pop_last_char(text), true)
            } else {
                (text, false)
            }
        },
        _ => (text, false),
    }
}

fn type_into(p: ActionPanelState, key: PanelKey) -> (r: (ActionPanelState, bool))
    ensures
        match typed(p@, key) {
            Some(q) => r.1 && r.0@ == q,
            None => !r.1 && r.0@ == p@,
        },
{
    match p {
        ActionPanelState::Root { selected, query } => {
            let (q, done) = edit_text(query, key, false);
            if done {
                (ActionPanelState::Root { selected: 0, query: q }, true)
            } else {
                (ActionPanelState::Root { selected, query: q }, false)
            }
        },
        ActionPanelState::AddDirectory { selected, input } => {
            if selected == 1 {
                let (t, done) = edit_text(input, key, false);
                (ActionPanelState::AddDirectory { selected, input: t }, done)
            } else {
                (ActionPanelState::AddDirectory { selected, input }, false)
            }
        },
        ActionPanelState::PlaylistCreate { selected, input } => {
            if selected == 0 {
                let (t, done) = edit_text(input, key, false);
                (ActionPanelState::PlaylistCreate { selected, input: t }, done)
            } else {
                (ActionPanelState::PlaylistCreate { selected, input }, false)
            }
        },
        ActionPanelState::LyricsImportTxt { selected, path_input, interval_input } => {
            if selected == 0 {
                let (t, done) = edit_text(path_input, key, false);
                (ActionPanelState::LyricsImportTxt { selected, path_input: t, interval_input }, done)
            } else if selected == 1 {
                let (t, done) = edit_text(interval_input, key, true);
                (ActionPanelState::LyricsImportTxt { selected, path_input, interval_input: t }, done)
            } else {
                (ActionPanelState::LyricsImportTxt { selected, path_input, interval_input }, false)
            }
        },
        ActionPanelState::MetadataEditor { selected, state } => {
            if state.selected_track_path.is_none() || selected > 2 {
                return (ActionPanelState::MetadataEditor { selected, state }, false);
            }
            let MetadataEditorState {
                selected_track_path,
                copy_target_label,
                copy_target_paths,
                title_input,
                artist_input,
                album_input,
                confirm_all_songs_cover_copy,
            } = state;
            if selected == 0 {
                let (t, done) = edit_text(title_input, key, false);
                let s = MetadataEditorState {
                    selected_track_path,
                    copy_target_label,
                    copy_target_paths,
                    title_input: t,
                    artist_input,
                    album_input,
                    confirm_all_songs_cover_copy,
                };
                (ActionPanelState::MetadataEditor { selected, state: s }, done)
            } else if selected == 1 {
                let (t, done) = edit_text(artist_input, key, false);
                let s = MetadataEditorState {
                    selected_track_path,
                    copy_target_label,
                    copy_target_paths,
                    title_input,
                    artist_input: t,
                    album_input,
                    confirm_all_songs_cover_copy,
                };
                (ActionPanelState::MetadataEditor { selected, state: s }, done)
            } else {
                let (t, done) = edit_text(album_input, key, false);
                let s = MetadataEditorState {
                    selected_track_path,
                    copy_target_label,
                    copy_target_paths,
                    title_input,
                    artist_input,
                    album_input: t,
                    confirm_all_songs_cover_copy,
                };
                (ActionPanelState::MetadataEditor { selected, state: s }, done)
            }
        },
        other => (other, false),
    }
}


// ---------------------------------------------------------------------------
// Rows, moving the cursor, going back
// ---------------------------------------------------------------------------

/// The names sorted as the panel lists them: by their ASCII-lowercased text, ties kept in
/// their order.
pub open spec fn sorted_by_lower(names: Seq<Seq<char>>) -> Seq<Seq<char>> {
    stable_order(names.map_values(|n: Seq<char>| lower_seq(n))).map_values(|i: usize| names[i as int])
}

pub fn sort_by_lowercase(names: &Vec<String>) -> (r: Vec<String>)
    ensures
        texts(r@) == sorted_by_lower(texts(names@)),
{
    let ghost nv = texts(names@);
    let mut keys: Vec<Vec<char>> = Vec::new();
    let mut i: usize = 0;
    while i < names.len()
        invariant
            i <= names.len(),
            nv == texts(names@),
            keys@.len() == i,
            forall|k: int| 0 <= k < i ==> (#[trigger] keys@[k])@ == lower_seq(nv[k]),
        decreases names.len() - i,
    {
        let cs = chars_of(names[i].as_str());
        keys.push(lower_chars(cs.as_slice()));
        i += 1;
    }
    let ghost kv = keys@.map_values(|k: Vec<char>| k@);
    assert(kv =~= nv.map_values(|n: Seq<char>| lower_seq(n)));
    let order = stable_order_exec(&keys);
    proof {
        lemma_stable_order_bounds(kv, kv.len());
    }
    let ghost sorted = sorted_by_lower(nv);
    let mut out: Vec<String> = Vec::new();
    let mut j: usize = 0;
    while j < order.len()
        invariant
            j <= order.len(),
            order@.len() == names@.len(),
            nv == texts(names@),
            order@ == stable_order(nv.map_values(|n: Seq<char>| lower_seq(n))),
            forall|k: int| 0 <= k < order@.len() ==> (#[trigger] order@[k] as int) < names@.len(),
            sorted == sorted_by_lower(nv),
            texts(out@) == sorted.take(j as int),
        decreases order.len() - j,
    {
        let ghost before = out@;
        let idx = order[j];
        assert((idx as int) < names@.len());
        let name = names[idx].clone();
        out.push(name);
        assert(out@ == before.push(name));
        assert(texts(out@) =~= texts(before).push(name@));
        j += 1;
        assert(texts(out@) =~= sorted.take(j as int));
    }
    assert(sorted.take(j as int) =~= sorted);
    out
}

/// How many rows the panel shows: the matching actions of the root menu; one row at least
/// for the lists of playlists and folders (an empty list shows a placeholder); the audio
/// outputs after the system default; the fixed menus.
pub open spec fn option_count(p: PanelView, v: CoreView, recent: Seq<RootActionId>, env: EnvView) -> nat {
    match p {
        PanelView::Closed => 0,
        PanelView::Root { query, .. } => visible_rows(query, recent).len(),
        PanelView::Mode { .. } => 4,
        PanelView::PlaylistPlay { .. } => at_least_one(v.playlists.len()),
        PanelView::PlaylistAdd { .. } => at_least_one(v.playlists.len()),
        PanelView::PlaylistAddNowPlaying { .. } => at_least_one(v.playlists.len()),
        PanelView::PlaylistRemove { .. } => at_least_one(v.playlists.len()),
        PanelView::PlaylistCreate { .. } => 1,
        PanelView::AudioSettings { .. } => 3,
        PanelView::AudioOutput { .. } => if env.outputs.len() < usize::MAX {
            env.outputs.len() + 1
        } else {
            env.outputs.len()
        },
        PanelView::PlaybackSettings { .. } => 8,
        PanelView::OnlineDelaySettings { .. } => 6,
        PanelView::ThemeSettings { .. } => 6,
        PanelView::LyricsImportTxt { .. } => 3,
        PanelView::MetadataEditor { state, .. } => if state.track is Some {
            7
        } else {
            2
        },
        PanelView::AddDirectory { .. } => 2,
        PanelView::RemoveDirectory { .. } => at_least_one(v.folders.len()),
    }
}

pub open spec fn at_least_one(n: nat) -> nat {
    if n == 0 {
        1
    } else {
        n
    }
}

pub open spec fn selected_of(p: PanelView) -> usize {
    match p {
        PanelView::Closed => 0,
        PanelView::Root { selected, .. } => selected,
        PanelView::Mode { selected } => selected,
        PanelView::PlaylistPlay { selected } => selected,
        PanelView::PlaylistAdd { selected } => selected,
        PanelView::PlaylistAddNowPlaying { selected } => selected,
        PanelView::PlaylistCreate { selected, .. } => selected,
        PanelView::PlaylistRemove { selected } => selected,
        PanelView::AudioSettings { selected } => selected,
        PanelView::AudioOutput { selected } => selected,
        PanelView::PlaybackSettings { selected } => selected,
        PanelView::OnlineDelaySettings { selected } => selected,
        PanelView::ThemeSettings { selected } => selected,
        PanelView::LyricsImportTxt { selected, .. } => selected,
        PanelView::MetadataEditor { selected, .. } => selected,
        PanelView::AddDirectory { selected, .. } => selected,
        PanelView::RemoveDirectory { selected } => selected,
    }
}

pub open spec fn with_selected(p: PanelView, n: usize) -> PanelView {
    match p {
        PanelView::Closed => PanelView::Closed,
        PanelView::Root { query, .. } => PanelView::Root { selected: n, query },
        PanelView::Mode { .. } => PanelView::Mode { selected: n },
        PanelView::PlaylistPlay { .. } => PanelView::PlaylistPlay { selected: n },
        PanelView::PlaylistAdd { .. } => PanelView::PlaylistAdd { selected: n },
        PanelView::PlaylistAddNowPlaying { .. } => PanelView::PlaylistAddNowPlaying { selected: n },
        PanelView::PlaylistCreate { input, .. } => PanelView::PlaylistCreate { selected: n, input },
        PanelView::PlaylistRemove { .. } => PanelView::PlaylistRemove { selected: n },
        PanelView::AudioSettings { .. } => PanelView::AudioSettings { selected: n },
        PanelView::AudioOutput { .. } => PanelView::AudioOutput { selected: n },
        PanelView::PlaybackSettings { .. } => PanelView::PlaybackSettings { selected: n },
        PanelView::OnlineDelaySettings { .. } => PanelView::OnlineDelaySettings { selected: n },
        PanelView::ThemeSettings { .. } => PanelView::ThemeSettings { selected: n },
        PanelView::LyricsImportTxt { path_input, interval_input, .. } => PanelView::LyricsImportTxt {
            selected: n,
            path_input,
            interval_input,
        },
        PanelView::MetadataEditor { state, .. } => PanelView::MetadataEditor { selected: n, state },
        PanelView::AddDirectory { input, .. } => PanelView::AddDirectory { selected: n, input },
        PanelView::RemoveDirectory { .. } => PanelView::RemoveDirectory { selected: n },
    }
}

/// The root menu's cursor kept on a row: on the last one when it fell past the end.
pub open spec fn clamped(p: PanelView, count: nat) -> PanelView {
    match p {
        PanelView::Root { selected, query } => PanelView::Root {
            selected: if count == 0 {
                0
            } else if selected >= count {
                (count - 1) as usize
            } else {
                selected
            },
            query,
        },
        _ => p,
    }
}

/// The cursor one row down (wrapping to the top) or up (wrapping to the bottom).
pub open spec fn moved(p: PanelView, count: nat, down: bool) -> PanelView {
    if count == 0 {
        p
    } else {
        let s = selected_of(p);
        with_selected(
            p,
            if down {
                ((s + 1) % (count as int)) as usize
            } else if s == 0 {
                (count - 1) as usize
            } else {
                (s - 1) as usize
            },
        )
    }
}

pub open spec fn first_row_of(rows: Seq<(RootActionId, bool)>, a: RootActionId, k: int) -> bool {
    &&& 0 <= k < rows.len()
    &&& rows[k].0 == a
    &&& forall|j: int| 0 <= j < k ==> (#[trigger] rows[j]).0 != a
}

/// The row of the unfiltered root menu where `a` stands, or the first row.
pub open spec fn root_row(a: RootActionId, recent: Seq<RootActionId>) -> usize {
    let rows = visible_rows(""@, recent);
    if exists|k: int| first_row_of(rows, a, k) {
        (choose|k: int| first_row_of(rows, a, k)) as usize
    } else {
        0
    }
}

/// The root menu with its cursor on `a`.
pub open spec fn root_on(a: RootActionId, recent: Seq<RootActionId>) -> PanelView {
    PanelView::Root { selected: root_row(a, recent), query: Seq::empty() }
}

fn root_row_exec(a: RootActionId, recent: &Vec<RootActionId>) -> (r: usize)
    ensures
        r == root_row(a, recent@),
{
    let r = root_selected_for_action(a, recent.as_slice());
    proof {
        let rows = visible_rows(""@, recent@);
        if exists|k: int| first_row_of(rows, a, k) {
            let c = choose|k: int| first_row_of(rows, a, k);
            assert(rows[c].0 == a);
            if (r as int) < rows.len() && rows[r as int].0 == a && forall|k: int|
                0 <= k < r ==> (#[trigger] rows[k]).0 != a {
                if c < r {
                    assert(rows[c].0 != a);
                } else if c > r {
                    assert(rows[r as int].0 != a);
                }
            } else {
                assert(rows[c].0 != a);
            }
        } else {
            if (r as int) < rows.len() && rows[r as int].0 == a && forall|k: int|
                0 <= k < r ==> (#[trigger] rows[k]).0 != a {
                assert(first_row_of(rows, a, r as int));
            }
        }
    }
    r
}

fn root_on_exec(a: RootActionId, recent: &Vec<RootActionId>) -> (r: ActionPanelState)
    ensures
        r@ == root_on(a, recent@),
{
    let selected = root_row_exec(a, recent);
    ActionPanelState::Root { selected, query: String::new() }
}

/// Going back: a sub-menu returns to the root menu with the cursor on the action that
/// opened it (the output list to the audio menu, the delay menu to the playback settings'
/// row for it); the root menu closes.
pub open spec fn back_of(p: PanelView, recent: Seq<RootActionId>) -> PanelView {
    match p {
        PanelView::Closed => PanelView::Closed,
        PanelView::Root { .. } => PanelView::Closed,
        PanelView::Mode { .. } => root_on(RootActionId::SetPlaybackMode, recent),
        PanelView::PlaylistPlay { .. } => root_on(RootActionId::PlayPlaylist, recent),
        PanelView::PlaylistAdd { .. } => root_on(RootActionId::AddSelectedToPlaylist, recent),
        PanelView::PlaylistAddNowPlaying { .. } => root_on(RootActionId::AddNowPlayingToPlaylist, recent),
        PanelView::PlaylistCreate { .. } => root_on(RootActionId::CreatePlaylist, recent),
        PanelView::PlaylistRemove { .. } => root_on(RootActionId::RemovePlaylist, recent),
        PanelView::AudioSettings { .. } => root_on(RootActionId::AudioDriverSettings, recent),
        PanelView::PlaybackSettings { .. } => root_on(RootActionId::PlaybackSettings, recent),
        PanelView::OnlineDelaySettings { .. } => PanelView::PlaybackSettings { selected: 6 },
        PanelView::AddDirectory { .. } => root_on(RootActionId::AddDirectory, recent),
        PanelView::AudioOutput { .. } => PanelView::AudioSettings { selected: 0 },
        PanelView::ThemeSettings { .. } => root_on(RootActionId::Theme, recent),
        PanelView::LyricsImportTxt { .. } => root_on(RootActionId::ImportTxtToLyrics, recent),
        PanelView::MetadataEditor { .. } => root_on(RootActionId::MetadataEditor, recent),
        PanelView::RemoveDirectory { .. } => root_on(RootActionId::RemoveDirectory, recent),
    }
}

impl ActionPanelState {
    pub fn selected(&self) -> (r: usize)
        ensures
            r == selected_of(self@),
    {
        match self {
            ActionPanelState::Closed => 0,
            ActionPanelState::Root { selected, .. } => *selected,
            ActionPanelState::Mode { selected } => *selected,
            ActionPanelState::PlaylistPlay { selected } => *selected,
            ActionPanelState::PlaylistAdd { selected } => *selected,
            ActionPanelState::PlaylistAddNowPlaying { selected } => *selected,
            ActionPanelState::PlaylistCreate { selected, .. } => *selected,
            ActionPanelState::PlaylistRemove { selected } => *selected,
            ActionPanelState::AudioSettings { selected } => *selected,
            ActionPanelState::AudioOutput { selected } => *selected,
            ActionPanelState::PlaybackSettings { selected } => *selected,
            ActionPanelState::OnlineDelaySettings { selected } => *selected,
            ActionPanelState::ThemeSettings { selected } => *selected,
            ActionPanelState::LyricsImportTxt { selected, .. } => *selected,
            ActionPanelState::MetadataEditor { selected, .. } => *selected,
            ActionPanelState::AddDirectory { selected, .. } => *selected,
            ActionPanelState::RemoveDirectory { selected } => *selected,
        }
    }

    fn with_selected(self, n: usize) -> (r: Self)
        ensures
            r@ == with_selected(self@, n),
    {
        match self {
            ActionPanelState::Closed => ActionPanelState::Closed,
            ActionPanelState::Root { query, .. } => ActionPanelState::Root { selected: n, query },
            ActionPanelState::Mode { .. } => ActionPanelState::Mode { selected: n },
            ActionPanelState::PlaylistPlay { .. } => ActionPanelState::PlaylistPlay { selected: n },
            ActionPanelState::PlaylistAdd { .. } => ActionPanelState::PlaylistAdd { selected: n },
            ActionPanelState::PlaylistAddNowPlaying { .. } => ActionPanelState::PlaylistAddNowPlaying { selected: n },
            ActionPanelState::PlaylistCreate { input, .. } => ActionPanelState::PlaylistCreate { selected: n, input },
            ActionPanelState::PlaylistRemove { .. } => ActionPanelState::PlaylistRemove { selected: n },
            ActionPanelState::AudioSettings { .. } => ActionPanelState::AudioSettings { selected: n },
            ActionPanelState::AudioOutput { .. } => ActionPanelState::AudioOutput { selected: n },
            ActionPanelState::PlaybackSettings { .. } => ActionPanelState::PlaybackSettings { selected: n },
            ActionPanelState::OnlineDelaySettings { .. } => ActionPanelState::OnlineDelaySettings { selected: n },
            ActionPanelState::ThemeSettings { .. } => ActionPanelState::ThemeSettings { selected: n },
            ActionPanelState::LyricsImportTxt { path_input, interval_input, .. } => ActionPanelState::LyricsImportTxt {
                selected: n,
                path_input,
                interval_input,
            },
            ActionPanelState::MetadataEditor { state, .. } => ActionPanelState::MetadataEditor { selected: n, state },
            ActionPanelState::AddDirectory { input, .. } => ActionPanelState::AddDirectory { selected: n, input },
            ActionPanelState::RemoveDirectory { .. } => ActionPanelState::RemoveDirectory { selected: n },
        }
    }
}

fn option_count_exec(p: &ActionPanelState, core: &TuneCore, recent: &Vec<RootActionId>, env: &PanelEnv) -> (r: usize)
    ensures
        r as nat == option_count(p@, core@, recent@, env@),
{
    match p {
        ActionPanelState::Closed => 0,
        ActionPanelState::Root { query, .. } => root_visible_actions(query.as_str(), recent.as_slice()).len(),
        ActionPanelState::Mode { .. } => 4,
        ActionPanelState::PlaylistPlay { .. } | ActionPanelState::PlaylistAdd { .. }
        | ActionPanelState::PlaylistAddNowPlaying { .. } | ActionPanelState::PlaylistRemove { .. } => {
            let names = core.playlist_names();
            assert(texts(names@).len() == names@.len());
            let n = names.len();
            if n == 0 {
                1
            } else {
                n
            }
        },
        ActionPanelState::PlaylistCreate { .. } => 1,
        ActionPanelState::AudioSettings { .. } => 3,
        ActionPanelState::AudioOutput { .. } => env.audio_outputs.len().saturating_add(1),
        ActionPanelState::PlaybackSettings { .. } => 8,
        ActionPanelState::OnlineDelaySettings { .. } => 6,
        ActionPanelState::ThemeSettings { .. } => 6,
        ActionPanelState::LyricsImportTxt { .. } => 3,
        ActionPanelState::MetadataEditor { state, .. } => {
            if state.selected_track_path.is_some() {
                7
            } else {
                2
            }
        },
        ActionPanelState::AddDirectory { .. } => 2,
        ActionPanelState::RemoveDirectory { .. } => {
            let folders = core.folder_list();
            assert(texts(folders@).len() == folders@.len());
            let n = folders.len();
            if n == 0 {
                1
            } else {
                n
            }
        },
    }
}

fn clamp_exec(p: ActionPanelState, count: usize) -> (r: ActionPanelState)
    ensures
        r@ == clamped(p@, count as nat),
{
    match p {
        ActionPanelState::Root { selected, query } => {
            let s = if count == 0 {
                0
            } else if selected >= count {
                count - 1
            } else {
                selected
            };
            ActionPanelState::Root { selected: s, query }
        },
        other => other,
    }
}

fn move_exec(p: ActionPanelState, count: usize, down: bool) -> (r: ActionPanelState)
    ensures
        r@ == moved(p@, count as nat, down),
{
    if count == 0 {
        return p;
    }
    let mut s = p.selected();
    crate::panel::update_panel_selection(&mut s, count, down);
    p.with_selected(s)
}

fn back_exec(p: ActionPanelState, recent: &Vec<RootActionId>) -> (r: ActionPanelState)
    ensures
        r@ == back_of(p@, recent@),
{
    match p {
        ActionPanelState::Closed | ActionPanelState::Root { .. } => ActionPanelState::Closed,
        ActionPanelState::Mode { .. } => root_on_exec(RootActionId::SetPlaybackMode, recent),
        ActionPanelState::PlaylistPlay { .. } => root_on_exec(RootActionId::PlayPlaylist, recent),
        ActionPanelState::PlaylistAdd { .. } => root_on_exec(RootActionId::AddSelectedToPlaylist, recent),
        ActionPanelState::PlaylistAddNowPlaying { .. } => root_on_exec(RootActionId::AddNowPlayingToPlaylist, recent),
        ActionPanelState::PlaylistCreate { .. } => root_on_exec(RootActionId::CreatePlaylist, recent),
        ActionPanelState::PlaylistRemove { .. } => root_on_exec(RootActionId::RemovePlaylist, recent),
        ActionPanelState::AudioSettings { .. } => root_on_exec(RootActionId::AudioDriverSettings, recent),
        ActionPanelState::PlaybackSettings { .. } => root_on_exec(RootActionId::PlaybackSettings, recent),
        ActionPanelState::OnlineDelaySettings { .. } => ActionPanelState::PlaybackSettings { selected: 6 },
        ActionPanelState::AddDirectory { .. } => root_on_exec(RootActionId::AddDirectory, recent),
        ActionPanelState::AudioOutput { .. } => ActionPanelState::AudioSettings { selected: 0 },
        ActionPanelState::ThemeSettings { .. } => root_on_exec(RootActionId::Theme, recent),
        ActionPanelState::LyricsImportTxt { .. } => root_on_exec(RootActionId::ImportTxtToLyrics, recent),
        ActionPanelState::MetadataEditor { .. } => root_on_exec(RootActionId::MetadataEditor, recent),
        ActionPanelState::RemoveDirectory { .. } => root_on_exec(RootActionId::RemoveDirectory, recent),
    }
}


// ---------------------------------------------------------------------------
// What a key asks of the caller
// ---------------------------------------------------------------------------

/// Work that a key leaves to the caller, who owns the audio engine, the files and the room.
#[derive(Debug)]
pub enum PanelEffect {
    Nothing,
    /// Save the library and settings; a failure is not reported.
    AutoSave,
    /// Save the library and settings, reporting the outcome in the status line.
    SaveState,
    /// Play this track (the first of a playlist just loaded); a failure is reported with
    /// `concise_audio_error`.
    Play(String),
    /// Scan the library folders again and hand the tracks to `TuneCore::rescan`.
    Rescan,
    /// Add the folder typed by the user (`TuneCore::add_folder` once probed), then save.
    AddFolder(String),
    /// Ask the system folder picker; its answer goes to `finish_folder_pick`.
    ChooseFolder,
    /// Remove this library folder (`TuneCore::remove_folder`), then save.
    RemoveFolder(String),
    ClearListenHistory,
    MinimizeToTray,
    /// Reload the audio driver and report it with `audio_reset_status`.
    ReloadAudioDriver,
    /// Switch to this output (`None`: the system default); report it with
    /// `output_switch_status` and save when it worked.
    SelectOutput(Option<String>),
    /// Apply loudness normalisation to the audio engine, then save.
    ApplyLoudness(bool),
    /// Apply this crossfade to the audio engine, then save.
    ApplyCrossfade(u16),
    /// Shift the local participant's manual delay (`OnlineSession::adjust_local_manual_delay`)
    /// and tell the room.
    AdjustManualDelay(i16),
    /// Flip the local participant's auto-ping delay and tell the room.
    ToggleAutoDelay,
    /// Measure the local ping again and tell the room.
    RecalibratePing,
    /// Import a text file as lyrics of the playing track, seeding lines this many seconds
    /// apart.
    ImportLyrics { path: String, interval_seconds: u32 },
    /// Read this track's tags into the editor with `fill_metadata_editor`.
    LoadMetadata(String),
    /// Write these tags to the track; the outcome goes to `finish_metadata_write`.
    WriteMetadata { path: String, title: String, artist: String, album: String },
    /// Clear the track's title, artist and album tags; the outcome goes to
    /// `finish_metadata_write`.
    ClearMetadata(String),
    /// Copy the cover art of `source` into each of `targets`, named `label` in messages.
    CopyCover { source: String, targets: Vec<String>, label: String },
}

pub enum EffectView {
    Nothing,
    AutoSave,
    SaveState,
    Play(Seq<char>),
    Rescan,
    AddFolder(Seq<char>),
    ChooseFolder,
    RemoveFolder(Seq<char>),
    ClearListenHistory,
    MinimizeToTray,
    ReloadAudioDriver,
    SelectOutput(Option<Seq<char>>),
    ApplyLoudness(bool),
    ApplyCrossfade(u16),
    AdjustManualDelay(i16),
    ToggleAutoDelay,
    RecalibratePing,
    ImportLyrics { path: Seq<char>, interval_seconds: u32 },
    LoadMetadata(Seq<char>),
    WriteMetadata { path: Seq<char>, title: Seq<char>, artist: Seq<char>, album: Seq<char> },
    ClearMetadata(Seq<char>),
    CopyCover { source: Seq<char>, targets: Seq<Seq<char>>, label: Seq<char> },
}

impl View for PanelEffect {
    type V = EffectView;

    open spec fn view(&self) -> EffectView {
        match self {
            PanelEffect::Nothing => EffectView::Nothing,
            PanelEffect::AutoSave => EffectView::AutoSave,
            PanelEffect::SaveState => EffectView::SaveState,
            PanelEffect::Play(p) => EffectView::Play(p@),
            PanelEffect::Rescan => EffectView::Rescan,
            PanelEffect::AddFolder(p) => EffectView::AddFolder(p@),
            PanelEffect::ChooseFolder => EffectView::ChooseFolder,
            PanelEffect::RemoveFolder(p) => EffectView::RemoveFolder(p@),
            PanelEffect::ClearListenHistory => EffectView::ClearListenHistory,
            PanelEffect::MinimizeToTray => EffectView::MinimizeToTray,
            PanelEffect::ReloadAudioDriver => EffectView::ReloadAudioDriver,
            PanelEffect::SelectOutput(o) => EffectView::SelectOutput(text_opt(*o)),
            PanelEffect::ApplyLoudness(b) => EffectView::ApplyLoudness(*b),
            PanelEffect::ApplyCrossfade(c) => EffectView::ApplyCrossfade(*c),
            PanelEffect::AdjustManualDelay(d) => EffectView::AdjustManualDelay(*d),
            PanelEffect::ToggleAutoDelay => EffectView::ToggleAutoDelay,
            PanelEffect::RecalibratePing => EffectView::RecalibratePing,
            PanelEffect::ImportLyrics { path, interval_seconds } => EffectView::ImportLyrics {
                path: path@,
                interval_seconds: *interval_seconds,
            },
            PanelEffect::LoadMetadata(p) => EffectView::LoadMetadata(p@),
            PanelEffect::WriteMetadata { path, title, artist, album } => EffectView::WriteMetadata {
                path: path@,
                title: title@,
                artist: artist@,
                album: album@,
            },
            PanelEffect::ClearMetadata(p) => EffectView::ClearMetadata(p@),
            PanelEffect::CopyCover { source, targets, label } => EffectView::CopyCover {
                source: source@,
                targets: texts(targets@),
                label: label@,
            },
        }
    }
}

// ---------------------------------------------------------------------------
// Enter
// ---------------------------------------------------------------------------

/// The library, the panel, the recently used actions and the panel's own settings.
pub struct PanelWorld {
    pub core: CoreView,
    pub panel: PanelView,
    pub recent: Seq<RootActionId>,
    pub settings: PanelSettings,
}

pub open spec fn world(core: CoreView, panel: PanelView, recent: Seq<RootActionId>, settings: PanelSettings) -> PanelWorld {
    PanelWorld { core, panel, recent, settings }
}

pub open spec fn dirtied(v: CoreView) -> CoreView {
    CoreView { dirty: true, ..v }
}

/// The panel moves to `panel` and the screen is redrawn.
pub open spec fn showing(w: PanelWorld, panel: PanelView) -> PanelWorld {
    PanelWorld { panel, core: dirtied(w.core), ..w }
}

/// The panel closes, leaving the library as `core`.
pub open spec fn closing(w: PanelWorld, core: CoreView) -> PanelWorld {
    PanelWorld { panel: PanelView::Closed, core, ..w }
}

/// The panel stays as it is and the status line shows `msg`.
pub open spec fn telling(w: PanelWorld, msg: Seq<char>) -> PanelWorld {
    PanelWorld { core: with_status(w.core, msg), ..w }
}

pub open spec fn sorted_playlists(v: CoreView) -> Seq<Seq<char>> {
    sorted_by_lower(playlist_names_of(v))
}

pub open spec fn mode_at(selected: usize) -> LegacyPlaybackMode {
    if selected == 0 {
        LegacyPlaybackMode::Normal
    } else if selected == 1 {
        LegacyPlaybackMode::Shuffle
    } else if selected == 2 {
        LegacyPlaybackMode::Loop
    } else {
        LegacyPlaybackMode::LoopOne
    }
}

/// The rows of the playback-mode menu.
pub open spec fn mode_options() -> Seq<Seq<char>> {
    seq!["Normal"@, "Shuffle"@, "Loop playlist"@, "Loop single track"@]
}

/// How a playback mode is named in the menu.
pub open spec fn mode_name(m: LegacyPlaybackMode) -> Seq<char> {
    match m {
        LegacyPlaybackMode::Normal => "Normal"@,
        LegacyPlaybackMode::Shuffle => "Shuffle"@,
        LegacyPlaybackMode::Loop => "Loop playlist"@,
        LegacyPlaybackMode::LoopOne => "Loop single track"@,
    }
}

/// Each row of the playback-mode menu applies the mode its label names, and that mode moves
/// as the label says: "Normal" stops after the last track, "Shuffle" moves within the
/// shuffle order, "Loop playlist" wraps from the last track to the first, and "Loop single
/// track" stays on the track playing.
pub proof fn mode_rows_apply_their_labels(row: usize, current: nat, len: nat, order: Seq<usize>, cursor: nat)
    requires
        row < 4,
        current < len,
    ensures
        mode_name(mode_at(row)) == mode_options()[row as int],
        crate::browser::next_position(mode_at(0), (len - 1) as nat, len, order, cursor).0 is None,
        current + 1 < len ==> crate::browser::next_position(mode_at(0), current, len, order, cursor).0 == Some(
            current + 1,
        ),
        order.len() > 0 ==> ({
            let n = crate::browser::next_position(mode_at(1), current, len, order, cursor);
            n.0 is Some && n.1 < order.len() && order[n.1 as int] as nat == n.0->0
        }),
        crate::browser::next_position(mode_at(2), (len - 1) as nat, len, order, cursor).0 == Some(0nat),
        current + 1 < len ==> crate::browser::next_position(mode_at(2), current, len, order, cursor).0 == Some(
            current + 1,
        ),
        crate::browser::next_position(mode_at(3), current, len, order, cursor).0 == Some(current),
{
    reveal_strlit("Normal");
    reveal_strlit("Shuffle");
    reveal_strlit("Loop playlist");
    reveal_strlit("Loop single track");
    crate::browser::forward_step_follows_mode(current, len, order, cursor);
    crate::browser::forward_step_follows_mode((len - 1) as nat, len, order, cursor);
    assert((len as int) % (len as int) == 0) by {
        vstd::arithmetic::div_mod::lemma_mod_self_0(len as int);
    }
    if current + 1 < len {
        assert(((current + 1) as int) % (len as int) == current + 1) by {
            vstd::arithmetic::div_mod::lemma_small_mod((current + 1) as nat, len);
        }
    }
}

pub open spec fn theme_at(selected: usize) -> Theme {
    offered_themes()[if selected < 5 {
        selected as int
    } else {
        5
    }]
}

/// Each row of the theme menu applies the theme shown on it (Dark, Pitch Black, Galaxy,
/// Matrix, Demonic, Cotton Candy, in that order), and the menu opens on the row of the
/// theme it applies.
pub proof fn theme_rows_apply_their_labels(row: usize)
    requires
        row < 6,
    ensures
        crate::panel::theme_name(theme_at(row)) == seq![
            "Dark"@,
            "Pitch Black"@,
            "Galaxy"@,
            "Matrix"@,
            "Demonic"@,
            "Cotton Candy"@,
        ][row as int],
        theme_row(theme_at(row)) == row,
{
}

/// The theme menu's row for a theme; legacy themes sit on the theme they resemble.
pub open spec fn theme_row(t: Theme) -> usize {
    match t {
        Theme::Dark | Theme::Ocean | Theme::System => 0,
        Theme::PitchBlack => 1,
        Theme::Galaxy => 2,
        Theme::Matrix | Theme::Forest => 3,
        Theme::Demonic => 4,
        Theme::CottonCandy | Theme::Sunset => 5,
    }
}

/// Where `x` first stands in `s`, or -1.
pub open spec fn position_of(s: Seq<Seq<char>>, x: Seq<char>) -> int
    decreases s.len(),
{
    if s.len() == 0 {
        -1
    } else if position_of(s.drop_last(), x) >= 0 {
        position_of(s.drop_last(), x)
    } else if s.last() == x {
        s.len() - 1
    } else {
        -1
    }
}

/// The output list's row for the chosen output: after the system default, at the chosen
/// device, or on the system default when none is chosen or it is not offered.
pub open spec fn output_row(env: EnvView) -> usize {
    match env.selected_output {
        Some(n) => if position_of(env.outputs, n) >= 0 {
            (position_of(env.outputs, n) + 1) as usize
        } else {
            0
        },
        None => 0,
    }
}

/// The track whose cover art is copied: the one the audio engine plays, else the library's
/// current one.
pub open spec fn cover_source(v: CoreView, env: EnvView) -> Option<Seq<char>> {
    match env.current_track {
        Some(p) => Some(p),
        None => match v.current_queue_index {
            Some(q) => path_at(v, q as nat),
            None => None,
        },
    }
}

/// The editor opened for the selected row: the tags of a track (read afterwards), or the
/// cover art copy for a folder, a playlist or the whole library (which asks to confirm);
/// nothing for the back row or when the row has no tracks.
pub open spec fn editor_for(v: CoreView) -> Option<EditorView> {
    if v.selected_browser < v.browser_entries.len() && selected_paths(v).len() > 0 {
        let e = v.browser_entries[v.selected_browser as int];
        let blank = EditorView {
            track: None,
            label: Seq::empty(),
            targets: selected_paths(v),
            title: Seq::empty(),
            artist: Seq::empty(),
            album: Seq::empty(),
            confirm: false,
        };
        match e.kind {
            BrowserEntryKind::Track => Some(EditorView { track: Some(e.path), label: "selected track"@, ..blank }),
            BrowserEntryKind::Folder => Some(EditorView { label: "current folder"@, ..blank }),
            BrowserEntryKind::Playlist => Some(EditorView { label: "current playlist"@, ..blank }),
            BrowserEntryKind::AllSongs => Some(EditorView { label: "all songs"@, confirm: true, ..blank }),
            BrowserEntryKind::Back => None,
        }
    } else {
        None
    }
}

/// The seed interval of a lyrics import: the typed number of seconds, at least one, or
/// three when it is not a number.
pub open spec fn lyrics_interval(input: Seq<char>) -> u32 {
    match parse_unsigned(trim(input), u32::MAX as nat) {
        Some(n) => if n == 0 {
            1
        } else {
            n as u32
        },
        None => 3,
    }
}

/// Loading a playlist into the queue, with whatever shuffle order was drawn.
pub open spec fn loaded(v: CoreView, name: Seq<char>, mid: CoreView) -> bool {
    &&& mid == load_playlist_outcome(v, name, mid.shuffle_order)
    &&& playlist_position(v.playlists, name) is Some ==> is_order_of(mid.shuffle_order, mid.queue.len())
}

/// Moving to the next track, with whatever shuffle order was drawn.
pub open spec fn advanced(v: CoreView, after: CoreView, path: Option<Seq<char>>) -> bool {
    if needs_new_order(v) {
        is_order_of(after.shuffle_order, v.queue.len()) && (after, path) == next_track_outcome(
            CoreView { shuffle_order: after.shuffle_order, shuffle_cursor: 0, ..v },
        )
    } else {
        (after, path) == next_track_outcome(v)
    }
}

/// A playlist menu opens only when there is a playlist.
pub open spec fn needs_playlists(w: PanelWorld, panel: PanelView, after: PanelWorld, e: EffectView) -> bool {
    &&& e == EffectView::Nothing
    &&& if w.core.playlists.len() == 0 {
        after == closing(w, with_status(w.core, "No playlists available"@))
    } else {
        after == showing(w, panel)
    }
}

/// Enter on an action of the root menu (already recorded as recently used).
pub open spec fn root_chosen(w: PanelWorld, a: RootActionId, after: PanelWorld, e: EffectView) -> bool {
    match a {
        RootActionId::AddDirectory => after == showing(w, PanelView::AddDirectory { selected: 1, input: Seq::empty() })
            && e == EffectView::Nothing,
        RootActionId::AddSelectedToPlaylist => needs_playlists(w, PanelView::PlaylistAdd { selected: 0 }, after, e),
        RootActionId::AddNowPlayingToPlaylist => needs_playlists(
            w,
            PanelView::PlaylistAddNowPlaying { selected: 0 },
            after,
            e,
        ),
        RootActionId::SetPlaybackMode => after == showing(w, PanelView::Mode { selected: 0 }) && e
            == EffectView::Nothing,
        RootActionId::PlaybackSettings => after == showing(w, PanelView::PlaybackSettings { selected: 0 }) && e
            == EffectView::Nothing,
        RootActionId::PlayPlaylist => needs_playlists(w, PanelView::PlaylistPlay { selected: 0 }, after, e),
        RootActionId::RemoveSelectedFromPlaylist => after == closing(w, remove_selected_outcome(w.core)) && e
            == EffectView::AutoSave,
        RootActionId::CreatePlaylist => after == showing(
            w,
            PanelView::PlaylistCreate { selected: 0, input: Seq::empty() },
        ) && e == EffectView::Nothing,
        RootActionId::RemovePlaylist => after == showing(w, PanelView::PlaylistRemove { selected: 0 }) && e
            == EffectView::Nothing,
        RootActionId::RemoveDirectory => after == showing(w, PanelView::RemoveDirectory { selected: 0 }) && e
            == EffectView::Nothing,
        RootActionId::RescanLibrary => after == closing(w, w.core) && e == EffectView::Rescan,
        RootActionId::AudioDriverSettings => after == showing(w, PanelView::AudioSettings { selected: 0 }) && e
            == EffectView::Nothing,
        RootActionId::Theme => after == showing(w, PanelView::ThemeSettings { selected: theme_row(w.core.theme) })
            && e == EffectView::Nothing,
        RootActionId::SaveState => after == closing(w, w.core) && e == EffectView::SaveState,
        RootActionId::ClearListenHistory => after == closing(w, with_status(w.core, "Clearing listen history..."@))
            && e == EffectView::ClearListenHistory,
        RootActionId::MetadataEditor => match editor_for(w.core) {
            None => after == closing(w, with_status(w.core, "Select a track, folder, playlist, or [ALL] entry first"@))
                && e == EffectView::Nothing,
            Some(ed) => after == showing(w, PanelView::MetadataEditor { selected: 0, state: ed }) && e == (match ed.track {
                Some(p) => EffectView::LoadMetadata(p),
                None => EffectView::Nothing,
            }),
        },
        RootActionId::MinimizeToTray => after == closing(w, with_status(w.core, "Minimized to tray"@)) && e
            == EffectView::MinimizeToTray,
        RootActionId::ImportTxtToLyrics => after == showing(
            w,
            PanelView::LyricsImportTxt { selected: 0, path_input: Seq::empty(), interval_input: "3"@ },
        ) && e == EffectView::Nothing,
        RootActionId::ClosePanel => after == closing(w, dirtied(w.core)) && e == EffectView::Nothing,
    }
}

/// Copying the now-playing cover art: the panel closes once a source track is known.
pub open spec fn cover_copied(w: PanelWorld, state: EditorView, env: EnvView, after: PanelWorld, e: EffectView) -> bool {
    match cover_source(w.core, env) {
        None => after == telling(w, "No track is currently playing"@) && e == EffectView::Nothing,
        Some(src) => after == closing(w, w.core) && e == (EffectView::CopyCover {
            source: src,
            targets: state.targets,
            label: state.label,
        }),
    }
}

/// Enter on the panel `w.panel` (the root menu's cursor already kept on a row).
pub open spec fn entered(w: PanelWorld, env: EnvView, after: PanelWorld, e: EffectView) -> bool {
    match w.panel {
        PanelView::Closed => after == w && e == EffectView::Nothing,
        PanelView::Root { selected, query } => {
            let rows = visible_rows(query, w.recent);
            if selected >= rows.len() {
                after == telling(w, "No matching actions"@) && e == EffectView::Nothing
            } else {
                let a = rows[selected as int].0;
                root_chosen(PanelWorld { recent: recent_after(w.recent, a), ..w }, a, after, e)
            }
        },
        PanelView::Mode { selected } => after == closing(
            w,
            with_status(with_setting(w.core, SettingChange::PlaybackMode(mode_at(selected))), "Playback mode updated"@),
        ) && e == EffectView::AutoSave,
        PanelView::PlaylistPlay { selected } => {
            let names = sorted_playlists(w.core);
            if (selected as int) < names.len() {
                &&& after == closing(w, after.core)
                &&& exists|mid: CoreView, path: Option<Seq<char>>|
                    loaded(w.core, names[selected as int], mid) && advanced(mid, after.core, path) && e == (match path {
                        Some(p) => EffectView::Play(p),
                        None => EffectView::Nothing,
                    })
            } else {
                after == closing(w, with_status(w.core, "No playlists available"@)) && e == EffectView::Nothing
            }
        },
        PanelView::PlaylistAdd { selected } => {
            let names = sorted_playlists(w.core);
            if (selected as int) < names.len() {
                after == closing(w, add_selected_outcome(w.core, names[selected as int])) && e == EffectView::AutoSave
            } else {
                after == closing(w, with_status(w.core, "No playlists available"@)) && e == EffectView::Nothing
            }
        },
        PanelView::PlaylistAddNowPlaying { selected } => {
            let names = sorted_playlists(w.core);
            if (selected as int) < names.len() {
                match env.current_track {
                    Some(p) => after == closing(
                        w,
                        with_status(
                            CoreView { playlists: add_paths(w.core.playlists, names[selected as int], seq![p]), ..w.core },
                            "Added now playing track to playlist"@,
                        ),
                    ) && e == EffectView::AutoSave,
                    None => after == closing(w, with_status(w.core, "No track currently playing"@)) && e
                        == EffectView::Nothing,
                }
            } else {
                after == closing(w, with_status(w.core, "No playlists available"@)) && e == EffectView::Nothing
            }
        },
        PanelView::PlaylistCreate { input, .. } => {
            let name = trim(input);
            if name.len() == 0 {
                after == telling(w, "Enter a playlist name"@) && e == EffectView::Nothing
            } else {
                after == closing(w, create_playlist_outcome(w.core, name)) && e == EffectView::AutoSave
            }
        },
        PanelView::PlaylistRemove { selected } => {
            let names = sorted_playlists(w.core);
            if (selected as int) < names.len() {
                after == closing(w, remove_playlist_outcome(w.core, names[selected as int])) && e
                    == EffectView::AutoSave
            } else {
                after == closing(w, with_status(w.core, "No playlists available"@)) && e == EffectView::Nothing
            }
        },
        PanelView::AudioSettings { selected } => if selected == 0 {
            after == closing(w, dirtied(w.core)) && e == EffectView::ReloadAudioDriver
        } else if selected == 1 {
            after == showing(w, PanelView::AudioOutput { selected: output_row(env) }) && e == EffectView::Nothing
        } else {
            after == showing(w, root_on(RootActionId::AudioDriverSettings, w.recent)) && e == EffectView::Nothing
        },
        PanelView::AudioOutput { selected } => if selected == 0 {
            after == closing(w, dirtied(w.core)) && e == EffectView::SelectOutput(None)
        } else if (selected - 1) < env.outputs.len() {
            after == closing(w, dirtied(w.core)) && e == EffectView::SelectOutput(Some(env.outputs[selected - 1]))
        } else {
            after == closing(
                w,
                with_status(w.core, "Output switch failed: selected audio output is unavailable. Try Reload audio driver"@),
            ) && e == EffectView::Nothing
        },
        PanelView::PlaybackSettings { selected } => if selected == 0 {
            let b = !w.core.loudness_normalization;
            after == PanelWorld {
                core: with_status(
                    with_setting(w.core, SettingChange::Loudness(b)),
                    "Loudness normalization: "@ + on_off(b),
                ),
                ..w
            } && e == EffectView::ApplyLoudness(b)
        } else if selected == 1 {
            let c = crossfade_step(w.core.crossfade_seconds);
            after == PanelWorld {
                core: with_status(with_setting(w.core, SettingChange::Crossfade(c)), "Crossfade: "@ + crossfade_text(c)),
                ..w
            } && e == EffectView::ApplyCrossfade(c)
        } else if selected == 2 {
            let s = scrub_step(w.core.scrub_seconds);
            after == PanelWorld {
                core: with_status(with_setting(w.core, SettingChange::Scrub(s)), "Scrub length: "@ + scrub_text(s)),
                ..w
            } && e == EffectView::AutoSave
        } else if selected == 3 {
            let b = !w.core.stats_enabled;
            after == PanelWorld {
                core: with_status(with_setting(w.core, SettingChange::Stats(b)), "Stats tracking: "@ + on_off(b)),
                ..w
            } && e == EffectView::AutoSave
        } else if selected == 4 {
            let n = top_songs_step(w.settings.stats_top_songs_count);
            after == PanelWorld {
                core: with_status(w.core, "Stats top songs rows: "@ + decimal(n as nat)),
                settings: PanelSettings { stats_top_songs_count: n, ..w.settings },
                ..w
            } && e == EffectView::AutoSave
        } else if selected == 5 {
            after == PanelWorld {
                core: with_status(w.core, "Missing cover fallback: Music Note"@),
                settings: PanelSettings { fallback_cover_template: CoverArtTemplate::Aurora, ..w.settings },
                ..w
            } && e == EffectView::AutoSave
        } else if selected == 6 {
            after == showing(w, PanelView::OnlineDelaySettings { selected: 0 }) && e == EffectView::Nothing
        } else {
            after == showing(w, root_on(RootActionId::PlaybackSettings, w.recent)) && e == EffectView::Nothing
        },
        PanelView::OnlineDelaySettings { selected } => if selected == 0 {
            after == w && e == EffectView::AdjustManualDelay(-10i16)
        } else if selected == 1 {
            after == w && e == EffectView::AdjustManualDelay(10i16)
        } else if selected == 2 {
            after == w && e == EffectView::ToggleAutoDelay
        } else if selected == 3 {
            after == w && e == EffectView::RecalibratePing
        } else if selected == 4 {
            let t = threshold_step(w.settings.online_sync_correction_threshold_ms);
            after == PanelWorld {
                core: with_status(w.core, "Online sync correction threshold: "@ + decimal(t as nat) + "ms"@),
                settings: PanelSettings { online_sync_correction_threshold_ms: t, ..w.settings },
                ..w
            } && e == EffectView::AutoSave
        } else {
            after == showing(w, PanelView::PlaybackSettings { selected: 6 }) && e == EffectView::Nothing
        },
        PanelView::ThemeSettings { selected } => {
            let t = theme_at(selected);
            after == closing(
                w,
                with_status(with_setting(w.core, SettingChange::Theme(t)), "Theme: "@ + theme_name(t)),
            ) && e == EffectView::AutoSave
        },
        PanelView::LyricsImportTxt { selected, path_input, interval_input } => if selected < 2 {
            after == w && e == EffectView::Nothing
        } else {
            let path = trim(path_input);
            if path.len() == 0 {
                after == telling(w, "Provide TXT path to import"@) && e == EffectView::Nothing
            } else {
                after == closing(w, w.core) && e == (EffectView::ImportLyrics {
                    path,
                    interval_seconds: lyrics_interval(interval_input),
                })
            }
        },
        PanelView::MetadataEditor { selected, state } => if selected == 0 && state.track is None {
            if state.confirm {
                after == PanelWorld {
                    panel: PanelView::MetadataEditor { selected: 0, state: EditorView { confirm: false, ..state } },
                    core: with_status(w.core, "Press Enter again to confirm copying cover art to all songs"@),
                    ..w
                } && e == EffectView::Nothing
            } else {
                cover_copied(w, state, env, after, e)
            }
        } else if selected == 1 && state.track is None {
            after == showing(w, root_on(RootActionId::MetadataEditor, w.recent)) && e == EffectView::Nothing
        } else if selected == 3 {
            after == w && e == (match state.track {
                Some(p) => EffectView::WriteMetadata { path: p, title: state.title, artist: state.artist, album: state.album },
                None => EffectView::Nothing,
            })
        } else if selected == 4 {
            after == w && e == (match state.track {
                Some(p) => EffectView::ClearMetadata(p),
                None => EffectView::Nothing,
            })
        } else if selected == 5 {
            cover_copied(w, state, env, after, e)
        } else if selected == 6 {
            after == showing(w, root_on(RootActionId::MetadataEditor, w.recent)) && e == EffectView::Nothing
        } else {
            after == w && e == EffectView::Nothing
        },
        PanelView::AddDirectory { selected, input } => if selected == 1 {
            let path = trim(input);
            if path.len() == 0 {
                after == telling(w, "Enter a folder path or choose externally"@) && e == EffectView::Nothing
            } else {
                after == closing(w, w.core) && e == EffectView::AddFolder(path)
            }
        } else {
            after == w && e == EffectView::ChooseFolder
        },
        PanelView::RemoveDirectory { selected } => {
            let folders = sorted_by_lower(w.core.folders);
            if (selected as int) < folders.len() {
                after == closing(w, w.core) && e == EffectView::RemoveFolder(folders[selected as int])
            } else {
                after == closing(w, with_status(w.core, "No folders available"@)) && e == EffectView::Nothing
            }
        },
    }
}


fn joined_text(prefix: &str, tail: &str) -> (r: String)
    ensures
        r@ == prefix@ + tail@,
{
    let mut cs = chars_of(prefix);
    extend_str(&mut cs, tail);
    string_from_chars(cs.as_slice())
}

fn numbered_text(prefix: &str, n: u64) -> (r: String)
    ensures
        r@ == prefix@ + decimal(n as nat),
{
    let mut cs = chars_of(prefix);
    push_decimal(&mut cs, n);
    string_from_chars(cs.as_slice())
}

fn text_of(cs: &Vec<char>) -> (r: String)
    ensures
        r@ == cs@,
{
    string_from_chars(cs.as_slice())
}

fn enter_root(
    core: &mut TuneCore,
    selected: usize,
    query: String,
    recent: &mut Vec<RootActionId>,
    settings: &PanelSettings,
    env: &PanelEnv,
) -> (r: (ActionPanelState, PanelEffect))
    ensures
        entered(
            world(old(core)@, PanelView::Root { selected, query: query@ }, old(recent)@, *settings),
            env@,
            world(final(core)@, r.0@, final(recent)@, *settings),
            r.1@,
        ),
        old(core)@.sound() ==> final(core)@.wf(),
{
    let ghost w = world(core@, PanelView::Root { selected, query: query@ }, recent@, *settings);
    let visible = root_visible_actions(query.as_str(), recent.as_slice());
    if selected >= visible.len() {
        core.show_status("No matching actions");
        return (ActionPanelState::Root { selected, query }, PanelEffect::Nothing);
    }
    let a = visible[selected].action;
    update_recent_root_actions(recent, a);
    let ghost w1 = PanelWorld { recent: recent@, ..w };
    match a {
        RootActionId::AddDirectory => {
            core.mark_dirty();
            (ActionPanelState::AddDirectory { selected: 1, input: String::new() }, PanelEffect::Nothing)
        },
        RootActionId::AddSelectedToPlaylist | RootActionId::AddNowPlayingToPlaylist | RootActionId::PlayPlaylist => {
            let names = core.playlist_names();
            assert(texts(names@).len() == names@.len());
            if names.len() == 0 {
                core.show_status("No playlists available");
                (ActionPanelState::Closed, PanelEffect::Nothing)
            } else {
                core.mark_dirty();
                let next = match a {
                    RootActionId::AddSelectedToPlaylist => ActionPanelState::PlaylistAdd { selected: 0 },
                    RootActionId::AddNowPlayingToPlaylist => ActionPanelState::PlaylistAddNowPlaying { selected: 0 },
                    _ => ActionPanelState::PlaylistPlay { selected: 0 },
                };
                (next, PanelEffect::Nothing)
            }
        },
        RootActionId::SetPlaybackMode => {
            core.mark_dirty();
            (ActionPanelState::Mode { selected: 0 }, PanelEffect::Nothing)
        },
        RootActionId::PlaybackSettings => {
            core.mark_dirty();
            (ActionPanelState::PlaybackSettings { selected: 0 }, PanelEffect::Nothing)
        },
        RootActionId::RemoveSelectedFromPlaylist => {
            core.remove_selected_from_current_playlist();
            (ActionPanelState::Closed, PanelEffect::AutoSave)
        },
        RootActionId::CreatePlaylist => {
            core.mark_dirty();
            (ActionPanelState::PlaylistCreate { selected: 0, input: String::new() }, PanelEffect::Nothing)
        },
        RootActionId::RemovePlaylist => {
            core.mark_dirty();
            (ActionPanelState::PlaylistRemove { selected: 0 }, PanelEffect::Nothing)
        },
        RootActionId::RemoveDirectory => {
            core.mark_dirty();
            (ActionPanelState::RemoveDirectory { selected: 0 }, PanelEffect::Nothing)
        },
        RootActionId::RescanLibrary => (ActionPanelState::Closed, PanelEffect::Rescan),
        RootActionId::AudioDriverSettings => {
            core.mark_dirty();
            (ActionPanelState::AudioSettings { selected: 0 }, PanelEffect::Nothing)
        },
        RootActionId::Theme => {
            let row: usize = match core.theme() {
                Theme::Dark | Theme::Ocean | Theme::System => 0,
                Theme::PitchBlack => 1,
                Theme::Galaxy => 2,
                Theme::Matrix | Theme::Forest => 3,
                Theme::Demonic => 4,
                Theme::CottonCandy | Theme::Sunset => 5,
            };
            core.mark_dirty();
            (ActionPanelState::ThemeSettings { selected: row }, PanelEffect::Nothing)
        },
        RootActionId::SaveState => (ActionPanelState::Closed, PanelEffect::SaveState),
        RootActionId::ClearListenHistory => {
            core.show_status("Clearing listen history...");
            (ActionPanelState::Closed, PanelEffect::ClearListenHistory)
        },
        RootActionId::MetadataEditor => {
            match editor_for_exec(core) {
                None => {
                    core.show_status("Select a track, folder, playlist, or [ALL] entry first");
                    (ActionPanelState::Closed, PanelEffect::Nothing)
                },
                Some(state) => {
                    let effect = match &state.selected_track_path {
                        Some(p) => PanelEffect::LoadMetadata(p.clone()),
                        None => PanelEffect::Nothing,
                    };
                    core.mark_dirty();
                    (ActionPanelState::MetadataEditor { selected: 0, state }, effect)
                },
            }
        },
        RootActionId::MinimizeToTray => {
            core.show_status("Minimized to tray");
            (ActionPanelState::Closed, PanelEffect::MinimizeToTray)
        },
        RootActionId::ImportTxtToLyrics => {
            core.mark_dirty();
            (
                ActionPanelState::LyricsImportTxt {
                    selected: 0,
                    path_input: String::new(),
                    interval_input: "3".to_owned(),
                },
                PanelEffect::Nothing,
            )
        },
        RootActionId::ClosePanel => {
            core.mark_dirty();
            (ActionPanelState::Closed, PanelEffect::Nothing)
        },
    }
}

fn editor_for_exec(core: &TuneCore) -> (r: Option<MetadataEditorState>)
    ensures
        match r {
            Some(s) => editor_for(core@) == Some(s@),
            None => editor_for(core@) is None,
        },
{
    let entry = match core.selected_entry() {
        Some(e) => e,
        None => return None,
    };
    let targets = core.selected_paths_for_action();
    assert(texts(targets@).len() == targets@.len());
    if targets.len() == 0 {
        return None;
    }
    let (track, label, confirm) = match entry.kind {
        BrowserEntryKind::Track => (Some(entry.path.clone()), "selected track".to_owned(), false),
        BrowserEntryKind::Folder => (None, "current folder".to_owned(), false),
        BrowserEntryKind::Playlist => (None, "current playlist".to_owned(), false),
        BrowserEntryKind::AllSongs => (None, "all songs".to_owned(), true),
        BrowserEntryKind::Back => return None,
    };
    Some(
        MetadataEditorState {
            selected_track_path: track,
            copy_target_label: label,
            copy_target_paths: targets,
            title_input: String::new(),
            artist_input: String::new(),
            album_input: String::new(),
            confirm_all_songs_cover_copy: confirm,
        },
    )
}


fn sorted_playlist_names(core: &TuneCore) -> (r: Vec<String>)
    ensures
        texts(r@) == sorted_playlists(core@),
{
    let names = core.playlist_names();
    sort_by_lowercase(&names)
}

fn enter_playlist_list(
    core: &mut TuneCore,
    p: ActionPanelState,
    recent: &Vec<RootActionId>,
    settings: &PanelSettings,
    env: &PanelEnv,
) -> (r: (ActionPanelState, PanelEffect))
    requires
        p is PlaylistPlay || p is PlaylistAdd || p is PlaylistAddNowPlaying || p is PlaylistRemove,
    ensures
        entered(world(old(core)@, p@, recent@, *settings), env@, world(final(core)@, r.0@, recent@, *settings), r.1@),
        old(core)@.sound() ==> final(core)@.wf(),
{
    let ghost v0 = core@;
    let selected = p.selected();
    let names = sorted_playlist_names(core);
    assert(texts(names@).len() == names@.len());
    if selected >= names.len() {
        core.show_status("No playlists available");
        return (ActionPanelState::Closed, PanelEffect::Nothing);
    }
    let name = names[selected].clone();
    assert(name@ == sorted_playlists(v0)[selected as int]);
    match p {
        ActionPanelState::PlaylistPlay { .. } => {
            core.load_playlist_queue(name.as_str());
            let ghost mid = core@;
            let path = core.next_track_path();
            let effect = match path {
                Some(t) => PanelEffect::Play(t),
                None => PanelEffect::Nothing,
            };
            assert(loaded(v0, name@, mid) && advanced(mid, core@, text_opt(path)) && effect@ == (match text_opt(path) {
                Some(t) => EffectView::Play(t),
                None => EffectView::Nothing,
            }));
            (ActionPanelState::Closed, effect)
        },
        ActionPanelState::PlaylistAdd { .. } => {
            core.add_selected_to_playlist(name.as_str());
            (ActionPanelState::Closed, PanelEffect::AutoSave)
        },
        ActionPanelState::PlaylistAddNowPlaying { .. } => {
            match &env.current_track {
                Some(track) => {
                    core.add_track_to_playlist(name.as_str(), track.as_str());
                    (ActionPanelState::Closed, PanelEffect::AutoSave)
                },
                None => {
                    core.show_status("No track currently playing");
                    (ActionPanelState::Closed, PanelEffect::Nothing)
                },
            }
        },
        _ => {
            core.remove_playlist(name.as_str());
            (ActionPanelState::Closed, PanelEffect::AutoSave)
        },
    }
}

fn output_row_exec(env: &PanelEnv) -> (r: usize)
    ensures
        r == output_row(env@),
{
    let ghost outs = env@.outputs;
    assert(outs.len() == env.audio_outputs@.len());
    match &env.selected_output {
        None => 0,
        Some(name) => {
            let mut i: usize = 0;
            while i < env.audio_outputs.len()
                invariant
                    i <= env.audio_outputs.len(),
                    outs == texts(env.audio_outputs@),
                    outs.len() == env.audio_outputs@.len(),
                    env@.selected_output == Some(name@),
                    position_of(outs.take(i as int), name@) == -1,
                decreases env.audio_outputs.len() - i,
            {
                assert(outs[i as int] == env.audio_outputs@[i as int]@);
                assert(outs.take(i + 1).drop_last() =~= outs.take(i as int));
                if crate::text::str_eq(env.audio_outputs[i].as_str(), name.as_str()) {
                    proof {
                        lemma_position_kept(outs, name@, i + 1);
                    }
                    return i + 1;
                }
                i += 1;
            }
            assert(outs.take(i as int) =~= outs);
            0
        },
    }
}

/// Once `x` is found in a prefix, longer prefixes find it at the same place.
proof fn lemma_position_kept(s: Seq<Seq<char>>, x: Seq<char>, k: int)
    requires
        0 <= k <= s.len(),
        position_of(s.take(k), x) >= 0,
    ensures
        position_of(s, x) == position_of(s.take(k), x),
    decreases s.len() - k,
{
    if k < s.len() {
        assert(s.take(k + 1).drop_last() =~= s.take(k));
        lemma_position_kept(s, x, k + 1);
    } else {
        assert(s.take(k) =~= s);
    }
}

fn enter_audio(
    core: &mut TuneCore,
    p: ActionPanelState,
    recent: &Vec<RootActionId>,
    settings: &PanelSettings,
    env: &PanelEnv,
) -> (r: (ActionPanelState, PanelEffect))
    requires
        p is AudioSettings || p is AudioOutput,
    ensures
        entered(world(old(core)@, p@, recent@, *settings), env@, world(final(core)@, r.0@, recent@, *settings), r.1@),
        old(core)@.sound() ==> final(core)@.wf(),
{
    let selected = p.selected();
    match p {
        ActionPanelState::AudioSettings { .. } => {
            if selected == 0 {
                core.mark_dirty();
                (ActionPanelState::Closed, PanelEffect::ReloadAudioDriver)
            } else if selected == 1 {
                core.mark_dirty();
                (ActionPanelState::AudioOutput { selected: output_row_exec(env) }, PanelEffect::Nothing)
            } else {
                core.mark_dirty();
                (root_on_exec(RootActionId::AudioDriverSettings, recent), PanelEffect::Nothing)
            }
        },
        _ => {
            if selected == 0 {
                core.mark_dirty();
                (ActionPanelState::Closed, PanelEffect::SelectOutput(None))
            } else if selected - 1 < env.audio_outputs.len() {
                assert(env@.outputs[selected - 1] == env.audio_outputs@[selected - 1]@);
                core.mark_dirty();
                (ActionPanelState::Closed, PanelEffect::SelectOutput(Some(env.audio_outputs[selected - 1].clone())))
            } else {
                core.show_status("Output switch failed: selected audio output is unavailable. Try Reload audio driver");
                (ActionPanelState::Closed, PanelEffect::Nothing)
            }
        },
    }
}

fn enter_playback_settings(
    core: &mut TuneCore,
    selected: usize,
    recent: &Vec<RootActionId>,
    settings: &mut PanelSettings,
    env: &PanelEnv,
) -> (r: (ActionPanelState, PanelEffect))
    ensures
        entered(
            world(old(core)@, PanelView::PlaybackSettings { selected }, recent@, *old(settings)),
            env@,
            world(final(core)@, r.0@, recent@, *final(settings)),
            r.1@,
        ),
        old(core)@.sound() ==> final(core)@.wf(),
{
    let here = ActionPanelState::PlaybackSettings { selected };
    if selected == 0 {
        let b = !core.loudness_normalization();
        let msg = joined_text("Loudness normalization: ", on_off_text(b));
        core.apply_setting(SettingChange::Loudness(b), msg.as_str());
        (here, PanelEffect::ApplyLoudness(b))
    } else if selected == 1 {
        let c = next_crossfade_seconds(core.crossfade_seconds());
        let label = crossfade_label(c);
        let msg = joined_text("Crossfade: ", label.as_str());
        core.apply_setting(SettingChange::Crossfade(c), msg.as_str());
        (here, PanelEffect::ApplyCrossfade(c))
    } else if selected == 2 {
        let sc = next_scrub_seconds(core.scrub_seconds());
        let label = scrub_label(sc);
        let msg = joined_text("Scrub length: ", label.as_str());
        core.apply_setting(SettingChange::Scrub(sc), msg.as_str());
        (here, PanelEffect::AutoSave)
    } else if selected == 3 {
        let b = !core.stats_enabled();
        let msg = joined_text("Stats tracking: ", on_off_text(b));
        core.apply_setting(SettingChange::Stats(b), msg.as_str());
        (here, PanelEffect::AutoSave)
    } else if selected == 4 {
        let n = next_stats_top_songs_count(settings.stats_top_songs_count);
        settings.stats_top_songs_count = n;
        let msg = numbered_text("Stats top songs rows: ", n as u64);
        core.show_status(msg.as_str());
        (here, PanelEffect::AutoSave)
    } else if selected == 5 {
        settings.fallback_cover_template = settings.fallback_cover_template.next();
        let msg = joined_text("Missing cover fallback: ", crate::panel::cover_template_label(settings.fallback_cover_template));
        proof {
            reveal_strlit("Missing cover fallback: ");
            reveal_strlit("Music Note");
            reveal_strlit("Missing cover fallback: Music Note");
            assert(msg@ =~= "Missing cover fallback: Music Note"@);
        }
        core.show_status(msg.as_str());
        (here, PanelEffect::AutoSave)
    } else if selected == 6 {
        core.mark_dirty();
        (ActionPanelState::OnlineDelaySettings { selected: 0 }, PanelEffect::Nothing)
    } else {
        core.mark_dirty();
        (root_on_exec(RootActionId::PlaybackSettings, recent), PanelEffect::Nothing)
    }
}

fn enter_online_delay(
    core: &mut TuneCore,
    selected: usize,
    recent: &Vec<RootActionId>,
    settings: &mut PanelSettings,
    env: &PanelEnv,
) -> (r: (ActionPanelState, PanelEffect))
    ensures
        entered(
            world(old(core)@, PanelView::OnlineDelaySettings { selected }, recent@, *old(settings)),
            env@,
            world(final(core)@, r.0@, recent@, *final(settings)),
            r.1@,
        ),
        old(core)@.sound() ==> final(core)@.wf(),
{
    let here = ActionPanelState::OnlineDelaySettings { selected };
    if selected == 0 {
        (here, PanelEffect::AdjustManualDelay(-10))
    } else if selected == 1 {
        (here, PanelEffect::AdjustManualDelay(10))
    } else if selected == 2 {
        (here, PanelEffect::ToggleAutoDelay)
    } else if selected == 3 {
        (here, PanelEffect::RecalibratePing)
    } else if selected == 4 {
        let t = next_online_sync_correction_threshold_ms(settings.online_sync_correction_threshold_ms);
        settings.online_sync_correction_threshold_ms = t;
        let mut cs = chars_of("Online sync correction threshold: ");
        push_decimal(&mut cs, t as u64);
        extend_str(&mut cs, "ms");
        let msg = text_of(&cs);
        core.show_status(msg.as_str());
        (here, PanelEffect::AutoSave)
    } else {
        core.mark_dirty();
        (ActionPanelState::PlaybackSettings { selected: 6 }, PanelEffect::Nothing)
    }
}

fn enter_choice(
    core: &mut TuneCore,
    p: ActionPanelState,
    recent: &Vec<RootActionId>,
    settings: &PanelSettings,
    env: &PanelEnv,
) -> (r: (ActionPanelState, PanelEffect))
    requires
        p is Mode || p is ThemeSettings,
    ensures
        entered(world(old(core)@, p@, recent@, *settings), env@, world(final(core)@, r.0@, recent@, *settings), r.1@),
        old(core)@.sound() ==> final(core)@.wf(),
{
    let selected = p.selected();
    match p {
        ActionPanelState::Mode { .. } => {
            let mode = if selected == 0 {
                LegacyPlaybackMode::Normal
            } else if selected == 1 {
                LegacyPlaybackMode::Shuffle
            } else if selected == 2 {
                LegacyPlaybackMode::Loop
            } else {
                LegacyPlaybackMode::LoopOne
            };
            core.apply_setting(SettingChange::PlaybackMode(mode), "Playback mode updated");
            (ActionPanelState::Closed, PanelEffect::AutoSave)
        },
        _ => {
            let theme = if selected == 0 {
                Theme::Dark
            } else if selected == 1 {
                Theme::PitchBlack
            } else if selected == 2 {
                Theme::Galaxy
            } else if selected == 3 {
                Theme::Matrix
            } else if selected == 4 {
                Theme::Demonic
            } else {
                Theme::CottonCandy
            };
            assert(theme == theme_at(selected));
            let msg = joined_text("Theme: ", theme_label(theme));
            core.apply_setting(SettingChange::Theme(theme), msg.as_str());
            (ActionPanelState::Closed, PanelEffect::AutoSave)
        },
    }
}

fn lyrics_interval_exec(input: &str) -> (r: u32)
    ensures
        r == lyrics_interval(input@),
{
    let t = trimmed(input);
    match crate::text::parse_decimal(t.as_slice(), u32::MAX) {
        Some(n) => if n == 0 {
            1
        } else {
            n
        },
        None => 3,
    }
}

fn enter_playlist_create(
    core: &mut TuneCore,
    selected: usize,
    input: String,
    recent: &Vec<RootActionId>,
    settings: &PanelSettings,
    env: &PanelEnv,
) -> (r: (ActionPanelState, PanelEffect))
    ensures
        entered(
            world(old(core)@, PanelView::PlaylistCreate { selected, input: input@ }, recent@, *settings),
            env@,
            world(final(core)@, r.0@, recent@, *settings),
            r.1@,
        ),
        old(core)@.sound() ==> final(core)@.wf(),
{
    let name = trimmed(input.as_str());
    if name.len() == 0 {
        core.show_status("Enter a playlist name");
        return (ActionPanelState::PlaylistCreate { selected, input }, PanelEffect::Nothing);
    }
    let name_text = text_of(&name);
    core.create_playlist(name_text.as_str());
    (ActionPanelState::Closed, PanelEffect::AutoSave)
}

fn enter_lyrics_import(
    core: &mut TuneCore,
    selected: usize,
    path_input: String,
    interval_input: String,
    recent: &Vec<RootActionId>,
    settings: &PanelSettings,
    env: &PanelEnv,
) -> (r: (ActionPanelState, PanelEffect))
    ensures
        entered(
            world(
                old(core)@,
                PanelView::LyricsImportTxt { selected, path_input: path_input@, interval_input: interval_input@ },
                recent@,
                *settings,
            ),
            env@,
            world(final(core)@, r.0@, recent@, *settings),
            r.1@,
        ),
        old(core)@.sound() ==> final(core)@.wf(),
{
    if selected < 2 {
        return (ActionPanelState::LyricsImportTxt { selected, path_input, interval_input }, PanelEffect::Nothing);
    }
    let path = trimmed(path_input.as_str());
    if path.len() == 0 {
        core.show_status("Provide TXT path to import");
        return (ActionPanelState::LyricsImportTxt { selected, path_input, interval_input }, PanelEffect::Nothing);
    }
    let interval = lyrics_interval_exec(interval_input.as_str());
    (ActionPanelState::Closed, PanelEffect::ImportLyrics { path: text_of(&path), interval_seconds: interval })
}

fn enter_add_directory(
    core: &mut TuneCore,
    selected: usize,
    input: String,
    recent: &Vec<RootActionId>,
    settings: &PanelSettings,
    env: &PanelEnv,
) -> (r: (ActionPanelState, PanelEffect))
    ensures
        entered(
            world(old(core)@, PanelView::AddDirectory { selected, input: input@ }, recent@, *settings),
            env@,
            world(final(core)@, r.0@, recent@, *settings),
            r.1@,
        ),
        old(core)@.sound() ==> final(core)@.wf(),
{
    if selected != 1 {
        return (ActionPanelState::AddDirectory { selected, input }, PanelEffect::ChooseFolder);
    }
    let path = trimmed(input.as_str());
    if path.len() == 0 {
        core.show_status("Enter a folder path or choose externally");
        return (ActionPanelState::AddDirectory { selected, input }, PanelEffect::Nothing);
    }
    (ActionPanelState::Closed, PanelEffect::AddFolder(text_of(&path)))
}

fn enter_remove_directory(
    core: &mut TuneCore,
    selected: usize,
    recent: &Vec<RootActionId>,
    settings: &PanelSettings,
    env: &PanelEnv,
) -> (r: (ActionPanelState, PanelEffect))
    ensures
        entered(
            world(old(core)@, PanelView::RemoveDirectory { selected }, recent@, *settings),
            env@,
            world(final(core)@, r.0@, recent@, *settings),
            r.1@,
        ),
        old(core)@.sound() ==> final(core)@.wf(),
{
    let folders = core.folder_list();
    let sorted = sort_by_lowercase(&folders);
    assert(texts(sorted@).len() == sorted@.len());
    if selected < sorted.len() {
        (ActionPanelState::Closed, PanelEffect::RemoveFolder(sorted[selected].clone()))
    } else {
        core.show_status("No folders available");
        (ActionPanelState::Closed, PanelEffect::Nothing)
    }
}

fn copy_cover(core: &mut TuneCore, state: MetadataEditorState, selected: usize, env: &PanelEnv) -> (r: (ActionPanelState, PanelEffect))
    ensures
        ({
            let w = world(old(core)@, PanelView::MetadataEditor { selected, state: state@ }, Seq::empty(), PanelSettings {
                stats_top_songs_count: 0,
                fallback_cover_template: CoverArtTemplate::Aurora,
                online_sync_correction_threshold_ms: 0,
            });
            match cover_source(old(core)@, env@) {
                None => final(core)@ == with_status(old(core)@, "No track is currently playing"@) && r.0@ == w.panel
                    && r.1@ == EffectView::Nothing,
                Some(src) => final(core)@ == old(core)@ && r.0@ == PanelView::Closed && r.1@ == (EffectView::CopyCover {
                    source: src,
                    targets: state@.targets,
                    label: state@.label,
                }),
            }
        }),
{
    let source = match &env.current_track {
        Some(t) => Some(t.clone()),
        None => core.current_path(),
    };
    match source {
        None => {
            core.show_status("No track is currently playing");
            (ActionPanelState::MetadataEditor { selected, state }, PanelEffect::Nothing)
        },
        Some(src) => (
            ActionPanelState::Closed,
            PanelEffect::CopyCover {
                source: src,
                targets: state.copy_target_paths,
                label: state.copy_target_label,
            },
        ),
    }
}

fn enter_metadata(
    core: &mut TuneCore,
    selected: usize,
    state: MetadataEditorState,
    recent: &Vec<RootActionId>,
    settings: &PanelSettings,
    env: &PanelEnv,
) -> (r: (ActionPanelState, PanelEffect))
    ensures
        entered(
            world(old(core)@, PanelView::MetadataEditor { selected, state: state@ }, recent@, *settings),
            env@,
            world(final(core)@, r.0@, recent@, *settings),
            r.1@,
        ),
        old(core)@.sound() ==> final(core)@.wf(),
{
    let no_track = state.selected_track_path.is_none();
    if selected == 0 && no_track {
        if state.confirm_all_songs_cover_copy {
            let MetadataEditorState {
                selected_track_path,
                copy_target_label,
                copy_target_paths,
                title_input,
                artist_input,
                album_input,
                confirm_all_songs_cover_copy: _,
            } = state;
            core.show_status("Press Enter again to confirm copying cover art to all songs");
            let next = MetadataEditorState {
                selected_track_path,
                copy_target_label,
                copy_target_paths,
                title_input,
                artist_input,
                album_input,
                confirm_all_songs_cover_copy: false,
            };
            return (ActionPanelState::MetadataEditor { selected: 0, state: next }, PanelEffect::Nothing);
        }
        return copy_cover(core, state, selected, env);
    }
    if selected == 1 && no_track {
        core.mark_dirty();
        return (root_on_exec(RootActionId::MetadataEditor, recent), PanelEffect::Nothing);
    }
    if selected == 3 || selected == 4 {
        let effect = match &state.selected_track_path {
            None => PanelEffect::Nothing,
            Some(path) => if selected == 3 {
                PanelEffect::WriteMetadata {
                    path: path.clone(),
                    title: state.title_input.clone(),
                    artist: state.artist_input.clone(),
                    album: state.album_input.clone(),
                }
            } else {
                PanelEffect::ClearMetadata(path.clone())
            },
        };
        return (ActionPanelState::MetadataEditor { selected, state }, effect);
    }
    if selected == 5 {
        return copy_cover(core, state, selected, env);
    }
    if selected == 6 {
        core.mark_dirty();
        return (root_on_exec(RootActionId::MetadataEditor, recent), PanelEffect::Nothing);
    }
    (ActionPanelState::MetadataEditor { selected, state }, PanelEffect::Nothing)
}

/// Enter on the panel.
fn enter(
    core: &mut TuneCore,
    p: ActionPanelState,
    recent: &mut Vec<RootActionId>,
    settings: &mut PanelSettings,
    env: &PanelEnv,
) -> (r: (ActionPanelState, PanelEffect))
    ensures
        entered(
            world(old(core)@, p@, old(recent)@, *old(settings)),
            env@,
            world(final(core)@, r.0@, final(recent)@, *final(settings)),
            r.1@,
        ),
        old(core)@.sound() ==> final(core)@.wf(),
{
    match p {
        ActionPanelState::Closed => (ActionPanelState::Closed, PanelEffect::Nothing),
        ActionPanelState::Root { selected, query } => enter_root(core, selected, query, recent, settings, env),
        ActionPanelState::PlaybackSettings { selected } => enter_playback_settings(core, selected, recent, settings, env),
        ActionPanelState::OnlineDelaySettings { selected } => enter_online_delay(core, selected, recent, settings, env),
        ActionPanelState::MetadataEditor { selected, state } => enter_metadata(core, selected, state, recent, settings, env),
        ActionPanelState::RemoveDirectory { selected } => enter_remove_directory(core, selected, recent, settings, env),
        ActionPanelState::PlaylistPlay { selected } => enter_playlist_list(
            core,
            ActionPanelState::PlaylistPlay { selected },
            recent,
            settings,
            env,
        ),
        ActionPanelState::PlaylistAdd { selected } => enter_playlist_list(
            core,
            ActionPanelState::PlaylistAdd { selected },
            recent,
            settings,
            env,
        ),
        ActionPanelState::PlaylistAddNowPlaying { selected } => enter_playlist_list(
            core,
            ActionPanelState::PlaylistAddNowPlaying { selected },
            recent,
            settings,
            env,
        ),
        ActionPanelState::PlaylistRemove { selected } => enter_playlist_list(
            core,
            ActionPanelState::PlaylistRemove { selected },
            recent,
            settings,
            env,
        ),
        ActionPanelState::AudioSettings { selected } => enter_audio(
            core,
            ActionPanelState::AudioSettings { selected },
            recent,
            settings,
            env,
        ),
        ActionPanelState::AudioOutput { selected } => enter_audio(
            core,
            ActionPanelState::AudioOutput { selected },
            recent,
            settings,
            env,
        ),
        ActionPanelState::Mode { selected } => enter_choice(core, ActionPanelState::Mode { selected }, recent, settings, env),
        ActionPanelState::ThemeSettings { selected } => enter_choice(
            core,
            ActionPanelState::ThemeSettings { selected },
            recent,
            settings,
            env,
        ),
        ActionPanelState::PlaylistCreate { selected, input } => enter_playlist_create(
            core,
            selected,
            input,
            recent,
            settings,
            env,
        ),
        ActionPanelState::LyricsImportTxt { selected, path_input, interval_input } => enter_lyrics_import(
            core,
            selected,
            path_input,
            interval_input,
            recent,
            settings,
            env,
        ),
        ActionPanelState::AddDirectory { selected, input } => enter_add_directory(
            core,
            selected,
            input,
            recent,
            settings,
            env,
        ),
    }
}


/// One key on the panel: the library, the panel, the recent actions and the panel's
/// settings before (`w`) and after, and what is left to the caller. A key that types into a
/// field only edits it. Otherwise the root menu's cursor is first kept on a row; then Esc
/// closes, Up and Down move the cursor (wrapping), Left and Backspace go back, Enter acts,
/// and other keys do nothing more.
pub open spec fn key_step(w: PanelWorld, env: EnvView, key: PanelKey, after: PanelWorld, e: EffectView) -> bool {
    match typed(w.panel, key) {
        Some(p) => after == showing(w, p) && e == EffectView::Nothing,
        None => {
            let count = option_count(w.panel, w.core, w.recent, env);
            let w2 = PanelWorld { panel: clamped(w.panel, count), ..w };
            match key {
                PanelKey::Esc => after == showing(w2, PanelView::Closed) && e == EffectView::Nothing,
                PanelKey::Up => after == showing(w2, moved(w2.panel, count, false)) && e == EffectView::Nothing,
                PanelKey::Down => after == showing(w2, moved(w2.panel, count, true)) && e == EffectView::Nothing,
                PanelKey::Left => after == showing(w2, back_of(w2.panel, w2.recent)) && e == EffectView::Nothing,
                PanelKey::Backspace => after == showing(w2, back_of(w2.panel, w2.recent)) && e == EffectView::Nothing,
                PanelKey::Enter => entered(w2, env, after, e),
                _ => after == w2 && e == EffectView::Nothing,
            }
        },
    }
}

/// Handles one key on the action panel. The library stays well formed whatever the key.
pub fn handle_panel_key(
    core: &mut TuneCore,
    panel: &mut ActionPanelState,
    recent: &mut Vec<RootActionId>,
    settings: &mut PanelSettings,
    env: &PanelEnv,
    key: PanelKey,
) -> (effect: PanelEffect)
    ensures
        key_step(
            world(old(core)@, old(panel)@, old(recent)@, *old(settings)),
            env@,
            key,
            world(final(core)@, final(panel)@, final(recent)@, *final(settings)),
            effect@,
        ),
        old(core)@.sound() ==> final(core)@.wf(),
{
    let mut state = ActionPanelState::Closed;
    std::mem::swap(&mut state, panel);
    let (state, typed_in) = type_into(state, key);
    if typed_in {
        *panel = state;
        core.mark_dirty();
        return PanelEffect::Nothing;
    }
    let count = option_count_exec(&state, core, recent, env);
    let state = clamp_exec(state, count);
    match key {
        PanelKey::Esc => {
            *panel = ActionPanelState::Closed;
            core.mark_dirty();
            PanelEffect::Nothing
        },
        PanelKey::Up | PanelKey::Down => {
            let down = key == PanelKey::Down;
            *panel = move_exec(state, count, down);
            core.mark_dirty();
            PanelEffect::Nothing
        },
        PanelKey::Left | PanelKey::Backspace => {
            *panel = back_exec(state, recent);
            core.mark_dirty();
            PanelEffect::Nothing
        },
        PanelKey::Enter => {
            let (next, effect) = enter(core, state, recent, settings, env);
            *panel = next;
            effect
        },
        _ => {
            *panel = state;
            PanelEffect::Nothing
        },
    }
}


// ---------------------------------------------------------------------------
// Finishing the work handed to the caller
// ---------------------------------------------------------------------------

pub open spec fn text_or_empty(o: Option<Seq<char>>) -> Seq<char> {
    match o {
        Some(t) => t,
        None => Seq::empty(),
    }
}

fn string_or_empty(o: Option<String>) -> (r: String)
    ensures
        r@ == text_or_empty(text_opt(o)),
{
    match o {
        Some(t) => t,
        None => String::new(),
    }
}

/// The metadata editor of a track filled with the tags read from it (a missing tag leaves
/// its field empty); any other panel is left as it is.
pub fn fill_metadata_editor(panel: &mut ActionPanelState, metadata: crate::library::MetadataSnapshot)
    ensures
        match *old(panel) {
            ActionPanelState::MetadataEditor { selected, state } => state.selected_track_path is Some ==> final(panel)@
                == (PanelView::MetadataEditor {
                selected,
                state: EditorView {
                    title: text_or_empty(text_opt(metadata.title)),
                    artist: text_or_empty(text_opt(metadata.artist)),
                    album: text_or_empty(text_opt(metadata.album)),
                    ..state@
                },
            }),
            _ => true,
        },
        !(old(panel)@ matches PanelView::MetadataEditor { state, .. } && state.track is Some) ==> final(panel)@
            == old(panel)@,
{
    let mut state = ActionPanelState::Closed;
    std::mem::swap(&mut state, panel);
    *panel = match state {
        ActionPanelState::MetadataEditor { selected, state } => {
            if state.selected_track_path.is_some() {
                let MetadataEditorState {
                    selected_track_path,
                    copy_target_label,
                    copy_target_paths,
                    title_input: _,
                    artist_input: _,
                    album_input: _,
                    confirm_all_songs_cover_copy,
                } = state;
                ActionPanelState::MetadataEditor {
                    selected,
                    state: MetadataEditorState {
                        selected_track_path,
                        copy_target_label,
                        copy_target_paths,
                        title_input: string_or_empty(metadata.title),
                        artist_input: string_or_empty(metadata.artist),
                        album_input: string_or_empty(metadata.album),
                        confirm_all_songs_cover_copy,
                    },
                }
            } else {
                ActionPanelState::MetadataEditor { selected, state }
            }
        },
        other => other,
    };
}

/// After writing (or clearing) a track's tags: success is reported and the panel closes; a
/// failure is reported with its reason and the editor stays open.
pub fn finish_metadata_write(core: &mut TuneCore, panel: &mut ActionPanelState, cleared: bool, error: Option<String>)
    ensures
        match error {
            None => final(core)@ == with_status(old(core)@, if cleared {
                "Metadata cleared"@
            } else {
                "Metadata saved"@
            }) && final(panel)@ == PanelView::Closed,
            Some(e) => final(core)@ == with_status(old(core)@, (if cleared {
                "Metadata clear failed: "@
            } else {
                "Metadata save failed: "@
            }) + e@) && final(panel)@ == old(panel)@,
        },
{
    match error {
        None => {
            if cleared {
                core.show_status("Metadata cleared");
            } else {
                core.show_status("Metadata saved");
            }
            *panel = ActionPanelState::Closed;
        },
        Some(e) => {
            let prefix = if cleared {
                "Metadata clear failed: "
            } else {
                "Metadata save failed: "
            };
            let msg = joined_text(prefix, e.as_str());
            core.show_status(msg.as_str());
        },
    }
}

/// After the folder picker answered: a chosen folder closes the panel and is returned to be
/// added; a cancelled or failed pick is reported and the panel stays.
pub fn finish_folder_pick(core: &mut TuneCore, panel: &mut ActionPanelState, picked: Result<Option<String>, String>) -> (r:
    Option<String>)
    ensures
        match picked {
            Ok(Some(p)) => r == Some(p) && final(core)@ == old(core)@ && final(panel)@ == PanelView::Closed,
            Ok(None) => r is None && final(core)@ == with_status(old(core)@, "Folder selection cancelled"@)
                && final(panel)@ == old(panel)@,
            Err(e) => r is None && final(core)@ == with_status(old(core)@, "Folder picker failed: "@ + e@)
                && final(panel)@ == old(panel)@,
        },
{
    match picked {
        Ok(Some(p)) => {
            *panel = ActionPanelState::Closed;
            Some(p)
        },
        Ok(None) => {
            core.show_status("Folder selection cancelled");
            None
        },
        Err(e) => {
            let msg = joined_text("Folder picker failed: ", e.as_str());
            core.show_status(msg.as_str());
            None
        },
    }
}

/// The status after reloading the audio driver: the failure with where to go next, or the
/// output now in use.
pub fn audio_reset_status(error: Option<&str>, output_name: Option<&str>) -> (r: String)
    ensures
        r@ == match error {
            Some(e) => "Audio reset failed: "@ + e@ + ". Use / -> Audio driver settings"@,
            None => "Audio reset on "@ + (match output_name {
                Some(n) => n@,
                None => "unknown output"@,
            }) + ". Reload again if needed"@,
        },
{
    match error {
        Some(e) => {
            let mut cs = chars_of("Audio reset failed: ");
            extend_str(&mut cs, e);
            extend_str(&mut cs, ". Use / -> Audio driver settings");
            text_of(&cs)
        },
        None => {
            let mut cs = chars_of("Audio reset on ");
            match output_name {
                Some(n) => extend_str(&mut cs, n),
                None => extend_str(&mut cs, "unknown output"),
            }
            extend_str(&mut cs, ". Reload again if needed");
            text_of(&cs)
        },
    }
}

/// The status after switching the audio output: the failure with what to try, or the
/// output now in use.
pub fn output_switch_status(error: Option<&str>, output_name: Option<&str>) -> (r: String)
    ensures
        r@ == match error {
            Some(e) => "Output switch failed: "@ + e@ + ". Try Reload audio driver"@,
            None => "Output: "@ + (match output_name {
                Some(n) => n@,
                None => "unknown output"@,
            }),
        },
{
    match error {
        Some(e) => {
            let mut cs = chars_of("Output switch failed: ");
            extend_str(&mut cs, e);
            extend_str(&mut cs, ". Try Reload audio driver");
            text_of(&cs)
        },
        None => match output_name {
            Some(n) => joined_text("Output: ", n),
            None => joined_text("Output: ", "unknown output"),
        },
    }
}


// ---------------------------------------------------------------------------
// What the panel shows
// ---------------------------------------------------------------------------

/// The panel as drawn: a title, a hint line, the search text of the root menu, the rows and
/// the row under the cursor.
#[derive(Debug)]
pub struct ActionPanelView {
    pub title: String,
    pub hint: String,
    pub search_query: Option<String>,
    pub options: Vec<String>,
    pub selected: usize,
}

pub struct DisplayView {
    pub title: Seq<char>,
    pub hint: Seq<char>,
    pub search_query: Option<Seq<char>>,
    pub options: Seq<Seq<char>>,
    pub selected: usize,
}

impl View for ActionPanelView {
    type V = DisplayView;

    open spec fn view(&self) -> DisplayView {
        DisplayView {
            title: self.title@,
            hint: self.hint@,
            search_query: text_opt(self.search_query),
            options: texts(self.options@),
            selected: self.selected,
        }
    }
}

pub open spec fn or_placeholder(rows: Seq<Seq<char>>, placeholder: Seq<char>) -> Seq<Seq<char>> {
    if rows.len() == 0 {
        seq![placeholder]
    } else {
        rows
    }
}

/// The metadata editor's rows.
pub open spec fn editor_options(ed: EditorView) -> Seq<Seq<char>> {
    if ed.track is Some {
        seq![
            "Title: "@ + ed.title,
            "Artist: "@ + ed.artist,
            "Album: "@ + ed.album,
            "Save embedded tags"@,
            "Clear title/artist/album tags"@,
            "Copy now playing cover art to "@ + ed.label,
            "Back"@,
        ]
    } else {
        seq![
            (if ed.confirm {
                "Confirm: copy now playing cover art to "@
            } else {
                "Copy now playing cover art to "@
            }) + ed.label,
            "Back"@,
        ]
    }
}

/// The output rows: the system default, then each device, the chosen one marked `* `.
pub open spec fn output_options(env: EnvView) -> Seq<Seq<char>> {
    seq![
        if env.selected_output is None {
            "* System default output"@
        } else {
            "System default output"@
        },
    ] + env.outputs.map_values(
        |o: Seq<char>|
            if env.selected_output == Some(o) {
                "* "@ + o
            } else {
                o
            },
    )
}

pub open spec fn playback_options(v: CoreView, s: PanelSettings) -> Seq<Seq<char>> {
    seq![
        "Loudness normalization: "@ + on_off(v.loudness_normalization),
        "Song crossfade: "@ + crossfade_text(v.crossfade_seconds),
        "Scrub length: "@ + scrub_text(v.scrub_seconds),
        "Stats tracking: "@ + on_off(v.stats_enabled),
        "Stats top songs rows: "@ + decimal(s.stats_top_songs_count as nat),
        "Missing cover fallback: Music Note"@,
        "Online sync delay settings"@,
        "Back"@,
    ]
}

pub open spec fn delay_options(local: Option<ParticipantView>, threshold: u16) -> Seq<Seq<char>> {
    seq![
        "Manual delay -10ms"@,
        "Manual delay +10ms"@,
        "Toggle auto-ping delay"@,
        "Refresh ping calibration"@,
        "Sync correction threshold: "@ + decimal(threshold as nat) + "ms"@,
        "Back ("@ + (match local {
            Some(p) => "Manual "@ + decimal(p.manual_extra_delay_ms as nat) + "ms  Effective "@ + decimal(
                effective_delay(p) as nat,
            ) + "ms  Auto "@ + on_off(p.auto_ping_delay),
            None => "Join or host a room first"@,
        }) + ")"@,
    ]
}

pub open spec fn shown(title: Seq<char>, hint: Seq<char>, options: Seq<Seq<char>>, selected: usize) -> Option<DisplayView> {
    Some(DisplayView { title, hint, search_query: None, options, selected })
}

/// What the panel shows for `p`; nothing when it is closed.
pub open spec fn display_of(
    p: PanelView,
    v: CoreView,
    env: EnvView,
    recent: Seq<RootActionId>,
    s: PanelSettings,
    local: Option<ParticipantView>,
) -> Option<DisplayView> {
    let playlists = or_placeholder(sorted_playlists(v), "(no playlists)"@);
    match p {
        PanelView::Closed => None,
        PanelView::Root { selected, query } => Some(DisplayView {
            title: "Actions"@,
            hint: "Type search  Enter select  Esc close  Up/Down navigate"@,
            search_query: Some(query),
            options: or_placeholder(
                visible_rows(query, recent).map_values(|r: (RootActionId, bool)| row_label(r)),
                "(no matching actions)"@,
            ),
            selected,
        }),
        PanelView::Mode { selected } => shown(
            "Playback Mode"@,
            "Enter apply  Backspace back"@,
            mode_options(),
            selected,
        ),
        PanelView::PlaylistPlay { selected } => shown("Play Playlist"@, "Enter play  Backspace back"@, playlists, selected),
        PanelView::PlaylistAdd { selected } => shown("Add To Playlist"@, "Enter add  Backspace back"@, playlists, selected),
        PanelView::PlaylistAddNowPlaying { selected } => shown(
            "Add Now Playing To Playlist"@,
            "Enter add  Backspace back"@,
            playlists,
            selected,
        ),
        PanelView::PlaylistCreate { selected, input } => shown(
            "Create Playlist"@,
            "Type name + Enter  Backspace back"@,
            seq!["Name: "@ + input],
            selected,
        ),
        PanelView::PlaylistRemove { selected } => shown(
            "Remove Playlist"@,
            "Enter remove  Backspace back"@,
            playlists,
            selected,
        ),
        PanelView::AudioSettings { selected } => shown(
            "Audio Driver Settings"@,
            "Enter select  Backspace back"@,
            seq!["Reload audio driver"@, "Select output speaker"@, "Back"@],
            selected,
        ),
        PanelView::AudioOutput { selected } => shown(
            "Output Speaker"@,
            "Enter apply  Backspace back"@,
            output_options(env),
            selected,
        ),
        PanelView::PlaybackSettings { selected } => shown(
            "Playback Settings"@,
            "Enter toggle/select  Backspace back"@,
            playback_options(v, s),
            selected,
        ),
        PanelView::OnlineDelaySettings { selected } => shown(
            "Online Delay Settings"@,
            "Enter apply  Backspace back"@,
            delay_options(local, s.online_sync_correction_threshold_ms),
            selected,
        ),
        PanelView::ThemeSettings { selected } => shown(
            "Theme"@,
            "Enter apply  Backspace back"@,
            offered_themes().map_values(|t: Theme| theme_option_text(t, v.theme)),
            selected,
        ),
        PanelView::LyricsImportTxt { selected, path_input, interval_input } => shown(
            "Import TXT To Lyrics"@,
            "Type path/seconds then Enter on Import"@,
            seq![
                "TXT path: "@ + path_input,
                "Seed interval seconds: "@ + (if interval_input.len() == 0 {
                    "3"@
                } else {
                    interval_input
                }),
                "Import and save sidecar"@,
            ],
            selected,
        ),
        PanelView::MetadataEditor { selected, state } => shown(
            "Edit Metadata"@,
            "Type fields  Enter save/select  Backspace back"@,
            editor_options(state),
            selected,
        ),
        PanelView::AddDirectory { selected, input } => shown(
            "Add Directory"@,
            "Enter choose folder  Down type path"@,
            seq!["Choose folder externally"@, "Path: "@ + input],
            selected,
        ),
        PanelView::RemoveDirectory { selected } => shown(
            "Remove Directory"@,
            "Enter remove  Backspace back"@,
            or_placeholder(sorted_by_lower(v.folders).map_values(|f: Seq<char>| display_text(f)), "(no folders)"@),
            selected,
        ),
    }
}

fn list_or_placeholder(rows: Vec<String>, placeholder: &str) -> (r: Vec<String>)
    ensures
        texts(r@) == or_placeholder(texts(rows@), placeholder@),
{
    assert(texts(rows@).len() == rows@.len());
    if rows.len() == 0 {
        let mut out: Vec<String> = Vec::new();
        out.push(placeholder.to_owned());
        assert(texts(out@) =~= seq![placeholder@]);
        out
    } else {
        rows
    }
}

impl MetadataEditorState {
    /// The editor's rows: the three fields, saving and clearing the tags, the cover art copy
    /// and back; without a track, only the cover art copy (to confirm for the whole library)
    /// and back.
    pub fn options(&self) -> (r: Vec<String>)
        ensures
            texts(r@) == editor_options(self@),
    {
        let mut out: Vec<String> = Vec::new();
        if self.selected_track_path.is_some() {
            out.push(joined_text("Title: ", self.title_input.as_str()));
            out.push(joined_text("Artist: ", self.artist_input.as_str()));
            out.push(joined_text("Album: ", self.album_input.as_str()));
            out.push("Save embedded tags".to_owned());
            out.push("Clear title/artist/album tags".to_owned());
            out.push(joined_text("Copy now playing cover art to ", self.copy_target_label.as_str()));
            out.push("Back".to_owned());
        } else {
            let first = if self.confirm_all_songs_cover_copy {
                joined_text("Confirm: copy now playing cover art to ", self.copy_target_label.as_str())
            } else {
                joined_text("Copy now playing cover art to ", self.copy_target_label.as_str())
            };
            out.push(first);
            out.push("Back".to_owned());
        }
        assert(texts(out@) =~= editor_options(self@));
        out
    }
}

/// The output rows for the audio engine's devices.
pub fn audio_output_options(env: &PanelEnv) -> (r: Vec<String>)
    ensures
        texts(r@) == output_options(env@),
{
    let ghost ev = env@;
    let mut out: Vec<String> = Vec::new();
    if env.selected_output.is_none() {
        out.push("* System default output".to_owned());
    } else {
        out.push("System default output".to_owned());
    }
    let ghost head = texts(out@);
    let mut i: usize = 0;
    while i < env.audio_outputs.len()
        invariant
            i <= env.audio_outputs.len(),
            ev == env@,
            ev.outputs.len() == env.audio_outputs@.len(),
            head.len() == 1,
            texts(out@) == head + output_options(ev).skip(1).take(i as int),
            output_options(ev) == head + ev.outputs.map_values(
                |o: Seq<char>|
                    if ev.selected_output == Some(o) {
                        "* "@ + o
                    } else {
                        o
                    },
            ),
        decreases env.audio_outputs.len() - i,
    {
        let o = &env.audio_outputs[i];
        assert(ev.outputs[i as int] == o@);
        let marked = match &env.selected_output {
            Some(sel) => crate::text::str_eq(sel.as_str(), o.as_str()),
            None => false,
        };
        let row = if marked {
            joined_text("* ", o.as_str())
        } else {
            o.clone()
        };
        let ghost before = out@;
        out.push(row);
        assert(out@ == before.push(row));
        assert(texts(out@) =~= texts(before).push(row@));
        assert(output_options(ev).skip(1)[i as int] == row@);
        assert(output_options(ev).skip(1).take(i + 1) =~= output_options(ev).skip(1).take(i as int).push(row@));
        i += 1;
    }
    assert(output_options(ev) =~= head + output_options(ev).skip(1).take(i as int));
    out
}

fn theme_rows(theme: Theme) -> (r: Vec<String>)
    ensures
        texts(r@) == offered_themes().map_values(|t: Theme| theme_option_text(t, theme)),
{
    let r = crate::panel::theme_options(theme);
    assert(texts(r@) =~= offered_themes().map_values(|t: Theme| theme_option_text(t, theme)));
    r
}

fn folder_rows(core: &TuneCore) -> (r: Vec<String>)
    ensures
        texts(r@) == sorted_by_lower(core@.folders).map_values(|f: Seq<char>| display_text(f)),
{
    let folders = core.folder_list();
    let sorted = sort_by_lowercase(&folders);
    let ghost sv = texts(sorted@);
    assert(sv.len() == sorted@.len());
    let mut out: Vec<String> = Vec::new();
    let mut i: usize = 0;
    while i < sorted.len()
        invariant
            i <= sorted.len(),
            sv == texts(sorted@),
            sv.len() == sorted@.len(),
            texts(out@) == sv.map_values(|f: Seq<char>| display_text(f)).take(i as int),
        decreases sorted.len() - i,
    {
        let ghost before = out@;
        let row = sanitize_display_text(sorted[i].as_str());
        assert(sv[i as int] == sorted@[i as int]@);
        out.push(row);
        assert(out@ == before.push(row));
        assert(texts(out@) =~= texts(before).push(row@));
        assert(texts(out@) =~= sv.map_values(|f: Seq<char>| display_text(f)).take(i + 1));
        i += 1;
    }
    assert(sv.map_values(|f: Seq<char>| display_text(f)).take(i as int) =~= sv.map_values(|f: Seq<char>| display_text(f)));
    out
}

fn root_rows(query: &str, recent: &Vec<RootActionId>) -> (r: Vec<String>)
    ensures
        texts(r@) == visible_rows(query@, recent@).map_values(|row: (RootActionId, bool)| row_label(row)),
{
    let visible = root_visible_actions(query, recent.as_slice());
    let ghost rows = visible_rows(query@, recent@);
    let mut out: Vec<String> = Vec::new();
    let mut i: usize = 0;
    while i < visible.len()
        invariant
            i <= visible.len(),
            rows == visible_rows(query@, recent@),
            crate::panel::rows_match(visible@, rows),
            texts(out@) == rows.map_values(|row: (RootActionId, bool)| row_label(row)).take(i as int),
        decreases visible.len() - i,
    {
        let ghost before = out@;
        let label = visible[i].label.clone();
        assert(label@ == row_label(rows[i as int]));
        out.push(label);
        assert(out@ == before.push(label));
        assert(texts(out@) =~= texts(before).push(label@));
        assert(texts(out@) =~= rows.map_values(|row: (RootActionId, bool)| row_label(row)).take(i + 1));
        i += 1;
    }
    assert(rows.map_values(|row: (RootActionId, bool)| row_label(row)).take(i as int) =~= rows.map_values(
        |row: (RootActionId, bool)| row_label(row),
    ));
    out
}

fn panel_view_of(title: &str, hint: &str, options: Vec<String>, selected: usize) -> (r: Option<ActionPanelView>)
    ensures
        r matches Some(d) && d@ == (DisplayView {
            title: title@,
            hint: hint@,
            search_query: None,
            options: texts(options@),
            selected,
        }),
{
    Some(ActionPanelView { title: title.to_owned(), hint: hint.to_owned(), search_query: None, options, selected })
}

fn fixed_rows(a: &str, b: &str, c: &str, d: Option<&str>) -> (r: Vec<String>)
    ensures
        texts(r@) == match d {
            Some(x) => seq![a@, b@, c@, x@],
            None => seq![a@, b@, c@],
        },
{
    let mut out: Vec<String> = Vec::new();
    out.push(a.to_owned());
    out.push(b.to_owned());
    out.push(c.to_owned());
    match d {
        Some(x) => out.push(x.to_owned()),
        None => {},
    }
    assert(texts(out@) =~= match d {
        Some(x) => seq![a@, b@, c@, x@],
        None => seq![a@, b@, c@],
    });
    out
}

impl ActionPanelState {
    /// What the panel shows; `local` is the local participant of the room, if any.
    pub fn to_view(
        &self,
        core: &TuneCore,
        env: &PanelEnv,
        recent: &Vec<RootActionId>,
        settings: &PanelSettings,
        local: Option<&crate::online::Participant>,
    ) -> (r: Option<ActionPanelView>)
        ensures
            match display_of(self@, core@, env@, recent@, *settings, match local {
                Some(p) => Some(p@),
                None => None,
            }) {
                Some(d) => r matches Some(x) && x@ == d,
                None => r is None,
            },
    {
        match self {
            ActionPanelState::Closed => None,
            ActionPanelState::Root { selected, query } => {
                let rows = list_or_placeholder(root_rows(query.as_str(), recent), "(no matching actions)");
                Some(
                    ActionPanelView {
                        title: "Actions".to_owned(),
                        hint: "Type search  Enter select  Esc close  Up/Down navigate".to_owned(),
                        search_query: Some(query.clone()),
                        options: rows,
                        selected: *selected,
                    },
                )
            },
            ActionPanelState::Mode { selected } => panel_view_of(
                "Playback Mode",
                "Enter apply  Backspace back",
                fixed_rows("Normal", "Shuffle", "Loop playlist", Some("Loop single track")),
                *selected,
            ),
            ActionPanelState::PlaylistPlay { selected } => panel_view_of(
                "Play Playlist",
                "Enter play  Backspace back",
                list_or_placeholder(sorted_playlist_names(core), "(no playlists)"),
                *selected,
            ),
            ActionPanelState::PlaylistAdd { selected } => panel_view_of(
                "Add To Playlist",
                "Enter add  Backspace back",
                list_or_placeholder(sorted_playlist_names(core), "(no playlists)"),
                *selected,
            ),
            ActionPanelState::PlaylistAddNowPlaying { selected } => panel_view_of(
                "Add Now Playing To Playlist",
                "Enter add  Backspace back",
                list_or_placeholder(sorted_playlist_names(core), "(no playlists)"),
                *selected,
            ),
            ActionPanelState::PlaylistCreate { selected, input } => {
                let mut rows: Vec<String> = Vec::new();
                rows.push(joined_text("Name: ", input.as_str()));
                assert(texts(rows@) =~= seq!["Name: "@ + input@]);
                panel_view_of("Create Playlist", "Type name + Enter  Backspace back", rows, *selected)
            },
            ActionPanelState::PlaylistRemove { selected } => panel_view_of(
                "Remove Playlist",
                "Enter remove  Backspace back",
                list_or_placeholder(sorted_playlist_names(core), "(no playlists)"),
                *selected,
            ),
            ActionPanelState::AudioSettings { selected } => panel_view_of(
                "Audio Driver Settings",
                "Enter select  Backspace back",
                fixed_rows("Reload audio driver", "Select output speaker", "Back", None),
                *selected,
            ),
            ActionPanelState::AudioOutput { selected } => panel_view_of(
                "Output Speaker",
                "Enter apply  Backspace back",
                audio_output_options(env),
                *selected,
            ),
            ActionPanelState::PlaybackSettings { selected } => {
                let rows = crate::playback::playback_settings_options(
                    core.loudness_normalization(),
                    core.crossfade_seconds(),
                    core.scrub_seconds(),
                    core.stats_enabled(),
                    settings.stats_top_songs_count,
                    settings.fallback_cover_template,
                );
                assert(texts(rows@) =~= playback_options(core@, *settings));
                panel_view_of("Playback Settings", "Enter toggle/select  Backspace back", rows, *selected)
            },
            ActionPanelState::OnlineDelaySettings { selected } => {
                let rows = crate::playback::online_delay_settings_options(
                    local,
                    settings.online_sync_correction_threshold_ms,
                );
                assert(texts(rows@) =~= delay_options(
                    match local {
                        Some(p) => Some(p@),
                        None => None,
                    },
                    settings.online_sync_correction_threshold_ms,
                ));
                panel_view_of("Online Delay Settings", "Enter apply  Backspace back", rows, *selected)
            },
            ActionPanelState::ThemeSettings { selected } => panel_view_of(
                "Theme",
                "Enter apply  Backspace back",
                theme_rows(core.theme()),
                *selected,
            ),
            ActionPanelState::LyricsImportTxt { selected, path_input, interval_input } => {
                let interval = if interval_input.as_str().unicode_len() == 0 {
                    "Seed interval seconds: 3".to_owned()
                } else {
                    joined_text("Seed interval seconds: ", interval_input.as_str())
                };
                proof {
                    reveal_strlit("Seed interval seconds: 3");
                    reveal_strlit("Seed interval seconds: ");
                    reveal_strlit("3");
                }
                let rows = fixed_rows(
                    joined_text("TXT path: ", path_input.as_str()).as_str(),
                    interval.as_str(),
                    "Import and save sidecar",
                    None,
                );
                assert(interval@ =~= "Seed interval seconds: "@ + (if interval_input@.len() == 0 {
                    "3"@
                } else {
                    interval_input@
                }));
                panel_view_of("Import TXT To Lyrics", "Type path/seconds then Enter on Import", rows, *selected)
            },
            ActionPanelState::MetadataEditor { selected, state } => panel_view_of(
                "Edit Metadata",
                "Type fields  Enter save/select  Backspace back",
                state.options(),
                *selected,
            ),
            ActionPanelState::AddDirectory { selected, input } => {
                let mut rows: Vec<String> = Vec::new();
                rows.push("Choose folder externally".to_owned());
                rows.push(joined_text("Path: ", input.as_str()));
                assert(texts(rows@) =~= seq!["Choose folder externally"@, "Path: "@ + input@]);
                panel_view_of("Add Directory", "Enter choose folder  Down type path", rows, *selected)
            },
            ActionPanelState::RemoveDirectory { selected } => panel_view_of(
                "Remove Directory",
                "Enter remove  Backspace back",
                list_or_placeholder(folder_rows(core), "(no folders)"),
                *selected,
            ),
        }
    }
}


// ---------------------------------------------------------------------------
// Laws of the panel
// ---------------------------------------------------------------------------

/// Esc closes the panel from every state; the library only redraws and the recent actions
/// and settings stay.
pub proof fn escape_closes_panel(w: PanelWorld, env: EnvView, after: PanelWorld, e: EffectView)
    requires
        key_step(w, env, PanelKey::Esc, after, e),
    ensures
        after.panel == PanelView::Closed,
        after.core == dirtied(w.core),
        after.recent == w.recent,
        after.settings == w.settings,
        e == EffectView::Nothing,
{
}

proof fn lemma_with_selected(p: PanelView, a: usize, b: usize)
    ensures
        !(p is Closed) ==> selected_of(with_selected(p, a)) == a,
        with_selected(with_selected(p, a), b) == with_selected(p, b),
        with_selected(p, selected_of(p)) == p,
{
    match p {
        PanelView::Closed => {},
        PanelView::Root { .. } => {},
        PanelView::Mode { .. } => {},
        PanelView::PlaylistPlay { .. } => {},
        PanelView::PlaylistAdd { .. } => {},
        PanelView::PlaylistAddNowPlaying { .. } => {},
        PanelView::PlaylistCreate { .. } => {},
        PanelView::PlaylistRemove { .. } => {},
        PanelView::AudioSettings { .. } => {},
        PanelView::AudioOutput { .. } => {},
        PanelView::PlaybackSettings { .. } => {},
        PanelView::OnlineDelaySettings { .. } => {},
        PanelView::ThemeSettings { .. } => {},
        PanelView::LyricsImportTxt { .. } => {},
        PanelView::MetadataEditor { .. } => {},
        PanelView::AddDirectory { .. } => {},
        PanelView::RemoveDirectory { .. } => {},
    }
}

/// Moving the cursor down and then up puts it back on its row.
pub proof fn down_then_up_restores_cursor(p: PanelView, count: nat)
    requires
        !(p is Closed),
        (selected_of(p) as nat) < count <= usize::MAX,
    ensures
        moved(moved(p, count, true), count, false) == p,
{
    let s = selected_of(p) as int;
    let down = ((s + 1) % (count as int)) as usize;
    lemma_with_selected(p, down, s as usize);
    if s + 1 < count {
        vstd::arithmetic::div_mod::lemma_small_mod((s + 1) as nat, count);
        assert(down == s + 1);
    } else {
        vstd::arithmetic::div_mod::lemma_mod_self_0(count as int);
        assert(down == 0);
    }
    let q = moved(p, count, true);
    assert(q == with_selected(p, down));
    assert(selected_of(q) == down);
    let back: usize = if down == 0 {
        (count - 1) as usize
    } else {
        (down - 1) as usize
    };
    assert(back == s);
    assert(moved(q, count, false) == with_selected(q, back));
}

/// Typing a character into a field and then Backspace leave the field as it was.
pub proof fn typing_then_backspace_restores_field(text: Seq<char>, c: char, digits_only: bool)
    requires
        !digits_only || is_ascii_digit(c),
    ensures
        edited(text, PanelKey::Char(c), digits_only) == Some(text.push(c)),
        edited(text.push(c), PanelKey::Backspace, digits_only) == Some(text),
{
    assert(text.push(c).drop_last() =~= text);
}

} // verus!

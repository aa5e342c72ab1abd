use crate::config::{join_path, joined};
use crate::model::{CoverArtTemplate, Theme};
use crate::online::{OnlineSession, ParticipantView, EnvelopeView};

use crate::text::{
    ascii_upper, chars_of, char_is_control, contains_chars, contains_str, eq_ignore_ascii_case,
    eq_ignore_case, extend_str, has_substring, is_control_char, lower_chars, lower_seq,
    push_decimal, decimal, str_eq, string_from_chars, string_push, to_upper, trim, trimmed,
};
use vstd::prelude::*;

verus! {

// ---------------------------------------------------------------------------
// The action panel's root menu
// ---------------------------------------------------------------------------

#[derive(Debug, Clone, Copy, PartialEq, Eq, Structural)]
pub enum RootActionId {
    AddDirectory,
    AddSelectedToPlaylist,
    AddNowPlayingToPlaylist,
    SetPlaybackMode,
    PlaybackSettings,
    PlayPlaylist,
    RemoveSelectedFromPlaylist,
    CreatePlaylist,
    RemovePlaylist,
    RemoveDirectory,
    RescanLibrary,
    AudioDriverSettings,
    Theme,
    SaveState,
    ClearListenHistory,
    MetadataEditor,
    MinimizeToTray,
    ImportTxtToLyrics,
    ClosePanel,
}

pub const ROOT_ACTION_COUNT: usize = 19;

/// The place of each action in the root menu.
pub open spec fn action_index(a: RootActionId) -> nat {
    match a {
        RootActionId::AddDirectory => 0,
        RootActionId::AddSelectedToPlaylist => 1,
        RootActionId::AddNowPlayingToPlaylist => 2,
        RootActionId::SetPlaybackMode => 3,
        RootActionId::PlaybackSettings => 4,
        RootActionId::PlayPlaylist => 5,
        RootActionId::RemoveSelectedFromPlaylist => 6,
        RootActionId::CreatePlaylist => 7,
        RootActionId::RemovePlaylist => 8,
        RootActionId::RemoveDirectory => 9,
        RootActionId::RescanLibrary => 10,
        RootActionId::AudioDriverSettings => 11,
        RootActionId::Theme => 12,
        RootActionId::SaveState => 13,
        RootActionId::ClearListenHistory => 14,
        RootActionId::MetadataEditor => 15,
        RootActionId::MinimizeToTray => 16,
        RootActionId::ImportTxtToLyrics => 17,
        RootActionId::ClosePanel => 18,
    }
}

/// The action at place `i` of the root menu.
pub open spec fn action_at(i: nat) -> RootActionId {
    if i == 0 {
        RootActionId::AddDirectory
    } else if i == 1 {
        RootActionId::AddSelectedToPlaylist
    } else if i == 2 {
        RootActionId::AddNowPlayingToPlaylist
    } else if i == 3 {
        RootActionId::SetPlaybackMode
    } else if i == 4 {
        RootActionId::PlaybackSettings
    } else if i == 5 {
        RootActionId::PlayPlaylist
    } else if i == 6 {
        RootActionId::RemoveSelectedFromPlaylist
    } else if i == 7 {
        RootActionId::CreatePlaylist
    } else if i == 8 {
        RootActionId::RemovePlaylist
    } else if i == 9 {
        RootActionId::RemoveDirectory
    } else if i == 10 {
        RootActionId::RescanLibrary
    } else if i == 11 {
        RootActionId::AudioDriverSettings
    } else if i == 12 {
        RootActionId::Theme
    } else if i == 13 {
        RootActionId::SaveState
    } else if i == 14 {
        RootActionId::ClearListenHistory
    } else if i == 15 {
        RootActionId::MetadataEditor
    } else if i == 16 {
        RootActionId::MinimizeToTray
    } else if i == 17 {
        RootActionId::ImportTxtToLyrics
    } else {
        RootActionId::ClosePanel
    }
}

/// The menu lists every action exactly once: place and action determine each other.
pub proof fn root_menu_order_is_a_bijection(a: RootActionId, i: nat)
    requires
        i < ROOT_ACTION_COUNT,
    ensures
        action_index(a) < ROOT_ACTION_COUNT,
        action_at(action_index(a)) == a,
        action_index(action_at(i)) == i,
{
}

pub fn root_action_at(i: usize) -> (r: RootActionId)
    requires
        i < ROOT_ACTION_COUNT,
    ensures
        r == action_at(i as nat),
{
    match i {
        0 => RootActionId::AddDirectory,
        1 => RootActionId::AddSelectedToPlaylist,
        2 => RootActionId::AddNowPlayingToPlaylist,
        3 => RootActionId::SetPlaybackMode,
        4 => RootActionId::PlaybackSettings,
        5 => RootActionId::PlayPlaylist,
        6 => RootActionId::RemoveSelectedFromPlaylist,
        7 => RootActionId::CreatePlaylist,
        8 => RootActionId::RemovePlaylist,
        9 => RootActionId::RemoveDirectory,
        10 => RootActionId::RescanLibrary,
        11 => RootActionId::AudioDriverSettings,
        12 => RootActionId::Theme,
        13 => RootActionId::SaveState,
        14 => RootActionId::ClearListenHistory,
        15 => RootActionId::MetadataEditor,
        16 => RootActionId::MinimizeToTray,
        17 => RootActionId::ImportTxtToLyrics,
        _ => RootActionId::ClosePanel,
    }
}

pub fn root_action_index(action: RootActionId) -> (r: usize)
    ensures
        r == action_index(action),
{
    match action {
        RootActionId::AddDirectory => 0,
        RootActionId::AddSelectedToPlaylist => 1,
        RootActionId::AddNowPlayingToPlaylist => 2,
        RootActionId::SetPlaybackMode => 3,
        RootActionId::PlaybackSettings => 4,
        RootActionId::PlayPlaylist => 5,
        RootActionId::RemoveSelectedFromPlaylist => 6,
        RootActionId::CreatePlaylist => 7,
        RootActionId::RemovePlaylist => 8,
        RootActionId::RemoveDirectory => 9,
        RootActionId::RescanLibrary => 10,
        RootActionId::AudioDriverSettings => 11,
        RootActionId::Theme => 12,
        RootActionId::SaveState => 13,
        RootActionId::ClearListenHistory => 14,
        RootActionId::MetadataEditor => 15,
        RootActionId::MinimizeToTray => 16,
        RootActionId::ImportTxtToLyrics => 17,
        RootActionId::ClosePanel => 18,
    }
}

pub open spec fn action_label(a: RootActionId) -> Seq<char> {
    match a {
        RootActionId::AddDirectory => "Add directory"@,
        RootActionId::AddSelectedToPlaylist => "Add selected item to playlist"@,
        RootActionId::AddNowPlayingToPlaylist => "Add now playing song to playlist"@,
        RootActionId::SetPlaybackMode => "Set playback mode"@,
        RootActionId::PlaybackSettings => "Playback settings"@,
        RootActionId::PlayPlaylist => "Play playlist"@,
        RootActionId::RemoveSelectedFromPlaylist => "Remove selected from playlist"@,
        RootActionId::CreatePlaylist => "Create playlist"@,
        RootActionId::RemovePlaylist => "Remove playlist"@,
        RootActionId::RemoveDirectory => "Remove directory"@,
        RootActionId::RescanLibrary => "Rescan library"@,
        RootActionId::AudioDriverSettings => "Audio driver settings"@,
        RootActionId::Theme => "Theme"@,
        RootActionId::SaveState => "Save state"@,
        RootActionId::ClearListenHistory => "Clear listen history (backup)"@,
        RootActionId::MetadataEditor => "Edit selected track metadata"@,
        RootActionId::MinimizeToTray => "Minimize to tray"@,
        RootActionId::ImportTxtToLyrics => "Import TXT to lyrics"@,
        RootActionId::ClosePanel => "Close panel"@,
    }
}

pub fn root_action_label(action: RootActionId) -> (r: &'static str)
    ensures
        r@ == action_label(action),
{
    match action {
        RootActionId::AddDirectory => "Add directory",
        RootActionId::AddSelectedToPlaylist => "Add selected item to playlist",
        RootActionId::AddNowPlayingToPlaylist => "Add now playing song to playlist",
        RootActionId::SetPlaybackMode => "Set playback mode",
        RootActionId::PlaybackSettings => "Playback settings",
        RootActionId::PlayPlaylist => "Play playlist",
        RootActionId::RemoveSelectedFromPlaylist => "Remove selected from playlist",
        RootActionId::CreatePlaylist => "Create playlist",
        RootActionId::RemovePlaylist => "Remove playlist",
        RootActionId::RemoveDirectory => "Remove directory",
        RootActionId::RescanLibrary => "Rescan library",
        RootActionId::AudioDriverSettings => "Audio driver settings",
        RootActionId::Theme => "Theme",
        RootActionId::SaveState => "Save state",
        RootActionId::ClearListenHistory => "Clear listen history (backup)",
        RootActionId::MetadataEditor => "Edit selected track metadata",
        RootActionId::MinimizeToTray => "Minimize to tray",
        RootActionId::ImportTxtToLyrics => "Import TXT to lyrics",
        RootActionId::ClosePanel => "Close panel",
    }
}

/// An action matches a lower-case query when the query is empty or occurs in its lower-case
/// label.
pub open spec fn action_matches(a: RootActionId, query_lower: Seq<char>) -> bool {
    query_lower.len() == 0 || has_substring(lower_seq(action_label(a)), query_lower)
}

pub fn root_action_matches_query(action: RootActionId, query_lower: &str) -> (r: bool)
    ensures
        r == action_matches(action, query_lower@),
{
    let q = chars_of(query_lower);
    if q.len() == 0 {
        return true;
    }
    let label = chars_of(root_action_label(action));
    let lower = lower_chars(label.as_slice());
    contains_chars(lower.as_slice(), q.as_slice())
}

/// A row of the root menu.
#[derive(Debug)]
pub struct RootVisibleAction {
    pub action: RootActionId,
    pub label: String,
}

/// A candidate row: the action and whether it comes from the recent list.
pub open spec fn candidates(recent: Seq<RootActionId>) -> Seq<(RootActionId, bool)> {
    recent.map_values(|a: RootActionId| (a, true)) + Seq::new(
        ROOT_ACTION_COUNT as nat,
        |i: int| (action_at(i as nat), false),
    )
}

pub open spec fn actions_of(rows: Seq<(RootActionId, bool)>) -> Seq<RootActionId> {
    rows.map_values(|r: (RootActionId, bool)| r.0)
}

/// The candidates that match the query, each action kept at its first place only.
pub open spec fn keep_first(cands: Seq<(RootActionId, bool)>, query_lower: Seq<char>) -> Seq<
    (RootActionId, bool),
>
    decreases cands.len(),
{
    if cands.len() == 0 {
        seq![]
    } else {
        let prev = keep_first(cands.drop_last(), query_lower);
        let c = cands.last();
        if action_matches(c.0, query_lower) && !actions_of(prev).contains(c.0) {
            prev.push(c)
        } else {
            prev
        }
    }
}

pub open spec fn row_label(row: (RootActionId, bool)) -> Seq<char> {
    if row.1 {
        "Recent: "@ + action_label(row.0)
    } else {
        action_label(row.0)
    }
}

pub open spec fn visible_rows(query: Seq<char>, recent: Seq<RootActionId>) -> Seq<(RootActionId, bool)> {
    keep_first(candidates(recent), lower_seq(trim(query)))
}

pub open spec fn rows_match(out: Seq<RootVisibleAction>, rows: Seq<(RootActionId, bool)>) -> bool {
    &&& out.len() == rows.len()
    &&& forall|k: int|
        0 <= k < out.len() ==> (#[trigger] out[k]).action == rows[k].0 && out[k].label@ == row_label(
            rows[k],
        )
}

fn visible_contains(out: &Vec<RootVisibleAction>, action: RootActionId) -> (r: bool)
    ensures
        r == exists|k: int| 0 <= k < out@.len() && (#[trigger] out@[k]).action == action,
{
    let mut i: usize = 0;
    while i < out.len()
        invariant
            i <= out.len(),
            forall|k: int| 0 <= k < i ==> (#[trigger] out@[k]).action != action,
        decreases out.len() - i,
    {
        if out[i].action == action {
            return true;
        }
        i += 1;
    }
    false
}

proof fn lemma_actions_of_contains(out: Seq<RootVisibleAction>, rows: Seq<(RootActionId, bool)>, a: RootActionId)
    requires
        rows_match(out, rows),
    ensures
        actions_of(rows).contains(a) == exists|k: int| 0 <= k < out.len() && (#[trigger] out[k]).action == a,
{
    if actions_of(rows).contains(a) {
        let k = choose|k: int| 0 <= k < actions_of(rows).len() && actions_of(rows)[k] == a;
        assert(out[k].action == a);
    }
    if exists|k: int| 0 <= k < out.len() && (#[trigger] out[k]).action == a {
        let k = choose|k: int| 0 <= k < out.len() && (#[trigger] out[k]).action == a;
        assert(actions_of(rows)[k] == a);
    }
}

/// Adds the candidate row to the visible rows when it matches and is not listed yet.
fn offer_row(out: &mut Vec<RootVisibleAction>, action: RootActionId, recent: bool, query_lower: &str, Ghost(
    rows,
): Ghost<Seq<(RootActionId, bool)>>) -> (new_rows: Ghost<Seq<(RootActionId, bool)>>)
    requires
        rows_match(old(out)@, rows),
    ensures
        new_rows@ == (if action_matches(action, query_lower@) && !actions_of(rows).contains(action) {
            rows.push((action, recent))
        } else {
            rows
        }),
        rows_match(final(out)@, new_rows@),
{
    proof {
        lemma_actions_of_contains(out@, rows, action);
    }
    if visible_contains(out, action) || !root_action_matches_query(action, query_lower) {
        return Ghost(rows);
    }
    let label = root_action_label(action);
    let text = if recent {
        let mut cs = chars_of("Recent: ");
        extend_str(&mut cs, label);
        string_from_chars(cs.as_slice())
    } else {
        label.to_owned()
    };
    let ghost before = out@;
    out.push(RootVisibleAction { action, label: text });
    let ghost next = rows.push((action, recent));
    assert forall|k: int| 0 <= k < out@.len() implies (#[trigger] out@[k]).action == next[k].0
        && out@[k].label@ == row_label(next[k]) by {
        if k < before.len() {
            assert(out@[k] == before[k]);
        }
    }
    Ghost(next)
}

/// The root menu for a search query: recently used actions first (labelled as recent),
/// then the menu in its order, each matching action once.
pub fn root_visible_actions(query: &str, recent_root_actions: &[RootActionId]) -> (out: Vec<RootVisibleAction>)
    ensures
        rows_match(out@, visible_rows(query@, recent_root_actions@)),
{
    let t = trimmed(query);
    let lower = lower_chars(t.as_slice());
    let q = string_from_chars(lower.as_slice());
    let ghost cands = candidates(recent_root_actions@);
    let ghost ql = lower_seq(trim(query@));
    let mut out: Vec<RootVisibleAction> = Vec::new();
    let ghost mut rows: Seq<(RootActionId, bool)> = seq![];
    let mut i: usize = 0;
    let n = recent_root_actions.len();
    while i < n
        invariant
            n == recent_root_actions.len(),
            i <= n,
            q@ == ql,
            cands == candidates(recent_root_actions@),
            rows == keep_first(cands.take(i as int), ql),
            rows_match(out@, rows),
        decreases n - i,
    {
        assert(cands.take(i + 1).drop_last() =~= cands.take(i as int));
        assert(cands[i as int] == (recent_root_actions@[i as int], true));
        let Ghost(r) = offer_row(&mut out, recent_root_actions[i], true, q.as_str(), Ghost(rows));
        proof {
            rows = r;
        }
        i += 1;
    }
    let mut j: usize = 0;
    while j < ROOT_ACTION_COUNT
        invariant
            n == recent_root_actions.len(),
            j <= ROOT_ACTION_COUNT,
            q@ == ql,
            cands == candidates(recent_root_actions@),
            rows == keep_first(cands.take(n + j), ql),
            rows_match(out@, rows),
        decreases ROOT_ACTION_COUNT - j,
    {
        assert(cands.take(n + j + 1).drop_last() =~= cands.take(n + j));
        assert(cands[n + j] == (action_at(j as nat), false));
        let action = root_action_at(j);
        let Ghost(r) = offer_row(&mut out, action, false, q.as_str(), Ghost(rows));
        proof {
            rows = r;
        }
        j += 1;
    }
    assert(cands.take(n + ROOT_ACTION_COUNT) =~= cands);
    out
}

/// Rows kept by `keep_first` never repeat an action.
proof fn lemma_keep_first_distinct(cands: Seq<(RootActionId, bool)>, q: Seq<char>)
    ensures
        forall|i: int, j: int|
            0 <= i < j < keep_first(cands, q).len() ==> (#[trigger] keep_first(cands, q)[i]).0
                != (#[trigger] keep_first(cands, q)[j]).0,
    decreases cands.len(),
{
    if cands.len() > 0 {
        let prev = keep_first(cands.drop_last(), q);
        lemma_keep_first_distinct(cands.drop_last(), q);
        let c = cands.last();
        if action_matches(c.0, q) && !actions_of(prev).contains(c.0) {
            let cur = prev.push(c);
            assert forall|i: int, j: int| 0 <= i < j < cur.len() implies (#[trigger] cur[i]).0
                != (#[trigger] cur[j]).0 by {
                if j == prev.len() {
                    if cur[i].0 == c.0 {
                        assert(actions_of(prev)[i] == c.0);
                    }
                } else {
                    assert(cur[i] == prev[i]);
                    assert(cur[j] == prev[j]);
                }
            }
        }
    }
}

/// The root menu never lists an action twice, whatever the query and the recent list.
pub proof fn root_menu_has_no_duplicates(query: Seq<char>, recent: Seq<RootActionId>)
    ensures
        forall|i: int, j: int|
            0 <= i < j < visible_rows(query, recent).len() ==> (#[trigger] visible_rows(
                query,
                recent,
            )[i]).0 != (#[trigger] visible_rows(query, recent)[j]).0,
{
    lemma_keep_first_distinct(candidates(recent), lower_seq(trim(query)));
}

/// The row the cursor starts on for an action: its place in the unfiltered menu, or the
/// first row.
pub fn root_selected_for_action(action: RootActionId, recent_root_actions: &[RootActionId]) -> (r: usize)
    ensures
        ({
            let rows = visible_rows(""@, recent_root_actions@);
            ||| (r < rows.len() && rows[r as int].0 == action && forall|k: int|
                0 <= k < r ==> (#[trigger] rows[k]).0 != action)
            ||| (r == 0 && forall|k: int| 0 <= k < rows.len() ==> (#[trigger] rows[k]).0 != action)
        }),
{
    let visible = root_visible_actions("", recent_root_actions);
    let ghost rows = visible_rows(""@, recent_root_actions@);
    let mut i: usize = 0;
    while i < visible.len()
        invariant
            i <= visible.len(),
            rows == visible_rows(""@, recent_root_actions@),
            rows_match(visible@, rows),
            forall|k: int| 0 <= k < i ==> (#[trigger] rows[k]).0 != action,
        decreases visible.len() - i,
    {
        assert(visible@[i as int].action == rows[i as int].0);
        if visible[i].action == action {
            return i;
        }
        i += 1;
    }
    0
}

// ---------------------------------------------------------------------------
// Recently used actions
// ---------------------------------------------------------------------------

pub const MAX_RECENT_ROOT_ACTIONS: usize = 3;

pub open spec fn is_first_of(s: Seq<RootActionId>, a: RootActionId, i: int) -> bool {
    &&& 0 <= i < s.len()
    &&& s[i] == a
    &&& forall|j: int| 0 <= j < i ==> s[j] != a
}

/// The recent list after using `action`: it moves to the front (its earlier place, if any,
/// is dropped) and only the three newest are kept; closing the panel is not recorded.
pub open spec fn recent_after(recent: Seq<RootActionId>, action: RootActionId) -> Seq<RootActionId> {
    if action == RootActionId::ClosePanel {
        recent
    } else {
        let without = if exists|i: int| is_first_of(recent, action, i) {
            recent.remove(choose|i: int| is_first_of(recent, action, i))
        } else {
            recent
        };
        let front = seq![action] + without;
        if front.len() > MAX_RECENT_ROOT_ACTIONS {
            front.take(MAX_RECENT_ROOT_ACTIONS as int)
        } else {
            front
        }
    }
}

pub fn update_recent_root_actions(recent_root_actions: &mut Vec<RootActionId>, action: RootActionId)
    ensures
        final(recent_root_actions)@ == recent_after(old(recent_root_actions)@, action),
{
    if action == RootActionId::ClosePanel {
        return ;
    }
    let ghost before = recent_root_actions@;
    let mut i: usize = 0;
    let mut found: Option<usize> = None;
    while i < recent_root_actions.len() && found.is_none()
        invariant
            i <= recent_root_actions.len(),
            recent_root_actions@ == before,
            found matches Some(k) ==> is_first_of(before, action, k as int),
            found is None ==> forall|j: int| 0 <= j < i ==> before[j] != action,
        decreases recent_root_actions.len() - i,
    {
        if recent_root_actions[i] == action {
            found = Some(i);
        }
        i += 1;
    }
    match found {
        Some(k) => {
            proof {
                let c = choose|c: int| is_first_of(before, action, c);
                if c < k {
                    assert(before[c] != action);
                }
                if k < c {
                    assert(before[k as int] != action);
                }
            }
            recent_root_actions.remove(k);
        },
        None => {},
    }
    let ghost without = recent_root_actions@;
    recent_root_actions.insert(0, action);
    assert(recent_root_actions@ =~= seq![action] + without);
    recent_root_actions.truncate(MAX_RECENT_ROOT_ACTIONS);
    proof {
        if !exists|k: int| is_first_of(before, action, k) {
            assert(without == before);
        }
    }
}

/// The recent list stays short, starts with the action just used, and never holds an action
/// twice when it did not before.
pub proof fn recent_actions_stay_unique_and_capped(recent: Seq<RootActionId>, action: RootActionId)
    requires
        action != RootActionId::ClosePanel,
        forall|i: int, j: int| 0 <= i < j < recent.len() ==> recent[i] != recent[j],
    ensures
        recent_after(recent, action).len() <= MAX_RECENT_ROOT_ACTIONS,
        recent_after(recent, action)[0] == action,
        forall|i: int, j: int|
            0 <= i < j < recent_after(recent, action).len() ==> recent_after(recent, action)[i]
                != recent_after(recent, action)[j],
{
    let without = if exists|i: int| is_first_of(recent, action, i) {
        recent.remove(choose|i: int| is_first_of(recent, action, i))
    } else {
        recent
    };
    assert forall|i: int| 0 <= i < without.len() implies without[i] != action by {
        if exists|k: int| is_first_of(recent, action, k) {
            let k = choose|k: int| is_first_of(recent, action, k);
            if i < k {
                assert(without[i] == recent[i]);
            } else {
                assert(without[i] == recent[i + 1]);
                assert(recent[k] != recent[i + 1]);
            }
        } else {
            if recent[i] == action {
                assert(is_first_of(recent, action, 0) || exists|k: int| is_first_of(recent, action, k)) by {
                    lemma_some_first(recent, action, i);
                }
            }
        }
    }
    assert forall|i: int, j: int| 0 <= i < j < without.len() implies without[i] != without[j] by {
        if exists|k: int| is_first_of(recent, action, k) {
            let k = choose|k: int| is_first_of(recent, action, k);
            let ii = if i < k { i } else { i + 1 };
            let jj = if j < k { j } else { j + 1 };
            assert(without[i] == recent[ii]);
            assert(without[j] == recent[jj]);
        }
    }
    let front = seq![action] + without;
    assert forall|i: int, j: int| 0 <= i < j < front.len() implies front[i] != front[j] by {
        if i == 0 {
            assert(front[j] == without[j - 1]);
        } else {
            assert(front[i] == without[i - 1]);
            assert(front[j] == without[j - 1]);
        }
    }
}

proof fn lemma_some_first(s: Seq<RootActionId>, a: RootActionId, i: int)
    requires
        0 <= i < s.len(),
        s[i] == a,
    ensures
        exists|k: int| is_first_of(s, a, k),
    decreases i,
{
    if exists|j: int| 0 <= j < i && s[j] == a {
        let j = choose|j: int| 0 <= j < i && s[j] == a;
        lemma_some_first(s, a, j);
    } else {
        assert(is_first_of(s, a, i));
    }
}


// ---------------------------------------------------------------------------
// Small dialogs
// ---------------------------------------------------------------------------

#[derive(Debug, Clone, Copy, PartialEq, Eq, Structural)]
pub enum OnlinePasswordPromptMode {
    Host,
    Join,
}

#[derive(Debug, Clone, Copy, PartialEq, Eq, Structural)]
pub enum HostInviteModalButton {
    Copy,
    Confirm,
}

#[derive(Debug, Clone, Copy, PartialEq, Eq, Structural)]
pub enum JoinPromptButton {
    Join,
    Paste,
}

impl JoinPromptButton {
    pub fn toggle(self) -> (r: Self)
        ensures
            r != self,
    {
        match self {
            JoinPromptButton::Join => JoinPromptButton::Paste,
            JoinPromptButton::Paste => JoinPromptButton::Join,
        }
    }
}

impl HostInviteModalButton {
    pub fn toggle(self) -> (r: Self)
        ensures
            r != self,
    {
        match self {
            HostInviteModalButton::Copy => HostInviteModalButton::Confirm,
            HostInviteModalButton::Confirm => HostInviteModalButton::Copy,
        }
    }
}

/// The selected row after moving down (wrapping to the top) or up (wrapping to the bottom).
pub fn update_panel_selection(selected: &mut usize, option_count: usize, move_next: bool)
    ensures
        option_count == 0 ==> *final(selected) == *old(selected),
        option_count > 0 && move_next ==> *final(selected) == (*old(selected) + 1) % (
        option_count as int),
        option_count > 0 && !move_next ==> *final(selected) == (if *old(selected) == 0 {
            option_count - 1
        } else {
            *old(selected) - 1
        }),
{
    if option_count == 0 {
        return ;
    }
    if move_next {
        *selected = ((*selected as u128 + 1) % (option_count as u128)) as usize;
    } else {
        *selected = if *selected == 0 {
            option_count - 1
        } else {
            *selected - 1
        };
    }
}

/// `char::is_ascii_whitespace`.
pub open spec fn is_ascii_white(c: char) -> bool {
    c == ' ' || c == '\t' || c == '\n' || c == '\x0C' || c == '\r'
}

pub const MAX_INVITE_INPUT_BYTES: usize = 96;

pub const MAX_PASSWORD_INPUT_BYTES: usize = 64;

/// The invite code being typed after one more character: white space is ignored, letters
/// are upper-cased, and nothing is added once the input holds 96 bytes.
pub open spec fn invite_after_char(input: Seq<char>, ch: char) -> Seq<char> {
    if is_ascii_white(ch) || (vstd::utf8::encode_utf8(input).len() as usize) >= MAX_INVITE_INPUT_BYTES {
        input
    } else {
        input.push(ascii_upper(ch))
    }
}

pub fn append_invite_char(join_code_input: &mut String, ch: char)
    ensures
        final(join_code_input)@ == invite_after_char(old(join_code_input)@, ch),
{
    if ch == ' ' || ch == '\t' || ch == '\n' || ch == '\x0C' || ch == '\r' {
        return ;
    }
    if join_code_input.as_str().len() >= MAX_INVITE_INPUT_BYTES {
        return ;
    }
    string_push(join_code_input, to_upper(ch));
}

pub open spec fn invite_after_input(input: Seq<char>, value: Seq<char>) -> Seq<char>
    decreases value.len(),
{
    if value.len() == 0 {
        input
    } else {
        invite_after_char(invite_after_input(input, value.drop_last()), value.last())
    }
}

pub fn append_invite_input(join_code_input: &mut String, value: &str)
    ensures
        final(join_code_input)@ == invite_after_input(old(join_code_input)@, value@),
{
    let cs = chars_of(value);
    let ghost start = join_code_input@;
    let mut i: usize = 0;
    while i < cs.len()
        invariant
            i <= cs.len(),
            cs@ == value@,
            join_code_input@ == invite_after_input(start, cs@.take(i as int)),
        decreases cs.len() - i,
    {
        assert(cs@.take(i + 1).drop_last() =~= cs@.take(i as int));
        append_invite_char(join_code_input, cs[i]);
        i += 1;
    }
    assert(cs@.take(cs.len() as int) =~= cs@);
}

/// The password being typed after one more character: control characters are ignored and
/// nothing is added once the input holds 64 bytes.
pub open spec fn password_after_char(input: Seq<char>, ch: char) -> Seq<char> {
    if is_control_char(ch) || (vstd::utf8::encode_utf8(input).len() as usize) >= MAX_PASSWORD_INPUT_BYTES {
        input
    } else {
        input.push(ch)
    }
}

pub fn append_password_char(password_input: &mut String, ch: char)
    ensures
        final(password_input)@ == password_after_char(old(password_input)@, ch),
{
    if char_is_control(ch) {
        return ;
    }
    if password_input.as_str().len() >= MAX_PASSWORD_INPUT_BYTES {
        return ;
    }
    string_push(password_input, ch);
}

pub open spec fn password_after_input(input: Seq<char>, value: Seq<char>) -> Seq<char>
    decreases value.len(),
{
    if value.len() == 0 {
        input
    } else {
        password_after_char(password_after_input(input, value.drop_last()), value.last())
    }
}

pub fn append_password_input(password_input: &mut String, value: &str)
    ensures
        final(password_input)@ == password_after_input(old(password_input)@, value@),
{
    let cs = chars_of(value);
    let ghost start = password_input@;
    let mut i: usize = 0;
    while i < cs.len()
        invariant
            i <= cs.len(),
            cs@ == value@,
            password_input@ == password_after_input(start, cs@.take(i as int)),
        decreases cs.len() - i,
    {
        assert(cs@.take(i + 1).drop_last() =~= cs@.take(i as int));
        append_password_char(password_input, cs[i]);
        i += 1;
    }
    assert(cs@.take(cs.len() as int) =~= cs@);
}

// ---------------------------------------------------------------------------
// The environment a terminal session starts in
// ---------------------------------------------------------------------------

pub open spec fn is_set(v: Option<Seq<char>>) -> bool {
    v matches Some(s) && trim(s).len() > 0
}

pub open spec fn opt_view(o: Option<&str>) -> Option<Seq<char>> {
    match o {
        Some(s) => Some(s@),
        None => None,
    }
}

fn non_blank(v: Option<&str>) -> (r: bool)
    ensures
        r == is_set(opt_view(v)),
{
    match v {
        Some(s) => trimmed(s).len() > 0,
        None => false,
    }
}

/// The configuration directory to set when neither an override nor `USERPROFILE` is set
/// but `HOME` is: `.config/tunetui` under the home directory.
pub open spec fn inferred_config_dir(userprofile: Option<Seq<char>>, home: Option<Seq<char>>, override_dir: Option<Seq<char>>) -> Option<Seq<char>> {
    if is_set(override_dir) || is_set(userprofile) || !is_set(home) {
        None
    } else {
        Some(joined(joined(home->0, ".config"@), "tunetui"@))
    }
}

pub fn inferred_tunetui_config_dir(userprofile: Option<&str>, home: Option<&str>, override_dir: Option<&str>) -> (r: Option<String>)
    ensures
        match r {
            Some(p) => inferred_config_dir(opt_view(userprofile), opt_view(home), opt_view(override_dir)) == Some(p@),
            None => inferred_config_dir(opt_view(userprofile), opt_view(home), opt_view(override_dir)) is None,
        },
{
    if non_blank(override_dir) || non_blank(userprofile) || !non_blank(home) {
        return None;
    }
    match home {
        Some(h) => {
            let c = join_path(h, ".config");
            Some(join_path(c.as_str(), "tunetui"))
        },
        None => None,
    }
}

/// The configuration directory on a system that follows the XDG layout: the same as
/// `inferred_config_dir`, except that a set `XDG_CONFIG_HOME` gives `tunetui` under it.
pub open spec fn inferred_config_dir_xdg(userprofile: Option<Seq<char>>, home: Option<Seq<char>>, xdg_config_home: Option<Seq<char>>, override_dir: Option<Seq<char>>) -> Option<Seq<char>> {
    if is_set(override_dir) || is_set(userprofile) {
        None
    } else if is_set(xdg_config_home) {
        Some(joined(xdg_config_home->0, "tunetui"@))
    } else {
        inferred_config_dir(userprofile, home, override_dir)
    }
}

pub fn inferred_tunetui_config_dir_xdg(userprofile: Option<&str>, home: Option<&str>, xdg_config_home: Option<&str>, override_dir: Option<&str>) -> (r: Option<String>)
    ensures
        match r {
            Some(p) => inferred_config_dir_xdg(opt_view(userprofile), opt_view(home), opt_view(xdg_config_home), opt_view(override_dir)) == Some(p@),
            None => inferred_config_dir_xdg(opt_view(userprofile), opt_view(home), opt_view(xdg_config_home), opt_view(override_dir)) is None,
        },
{
    if non_blank(override_dir) || non_blank(userprofile) {
        return None;
    }
    if non_blank(xdg_config_home) {
        match xdg_config_home {
            Some(x) => return Some(join_path(x, "tunetui")),
            None => {},
        }
    }
    inferred_tunetui_config_dir(userprofile, home, override_dir)
}

/// Over SSH (one of the SSH variables is set) with no usable terminal type (none, blank or
/// `dumb`), the terminal type should be set.
pub open spec fn wants_ssh_term(ssh_tty: Option<Seq<char>>, ssh_connection: Option<Seq<char>>, ssh_client: Option<Seq<char>>, term: Option<Seq<char>>) -> bool {
    (is_set(ssh_tty) || is_set(ssh_connection) || is_set(ssh_client)) && match term {
        None => true,
        Some(t) => trim(t).len() == 0 || eq_ignore_case(trim(t), "dumb"@),
    }
}

pub fn should_set_ssh_term(ssh_tty: Option<&str>, ssh_connection: Option<&str>, ssh_client: Option<&str>, term: Option<&str>) -> (r: bool)
    ensures
        r == wants_ssh_term(opt_view(ssh_tty), opt_view(ssh_connection), opt_view(ssh_client), opt_view(term)),
{
    let over_ssh = non_blank(ssh_tty) || non_blank(ssh_connection) || non_blank(ssh_client);
    if !over_ssh {
        return false;
    }
    match term {
        None => true,
        Some(t) => {
            let tt = trimmed(t);
            if tt.len() == 0 {
                return true;
            }
            let s = string_from_chars(tt.as_slice());
            eq_ignore_ascii_case(s.as_str(), "dumb")
        },
    }
}

/// Whole seconds of listening to record: rounded up, saturating at `u32::MAX`.
pub open spec fn recorded_seconds(secs: u64, subsec_nanos: u32) -> u32 {
    let rounded = if subsec_nanos > 0 {
        if secs == u64::MAX { secs as int } else { secs + 1 }
    } else {
        secs as int
    };
    if rounded > u32::MAX { u32::MAX } else { rounded as u32 }
}

pub fn duration_to_recorded_seconds(secs: u64, subsec_nanos: u32) -> (r: u32)
    ensures
        r == recorded_seconds(secs, subsec_nanos),
{
    if secs == 0 && subsec_nanos == 0 {
        return 0;
    }
    let rounded = if subsec_nanos > 0 {
        secs.saturating_add(1)
    } else {
        secs
    };
    if rounded > u32::MAX as u64 {
        u32::MAX
    } else {
        rounded as u32
    }
}

pub const NANOS_PER_SECOND: u128 = 1_000_000_000;

/// A looping track started over: playing, a restart was pending, the position went back,
/// the previous position was near the end (within 2 s of the duration, or past 20 s) and
/// the new one is near the start (within the larger of 5 s and the crossfade plus 2 s).
/// Positions and durations are in nanoseconds.
pub open spec fn restarted(pending_restart: bool, last_position: Option<u128>, duration: Option<u128>, current_position: Option<u128>, paused: bool, crossfade_seconds: u16) -> bool {
    &&& !paused
    &&& pending_restart
    &&& current_position is Some
    &&& last_position is Some
    &&& current_position->0 < last_position->0
    &&& ((duration matches Some(d) && last_position->0 >= (if d > 2 * NANOS_PER_SECOND {
        d - 2 * NANOS_PER_SECOND
    } else {
        0
    })) || last_position->0 >= 20 * NANOS_PER_SECOND)
    &&& current_position->0 <= (if crossfade_seconds + 2 > 5 { crossfade_seconds + 2 } else { 5 }) * NANOS_PER_SECOND
}

pub fn same_track_restarted(pending_restart: bool, last_position: Option<u128>, duration: Option<u128>, current_position: Option<u128>, paused: bool, crossfade_seconds: u16) -> (r: bool)
    ensures
        r == restarted(pending_restart, last_position, duration, current_position, paused, crossfade_seconds),
{
    if paused || !pending_restart {
        return false;
    }
    let current = match current_position {
        Some(c) => c,
        None => return false,
    };
    let previous = match last_position {
        Some(p) => p,
        None => return false,
    };
    if current >= previous {
        return false;
    }
    let fade: u128 = crossfade_seconds as u128 + 2;
    let start_secs: u128 = if fade > 5 { fade } else { 5 };
    let start_window = start_secs * NANOS_PER_SECOND;
    let near_end_by_duration = match duration {
        Some(d) => {
            let end = if d > 2 * NANOS_PER_SECOND {
                d - 2 * NANOS_PER_SECOND
            } else {
                0
            };
            previous >= end
        },
        None => false,
    };
    let was_near_end = near_end_by_duration || previous >= 20 * NANOS_PER_SECOND;
    was_near_end && current <= start_window
}

// ---------------------------------------------------------------------------
// Settings shown in the panel
// ---------------------------------------------------------------------------

pub fn cover_template_label(template: CoverArtTemplate) -> (r: &'static str)
    ensures
        r@ == "Music Note"@,
{
    "Music Note"
}

pub open spec fn theme_name(theme: Theme) -> Seq<char> {
    match theme {
        Theme::Dark => "Dark"@,
        Theme::System => "System"@,
        Theme::PitchBlack => "Pitch Black"@,
        Theme::Galaxy => "Galaxy"@,
        Theme::Matrix => "Matrix"@,
        Theme::Demonic => "Demonic"@,
        Theme::CottonCandy => "Cotton Candy"@,
        Theme::Ocean => "Ocean (legacy)"@,
        Theme::Forest => "Forest (legacy)"@,
        Theme::Sunset => "Sunset (legacy)"@,
    }
}

pub fn theme_label(theme: Theme) -> (r: &'static str)
    ensures
        r@ == theme_name(theme),
{
    match theme {
        Theme::Dark => "Dark",
        Theme::System => "System",
        Theme::PitchBlack => "Pitch Black",
        Theme::Galaxy => "Galaxy",
        Theme::Matrix => "Matrix",
        Theme::Demonic => "Demonic",
        Theme::CottonCandy => "Cotton Candy",
        Theme::Ocean => "Ocean (legacy)",
        Theme::Forest => "Forest (legacy)",
        Theme::Sunset => "Sunset (legacy)",
    }
}

/// The themes offered in the theme menu, in order.
pub open spec fn offered_themes() -> Seq<Theme> {
    seq![Theme::Dark, Theme::PitchBlack, Theme::Galaxy, Theme::Matrix, Theme::Demonic, Theme::CottonCandy]
}

pub open spec fn theme_option_text(entry: Theme, current: Theme) -> Seq<char> {
    if entry == current {
        "* "@ + theme_name(entry)
    } else {
        theme_name(entry)
    }
}

/// The theme menu: each offered theme by name, the current one marked with `* `.
pub fn theme_options(theme: Theme) -> (out: Vec<String>)
    ensures
        out@.len() == 6,
        forall|k: int| 0 <= k < 6 ==> (#[trigger] out@[k])@ == theme_option_text(offered_themes()[k], theme),
{
    let mut out: Vec<String> = Vec::new();
    let mut k: usize = 0;
    while k < 6
        invariant
            k <= 6,
            out@.len() == k,
            forall|j: int| 0 <= j < k ==> (#[trigger] out@[j])@ == theme_option_text(offered_themes()[j], theme),
        decreases 6 - k,
    {
        let entry = match k {
            0 => Theme::Dark,
            1 => Theme::PitchBlack,
            2 => Theme::Galaxy,
            3 => Theme::Matrix,
            4 => Theme::Demonic,
            _ => Theme::CottonCandy,
        };
        assert(entry == offered_themes()[k as int]);
        let text = if entry == theme {
            let mut cs = chars_of("* ");
            extend_str(&mut cs, theme_label(entry));
            string_from_chars(cs.as_slice())
        } else {
            theme_label(entry).to_owned()
        };
        out.push(text);
        k += 1;
    }
    out
}

pub open spec fn crossfade_text(seconds: u16) -> Seq<char> {
    if seconds == 0 { "Off"@ } else { decimal(seconds as nat) + "s"@ }
}

/// `Off`, or the seconds followed by `s`.
pub fn crossfade_label(seconds: u16) -> (r: String)
    ensures
        r@ == crossfade_text(seconds),
{
    if seconds == 0 {
        return "Off".to_owned();
    }
    let mut cs: Vec<char> = Vec::new();
    push_decimal(&mut cs, seconds as u64);
    extend_str(&mut cs, "s");
    string_from_chars(cs.as_slice())
}

pub open spec fn crossfade_step(current: u16) -> u16 {
    if current == 0 {
        2u16
    } else if current == 2 {
        4u16
    } else if current == 4 {
        6u16
    } else if current == 6 {
        8u16
    } else if current == 8 {
        10u16
    } else {
        0u16
    }
}

/// The crossfade steps cycle through off, 2, 4, 6, 8 and 10 seconds.
pub fn next_crossfade_seconds(current: u16) -> (r: u16)
    ensures
        r == crossfade_step(current),
{
    match current {
        0 => 2,
        2 => 4,
        4 => 6,
        6 => 8,
        8 => 10,
        _ => 0,
    }
}

pub open spec fn scrub_text(seconds: u16) -> Seq<char> {
    if seconds == 60 { "1m"@ } else { decimal(seconds as nat) + "s"@ }
}

/// `1m` for a minute, else the seconds followed by `s`.
pub fn scrub_label(seconds: u16) -> (r: String)
    ensures
        r@ == scrub_text(seconds),
{
    if seconds == 60 {
        return "1m".to_owned();
    }
    let mut cs: Vec<char> = Vec::new();
    push_decimal(&mut cs, seconds as u64);
    extend_str(&mut cs, "s");
    string_from_chars(cs.as_slice())
}

pub open spec fn scrub_step(current: u16) -> u16 {
    if current == 10 {
        15u16
    } else if current == 15 {
        30u16
    } else if current == 30 {
        60u16
    } else if current == 60 {
        5u16
    } else {
        10u16
    }
}

/// The scrub steps cycle through 5, 10, 15, 30 and 60 seconds; an unknown step moves to 10.
pub fn next_scrub_seconds(current: u16) -> (r: u16)
    ensures
        r == scrub_step(current),
{
    match current {
        5 => 10,
        10 => 15,
        15 => 30,
        30 => 60,
        60 => 5,
        _ => 10,
    }
}

pub open spec fn top_songs_step(current: u8) -> u8 {
    if current <= 5 {
        8u8
    } else if current <= 8 {
        10u8
    } else if current <= 10 {
        12u8
    } else if current <= 12 {
        15u8
    } else if current <= 15 {
        5u8
    } else {
        8u8
    }
}

/// The choices for the number of top songs, 5, 8, 10, 12 and 15, cycle; a value between
/// two choices moves past the next larger one, and one above all of them to 8.
pub fn next_stats_top_songs_count(current: u8) -> (r: u8)
    ensures
        r == top_songs_step(current),
{
    if current <= 5 {
        8
    } else if current <= 8 {
        10
    } else if current <= 10 {
        12
    } else if current <= 12 {
        15
    } else if current <= 15 {
        5
    } else {
        8
    }
}

pub open spec fn threshold_step(current: u16) -> u16 {
    if current <= 100 {
        150u16
    } else if current <= 150 {
        200u16
    } else if current <= 200 {
        300u16
    } else if current <= 300 {
        400u16
    } else if current <= 400 {
        500u16
    } else if current <= 500 {
        750u16
    } else if current <= 750 {
        1000u16
    } else if current <= 1000 {
        100u16
    } else {
        150u16
    }
}

/// The sync correction thresholds, 100, 150, 200, 300, 400, 500, 750 and 1000 ms, cycle; a
/// value between two choices moves past the next larger one, and one above all of them to
/// 150.
pub fn next_online_sync_correction_threshold_ms(current: u16) -> (r: u16)
    ensures
        r == threshold_step(current),
{
    if current <= 100 {
        150
    } else if current <= 150 {
        200
    } else if current <= 200 {
        300
    } else if current <= 300 {
        400
    } else if current <= 400 {
        500
    } else if current <= 500 {
        750
    } else if current <= 750 {
        1000
    } else if current <= 1000 {
        100
    } else {
        150
    }
}

// ---------------------------------------------------------------------------
// Online status
// ---------------------------------------------------------------------------

/// A status message that means the connection to the room is gone.
pub open spec fn is_disconnect_message(message: Seq<char>) -> bool {
    ||| message == "Disconnected from online host"@
    ||| has_substring(message, "Online socket read error"@)
    ||| has_substring(message, "Host ended session"@)
}

pub fn is_online_disconnect_status(message: &str) -> (r: bool)
    ensures
        r == is_disconnect_message(message@),
{
    str_eq(message, "Disconnected from online host") || contains_str(message, "Online socket read error")
        || contains_str(message, "Host ended session")
}

/// A playback error shortened for the status line.
pub open spec fn concise_error_text(message: Seq<char>) -> Seq<char> {
    let lower = lower_seq(message);
    if has_substring(lower, "device"@) && (has_substring(lower, "no longer"@) || has_substring(
        lower,
        "unavailable"@,
    )) {
        "Audio device unavailable. Use / -> Audio driver settings -> Reload"@
    } else {
        "Playback failed: "@ + message
    }
}

pub fn concise_audio_error(message: &str) -> (r: String)
    ensures
        r@ == concise_error_text(message@),
{
    let cs = chars_of(message);
    let lower = lower_chars(cs.as_slice());
    let device = chars_of("device");
    let gone = chars_of("no longer");
    let unavailable = chars_of("unavailable");
    if contains_chars(lower.as_slice(), device.as_slice()) && (contains_chars(lower.as_slice(), gone.as_slice())
        || contains_chars(lower.as_slice(), unavailable.as_slice())) {
        return "Audio device unavailable. Use / -> Audio driver settings -> Reload".to_owned();
    }
    let mut out = chars_of("Playback failed: ");
    extend_str(&mut out, message);
    string_from_chars(out.as_slice())
}

/// The participant whose playback others follow: the origin of the last transport command
/// when that participant is still in the room (ignoring ASCII case), else the host.
pub open spec fn authority(ps: Seq<ParticipantView>, last: Option<EnvelopeView>) -> Option<Seq<char>> {
    if last matches Some(t) && exists|i: int| 0 <= i < ps.len() && eq_ignore_case((#[trigger] ps[i]).nickname, t.origin_nickname) {
        Some(last->0.origin_nickname)
    } else if exists|i: int| 0 <= i < ps.len() && (#[trigger] ps[i]).is_host {
        Some(ps[choose|i: int| 0 <= i < ps.len() && ps[i].is_host && forall|j: int| 0 <= j < i ==> !(#[trigger] ps[j]).is_host].nickname)
    } else {
        None
    }
}

/// Whether some participant is named `name`, ignoring ASCII case.
fn participant_named(session: &OnlineSession, name: &str) -> (r: bool)
    ensures
        r == exists|i: int|
            0 <= i < session@.participants.len() && eq_ignore_case(
                (#[trigger] session@.participants[i]).nickname,
                name@,
            ),
{
    let ghost ps = session@.participants;
    let mut i: usize = 0;
    while i < session.participants.len()
        invariant
            i <= session.participants.len(),
            ps == session@.participants,
            forall|j: int| 0 <= j < i ==> !eq_ignore_case((#[trigger] ps[j]).nickname, name@),
        decreases session.participants.len() - i,
    {
        assert(ps[i as int] == session.participants@[i as int]@);
        if eq_ignore_ascii_case(session.participants[i].nickname.as_str(), name) {
            return true;
        }
        i += 1;
    }
    false
}

pub fn online_authority_nickname(session: &OnlineSession) -> (r: Option<String>)
    ensures
        match r {
            Some(n) => authority(session@.participants, session@.last_transport) == Some(n@),
            None => authority(session@.participants, session@.last_transport) is None,
        },
{
    let ghost ps = session@.participants;
    let ghost last = session@.last_transport;
    match &session.last_transport {
        Some(t) => {
            if participant_named(session, t.origin_nickname.as_str()) {
                return Some(t.origin_nickname.clone());
            }
        },
        None => {},
    }
    assert(!(last matches Some(t) && exists|i: int|
        0 <= i < ps.len() && eq_ignore_case((#[trigger] ps[i]).nickname, t.origin_nickname)));
    let mut i: usize = 0;
    while i < session.participants.len()
        invariant
            i <= session.participants.len(),
            ps == session@.participants,
            last == session@.last_transport,
            !(last matches Some(t) && exists|k: int|
                0 <= k < ps.len() && eq_ignore_case((#[trigger] ps[k]).nickname, t.origin_nickname)),
            forall|j: int| 0 <= j < i ==> !(#[trigger] ps[j]).is_host,
        decreases session.participants.len() - i,
    {
        assert(ps[i as int] == session.participants@[i as int]@);
        if session.participants[i].is_host {
            proof {
                let k = choose|k: int| 0 <= k < ps.len() && ps[k].is_host && forall|j: int| 0 <= j < k ==> !(#[trigger] ps[j]).is_host;
                assert(0 <= i < ps.len() && ps[i as int].is_host && forall|j: int| 0 <= j < i ==> !(#[trigger] ps[j]).is_host);
                if k < i {
                    assert(!ps[k].is_host);
                }
                if i < k {
                    assert(!ps[i as int].is_host);
                }
            }
            return Some(session.participants[i].nickname.clone());
        }
        i += 1;
    }
    None
}

/// The lookup key of a track for metadata providers: its normalized path in ASCII lower case.
pub fn provider_track_id_for_path(normalized_path: &str) -> (r: String)
    ensures
        r@ == lower_seq(normalized_path@),
{
    let cs = chars_of(normalized_path);
    let lower = lower_chars(cs.as_slice());
    string_from_chars(lower.as_slice())
}

} // verus!

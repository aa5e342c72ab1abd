//! The filters of the listening statistics tab: the time range, the sort, three text
//! filters, which of them has the focus, and how far the table is scrolled.

use crate::browser::{HeaderSection, StatsFilterFocus};
use crate::online_keys::{noted, Note};
use crate::text::{chars_of, extend_str, is_control_char, string_from_chars, string_push, sub_chars};
use crate::tune_core::{with_status, TuneCore};
use vstd::prelude::*;

verus! {

#[derive(Debug, Clone, Copy, PartialEq, Eq, Structural)]
pub enum StatsRange {
    Lifetime,
    Today,
    Days7,
    Days30,
}

#[derive(Debug, Clone, Copy, PartialEq, Eq, Structural)]
pub enum StatsSort {
    ListenTime,
    Plays,
}

#[derive(Debug)]
pub struct StatsFilters {
    pub range: StatsRange,
    pub sort: StatsSort,
    pub artist_filter: String,
    pub album_filter: String,
    pub search: String,
    pub focus: StatsFilterFocus,
    pub scroll: u16,
}

pub struct FiltersView {
    pub range: StatsRange,
    pub sort: StatsSort,
    pub artist: Seq<char>,
    pub album: Seq<char>,
    pub search: Seq<char>,
    pub focus: StatsFilterFocus,
    pub scroll: u16,
}

impl View for StatsFilters {
    type V = FiltersView;

    open spec fn view(&self) -> FiltersView {
        FiltersView {
            range: self.range,
            sort: self.sort,
            artist: self.artist_filter@,
            album: self.album_filter@,
            search: self.search@,
            focus: self.focus,
            scroll: self.scroll,
        }
    }
}

#[derive(Debug, Clone, Copy, PartialEq, Eq, Structural)]
pub enum StatsKeyCode {
    Char(char),
    Left,
    Right,
    Up,
    Down,
    Enter,
    Backspace,
    Delete,
    Other,
}

/// A key with the modifiers the tab looks at.
#[derive(Debug, Clone, Copy, PartialEq, Eq, Structural)]
pub struct StatsKey {
    pub code: StatsKeyCode,
    pub shift: bool,
    pub ctrl: bool,
    pub alt: bool,
    pub super_key: bool,
}

pub open spec fn range_index(r: StatsRange) -> u8 {
    match r {
        StatsRange::Lifetime => 0,
        StatsRange::Today => 1,
        StatsRange::Days7 => 2,
        StatsRange::Days30 => 3,
    }
}

pub open spec fn range_at(i: int) -> StatsRange {
    if i == 0 {
        StatsRange::Lifetime
    } else if i == 1 {
        StatsRange::Today
    } else if i == 2 {
        StatsRange::Days7
    } else {
        StatsRange::Days30
    }
}

pub open spec fn sort_index(s: StatsSort) -> u8 {
    match s {
        StatsSort::ListenTime => 0,
        StatsSort::Plays => 1,
    }
}

pub open spec fn sort_at(i: int) -> StatsSort {
    if i == 0 {
        StatsSort::ListenTime
    } else {
        StatsSort::Plays
    }
}

/// The focus one filter on (or back), round the five: range, sort, artist, album, search.
pub open spec fn row_after(f: FiltersView, forward: bool) -> StatsFilterFocus {
    match f.focus {
        StatsFilterFocus::Range(_) => if forward {
            StatsFilterFocus::Sort(sort_index(f.sort))
        } else {
            StatsFilterFocus::Search
        },
        StatsFilterFocus::Sort(_) => if forward {
            StatsFilterFocus::Artist
        } else {
            StatsFilterFocus::Range(range_index(f.range))
        },
        StatsFilterFocus::Artist => if forward {
            StatsFilterFocus::Album
        } else {
            StatsFilterFocus::Sort(sort_index(f.sort))
        },
        StatsFilterFocus::Album => if forward {
            StatsFilterFocus::Search
        } else {
            StatsFilterFocus::Artist
        },
        StatsFilterFocus::Search => if forward {
            StatsFilterFocus::Range(range_index(f.range))
        } else {
            StatsFilterFocus::Album
        },
    }
}

/// The filters after a key, its mark on the screen, and whether the tab took the key.
pub struct StatsStep {
    pub filters: FiltersView,
    pub note: Note,
    pub handled: bool,
}

pub open spec fn stats_step(filters: FiltersView, note: Note, handled: bool) -> StatsStep {
    StatsStep { filters, note, handled }
}

pub open spec fn focus_moved(f: FiltersView, forward: bool) -> StatsStep {
    stats_step(FiltersView { focus: row_after(f, forward), ..f }, Note::Redraw, true)
}

/// Left and Right change the range (round its four values) or flip the sort where they have
/// the focus, and otherwise move the focus.
pub open spec fn value_or_focus_moved(f: FiltersView, forward: bool) -> StatsStep {
    match f.focus {
        StatsFilterFocus::Range(i) => {
            let n = (if forward {
                i + 1
            } else {
                i + 3
            }) % 4;
            stats_step(FiltersView { focus: StatsFilterFocus::Range(n as u8), range: range_at(n), ..f }, Note::Redraw, true)
        },
        StatsFilterFocus::Sort(i) => {
            let n: int = if i >= 1 {
                0
            } else {
                1
            };
            stats_step(FiltersView { focus: StatsFilterFocus::Sort(n as u8), sort: sort_at(n), ..f }, Note::Redraw, true)
        },
        _ => focus_moved(f, forward),
    }
}

pub open spec fn scrolled(f: FiltersView, down: bool) -> FiltersView {
    FiltersView {
        scroll: if down {
            if f.scroll < u16::MAX {
                (f.scroll + 1) as u16
            } else {
                f.scroll
            }
        } else if f.scroll > 0 {
            (f.scroll - 1) as u16
        } else {
            0
        },
        ..f
    }
}

/// The text filter with the focus, if any.
pub open spec fn focused_text(f: FiltersView) -> Option<Seq<char>> {
    match f.focus {
        StatsFilterFocus::Artist => Some(f.artist),
        StatsFilterFocus::Album => Some(f.album),
        StatsFilterFocus::Search => Some(f.search),
        _ => None,
    }
}

pub open spec fn with_focused_text(f: FiltersView, t: Seq<char>) -> FiltersView {
    match f.focus {
        StatsFilterFocus::Artist => FiltersView { artist: t, ..f },
        StatsFilterFocus::Album => FiltersView { album: t, ..f },
        StatsFilterFocus::Search => FiltersView { search: t, ..f },
        _ => f,
    }
}

pub open spec fn focus_label(focus: StatsFilterFocus) -> Seq<char> {
    match focus {
        StatsFilterFocus::Range(_) => "Range"@,
        StatsFilterFocus::Sort(_) => "Sort"@,
        StatsFilterFocus::Artist => "Artist"@,
        StatsFilterFocus::Album => "Album"@,
        StatsFilterFocus::Search => "Search"@,
    }
}

/// A key on the statistics tab. Shift-Up goes back to the range filter at the top; on the
/// search filter the arrows scroll the table (up and left only while it is scrolled);
/// elsewhere Left and Right change the focused value and Up and Down move the focus; Enter
/// steps the range or flips the sort; the text filters take typed characters, Backspace
/// and Delete (which empties them). Keys with Control, Alt or Super, and control
/// characters, are left to the player.
pub open spec fn stats_key(header: HeaderSection, f: FiltersView, key: StatsKey) -> StatsStep {
    if header != HeaderSection::Stats {
        stats_step(f, Note::Unchanged, false)
    } else if key.code is Up && key.shift {
        stats_step(
            FiltersView { scroll: 0, focus: StatsFilterFocus::Range(range_index(f.range)), ..f },
            Note::Status("Stats view reset to filters"@),
            true,
        )
    } else {
        match key.code {
            StatsKeyCode::Left => if f.scroll > 0 && f.focus is Search {
                stats_step(scrolled(f, false), Note::Redraw, true)
            } else {
                value_or_focus_moved(f, false)
            },
            StatsKeyCode::Right => if f.focus is Search {
                stats_step(scrolled(f, true), Note::Redraw, true)
            } else {
                value_or_focus_moved(f, true)
            },
            StatsKeyCode::Up => if f.scroll > 0 && f.focus is Search {
                stats_step(scrolled(f, false), Note::Redraw, true)
            } else {
                focus_moved(f, false)
            },
            StatsKeyCode::Down => if f.focus is Search {
                stats_step(scrolled(f, true), Note::Redraw, true)
            } else {
                focus_moved(f, true)
            },
            StatsKeyCode::Enter => match f.focus {
                StatsFilterFocus::Range(_) => value_or_focus_moved(f, true),
                StatsFilterFocus::Sort(_) => value_or_focus_moved(f, true),
                _ => stats_step(f, Note::Unchanged, true),
            },
            StatsKeyCode::Backspace => match focused_text(f) {
                Some(t) => if t.len() > 0 {
                    stats_step(
                        with_focused_text(f, t.drop_last()),
                        Note::Status(focus_label(f.focus) + " filter updated"@),
                        true,
                    )
                } else {
                    stats_step(f, Note::Unchanged, true)
                },
                None => stats_step(f, Note::Unchanged, true),
            },
            StatsKeyCode::Char(ch) => if !(key.ctrl || key.alt || key.super_key) && !is_control_char(ch) {
                match focused_text(f) {
                    Some(t) => stats_step(
                        with_focused_text(f, t.push(ch)),
                        Note::Status(focus_label(f.focus) + " filter updated"@),
                        true,
                    ),
                    None => stats_step(f, Note::Unchanged, false),
                }
            } else {
                stats_step(f, Note::Unchanged, false)
            },
            StatsKeyCode::Delete => match focused_text(f) {
                Some(_) => stats_step(
                    with_focused_text(f, Seq::empty()),
                    Note::Status(focus_label(f.focus) + " filter cleared"@),
                    true,
                ),
                None => stats_step(f, Note::Unchanged, false),
            },
            _ => stats_step(f, Note::Unchanged, false),
        }
    }
}

fn joined_text(prefix: &str, tail: &str) -> (r: String)
    ensures
        r@ == prefix@ + tail@,
{
    let mut cs = chars_of(prefix);
    extend_str(&mut cs, tail);
    string_from_chars(cs.as_slice())
}

impl StatsFilters {
    /// All time, by listening time, no text filters, the range focused, at the top.
    pub fn new() -> (r: Self)
        ensures
            r@.range == StatsRange::Lifetime,
            r@.sort == StatsSort::ListenTime,
            r@.artist.len() == 0 && r@.album.len() == 0 && r@.search.len() == 0,
            r@.focus == StatsFilterFocus::Range(0),
            r@.scroll == 0,
    {
        StatsFilters {
            range: StatsRange::Lifetime,
            sort: StatsSort::ListenTime,
            artist_filter: String::new(),
            album_filter: String::new(),
            search: String::new(),
            focus: StatsFilterFocus::Range(0),
            scroll: 0,
        }
    }

    fn range_index(&self) -> (r: u8)
        ensures
            r == range_index(self.range),
    {
        match self.range {
            StatsRange::Lifetime => 0,
            StatsRange::Today => 1,
            StatsRange::Days7 => 2,
            StatsRange::Days30 => 3,
        }
    }

    fn sort_index(&self) -> (r: u8)
        ensures
            r == sort_index(self.sort),
    {
        match self.sort {
            StatsSort::ListenTime => 0,
            StatsSort::Plays => 1,
        }
    }

    fn move_row(&mut self, forward: bool)
        ensures
            final(self)@ == (FiltersView { focus: row_after(old(self)@, forward), ..old(self)@ }),
    {
        let range = self.range_index();
        let sort = self.sort_index();
        self.focus = match self.focus {
            StatsFilterFocus::Range(_) => if forward {
                StatsFilterFocus::Sort(sort)
            } else {
                StatsFilterFocus::Search
            },
            StatsFilterFocus::Sort(_) => if forward {
                StatsFilterFocus::Artist
            } else {
                StatsFilterFocus::Range(range)
            },
            StatsFilterFocus::Artist => if forward {
                StatsFilterFocus::Album
            } else {
                StatsFilterFocus::Sort(sort)
            },
            StatsFilterFocus::Album => if forward {
                StatsFilterFocus::Search
            } else {
                StatsFilterFocus::Artist
            },
            StatsFilterFocus::Search => if forward {
                StatsFilterFocus::Range(range)
            } else {
                StatsFilterFocus::Album
            },
        };
    }

    fn move_value_or_row(&mut self, forward: bool)
        ensures
            final(self)@ == value_or_focus_moved(old(self)@, forward).filters,
    {
        match self.focus {
            StatsFilterFocus::Range(i) => {
                let n: u8 = ((if forward {
                    i as u16 + 1
                } else {
                    i as u16 + 3
                }) % 4) as u8;
                self.focus = StatsFilterFocus::Range(n);
                self.range = if n == 0 {
                    StatsRange::Lifetime
                } else if n == 1 {
                    StatsRange::Today
                } else if n == 2 {
                    StatsRange::Days7
                } else {
                    StatsRange::Days30
                };
            },
            StatsFilterFocus::Sort(i) => {
                let n: u8 = if i >= 1 {
                    0
                } else {
                    1
                };
                self.focus = StatsFilterFocus::Sort(n);
                self.sort = if n == 0 {
                    StatsSort::ListenTime
                } else {
                    StatsSort::Plays
                };
            },
            _ => self.move_row(forward),
        }
    }

    fn scroll_by_one(&mut self, down: bool)
        ensures
            final(self)@ == scrolled(old(self)@, down),
    {
        if down {
            self.scroll = self.scroll.saturating_add(1);
        } else {
            self.scroll = self.scroll.saturating_sub(1);
        }
    }

    fn focused_text_copy(&self) -> (r: Option<String>)
        ensures
            match r {
                Some(t) => focused_text(self@) == Some(t@),
                None => focused_text(self@) is None,
            },
    {
        match self.focus {
            StatsFilterFocus::Artist => Some(self.artist_filter.clone()),
            StatsFilterFocus::Album => Some(self.album_filter.clone()),
            StatsFilterFocus::Search => Some(self.search.clone()),
            _ => None,
        }
    }

    fn set_focused_text(&mut self, t: String)
        requires
            focused_text(old(self)@) is Some,
        ensures
            final(self)@ == with_focused_text(old(self)@, t@),
    {
        match self.focus {
            StatsFilterFocus::Artist => self.artist_filter = t,
            StatsFilterFocus::Album => self.album_filter = t,
            _ => self.search = t,
        }
    }

    /// Empties the three text filters.
    pub fn clear_filters(&mut self, core: &mut TuneCore)
        ensures
            final(self)@ == (FiltersView { artist: Seq::empty(), album: Seq::empty(), search: Seq::empty(), ..old(self)@ }),
            final(core)@ == with_status(old(core)@, "Stats filters cleared"@),
    {
        self.artist_filter = String::new();
        self.album_filter = String::new();
        self.search = String::new();
        core.show_status("Stats filters cleared");
    }

    /// The wheel over the statistics table scrolls it and focuses the search filter.
    pub fn wheel(&mut self, core: &mut TuneCore, down: bool)
        ensures
            final(self)@ == (FiltersView { focus: StatsFilterFocus::Search, ..scrolled(old(self)@, down) }),
            final(core)@ == noted(old(core)@, Note::Redraw),
    {
        self.scroll_by_one(down);
        self.focus = StatsFilterFocus::Search;
        core.mark_dirty();
    }
}

/// Handles a key on the statistics tab; returns whether the tab took it.
pub fn handle_stats_inline_input(core: &mut TuneCore, filters: &mut StatsFilters, key: StatsKey) -> (handled: bool)
    ensures
        ({
            let s = stats_key(old(core)@.header_section, old(filters)@, key);
            final(filters)@ == s.filters && final(core)@ == noted(old(core)@, s.note) && handled == s.handled
        }),
{
    if core.header_section() != HeaderSection::Stats {
        return false;
    }
    if key.code == StatsKeyCode::Up && key.shift {
        filters.scroll = 0;
        filters.focus = StatsFilterFocus::Range(filters.range_index());
        core.show_status("Stats view reset to filters");
        return true;
    }
    let on_search = filters.focus == StatsFilterFocus::Search;
    match key.code {
        StatsKeyCode::Left | StatsKeyCode::Up => {
            if filters.scroll > 0 && on_search {
                filters.scroll_by_one(false);
            } else if key.code == StatsKeyCode::Left {
                filters.move_value_or_row(false);
            } else {
                filters.move_row(false);
            }
            core.mark_dirty();
            true
        },
        StatsKeyCode::Right | StatsKeyCode::Down => {
            if on_search {
                filters.scroll_by_one(true);
            } else if key.code == StatsKeyCode::Right {
                filters.move_value_or_row(true);
            } else {
                filters.move_row(true);
            }
            core.mark_dirty();
            true
        },
        StatsKeyCode::Enter => {
            match filters.focus {
                StatsFilterFocus::Range(_) | StatsFilterFocus::Sort(_) => {
                    filters.move_value_or_row(true);
                    core.mark_dirty();
                },
                _ => {},
            }
            true
        },
        StatsKeyCode::Backspace => {
            match filters.focused_text_copy() {
                Some(t) => {
                    if t.as_str().unicode_len() > 0 {
                        let cs = chars_of(t.as_str());
                        let kept = sub_chars(cs.as_slice(), 0, cs.len() - 1);
                        filters.set_focused_text(string_from_chars(kept.as_slice()));
                        let msg = joined_text(filters.focus.label(), " filter updated");
                        core.show_status(msg.as_str());
                    }
                },
                None => {},
            }
            true
        },
        StatsKeyCode::Char(ch) => {
            if key.ctrl || key.alt || key.super_key || crate::text::char_is_control(ch) {
                return false;
            }
            match filters.focused_text_copy() {
                Some(t) => {
                    let mut t = t;
                    string_push(&mut t, ch);
                    filters.set_focused_text(t);
                    let msg = joined_text(filters.focus.label(), " filter updated");
                    core.show_status(msg.as_str());
                    true
                },
                None => false,
            }
        },
        StatsKeyCode::Delete => {
            match filters.focused_text_copy() {
                Some(_) => {
                    filters.set_focused_text(String::new());
                    let msg = joined_text(filters.focus.label(), " filter cleared");
                    core.show_status(msg.as_str());
                    true
                },
                None => false,
            }
        },
        StatsKeyCode::Other => false,
    }
}

} // verus!

use crate::lyrics::{LyricLine, LineView, lines_view};
use crate::model::LegacyPlaybackMode;
use vstd::prelude::*;

verus! {

// ---------------------------------------------------------------------------
// What the library browser shows
// ---------------------------------------------------------------------------

#[derive(Debug, Clone, Copy, PartialEq, Eq, Structural)]
pub enum BrowserEntryKind {
    Back,
    Folder,
    Playlist,
    AllSongs,
    Track,
}

#[derive(Debug, Clone, Copy, PartialEq, Eq, Structural)]
pub enum HeaderSection {
    Library,
    Lyrics,
    Stats,
    Online,
}

#[derive(Debug, Clone, Copy, PartialEq, Eq, Structural)]
pub enum StatsFilterFocus {
    Range(u8),
    Sort(u8),
    Artist,
    Album,
    Search,
}

#[derive(Debug, Clone, Copy, PartialEq, Eq, Structural)]
pub enum LyricsMode {
    View,
    Edit,
}

/// One row of the browser; paths are kept as text.
#[derive(Debug)]
pub struct BrowserEntry {
    pub kind: BrowserEntryKind,
    pub path: String,
    pub label: String,
}

impl StatsFilterFocus {
    pub fn label(self) -> (r: &'static str)
        ensures
            r@ == (match self {
                StatsFilterFocus::Range(_) => "Range"@,
                StatsFilterFocus::Sort(_) => "Sort"@,
                StatsFilterFocus::Artist => "Artist"@,
                StatsFilterFocus::Album => "Album"@,
                StatsFilterFocus::Search => "Search"@,
            }),
    {
        match self {
            StatsFilterFocus::Range(_) => "Range",
            StatsFilterFocus::Sort(_) => "Sort",
            StatsFilterFocus::Artist => "Artist",
            StatsFilterFocus::Album => "Album",
            StatsFilterFocus::Search => "Search",
        }
    }
}

pub open spec fn section_after(s: HeaderSection) -> HeaderSection {
    match s {
        HeaderSection::Library => HeaderSection::Lyrics,
        HeaderSection::Lyrics => HeaderSection::Stats,
        HeaderSection::Stats => HeaderSection::Online,
        HeaderSection::Online => HeaderSection::Library,
    }
}

impl HeaderSection {
    /// The next tab of the header, wrapping around after the last.
    pub fn next(self) -> (r: Self)
        ensures
            r == section_after(self),
    {
        match self {
            HeaderSection::Library => HeaderSection::Lyrics,
            HeaderSection::Lyrics => HeaderSection::Stats,
            HeaderSection::Stats => HeaderSection::Online,
            HeaderSection::Online => HeaderSection::Library,
        }
    }

    pub fn label(self) -> (r: &'static str)
        ensures
            r@ == (match self {
                HeaderSection::Library => "Library"@,
                HeaderSection::Lyrics => "Lyrics"@,
                HeaderSection::Stats => "Stats"@,
                HeaderSection::Online => "Online"@,
            }),
    {
        match self {
            HeaderSection::Library => "Library",
            HeaderSection::Lyrics => "Lyrics",
            HeaderSection::Stats => "Stats",
            HeaderSection::Online => "Online",
        }
    }
}

/// Cycling the header four times comes back to the same tab.
pub proof fn header_cycle_has_period_four(s: HeaderSection)
    ensures
        section_after(section_after(section_after(section_after(s)))) == s,
        section_after(s) != s,
{
}

// ---------------------------------------------------------------------------
// Moving through the play queue
// ---------------------------------------------------------------------------

/// The queue position after `current`: the same one in loop-one mode, the following one
/// (none past the end) in normal mode, the following one wrapping around in loop mode, and
/// the entry after the cursor in the shuffle order.
pub open spec fn next_position(
    mode: LegacyPlaybackMode,
    current: nat,
    len: nat,
    order: Seq<usize>,
    cursor: nat,
) -> (Option<nat>, nat) {
    match mode {
        LegacyPlaybackMode::LoopOne => (Some(current), cursor),
        LegacyPlaybackMode::Normal => (if current + 1 < len { Some(current + 1) } else { None }, cursor),
        LegacyPlaybackMode::Loop => (if len == 0 { None } else { Some((((current + 1) as int) % (len as int)) as nat) }, cursor),
        LegacyPlaybackMode::Shuffle => if order.len() == 0 {
            (None, cursor)
        } else {
            let base = shuffle_base(order, current, cursor);
            let c = (((base + 1) as int) % (order.len() as int)) as nat;
            (Some(order[c as int] as nat), c)
        },
    }
}

/// The position before `current`, mirroring `next_position`; in shuffle mode there is none
/// when a stale cursor points past the order.
pub open spec fn prev_position(
    mode: LegacyPlaybackMode,
    current: nat,
    len: nat,
    order: Seq<usize>,
    cursor: nat,
) -> (Option<nat>, nat) {
    match mode {
        LegacyPlaybackMode::LoopOne => (Some(current), cursor),
        LegacyPlaybackMode::Normal => (if current > 0 { Some((current - 1) as nat) } else { None }, cursor),
        LegacyPlaybackMode::Loop => (if len == 0 {
            None
        } else if current == 0 {
            Some((len - 1) as nat)
        } else {
            Some((current - 1) as nat)
        }, cursor),
        LegacyPlaybackMode::Shuffle => if order.len() == 0 {
            (None, cursor)
        } else {
            let base = shuffle_base(order, current, cursor);
            let c = if base == 0 { (order.len() - 1) as nat } else { (base - 1) as nat };
            (if c < order.len() { Some(order[c as int] as nat) } else { None }, c)
        },
    }
}

/// Where the shuffle cursor stands for `current`: its first place in the order, or the
/// cursor as it was when it is not in the order.
pub open spec fn shuffle_base(order: Seq<usize>, current: nat, cursor: nat) -> nat {
    if exists|i: int| 0 <= i < order.len() && order[i] == current && forall|j: int|
        0 <= j < i ==> order[j] != current {
        (choose|i: int| 0 <= i < order.len() && order[i] == current && forall|j: int|
            0 <= j < i ==> order[j] != current) as nat
    } else {
        cursor
    }
}

fn shuffle_base_exec(order: &Vec<usize>, current: usize, cursor: usize) -> (r: usize)
    ensures
        r == shuffle_base(order@, current as nat, cursor as nat),
{
    let mut i: usize = 0;
    while i < order.len()
        invariant
            i <= order.len(),
            forall|j: int| 0 <= j < i ==> order@[j] != current,
        decreases order.len() - i,
    {
        if order[i] == current {
            proof {
                let k = choose|k: int| 0 <= k < order@.len() && order@[k] == current && forall|j: int|
                    0 <= j < k ==> order@[j] != current;
                if k < i {
                    assert(order@[k] != current);
                }
                if i < k {
                    assert(order@[i as int] != current);
                }
            }
            return i;
        }
        i += 1;
    }
    cursor
}

/// The queue position that plays after `current`, and the shuffle cursor after the move.
pub fn next_queue_index(
    mode: LegacyPlaybackMode,
    current: usize,
    queue_len: usize,
    shuffle_order: &Vec<usize>,
    shuffle_cursor: usize,
) -> (r: (Option<usize>, usize))
    ensures
        ({
            let (p, c) = next_position(mode, current as nat, queue_len as nat, shuffle_order@, shuffle_cursor as nat);
            &&& r.1 == c
            &&& match r.0 {
                Some(i) => p == Some(i as nat),
                None => p is None,
            }
        }),
{
    match mode {
        LegacyPlaybackMode::LoopOne => (Some(current), shuffle_cursor),
        LegacyPlaybackMode::Normal => {
            if current < queue_len && current + 1 < queue_len {
                (Some(current + 1), shuffle_cursor)
            } else {
                (None, shuffle_cursor)
            }
        },
        LegacyPlaybackMode::Loop => {
            if queue_len == 0 {
                (None, shuffle_cursor)
            } else {
                (Some(((current as u128 + 1) % (queue_len as u128)) as usize), shuffle_cursor)
            }
        },
        LegacyPlaybackMode::Shuffle => {
            if shuffle_order.len() == 0 {
                return (None, shuffle_cursor);
            }
            let base = shuffle_base_exec(shuffle_order, current, shuffle_cursor);
            let c = ((base as u128 + 1) % (shuffle_order.len() as u128)) as usize;
            (Some(shuffle_order[c]), c)
        },
    }
}

/// The queue position that plays before `current`, and the shuffle cursor after the move.
pub fn prev_queue_index(
    mode: LegacyPlaybackMode,
    current: usize,
    queue_len: usize,
    shuffle_order: &Vec<usize>,
    shuffle_cursor: usize,
) -> (r: (Option<usize>, usize))
    ensures
        ({
            let (p, c) = prev_position(mode, current as nat, queue_len as nat, shuffle_order@, shuffle_cursor as nat);
            &&& r.1 == c
            &&& match r.0 {
                Some(i) => p == Some(i as nat),
                None => p is None,
            }
        }),
{
    match mode {
        LegacyPlaybackMode::LoopOne => (Some(current), shuffle_cursor),
        LegacyPlaybackMode::Normal => {
            if current > 0 {
                (Some(current - 1), shuffle_cursor)
            } else {
                (None, shuffle_cursor)
            }
        },
        LegacyPlaybackMode::Loop => {
            if queue_len == 0 {
                (None, shuffle_cursor)
            } else if current == 0 {
                (Some(queue_len - 1), shuffle_cursor)
            } else {
                (Some(current - 1), shuffle_cursor)
            }
        },
        LegacyPlaybackMode::Shuffle => {
            if shuffle_order.len() == 0 {
                return (None, shuffle_cursor);
            }
            let base = shuffle_base_exec(shuffle_order, current, shuffle_cursor);
            let c = if base == 0 {
                shuffle_order.len() - 1
            } else {
                base - 1
            };
            if c < shuffle_order.len() {
                (Some(shuffle_order[c]), c)
            } else {
                (None, c)
            }
        },
    }
}

/// In loop mode, stepping forward and then back returns to the same queue position.
pub proof fn loop_mode_step_back_undoes_step(current: nat, len: nat, order: Seq<usize>, cursor: nat)
    requires
        current < len,
    ensures
        ({
            let n = next_position(LegacyPlaybackMode::Loop, current, len, order, cursor).0;
            n is Some && prev_position(LegacyPlaybackMode::Loop, n->0, len, order, cursor).0 == Some(current)
        }),
{
    if current + 1 < len {
        assert(((current + 1) as int) % (len as int) == current + 1) by {
            vstd::arithmetic::div_mod::lemma_small_mod((current + 1) as nat, len);
        }
    } else {
        assert(((current + 1) as int) % (len as int) == 0) by {
            vstd::arithmetic::div_mod::lemma_mod_self_0(len as int);
        }
    }
}

/// In normal and loop modes the track before is the one just before it in the queue (in
/// loop mode the last one before the first), and stepping forward from it returns to the
/// track that was playing.
pub proof fn step_back_is_one_back(mode: LegacyPlaybackMode, current: nat, len: nat, order: Seq<usize>, cursor: nat)
    requires
        mode == LegacyPlaybackMode::Normal || mode == LegacyPlaybackMode::Loop,
        current < len,
        mode == LegacyPlaybackMode::Normal ==> current > 0,
    ensures
        ({
            let p = prev_position(mode, current, len, order, cursor).0;
            &&& p is Some
            &&& p->0 < len
            &&& current > 0 ==> p->0 + 1 == current
            &&& current == 0 ==> p->0 + 1 == len
            &&& next_position(mode, p->0, len, order, cursor).0 == Some(current)
        }),
{
    if mode == LegacyPlaybackMode::Loop {
        if current > 0 {
            assert(((current) as int) % (len as int) == current) by {
                vstd::arithmetic::div_mod::lemma_small_mod(current, len);
            }
        } else {
            assert((len as int) % (len as int) == 0) by {
                vstd::arithmetic::div_mod::lemma_mod_self_0(len as int);
            }
        }
    }
}

/// In normal mode there is no track before the first one.
pub proof fn normal_mode_has_nothing_before_first(len: nat, order: Seq<usize>, cursor: nat)
    ensures
        prev_position(LegacyPlaybackMode::Normal, 0, len, order, cursor).0 is None,
{
}

/// Moving forward in loop-one mode keeps the track; in shuffle mode it moves to a position
/// taken from the shuffle order.
pub proof fn forward_step_follows_mode(current: nat, len: nat, order: Seq<usize>, cursor: nat)
    ensures
        next_position(LegacyPlaybackMode::LoopOne, current, len, order, cursor).0 == Some(current),
        order.len() > 0 ==> ({
            let n = next_position(LegacyPlaybackMode::Shuffle, current, len, order, cursor);
            n.0 is Some && n.1 < order.len() && order[n.1 as int] as nat == n.0->0
        }),
        current + 1 < len ==> next_position(LegacyPlaybackMode::Normal, current, len, order, cursor).0 == Some(current + 1),
        current + 1 >= len ==> next_position(LegacyPlaybackMode::Normal, current, len, order, cursor).0 is None,
{
    if order.len() > 0 {
        let base = shuffle_base(order, current, cursor);
        vstd::arithmetic::div_mod::lemma_mod_bound((base + 1) as int, order.len() as int);
    }
}

// ---------------------------------------------------------------------------
// Following the lyrics while a track plays
// ---------------------------------------------------------------------------

/// The last timed line, before the first timed line that starts after `position_ms`, whose
/// timestamp has been reached; untimed lines are passed over.
pub open spec fn active_line(lines: Seq<LineView>, position_ms: u32) -> Option<nat>
    decreases lines.len(),
{
    active_line_from(lines, position_ms, 0, None)
}

pub open spec fn active_line_from(lines: Seq<LineView>, position_ms: u32, i: nat, current: Option<nat>) -> Option<nat>
    decreases lines.len() - i,
{
    if i >= lines.len() {
        current
    } else {
        match lines[i as int].timestamp_ms {
            None => active_line_from(lines, position_ms, i + 1, current),
            Some(ts) => if ts <= position_ms {
                active_line_from(lines, position_ms, i + 1, Some(i))
            } else {
                current
            },
        }
    }
}

/// The lyric line to highlight at a playback position in milliseconds.
pub fn active_lyric_line_for_position(lines: &Vec<LyricLine>, position_ms: u32) -> (r: Option<usize>)
    ensures
        match r {
            Some(i) => active_line(lines_view(lines@), position_ms) == Some(i as nat),
            None => active_line(lines_view(lines@), position_ms) is None,
        },
{
    let ghost ls = lines_view(lines@);
    let mut current: Option<usize> = None;
    let mut i: usize = 0;
    while i < lines.len()
        invariant
            i <= lines.len(),
            ls == lines_view(lines@),
            current matches Some(c) ==> c < i,
            active_line(ls, position_ms) == active_line_from(
                ls,
                position_ms,
                i as nat,
                match current {
                    Some(c) => Some(c as nat),
                    None => None,
                },
            ),
        decreases lines.len() - i,
    {
        assert(ls[i as int] == lines@[i as int]@);
        match lines[i].timestamp_ms {
            None => {},
            Some(ts) => {
                if ts <= position_ms {
                    current = Some(i);
                } else {
                    return current;
                }
            },
        }
        i += 1;
    }
    current
}

/// The selected lyric line after moving one line down or up, kept within the document.
pub fn lyrics_move_selection(selected: usize, line_count: usize, down: bool) -> (r: usize)
    ensures
        line_count == 0 ==> r == 0,
        line_count > 0 && down ==> r == (if selected + 1 < line_count {
            selected + 1
        } else {
            line_count - 1
        }),
        line_count > 0 && !down ==> r == (if selected > 0 {
            selected - 1
        } else {
            0
        }),
{
    if line_count == 0 {
        return 0;
    }
    if down {
        if selected < line_count - 1 {
            selected + 1
        } else {
            line_count - 1
        }
    } else {
        if selected > 0 {
            selected - 1
        } else {
            0
        }
    }
}

/// A saved scrub step is kept when it is one of the offered steps, else the first.
pub fn normalize_scrub_seconds(seconds: u16) -> (r: u16)
    ensures
        r == (if seconds == 5 || seconds == 10 || seconds == 15 || seconds == 30 || seconds == 60 {
            seconds
        } else {
            5
        }),
{
    if seconds == 5 || seconds == 10 || seconds == 15 || seconds == 30 || seconds == 60 {
        seconds
    } else {
        5
    }
}

} // verus!

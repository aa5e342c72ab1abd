use crate::browser::{active_line, active_lyric_line_for_position};
use crate::lyrics::{
    lines_view, sort_lines, sort_lines_by_timestamp, LineView, LyricLine, LyricsDocument,
};
use crate::text::{chars_of, string_from_chars, string_push};
use vstd::prelude::*;

verus! {

// ---------------------------------------------------------------------------
// Editing the lyrics of the playing track
// ---------------------------------------------------------------------------

/// The lyrics document being edited, the selected line and whether the screen needs a
/// redraw.
pub struct LyricsEditor {
    pub lyrics: Option<LyricsDocument>,
    pub selected_line: usize,
    pub dirty: bool,
}

pub open spec fn doc_lines(e: &LyricsEditor) -> Option<Seq<LineView>> {
    match e.lyrics {
        Some(d) => Some(lines_view(d.lines@)),
        None => None,
    }
}

/// Only the lines of the document change; its source and precision stay.
pub open spec fn same_document_kind(a: &LyricsEditor, b: &LyricsEditor) -> bool {
    match (a.lyrics, b.lyrics) {
        (Some(x), Some(y)) => x.source == y.source && x.precision == y.precision,
        (None, None) => true,
        _ => false,
    }
}

/// The text of line `i` with `ch` appended.
pub open spec fn with_char(ls: Seq<LineView>, i: int, ch: char) -> Seq<LineView> {
    ls.update(i, LineView { text: ls[i].text.push(ch), ..ls[i] })
}

/// The text of line `i` without its last character.
pub open spec fn without_last_char(ls: Seq<LineView>, i: int) -> Seq<LineView> {
    ls.update(i, LineView { text: ls[i].text.drop_last(), ..ls[i] })
}

impl LyricsEditor {
    /// Types a character into the selected line; an empty document first gets an empty line.
    pub fn insert_char(&mut self, ch: char)
        ensures
            same_document_kind(final(self), old(self)),
            old(self).lyrics is None ==> doc_lines(final(self)) == doc_lines(old(self))
                && final(self).selected_line == old(self).selected_line && final(self).dirty == old(self).dirty,
            ({
                let ls = doc_lines(old(self));
                let l = ls->0;
                &&& (ls is Some && l.len() == 0) ==> doc_lines(final(self)) == Some(
                    seq![LineView { timestamp_ms: None, text: seq![ch] }],
                ) && final(self).selected_line == 0 && final(self).dirty
                &&& (ls is Some && l.len() > 0 && old(self).selected_line < l.len()) ==> doc_lines(final(self)) == Some(
                    with_char(l, old(self).selected_line as int, ch),
                ) && final(self).selected_line == old(self).selected_line && final(self).dirty
                &&& (ls is Some && l.len() > 0 && old(self).selected_line >= l.len()) ==> doc_lines(final(self))
                    == ls && final(self).selected_line == old(self).selected_line && final(self).dirty
                    == old(self).dirty
            }),
    {
        match &mut self.lyrics {
            None => {},
            Some(doc) => {
                if doc.lines.len() == 0 {
                    doc.lines.push(LyricLine { timestamp_ms: None, text: String::new() });
                    self.selected_line = 0;
                }
                let i = self.selected_line;
                if i < doc.lines.len() {
                    let ghost before = lines_view(doc.lines@);
                    string_push(&mut doc.lines[i].text, ch);
                    assert(lines_view(doc.lines@) =~= with_char(before, i as int, ch));
                    self.dirty = true;
                }
            },
        }
    }

    /// Deletes the last character of the selected line.
    pub fn backspace(&mut self)
        ensures
            same_document_kind(final(self), old(self)),
            final(self).selected_line == old(self).selected_line,
            ({
                let ls = doc_lines(old(self));
                let l = ls->0;
                let hit = ls is Some && old(self).selected_line < l.len() && l[old(self).selected_line as int].text.len() > 0;
                &&& hit ==> doc_lines(final(self)) == Some(without_last_char(l, old(self).selected_line as int))
                    && final(self).dirty
                &&& !hit ==> doc_lines(final(self)) == ls && final(self).dirty == old(self).dirty
            }),
    {
        match &mut self.lyrics {
            None => {},
            Some(doc) => {
                let i = self.selected_line;
                if i < doc.lines.len() {
                    let ghost before = lines_view(doc.lines@);
                    assert(before[i as int] == doc.lines@[i as int]@);
                    let cs = chars_of(doc.lines[i].text.as_str());
                    if cs.len() > 0 {
                        let shorter = string_from_chars(&cs.as_slice()[0..cs.len() - 1]);
                        assert(shorter@ =~= before[i as int].text.drop_last());
                        doc.lines[i].text = shorter;
                        assert(lines_view(doc.lines@) =~= without_last_char(before, i as int));
                        self.dirty = true;
                    }
                }
            },
        }
    }

    /// Opens an empty line after the selected one, carrying its timestamp, and selects it.
    pub fn insert_line_after(&mut self)
        ensures
            same_document_kind(final(self), old(self)),
            old(self).lyrics is None ==> doc_lines(final(self)) == doc_lines(old(self))
                && final(self).selected_line == old(self).selected_line && final(self).dirty == old(self).dirty,
            ({
                let ls = doc_lines(old(self));
                let l = ls->0;
                let sel = old(self).selected_line as int;
                ls is Some ==> {
                    let at = if sel + 1 < l.len() { sel + 1 } else { l.len() as int };
                    let ts = if sel < l.len() { l[sel].timestamp_ms } else { None };
                    &&& doc_lines(final(self)) == Some(l.insert(at, LineView { timestamp_ms: ts, text: seq![] }))
                    &&& final(self).selected_line == at
                    &&& final(self).dirty
                }
            }),
    {
        match &mut self.lyrics {
            None => {},
            Some(doc) => {
                let ghost before = lines_view(doc.lines@);
                let sel = self.selected_line;
                let insert_at = if sel < doc.lines.len() {
                    sel + 1
                } else {
                    doc.lines.len()
                };
                let ts = if sel < doc.lines.len() {
                    assert(before[sel as int] == doc.lines@[sel as int]@);
                    doc.lines[sel].timestamp_ms
                } else {
                    None
                };
                doc.lines.insert(insert_at, LyricLine { timestamp_ms: ts, text: String::new() });
                assert(lines_view(doc.lines@) =~= before.insert(insert_at as int, LineView { timestamp_ms: ts, text: seq![] }));
                self.selected_line = insert_at;
                self.dirty = true;
            },
        }
    }

    /// Deletes the selected line and keeps the selection within the document.
    pub fn delete_selected_line(&mut self)
        ensures
            same_document_kind(final(self), old(self)),
            ({
                let ls = doc_lines(old(self));
                let l = ls->0;
                let sel = old(self).selected_line as int;
                (ls is Some && l.len() > 0) ==> {
                    let after = if sel < l.len() { l.remove(sel) } else { l };
                    &&& doc_lines(final(self)) == Some(after)
                    &&& final(self).selected_line == (if after.len() == 0 {
                        0
                    } else if sel < after.len() {
                        sel
                    } else {
                        after.len() - 1
                    })
                    &&& final(self).dirty
                }
            }),
            ({
                let ls = doc_lines(old(self));
                !(ls is Some && ls->0.len() > 0) ==> doc_lines(final(self)) == ls
                    && final(self).selected_line == old(self).selected_line && final(self).dirty == old(self).dirty
            }),
    {
        match &mut self.lyrics {
            None => {},
            Some(doc) => {
                if doc.lines.len() == 0 {
                    return ;
                }
                let ghost before = lines_view(doc.lines@);
                let sel = self.selected_line;
                if sel < doc.lines.len() {
                    doc.lines.remove(sel);
                    assert(lines_view(doc.lines@) =~= before.remove(sel as int));
                }
                if doc.lines.len() == 0 {
                    self.selected_line = 0;
                } else if sel >= doc.lines.len() {
                    self.selected_line = doc.lines.len() - 1;
                }
                self.dirty = true;
            },
        }
    }

    /// Moves the selection one line down or up within the document.
    pub fn move_selection(&mut self, down: bool)
        ensures
            same_document_kind(final(self), old(self)),
            doc_lines(final(self)) == doc_lines(old(self)),
            ({
                let ls = doc_lines(old(self));
                let sel = old(self).selected_line;
                &&& ls is None ==> final(self).selected_line == sel && final(self).dirty == old(self).dirty
                &&& (ls is Some && ls->0.len() == 0) ==> final(self).selected_line == 0 && final(self).dirty
                    == old(self).dirty
                &&& (ls is Some && ls->0.len() > 0) ==> final(self).dirty && final(self).selected_line == (if down {
                    if sel + 1 < ls->0.len() { sel + 1 } else { ls->0.len() - 1 }
                } else {
                    if sel > 0 { sel - 1 } else { 0 }
                })
            }),
    {
        match &self.lyrics {
            None => {},
            Some(doc) => {
                let n = doc.lines.len();
                if n == 0 {
                    self.selected_line = 0;
                    return ;
                }
                self.selected_line = crate::browser::lyrics_move_selection(self.selected_line, n, down);
                self.dirty = true;
            },
        }
    }

    /// Selects the line playing at the position, when one is.
    pub fn sync_highlight_to_position(&mut self, position_ms: Option<u32>)
        ensures
            same_document_kind(final(self), old(self)),
            doc_lines(final(self)) == doc_lines(old(self)),
            ({
                let ls = doc_lines(old(self));
                let active = match (ls, position_ms) {
                    (Some(l), Some(p)) => active_line(l, p),
                    _ => None,
                };
                &&& (active is Some && active->0 != old(self).selected_line) ==> final(self).selected_line == active->0
                    && final(self).dirty
                &&& !(active is Some && active->0 != old(self).selected_line) ==> final(self).selected_line
                    == old(self).selected_line && final(self).dirty == old(self).dirty
            }),
    {
        let p = match position_ms {
            Some(p) => p,
            None => return ,
        };
        let active = match &self.lyrics {
            Some(doc) => active_lyric_line_for_position(&doc.lines, p),
            None => None,
        };
        match active {
            Some(a) => {
                if a != self.selected_line {
                    self.selected_line = a;
                    self.dirty = true;
                }
            },
            None => {},
        }
    }

    /// Stamps the selected line with the playback position (in milliseconds), keeps the lines
    /// in time order and selects the line playing at that position. Without a position the
    /// message to show is returned and nothing changes.
    pub fn stamp_selected_line(&mut self, position_ms: Option<u32>) -> (r: Option<&'static str>)
        ensures
            same_document_kind(final(self), old(self)),
            position_ms is None ==> (r is Some && r->0@ == "Cannot stamp timestamp without playback position"@
                && doc_lines(final(self)) == doc_lines(old(self))
                && final(self).selected_line == old(self).selected_line && final(self).dirty),
            position_ms is Some ==> r is None,
            ({
                let ls = doc_lines(old(self));
                let l = ls->0;
                let p = position_ms->0;
                let sel = old(self).selected_line as int;
                (position_ms is Some && ls is Some && sel < l.len()) ==> {
                    let stamped = sort_lines(l.update(sel, LineView { timestamp_ms: Some(p), ..l[sel] }));
                    &&& doc_lines(final(self)) == Some(stamped)
                    &&& final(self).selected_line == (match active_line(stamped, p) {
                        Some(a) => a,
                        None => sel as nat,
                    })
                    &&& final(self).dirty
                }
            }),
            ({
                let ls = doc_lines(old(self));
                position_ms is Some && !(ls is Some && old(self).selected_line < ls->0.len()) ==> doc_lines(
                    final(self),
                ) == ls && final(self).selected_line == old(self).selected_line && final(self).dirty == old(self).dirty
            }),
    {
        let p = match position_ms {
            Some(p) => p,
            None => {
                self.dirty = true;
                return Some("Cannot stamp timestamp without playback position");
            },
        };
        let sel = self.selected_line;
        match &mut self.lyrics {
            None => None,
            Some(doc) => {
                if sel >= doc.lines.len() {
                    return None;
                }
                let ghost before = lines_view(doc.lines@);
                doc.lines[sel].timestamp_ms = Some(p);
                let ghost stamped = lines_view(doc.lines@);
                assert(stamped =~= before.update(sel as int, LineView { timestamp_ms: Some(p), ..before[sel as int] }));
                let mut lines: Vec<LyricLine> = Vec::new();
                std::mem::swap(&mut lines, &mut doc.lines);
                assert(lines_view(lines@) == stamped);
                doc.lines = sort_lines_by_timestamp(lines);
                let active = active_lyric_line_for_position(&doc.lines, p);
                self.selected_line = match active {
                    Some(a) => a,
                    None => sel,
                };
                self.dirty = true;
                None
            },
        }
    }
}

} // verus!

//! The lyrics tab: which track's lyrics are shown, whether they are being edited, and the
//! offer to create them when the track has none. Reading and writing the sidecar files is
//! left to the caller, who reports back.

use crate::browser::{HeaderSection, LyricsMode};
use crate::editor::LyricsEditor;
use crate::lyrics::{LyricLine, LyricsDocument, LyricsSource, LyricsTimingPrecision};
use crate::paths::same_path;
use crate::text::{ascii_lower, chars_of, extend_str, string_from_chars};
use crate::tune_core::{with_status, TuneCore};
use vstd::prelude::*;

verus! {

/// The lyrics of the playing track and the tab's state around them.
pub struct LyricsTab {
    pub editor: LyricsEditor,
    pub track_path: Option<String>,
    pub mode: LyricsMode,
    pub missing_prompt: bool,
    pub creation_declined: bool,
}

#[derive(Debug, Clone, Copy, PartialEq, Eq, Structural)]
pub enum LyricsKeyCode {
    Char(char),
    Enter,
    Esc,
    Backspace,
    Delete,
    Up,
    Down,
    Tab,
    Other,
}

#[derive(Debug, Clone, Copy, PartialEq, Eq, Structural)]
pub struct LyricsKey {
    pub code: LyricsKeyCode,
    pub ctrl: bool,
}

/// What a key does on the lyrics tab.
#[derive(Debug, Clone, Copy, PartialEq, Eq, Structural)]
pub enum LyricsKeyAction {
    /// Not for the lyrics tab.
    PassOn,
    /// Taken by the tab, with nothing to do.
    Swallow,
    /// Create an empty lyrics file for the track (`LyricsTab::creation_target`).
    CreateSidecar,
    /// Do not offer to create lyrics for this track again.
    DeclineCreation,
    /// Switch between viewing and editing (`LyricsTab::toggle_mode`).
    ToggleMode,
    MoveUp,
    MoveDown,
    Backspace,
    NewLine,
    DeleteLine,
    /// Stamp the selected line with the playback position.
    Stamp,
    Insert(char),
}

pub open spec fn is_letter(code: LyricsKeyCode, c: char) -> bool {
    code matches LyricsKeyCode::Char(ch) && ascii_lower(ch) == c
}

/// The lyrics tab's keys. Tab and `/` go on to the player. While the tab offers to create
/// lyrics, Enter creates them and Esc or Backspace declines; otherwise Control-E switches
/// between viewing and editing, the arrows move the selection, and in edit mode Backspace,
/// Enter, Delete, Control-T and plain characters edit the lines.
pub open spec fn lyrics_key(header: HeaderSection, missing_prompt: bool, mode: LyricsMode, key: LyricsKey) -> LyricsKeyAction {
    if header != HeaderSection::Lyrics || key.code is Tab || key.code == LyricsKeyCode::Char('/') {
        LyricsKeyAction::PassOn
    } else if missing_prompt {
        match key.code {
            LyricsKeyCode::Enter => LyricsKeyAction::CreateSidecar,
            LyricsKeyCode::Esc => LyricsKeyAction::DeclineCreation,
            LyricsKeyCode::Backspace => LyricsKeyAction::DeclineCreation,
            _ => LyricsKeyAction::Swallow,
        }
    } else if key.ctrl && is_letter(key.code, 'e') {
        LyricsKeyAction::ToggleMode
    } else {
        match key.code {
            LyricsKeyCode::Up => LyricsKeyAction::MoveUp,
            LyricsKeyCode::Down => LyricsKeyAction::MoveDown,
            LyricsKeyCode::Backspace => if mode == LyricsMode::Edit {
                LyricsKeyAction::Backspace
            } else {
                LyricsKeyAction::PassOn
            },
            LyricsKeyCode::Enter => if mode == LyricsMode::Edit {
                LyricsKeyAction::NewLine
            } else {
                LyricsKeyAction::PassOn
            },
            LyricsKeyCode::Delete => if mode == LyricsMode::Edit {
                LyricsKeyAction::DeleteLine
            } else {
                LyricsKeyAction::PassOn
            },
            LyricsKeyCode::Char(ch) => if mode != LyricsMode::Edit {
                LyricsKeyAction::PassOn
            } else if key.ctrl && ascii_lower(ch) == 't' {
                LyricsKeyAction::Stamp
            } else if !key.ctrl {
                LyricsKeyAction::Insert(ch)
            } else {
                LyricsKeyAction::PassOn
            },
            _ => LyricsKeyAction::PassOn,
        }
    }
}

pub fn lyrics_key_action(core: &TuneCore, tab: &LyricsTab, key: LyricsKey) -> (r: LyricsKeyAction)
    ensures
        r == lyrics_key(core@.header_section, tab.missing_prompt, tab.mode, key),
{
    if core.header_section() != HeaderSection::Lyrics || key.code == LyricsKeyCode::Tab || key.code
        == LyricsKeyCode::Char('/') {
        return LyricsKeyAction::PassOn;
    }
    if tab.missing_prompt {
        return match key.code {
            LyricsKeyCode::Enter => LyricsKeyAction::CreateSidecar,
            LyricsKeyCode::Esc | LyricsKeyCode::Backspace => LyricsKeyAction::DeclineCreation,
            _ => LyricsKeyAction::Swallow,
        };
    }
    let letter: Option<char> = match key.code {
        LyricsKeyCode::Char(ch) => Some(crate::text::to_lower(ch)),
        _ => None,
    };
    if key.ctrl && letter == Some('e') {
        return LyricsKeyAction::ToggleMode;
    }
    let editing = tab.mode == LyricsMode::Edit;
    match key.code {
        LyricsKeyCode::Up => LyricsKeyAction::MoveUp,
        LyricsKeyCode::Down => LyricsKeyAction::MoveDown,
        LyricsKeyCode::Backspace => if editing {
            LyricsKeyAction::Backspace
        } else {
            LyricsKeyAction::PassOn
        },
        LyricsKeyCode::Enter => if editing {
            LyricsKeyAction::NewLine
        } else {
            LyricsKeyAction::PassOn
        },
        LyricsKeyCode::Delete => if editing {
            LyricsKeyAction::DeleteLine
        } else {
            LyricsKeyAction::PassOn
        },
        LyricsKeyCode::Char(ch) => if !editing {
            LyricsKeyAction::PassOn
        } else if key.ctrl && letter == Some('t') {
            LyricsKeyAction::Stamp
        } else if !key.ctrl {
            LyricsKeyAction::Insert(ch)
        } else {
            LyricsKeyAction::PassOn
        },
        _ => LyricsKeyAction::PassOn,
    }
}

fn joined_text(prefix: &str, tail: &str) -> (r: String)
    ensures
        r@ == prefix@ + tail@,
{
    let mut cs = chars_of(prefix);
    extend_str(&mut cs, tail);
    string_from_chars(cs.as_slice())
}

/// The document created for a track without lyrics: one empty, untimed line.
pub fn empty_lyrics_document() -> (r: LyricsDocument)
    ensures
        r.lines@.len() == 1,
        r.lines@[0].timestamp_ms is None,
        r.lines@[0].text@.len() == 0,
        r.source == LyricsSource::Created,
        r.precision == LyricsTimingPrecision::Untimed,
{
    let mut lines: Vec<LyricLine> = Vec::new();
    lines.push(LyricLine { timestamp_ms: None, text: String::new() });
    LyricsDocument { lines, source: LyricsSource::Created, precision: LyricsTimingPrecision::Untimed }
}

impl LyricsTab {
    /// No track, nothing loaded.
    pub fn new() -> (r: Self)
        ensures
            r.editor.lyrics is None,
            r.editor.selected_line == 0,
            r.track_path is None,
            r.mode == LyricsMode::View,
            !r.missing_prompt,
            !r.creation_declined,
    {
        LyricsTab {
            editor: LyricsEditor { lyrics: None, selected_line: 0, dirty: false },
            track_path: None,
            mode: LyricsMode::View,
            missing_prompt: false,
            creation_declined: false,
        }
    }

    /// Follows the playing track. Without one, everything is cleared; for the track already
    /// followed nothing changes; for another track the tab starts over on it (viewing, first
    /// line) and its path is returned for the caller to load its lyrics and hand them to
    /// `lyrics_loaded`.
    pub fn sync_for_track(&mut self, track: Option<&str>) -> (r: Option<String>)
        ensures
            match track {
                None => r is None && final(self).editor.lyrics is None && final(self).track_path is None
                    && final(self).mode == LyricsMode::View && final(self).editor.selected_line == 0
                    && !final(self).missing_prompt && !final(self).creation_declined,
                Some(p) => if (old(self).track_path matches Some(c) && same_path(c@, p@)) {
                    r is None && *final(self) == *old(self)
                } else {
                    &&& r matches Some(q) && q@ == p@
                    &&& final(self).track_path matches Some(q) && q@ == p@
                    &&& final(self).mode == LyricsMode::View
                    &&& final(self).editor.selected_line == 0
                    &&& !final(self).creation_declined
                    &&& final(self).editor.lyrics == old(self).editor.lyrics
                    &&& final(self).missing_prompt == old(self).missing_prompt
                },
            },
    {
        match track {
            None => {
                self.editor.lyrics = None;
                self.track_path = None;
                self.mode = LyricsMode::View;
                self.editor.selected_line = 0;
                self.missing_prompt = false;
                self.creation_declined = false;
                None
            },
            Some(p) => {
                let same = match &self.track_path {
                    Some(c) => {
                        let a = chars_of(c.as_str());
                        let b = chars_of(p);
                        crate::paths::paths_equal(a.as_slice(), b.as_slice())
                    },
                    None => false,
                };
                if same {
                    return None;
                }
                self.track_path = Some(p.to_owned());
                self.mode = LyricsMode::View;
                self.editor.selected_line = 0;
                self.creation_declined = false;
                Some(p.to_owned())
            },
        }
    }

    /// The lyrics read for the followed track: shown when found; when there are none the
    /// tab offers to create them; a failure is reported.
    pub fn lyrics_loaded(&mut self, core: &mut TuneCore, loaded: Result<Option<LyricsDocument>, String>)
        ensures
            final(self).track_path == old(self).track_path,
            final(self).mode == old(self).mode,
            final(self).editor.selected_line == old(self).editor.selected_line,
            final(self).creation_declined == old(self).creation_declined,
            match loaded {
                Ok(Some(doc)) => final(self).editor.lyrics == Some(doc) && !final(self).missing_prompt
                    && final(core)@ == old(core)@,
                Ok(None) => final(self).editor.lyrics is None && final(self).missing_prompt && final(core)@ == old(
                    core,
                )@,
                Err(e) => final(self).editor.lyrics is None && !final(self).missing_prompt && final(core)@
                    == with_status(old(core)@, "Lyrics load failed: "@ + e@),
            },
    {
        match loaded {
            Ok(Some(doc)) => {
                self.editor.lyrics = Some(doc);
                self.missing_prompt = false;
            },
            Ok(None) => {
                self.editor.lyrics = None;
                self.missing_prompt = true;
            },
            Err(e) => {
                self.editor.lyrics = None;
                self.missing_prompt = false;
                let msg = joined_text("Lyrics load failed: ", e.as_str());
                core.show_status(msg.as_str());
            },
        }
    }

    /// The user does not want lyrics for this track: the offer goes away.
    pub fn decline_creation(&mut self, core: &mut TuneCore)
        ensures
            !final(self).missing_prompt,
            final(self).creation_declined,
            final(self).editor == old(self).editor,
            final(self).track_path == old(self).track_path,
            final(self).mode == old(self).mode,
            final(core)@ == with_status(old(core)@, "Lyrics creation skipped"@),
    {
        self.missing_prompt = false;
        self.creation_declined = true;
        core.show_status("Lyrics creation skipped");
    }

    /// The track whose lyrics file is to be created or saved; without one this is reported.
    pub fn sidecar_target(&self, core: &mut TuneCore) -> (r: Option<String>)
        ensures
            match self.track_path {
                Some(p) => r matches Some(q) && q@ == p@ && final(core)@ == old(core)@,
                None => r is None && final(core)@ == with_status(old(core)@, "No active track for lyrics"@),
            },
    {
        match &self.track_path {
            Some(p) => Some(p.clone()),
            None => {
                core.show_status("No active track for lyrics");
                None
            },
        }
    }

    /// After writing the empty lyrics file (`empty_lyrics_document`) to `saved`: the tab edits
    /// it from its first line; a failure is reported.
    pub fn sidecar_created(&mut self, core: &mut TuneCore, written: Result<String, String>)
        ensures
            final(self).track_path == old(self).track_path,
            match written {
                Ok(saved) => {
                    &&& final(self).editor.lyrics matches Some(d) && d.lines@.len() == 1 && d.lines@[0].text@.len()
                        == 0 && d.lines@[0].timestamp_ms is None && d.source == LyricsSource::Created
                    &&& final(self).mode == LyricsMode::Edit
                    &&& final(self).editor.selected_line == 0
                    &&& !final(self).missing_prompt
                    &&& !final(self).creation_declined
                    &&& final(core)@ == with_status(old(core)@, "Created "@ + saved@)
                },
                Err(e) => *final(self) == *old(self) && final(core)@ == with_status(
                    old(core)@,
                    "Lyrics create failed: "@ + e@,
                ),
            },
    {
        match written {
            Ok(saved) => {
                self.editor.lyrics = Some(empty_lyrics_document());
                self.mode = LyricsMode::Edit;
                self.editor.selected_line = 0;
                self.missing_prompt = false;
                self.creation_declined = false;
                let msg = joined_text("Created ", saved.as_str());
                core.show_status(msg.as_str());
            },
            Err(e) => {
                let msg = joined_text("Lyrics create failed: ", e.as_str());
                core.show_status(msg.as_str());
            },
        }
    }

    /// Whether there are lyrics to save for the followed track; what is missing is reported.
    pub fn can_save(&self, core: &mut TuneCore) -> (r: bool)
        ensures
            r == (self.track_path is Some && self.editor.lyrics is Some),
            self.track_path is None ==> final(core)@ == with_status(old(core)@, "No active track for lyrics"@),
            self.track_path is Some && self.editor.lyrics is None ==> final(core)@ == with_status(
                old(core)@,
                "No lyrics loaded"@,
            ),
            r ==> final(core)@ == old(core)@,
    {
        if self.track_path.is_none() {
            core.show_status("No active track for lyrics");
            return false;
        }
        if self.editor.lyrics.is_none() {
            core.show_status("No lyrics loaded");
            return false;
        }
        true
    }

    /// After saving the lyrics file to `saved`, or failing to.
    pub fn sidecar_saved(core: &mut TuneCore, written: Result<String, String>)
        ensures
            final(core)@ == with_status(old(core)@, match written {
                Ok(saved) => "Saved "@ + saved@,
                Err(e) => "Lyrics save failed: "@ + e@,
            }),
    {
        let msg = match written {
            Ok(saved) => joined_text("Saved ", saved.as_str()),
            Err(e) => joined_text("Lyrics save failed: ", e.as_str()),
        };
        core.show_status(msg.as_str());
    }

    /// Switches between viewing and editing and says which; leaving the editor returns true,
    /// asking the caller to save the lyrics.
    pub fn toggle_mode(&mut self, core: &mut TuneCore) -> (save: bool)
        ensures
            final(self).mode == (if old(self).mode == LyricsMode::View {
                LyricsMode::Edit
            } else {
                LyricsMode::View
            }),
            save == (old(self).mode == LyricsMode::Edit),
            final(self).editor == old(self).editor,
            final(self).track_path == old(self).track_path,
            final(self).missing_prompt == old(self).missing_prompt,
            final(self).creation_declined == old(self).creation_declined,
            final(core)@ == with_status(old(core)@, if old(self).mode == LyricsMode::View {
                "Lyrics mode: Edit"@
            } else {
                "Lyrics mode: View"@
            }),
    {
        match self.mode {
            LyricsMode::View => {
                self.mode = LyricsMode::Edit;
                core.show_status("Lyrics mode: Edit");
                false
            },
            LyricsMode::Edit => {
                self.mode = LyricsMode::View;
                core.show_status("Lyrics mode: View");
                true
            },
        }
    }
}

} // verus!

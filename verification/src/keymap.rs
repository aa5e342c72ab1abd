//! The player's own keys, for keys that no panel, prompt or tab took.

use crate::browser::HeaderSection;
use crate::text::ascii_lower;
use vstd::prelude::*;

verus! {

#[derive(Debug, Clone, Copy, PartialEq, Eq, Structural)]
pub enum GlobalKeyCode {
    Char(char),
    Up,
    Down,
    Left,
    Enter,
    Backspace,
    Tab,
    Other,
}

#[derive(Debug, Clone, Copy, PartialEq, Eq, Structural)]
pub struct GlobalKey {
    pub code: GlobalKeyCode,
    pub ctrl: bool,
    pub shift: bool,
}

/// What a key asks the player to do.
#[derive(Debug, Clone, Copy, PartialEq, Eq, Structural)]
pub enum GlobalAction {
    Quit,
    /// Add the selection to the room's shared queue.
    QueueSelectionOnline,
    SelectNext,
    SelectPrev,
    /// Open the selected row; a track starts playing.
    Activate,
    NavigateBack,
    TogglePause,
    NextTrack,
    PrevTrack,
    ScrubBack,
    ScrubForward,
    CyclePlaybackMode,
    CycleSection,
    MinimizeToTray,
    /// Raise the volume by the fine step or the coarse one.
    VolumeUp { fine: bool },
    VolumeDown { fine: bool },
    Rescan,
    Save,
    OpenPanel,
    Nothing,
}

pub open spec fn letter(code: GlobalKeyCode, c: char) -> bool {
    code matches GlobalKeyCode::Char(ch) && ascii_lower(ch) == c
}

/// The player's keys: Control-C (or the character it sends) quits; Control-S on the library
/// queues the selection in the room; the arrows, Enter and Backspace browse; space pauses;
/// `n` and `b` skip; `a` and `d` scrub; `m` changes the playback mode; Tab the section; `t`
/// minimizes; `+`/`=` and `-`/`_` change the volume (`+`, `_` or Shift by the fine step);
/// `r` rescans, `s` saves and `/` opens the action panel. Letters ignore case.
pub open spec fn global_key(header: HeaderSection, key: GlobalKey) -> GlobalAction {
    if (key.ctrl && letter(key.code, 'c')) || key.code == GlobalKeyCode::Char('\u{3}') {
        GlobalAction::Quit
    } else if key.ctrl && letter(key.code, 's') && header == HeaderSection::Library {
        GlobalAction::QueueSelectionOnline
    } else {
        match key.code {
            GlobalKeyCode::Down => GlobalAction::SelectNext,
            GlobalKeyCode::Up => GlobalAction::SelectPrev,
            GlobalKeyCode::Enter => GlobalAction::Activate,
            GlobalKeyCode::Left => GlobalAction::NavigateBack,
            GlobalKeyCode::Backspace => GlobalAction::NavigateBack,
            GlobalKeyCode::Tab => GlobalAction::CycleSection,
            GlobalKeyCode::Char(ch) => if ch == ' ' {
                GlobalAction::TogglePause
            } else if ascii_lower(ch) == 'n' {
                GlobalAction::NextTrack
            } else if ascii_lower(ch) == 'b' {
                GlobalAction::PrevTrack
            } else if ch == 'a' || ch == 'A' {
                GlobalAction::ScrubBack
            } else if ch == 'd' || ch == 'D' {
                GlobalAction::ScrubForward
            } else if ascii_lower(ch) == 'm' {
                GlobalAction::CyclePlaybackMode
            } else if ascii_lower(ch) == 't' {
                GlobalAction::MinimizeToTray
            } else if ch == '+' || ch == '=' {
                GlobalAction::VolumeUp { fine: ch == '+' || key.shift }
            } else if ch == '-' || ch == '_' {
                GlobalAction::VolumeDown { fine: ch == '_' || key.shift }
            } else if ascii_lower(ch) == 'r' {
                GlobalAction::Rescan
            } else if ascii_lower(ch) == 's' {
                GlobalAction::Save
            } else if ch == '/' {
                GlobalAction::OpenPanel
            } else {
                GlobalAction::Nothing
            },
            GlobalKeyCode::Other => GlobalAction::Nothing,
        }
    }
}

pub fn global_key_action(header: HeaderSection, key: GlobalKey) -> (r: GlobalAction)
    ensures
        r == global_key(header, key),
{
    let lower: Option<char> = match key.code {
        GlobalKeyCode::Char(ch) => Some(crate::text::to_lower(ch)),
        _ => None,
    };
    if (key.ctrl && lower == Some('c')) || key.code == GlobalKeyCode::Char('\u{3}') {
        return GlobalAction::Quit;
    }
    if key.ctrl && lower == Some('s') && header == HeaderSection::Library {
        return GlobalAction::QueueSelectionOnline;
    }
    match key.code {
        GlobalKeyCode::Down => GlobalAction::SelectNext,
        GlobalKeyCode::Up => GlobalAction::SelectPrev,
        GlobalKeyCode::Enter => GlobalAction::Activate,
        GlobalKeyCode::Left | GlobalKeyCode::Backspace => GlobalAction::NavigateBack,
        GlobalKeyCode::Tab => GlobalAction::CycleSection,
        GlobalKeyCode::Char(ch) => {
            let l = crate::text::to_lower(ch);
            if ch == ' ' {
                GlobalAction::TogglePause
            } else if l == 'n' {
                GlobalAction::NextTrack
            } else if l == 'b' {
                GlobalAction::PrevTrack
            } else if ch == 'a' || ch == 'A' {
                GlobalAction::ScrubBack
            } else if ch == 'd' || ch == 'D' {
                GlobalAction::ScrubForward
            } else if l == 'm' {
                GlobalAction::CyclePlaybackMode
            } else if l == 't' {
                GlobalAction::MinimizeToTray
            } else if ch == '+' || ch == '=' {
                GlobalAction::VolumeUp { fine: ch == '+' || key.shift }
            } else if ch == '-' || ch == '_' {
                GlobalAction::VolumeDown { fine: ch == '_' || key.shift }
            } else if l == 'r' {
                GlobalAction::Rescan
            } else if l == 's' {
                GlobalAction::Save
            } else if ch == '/' {
                GlobalAction::OpenPanel
            } else {
                GlobalAction::Nothing
            }
        },
        GlobalKeyCode::Other => GlobalAction::Nothing,
    }
}

} // verus!

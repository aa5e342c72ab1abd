//! Keys on the online tab: the invite code and password prompts, the dialog that shows a
//! new room's invite code, and the tab's one-letter commands. Work with the clipboard, the
//! network or the room itself is handed back as an `OnlineRequest`.

use crate::browser::HeaderSection;
use crate::panel::{
    append_invite_char, append_password_char, invite_after_char, password_after_char,
    HostInviteModalButton, JoinPromptButton, OnlinePasswordPromptMode,
};
use crate::text::{
    ascii_lower, chars_of, decimal, extend_str, push_decimal, string_from_chars, sub_chars, trim,
    trimmed,
};
use crate::tune_core::{with_status, CoreView, TuneCore};
use vstd::prelude::*;

verus! {

#[derive(Debug, Clone, Copy, PartialEq, Eq, Structural)]
pub enum OnlineKeyCode {
    Char(char),
    Esc,
    Enter,
    Backspace,
    Tab,
    BackTab,
    Left,
    Right,
    Up,
    Down,
    Other,
}

/// A key and whether Control was held.
#[derive(Debug, Clone, Copy, PartialEq, Eq, Structural)]
pub struct OnlineKey {
    pub code: OnlineKeyCode,
    pub ctrl: bool,
}

/// The prompts and the invite dialog of the online tab.
#[derive(Debug)]
pub struct OnlinePrompts {
    pub join_prompt_active: bool,
    pub join_code_input: String,
    pub join_prompt_button: JoinPromptButton,
    pub password_prompt_active: bool,
    pub password_prompt_mode: OnlinePasswordPromptMode,
    pub password_input: String,
    pub pending_join_invite_code: String,
    pub room_code_revealed: bool,
    pub host_invite_modal_active: bool,
    pub host_invite_code: String,
    pub host_invite_button: HostInviteModalButton,
}

pub struct PromptsView {
    pub join_active: bool,
    pub join_code: Seq<char>,
    pub join_button: JoinPromptButton,
    pub password_active: bool,
    pub password_mode: OnlinePasswordPromptMode,
    pub password: Seq<char>,
    pub pending_invite: Seq<char>,
    pub room_code_revealed: bool,
    pub invite_modal_active: bool,
    pub invite_code: Seq<char>,
    pub invite_button: HostInviteModalButton,
}

impl View for OnlinePrompts {
    type V = PromptsView;

    open spec fn view(&self) -> PromptsView {
        PromptsView {
            join_active: self.join_prompt_active,
            join_code: self.join_code_input@,
            join_button: self.join_prompt_button,
            password_active: self.password_prompt_active,
            password_mode: self.password_prompt_mode,
            password: self.password_input@,
            pending_invite: self.pending_join_invite_code@,
            room_code_revealed: self.room_code_revealed,
            invite_modal_active: self.host_invite_modal_active,
            invite_code: self.host_invite_code@,
            invite_button: self.host_invite_button,
        }
    }
}

/// What a key asks of the caller.
#[derive(Debug)]
pub enum OnlineRequest {
    /// The key is not for the online tab: the rest of the player handles it.
    PassOn,
    /// The key was handled here.
    Done,
    /// Read the clipboard and hand its text to `finish_invite_paste`.
    PasteInvite,
    /// Copy the new room's invite code; report it with `finish_invite_copy`.
    CopyInvite(String),
    /// Copy the room code; report it with `finish_room_code_copy`.
    CopyRoomCode(String),
    /// Host a room protected by this password.
    HostRoom { password: String },
    /// Join the room of this invite code with this password.
    JoinRoom { invite_code: String, password: String },
    /// Leave the room: stop the network and forget the session.
    LeaveRoom,
    /// Switch the room between host-only and collaborative control, and tell the room.
    ToggleMode,
    /// Move to the next stream quality, and tell the room.
    CycleQuality,
}

pub enum RequestView {
    PassOn,
    Done,
    PasteInvite,
    CopyInvite(Seq<char>),
    CopyRoomCode(Seq<char>),
    HostRoom { password: Seq<char> },
    JoinRoom { invite_code: Seq<char>, password: Seq<char> },
    LeaveRoom,
    ToggleMode,
    CycleQuality,
}

impl View for OnlineRequest {
    type V = RequestView;

    open spec fn view(&self) -> RequestView {
        match self {
            OnlineRequest::PassOn => RequestView::PassOn,
            OnlineRequest::Done => RequestView::Done,
            OnlineRequest::PasteInvite => RequestView::PasteInvite,
            OnlineRequest::CopyInvite(c) => RequestView::CopyInvite(c@),
            OnlineRequest::CopyRoomCode(c) => RequestView::CopyRoomCode(c@),
            OnlineRequest::HostRoom { password } => RequestView::HostRoom { password: password@ },
            OnlineRequest::JoinRoom { invite_code, password } => RequestView::JoinRoom {
                invite_code: invite_code@,
                password: password@,
            },
            OnlineRequest::LeaveRoom => RequestView::LeaveRoom,
            OnlineRequest::ToggleMode => RequestView::ToggleMode,
            OnlineRequest::CycleQuality => RequestView::CycleQuality,
        }
    }
}

/// What a key does to the library's screen: nothing, a redraw, or a status message.
pub enum Note {
    Unchanged,
    Redraw,
    Status(Seq<char>),
}

pub open spec fn noted(v: CoreView, n: Note) -> CoreView {
    match n {
        Note::Unchanged => v,
        Note::Redraw => CoreView { dirty: true, ..v },
        Note::Status(m) => with_status(v, m),
    }
}

/// The prompts after a key, its mark on the screen and the request.
pub struct Step {
    pub prompts: PromptsView,
    pub note: Note,
    pub request: RequestView,
}

pub open spec fn step(prompts: PromptsView, note: Note, request: RequestView) -> Step {
    Step { prompts, note, request }
}

pub open spec fn passed(p: PromptsView) -> Step {
    step(p, Note::Unchanged, RequestView::PassOn)
}

/// The character key `c`, either case, whatever the modifiers.
pub open spec fn is_letter_key(code: OnlineKeyCode, c: char) -> bool {
    code matches OnlineKeyCode::Char(ch) && ascii_lower(ch) == ascii_lower(c)
}

/// Control with `c` always goes on to the player, which quits on it.
pub open spec fn is_ctrl_c(key: OnlineKey) -> bool {
    key.ctrl && is_letter_key(key.code, 'c')
}

pub open spec fn is_arrow_or_tab(code: OnlineKeyCode) -> bool {
    code is Up || code is Down || code is Left || code is Right || code is Tab || code is BackTab
}

/// The volume keys stay with the player on the online tab.
pub open spec fn allows_global_shortcut(code: OnlineKeyCode) -> bool {
    code == OnlineKeyCode::Char('+') || code == OnlineKeyCode::Char('=') || code == OnlineKeyCode::Char('-')
        || code == OnlineKeyCode::Char('_')
}

pub open spec fn password_length_note(pw: Seq<char>) -> Note {
    Note::Status("Password length: "@ + decimal(pw.len()))
}

/// The password prompt, open on the online tab.
pub open spec fn password_step(header: HeaderSection, p: PromptsView, key: OnlineKey) -> Step {
    if header != HeaderSection::Online || !p.password_active || is_ctrl_c(key) {
        passed(p)
    } else {
        match key.code {
            OnlineKeyCode::Esc => step(
                PromptsView { password_active: false, password: Seq::empty(), pending_invite: Seq::empty(), ..p },
                Note::Status("Password entry cancelled"@),
                RequestView::Done,
            ),
            OnlineKeyCode::Backspace => {
                let pw = if p.password.len() > 0 {
                    p.password.drop_last()
                } else {
                    p.password
                };
                step(PromptsView { password: pw, ..p }, password_length_note(pw), RequestView::Done)
            },
            OnlineKeyCode::Enter => {
                let pw = trim(p.password);
                if pw.len() == 0 {
                    step(p, Note::Status("Password is required"@), RequestView::Done)
                } else {
                    match p.password_mode {
                        OnlinePasswordPromptMode::Host => step(
                            PromptsView { password_active: false, password: Seq::empty(), ..p },
                            Note::Unchanged,
                            RequestView::HostRoom { password: pw },
                        ),
                        OnlinePasswordPromptMode::Join => {
                            let code = trim(p.pending_invite);
                            if code.len() == 0 {
                                step(p, Note::Status("Invite code missing"@), RequestView::Done)
                            } else {
                                step(
                                    PromptsView {
                                        password_active: false,
                                        password: Seq::empty(),
                                        pending_invite: Seq::empty(),
                                        ..p
                                    },
                                    Note::Unchanged,
                                    RequestView::JoinRoom { invite_code: code, password: pw },
                                )
                            }
                        },
                    }
                }
            },
            OnlineKeyCode::Char(c) => if key.ctrl {
                step(p, Note::Unchanged, RequestView::Done)
            } else {
                let pw = password_after_char(p.password, c);
                step(PromptsView { password: pw, ..p }, password_length_note(pw), RequestView::Done)
            },
            _ => step(p, Note::Unchanged, RequestView::Done),
        }
    }
}

/// The dialog showing a new room's invite code, whichever tab is shown.
pub open spec fn invite_modal_step(p: PromptsView, key: OnlineKey) -> Step {
    if !p.invite_modal_active || is_ctrl_c(key) {
        passed(p)
    } else if key.code is Esc {
        step(PromptsView { invite_modal_active: false, ..p }, Note::Status("Invite dialog closed"@), RequestView::Done)
    } else if is_arrow_or_tab(key.code) {
        step(
            PromptsView {
                invite_button: match p.invite_button {
                    HostInviteModalButton::Copy => HostInviteModalButton::Confirm,
                    HostInviteModalButton::Confirm => HostInviteModalButton::Copy,
                },
                ..p
            },
            Note::Redraw,
            RequestView::Done,
        )
    } else if is_letter_key(key.code, 'c') {
        step(p, Note::Redraw, RequestView::CopyInvite(p.invite_code))
    } else if key.code is Enter {
        match p.invite_button {
            HostInviteModalButton::Copy => step(p, Note::Redraw, RequestView::CopyInvite(p.invite_code)),
            HostInviteModalButton::Confirm => step(
                PromptsView { invite_modal_active: false, ..p },
                Note::Status("Invite dialog closed"@),
                RequestView::Done,
            ),
        }
    } else {
        step(p, Note::Unchanged, RequestView::Done)
    }
}

/// The room code given in advance, trimmed, when it is not blank.
pub open spec fn preset_code(preset: Option<Seq<char>>) -> Option<Seq<char>> {
    match preset {
        Some(s) => if trim(s).len() > 0 {
            Some(trim(s))
        } else {
            None
        },
        None => None,
    }
}

/// The prompts once the network is shut down: no password prompt, no invite dialog, the
/// room code hidden.
pub open spec fn after_shutdown(p: PromptsView) -> PromptsView {
    PromptsView {
        password_active: false,
        password_mode: OnlinePasswordPromptMode::Host,
        password: Seq::empty(),
        pending_invite: Seq::empty(),
        join_button: JoinPromptButton::Join,
        room_code_revealed: false,
        invite_modal_active: false,
        invite_code: Seq::empty(),
        invite_button: HostInviteModalButton::Copy,
        ..p
    }
}

pub open spec fn already_in_room() -> Note {
    Note::Status("Already in online room. Press l to leave first"@)
}

/// The invite code prompt, open on the online tab.
pub open spec fn join_prompt_step(p: PromptsView, key: OnlineKey) -> Step {
    match key.code {
        OnlineKeyCode::Esc => step(
            PromptsView { join_active: false, join_code: Seq::empty(), join_button: JoinPromptButton::Join, ..p },
            Note::Status("Join cancelled"@),
            RequestView::Done,
        ),
        OnlineKeyCode::Backspace => {
            let code = if p.join_code.len() > 0 {
                p.join_code.drop_last()
            } else {
                p.join_code
            };
            step(
                PromptsView { join_code: code, join_button: JoinPromptButton::Join, ..p },
                Note::Status("Enter invite code: "@ + code),
                RequestView::Done,
            )
        },
        OnlineKeyCode::Enter => if p.join_button == JoinPromptButton::Paste {
            step(PromptsView { join_button: JoinPromptButton::Join, ..p }, Note::Redraw, RequestView::PasteInvite)
        } else if trim(p.join_code).len() == 0 {
            step(p, Note::Status("Enter invite code, then press Enter"@), RequestView::Done)
        } else {
            step(
                PromptsView {
                    pending_invite: trim(p.join_code),
                    join_active: false,
                    join_code: Seq::empty(),
                    join_button: JoinPromptButton::Join,
                    password_active: true,
                    password_mode: OnlinePasswordPromptMode::Join,
                    password: Seq::empty(),
                    ..p
                },
                Note::Status("Enter room password, then press Enter"@),
                RequestView::Done,
            )
        },
        OnlineKeyCode::Char(c) => if key.ctrl && ascii_lower(c) == 'v' {
            step(PromptsView { join_button: JoinPromptButton::Join, ..p }, Note::Redraw, RequestView::PasteInvite)
        } else if key.ctrl {
            step(p, Note::Unchanged, RequestView::Done)
        } else {
            let code = invite_after_char(p.join_code, c);
            step(
                PromptsView { join_code: code, join_button: JoinPromptButton::Join, ..p },
                Note::Status("Enter invite code: "@ + code),
                RequestView::Done,
            )
        },
        _ => if is_arrow_or_tab(key.code) {
            step(
                PromptsView {
                    join_button: match p.join_button {
                        JoinPromptButton::Join => JoinPromptButton::Paste,
                        JoinPromptButton::Paste => JoinPromptButton::Join,
                    },
                    ..p
                },
                Note::Redraw,
                RequestView::Done,
            )
        } else {
            step(p, Note::Unchanged, RequestView::Done)
        },
    }
}

/// The online tab's keys: the invite code prompt when it is open, else `h` host, `j` join
/// (with the preset room code, if any), `l` leave, `o` room mode, `q` stream quality, `t`
/// show or hide the room code, `2` copy it. Tab, `/`, Control-C and the volume keys go on
/// to the player; other keys are swallowed.
pub open spec fn online_tab_step(
    header: HeaderSection,
    in_room: bool,
    room_code: Option<Seq<char>>,
    preset: Option<Seq<char>>,
    p: PromptsView,
    key: OnlineKey,
) -> Step {
    if header != HeaderSection::Online || is_ctrl_c(key) {
        passed(p)
    } else if p.join_active {
        join_prompt_step(p, key)
    } else if key.code is Tab || key.code == OnlineKeyCode::Char('/') {
        passed(p)
    } else if is_letter_key(key.code, 'h') {
        if in_room {
            step(p, already_in_room(), RequestView::Done)
        } else {
            step(
                PromptsView {
                    password_active: true,
                    password_mode: OnlinePasswordPromptMode::Host,
                    password: Seq::empty(),
                    ..p
                },
                Note::Status("Set room password, then press Enter"@),
                RequestView::Done,
            )
        }
    } else if is_letter_key(key.code, 'j') {
        if in_room {
            step(p, already_in_room(), RequestView::Done)
        } else {
            match preset_code(preset) {
                Some(code) => step(
                    PromptsView {
                        pending_invite: code,
                        join_button: JoinPromptButton::Join,
                        password_active: true,
                        password_mode: OnlinePasswordPromptMode::Join,
                        password: Seq::empty(),
                        ..p
                    },
                    Note::Status("Enter room password, then press Enter"@),
                    RequestView::Done,
                ),
                None => step(
                    PromptsView {
                        join_active: true,
                        join_code: Seq::empty(),
                        join_button: JoinPromptButton::Join,
                        ..p
                    },
                    Note::Status("Enter invite code: "@),
                    RequestView::Done,
                ),
            }
        }
    } else if is_letter_key(key.code, 'l') {
        step(after_shutdown(p), Note::Unchanged, RequestView::LeaveRoom)
    } else if is_letter_key(key.code, 'o') {
        step(p, Note::Unchanged, RequestView::ToggleMode)
    } else if is_letter_key(key.code, 'q') {
        step(p, Note::Unchanged, RequestView::CycleQuality)
    } else if is_letter_key(key.code, 't') {
        step(
            PromptsView { room_code_revealed: !p.room_code_revealed, ..p },
            Note::Status(if !p.room_code_revealed {
                "Room code shown"@
            } else {
                "Room code hidden"@
            }),
            RequestView::Done,
        )
    } else if key.code == OnlineKeyCode::Char('2') {
        match room_code {
            Some(c) => step(p, Note::Redraw, RequestView::CopyRoomCode(c)),
            None => step(p, Note::Unchanged, RequestView::Done),
        }
    } else if allows_global_shortcut(key.code) {
        passed(p)
    } else {
        step(p, Note::Unchanged, RequestView::Done)
    }
}


// ---------------------------------------------------------------------------
// Handling the keys
// ---------------------------------------------------------------------------

fn pop_last_char(s: &String) -> (r: String)
    ensures
        r@ == (if s@.len() > 0 {
            s@.drop_last()
        } else {
            s@
        }),
{
    let cs = chars_of(s.as_str());
    if cs.len() == 0 {
        return string_from_chars(cs.as_slice());
    }
    let kept = sub_chars(cs.as_slice(), 0, cs.len() - 1);
    string_from_chars(kept.as_slice())
}

fn joined_text(prefix: &str, tail: &str) -> (r: String)
    ensures
        r@ == prefix@ + tail@,
{
    let mut cs = chars_of(prefix);
    extend_str(&mut cs, tail);
    string_from_chars(cs.as_slice())
}

fn text_of(cs: &Vec<char>) -> (r: String)
    ensures
        r@ == cs@,
{
    string_from_chars(cs.as_slice())
}

fn show_password_length(core: &mut TuneCore, password: &String)
    ensures
        final(core)@ == noted(old(core)@, password_length_note(password@)),
{
    let n = chars_of(password.as_str()).len();
    let mut cs = chars_of("Password length: ");
    push_decimal(&mut cs, n as u64);
    let msg = text_of(&cs);
    core.show_status(msg.as_str());
}

fn letter_is(code: OnlineKeyCode, c: char) -> (r: bool)
    ensures
        r == is_letter_key(code, c),
{
    match code {
        OnlineKeyCode::Char(ch) => crate::text::to_lower(ch) == crate::text::to_lower(c),
        _ => false,
    }
}

fn ctrl_c(key: OnlineKey) -> (r: bool)
    ensures
        r == is_ctrl_c(key),
{
    key.ctrl && letter_is(key.code, 'c')
}

fn arrow_or_tab(code: OnlineKeyCode) -> (r: bool)
    ensures
        r == is_arrow_or_tab(code),
{
    match code {
        OnlineKeyCode::Up | OnlineKeyCode::Down | OnlineKeyCode::Left | OnlineKeyCode::Right
        | OnlineKeyCode::Tab | OnlineKeyCode::BackTab => true,
        _ => false,
    }
}

impl OnlinePrompts {
    /// Nothing open, the room code hidden.
    pub fn new() -> (r: Self)
        ensures
            !r@.join_active && r@.join_code.len() == 0 && r@.join_button == JoinPromptButton::Join,
            !r@.password_active && r@.password_mode == OnlinePasswordPromptMode::Host && r@.password.len() == 0,
            r@.pending_invite.len() == 0 && !r@.room_code_revealed,
            !r@.invite_modal_active && r@.invite_code.len() == 0 && r@.invite_button == HostInviteModalButton::Copy,
    {
        OnlinePrompts {
            join_prompt_active: false,
            join_code_input: String::new(),
            join_prompt_button: JoinPromptButton::Join,
            password_prompt_active: false,
            password_prompt_mode: OnlinePasswordPromptMode::Host,
            password_input: String::new(),
            pending_join_invite_code: String::new(),
            room_code_revealed: false,
            host_invite_modal_active: false,
            host_invite_code: String::new(),
            host_invite_button: HostInviteModalButton::Copy,
        }
    }

    /// Closes what the network's shutdown closes.
    pub fn reset_after_shutdown(&mut self)
        ensures
            final(self)@ == after_shutdown(old(self)@),
    {
        self.password_prompt_active = false;
        self.password_prompt_mode = OnlinePasswordPromptMode::Host;
        self.password_input = String::new();
        self.pending_join_invite_code = String::new();
        self.join_prompt_button = JoinPromptButton::Join;
        self.room_code_revealed = false;
        self.host_invite_modal_active = false;
        self.host_invite_code = String::new();
        self.host_invite_button = HostInviteModalButton::Copy;
    }
}

/// A key while the password prompt may be open.
pub fn handle_online_password_prompt_input(core: &mut TuneCore, prompts: &mut OnlinePrompts, key: OnlineKey) -> (r:
    OnlineRequest)
    ensures
        ({
            let s = password_step(old(core)@.header_section, old(prompts)@, key);
            final(prompts)@ == s.prompts && final(core)@ == noted(old(core)@, s.note) && r@ == s.request
        }),
{
    if core.header_section() != HeaderSection::Online || !prompts.password_prompt_active || ctrl_c(key) {
        return OnlineRequest::PassOn;
    }
    match key.code {
        OnlineKeyCode::Esc => {
            prompts.password_prompt_active = false;
            prompts.password_input = String::new();
            prompts.pending_join_invite_code = String::new();
            core.show_status("Password entry cancelled");
            OnlineRequest::Done
        },
        OnlineKeyCode::Backspace => {
            prompts.password_input = pop_last_char(&prompts.password_input);
            show_password_length(core, &prompts.password_input);
            OnlineRequest::Done
        },
        OnlineKeyCode::Enter => {
            let pw = trimmed(prompts.password_input.as_str());
            if pw.len() == 0 {
                core.show_status("Password is required");
                return OnlineRequest::Done;
            }
            match prompts.password_prompt_mode {
                OnlinePasswordPromptMode::Host => {
                    prompts.password_prompt_active = false;
                    prompts.password_input = String::new();
                    OnlineRequest::HostRoom { password: text_of(&pw) }
                },
                OnlinePasswordPromptMode::Join => {
                    let code = trimmed(prompts.pending_join_invite_code.as_str());
                    if code.len() == 0 {
                        core.show_status("Invite code missing");
                        return OnlineRequest::Done;
                    }
                    prompts.password_prompt_active = false;
                    prompts.password_input = String::new();
                    prompts.pending_join_invite_code = String::new();
                    OnlineRequest::JoinRoom { invite_code: text_of(&code), password: text_of(&pw) }
                },
            }
        },
        OnlineKeyCode::Char(c) => {
            if key.ctrl {
                return OnlineRequest::Done;
            }
            append_password_char(&mut prompts.password_input, c);
            show_password_length(core, &prompts.password_input);
            OnlineRequest::Done
        },
        _ => OnlineRequest::Done,
    }
}

/// A key while the invite dialog of a new room may be shown.
pub fn handle_host_invite_modal_input(core: &mut TuneCore, prompts: &mut OnlinePrompts, key: OnlineKey) -> (r:
    OnlineRequest)
    ensures
        ({
            let s = invite_modal_step(old(prompts)@, key);
            final(prompts)@ == s.prompts && final(core)@ == noted(old(core)@, s.note) && r@ == s.request
        }),
{
    if !prompts.host_invite_modal_active || ctrl_c(key) {
        return OnlineRequest::PassOn;
    }
    if key.code == OnlineKeyCode::Esc {
        prompts.host_invite_modal_active = false;
        core.show_status("Invite dialog closed");
        return OnlineRequest::Done;
    }
    if arrow_or_tab(key.code) {
        prompts.host_invite_button = prompts.host_invite_button.toggle();
        core.mark_dirty();
        return OnlineRequest::Done;
    }
    if letter_is(key.code, 'c') {
        core.mark_dirty();
        return OnlineRequest::CopyInvite(prompts.host_invite_code.clone());
    }
    if key.code == OnlineKeyCode::Enter {
        match prompts.host_invite_button {
            HostInviteModalButton::Copy => {
                core.mark_dirty();
                return OnlineRequest::CopyInvite(prompts.host_invite_code.clone());
            },
            HostInviteModalButton::Confirm => {
                prompts.host_invite_modal_active = false;
                core.show_status("Invite dialog closed");
                return OnlineRequest::Done;
            },
        }
    }
    OnlineRequest::Done
}

fn join_prompt_input(core: &mut TuneCore, prompts: &mut OnlinePrompts, key: OnlineKey) -> (r: OnlineRequest)
    ensures
        ({
            let s = join_prompt_step(old(prompts)@, key);
            final(prompts)@ == s.prompts && final(core)@ == noted(old(core)@, s.note) && r@ == s.request
        }),
{
    match key.code {
        OnlineKeyCode::Esc => {
            prompts.join_prompt_active = false;
            prompts.join_code_input = String::new();
            prompts.join_prompt_button = JoinPromptButton::Join;
            core.show_status("Join cancelled");
            OnlineRequest::Done
        },
        OnlineKeyCode::Backspace => {
            prompts.join_code_input = pop_last_char(&prompts.join_code_input);
            prompts.join_prompt_button = JoinPromptButton::Join;
            let msg = joined_text("Enter invite code: ", prompts.join_code_input.as_str());
            core.show_status(msg.as_str());
            OnlineRequest::Done
        },
        OnlineKeyCode::Enter => {
            if prompts.join_prompt_button == JoinPromptButton::Paste {
                prompts.join_prompt_button = JoinPromptButton::Join;
                core.mark_dirty();
                return OnlineRequest::PasteInvite;
            }
            let code = trimmed(prompts.join_code_input.as_str());
            if code.len() == 0 {
                core.show_status("Enter invite code, then press Enter");
                return OnlineRequest::Done;
            }
            prompts.pending_join_invite_code = text_of(&code);
            prompts.join_prompt_active = false;
            prompts.join_code_input = String::new();
            prompts.join_prompt_button = JoinPromptButton::Join;
            prompts.password_prompt_active = true;
            prompts.password_prompt_mode = OnlinePasswordPromptMode::Join;
            prompts.password_input = String::new();
            core.show_status("Enter room password, then press Enter");
            OnlineRequest::Done
        },
        OnlineKeyCode::Char(c) => {
            if key.ctrl && crate::text::to_lower(c) == 'v' {
                prompts.join_prompt_button = JoinPromptButton::Join;
                core.mark_dirty();
                return OnlineRequest::PasteInvite;
            }
            if key.ctrl {
                return OnlineRequest::Done;
            }
            append_invite_char(&mut prompts.join_code_input, c);
            prompts.join_prompt_button = JoinPromptButton::Join;
            let msg = joined_text("Enter invite code: ", prompts.join_code_input.as_str());
            core.show_status(msg.as_str());
            OnlineRequest::Done
        },
        _ => {
            if arrow_or_tab(key.code) {
                prompts.join_prompt_button = prompts.join_prompt_button.toggle();
                core.mark_dirty();
            }
            OnlineRequest::Done
        },
    }
}

/// A key on the online tab, after the password prompt and the invite dialog had their turn.
/// `room_code` is the code of the room the user is in, if any; `preset_room_code` a room
/// code given in advance (from the environment), used by `j`.
pub fn handle_online_inline_input(
    core: &mut TuneCore,
    prompts: &mut OnlinePrompts,
    key: OnlineKey,
    room_code: Option<&str>,
    preset_room_code: Option<&str>,
) -> (r: OnlineRequest)
    ensures
        ({
            let s = online_tab_step(
                old(core)@.header_section,
                room_code is Some,
                crate::config::opt_text(room_code),
                crate::config::opt_text(preset_room_code),
                old(prompts)@,
                key,
            );
            final(prompts)@ == s.prompts && final(core)@ == noted(old(core)@, s.note) && r@ == s.request
        }),
{
    if core.header_section() != HeaderSection::Online || ctrl_c(key) {
        return OnlineRequest::PassOn;
    }
    if prompts.join_prompt_active {
        return join_prompt_input(core, prompts, key);
    }
    if key.code == OnlineKeyCode::Tab || key.code == OnlineKeyCode::Char('/') {
        return OnlineRequest::PassOn;
    }
    if letter_is(key.code, 'h') {
        if room_code.is_some() {
            core.show_status("Already in online room. Press l to leave first");
            return OnlineRequest::Done;
        }
        prompts.password_prompt_active = true;
        prompts.password_prompt_mode = OnlinePasswordPromptMode::Host;
        prompts.password_input = String::new();
        core.show_status("Set room password, then press Enter");
        return OnlineRequest::Done;
    }
    if letter_is(key.code, 'j') {
        if room_code.is_some() {
            core.show_status("Already in online room. Press l to leave first");
            return OnlineRequest::Done;
        }
        let preset = match preset_room_code {
            Some(s) => {
                let t = trimmed(s);
                if t.len() > 0 {
                    Some(text_of(&t))
                } else {
                    None
                }
            },
            None => None,
        };
        match preset {
            Some(code) => {
                prompts.pending_join_invite_code = code;
                prompts.join_prompt_button = JoinPromptButton::Join;
                prompts.password_prompt_active = true;
                prompts.password_prompt_mode = OnlinePasswordPromptMode::Join;
                prompts.password_input = String::new();
                core.show_status("Enter room password, then press Enter");
            },
            None => {
                prompts.join_prompt_active = true;
                prompts.join_code_input = String::new();
                prompts.join_prompt_button = JoinPromptButton::Join;
                core.show_status("Enter invite code: ");
            },
        }
        return OnlineRequest::Done;
    }
    if letter_is(key.code, 'l') {
        prompts.reset_after_shutdown();
        return OnlineRequest::LeaveRoom;
    }
    if letter_is(key.code, 'o') {
        return OnlineRequest::ToggleMode;
    }
    if letter_is(key.code, 'q') {
        return OnlineRequest::CycleQuality;
    }
    if letter_is(key.code, 't') {
        prompts.room_code_revealed = !prompts.room_code_revealed;
        if prompts.room_code_revealed {
            core.show_status("Room code shown");
        } else {
            core.show_status("Room code hidden");
        }
        return OnlineRequest::Done;
    }
    if key.code == OnlineKeyCode::Char('2') {
        return match room_code {
            Some(c) => {
                core.mark_dirty();
                OnlineRequest::CopyRoomCode(c.to_owned())
            },
            None => OnlineRequest::Done,
        };
    }
    if key.code == OnlineKeyCode::Char('+') || key.code == OnlineKeyCode::Char('=') || key.code == OnlineKeyCode::Char(
        '-',
    ) || key.code == OnlineKeyCode::Char('_') {
        return OnlineRequest::PassOn;
    }
    OnlineRequest::Done
}

// ---------------------------------------------------------------------------
// Finishing clipboard work
// ---------------------------------------------------------------------------

/// After reading the clipboard for an invite code: its text is typed into the prompt and
/// shown; a failure is reported.
pub fn finish_invite_paste(core: &mut TuneCore, prompts: &mut OnlinePrompts, pasted: Result<String, String>)
    ensures
        match pasted {
            Ok(t) => final(prompts)@ == (PromptsView {
                join_code: crate::panel::invite_after_input(old(prompts)@.join_code, t@),
                ..old(prompts)@
            }) && final(core)@ == with_status(
                old(core)@,
                "Pasted invite code: "@ + crate::panel::invite_after_input(old(prompts)@.join_code, t@),
            ),
            Err(e) => final(prompts)@ == old(prompts)@ && final(core)@ == with_status(
                old(core)@,
                "Clipboard paste failed: "@ + e@,
            ),
        },
{
    match pasted {
        Ok(t) => {
            crate::panel::append_invite_input(&mut prompts.join_code_input, t.as_str());
            let msg = joined_text("Pasted invite code: ", prompts.join_code_input.as_str());
            core.show_status(msg.as_str());
        },
        Err(e) => {
            let msg = joined_text("Clipboard paste failed: ", e.as_str());
            core.show_status(msg.as_str());
        },
    }
}

/// After copying the new room's invite code: the code, or why it failed.
pub fn finish_invite_copy(core: &mut TuneCore, invite_code: &str, error: Option<String>)
    ensures
        final(core)@ == with_status(old(core)@, match error {
            None => "Copied invite code: "@ + invite_code@,
            Some(e) => "Clipboard copy failed: "@ + e@,
        }),
{
    let msg = match error {
        None => joined_text("Copied invite code: ", invite_code),
        Some(e) => joined_text("Clipboard copy failed: ", e.as_str()),
    };
    core.show_status(msg.as_str());
}

/// After copying the room code: done, or why it failed.
pub fn finish_room_code_copy(core: &mut TuneCore, error: Option<String>)
    ensures
        final(core)@ == with_status(old(core)@, match error {
            None => "Copied room code"@,
            Some(e) => "Clipboard copy failed: "@ + e@,
        }),
{
    match error {
        None => core.show_status("Copied room code"),
        Some(e) => {
            let msg = joined_text("Clipboard copy failed: ", e.as_str());
            core.show_status(msg.as_str());
        },
    }
}


/// Text pasted on the online tab goes into the open password prompt, else into the open
/// invite code prompt; gives whether one took it.
pub fn handle_online_paste(core: &mut TuneCore, prompts: &mut OnlinePrompts, text: &str) -> (taken: bool)
    ensures
        if old(core)@.header_section == HeaderSection::Online && old(prompts)@.password_active {
            let pw = crate::panel::password_after_input(old(prompts)@.password, text@);
            &&& taken
            &&& final(prompts)@ == (PromptsView { password: pw, ..old(prompts)@ })
            &&& final(core)@ == noted(old(core)@, password_length_note(pw))
        } else if old(core)@.header_section == HeaderSection::Online && old(prompts)@.join_active {
            let code = crate::panel::invite_after_input(old(prompts)@.join_code, text@);
            &&& taken
            &&& final(prompts)@ == (PromptsView { join_code: code, join_button: JoinPromptButton::Join, ..old(prompts)@ })
            &&& final(core)@ == with_status(old(core)@, "Enter invite code: "@ + code)
        } else {
            !taken && final(prompts)@ == old(prompts)@ && final(core)@ == old(core)@
        },
{
    if core.header_section() != HeaderSection::Online {
        return false;
    }
    if prompts.password_prompt_active {
        crate::panel::append_password_input(&mut prompts.password_input, text);
        show_password_length(core, &prompts.password_input);
        return true;
    }
    if prompts.join_prompt_active {
        crate::panel::append_invite_input(&mut prompts.join_code_input, text);
        prompts.join_prompt_button = JoinPromptButton::Join;
        let msg = joined_text("Enter invite code: ", prompts.join_code_input.as_str());
        core.show_status(msg.as_str());
        return true;
    }
    false
}

} // verus!

use tune::browser::HeaderSection;
use tune::online::OnlineState;
use tune::online_keys::{
    finish_invite_copy, finish_invite_paste, finish_room_code_copy, handle_host_invite_modal_input,
    handle_online_inline_input, handle_online_paste, handle_online_password_prompt_input, OnlineKey, OnlineKeyCode, OnlinePrompts,
    OnlineRequest,
};
use tune::panel::{HostInviteModalButton, OnlinePasswordPromptMode};
use tune::tune_core::{PersistedLibrary, TuneCore};

fn core_on_online_tab() -> TuneCore {
    let mut core = TuneCore::from_persisted(PersistedLibrary::default(), Vec::new());
    core.header_section = HeaderSection::Online;
    core
}

fn key(code: OnlineKeyCode) -> OnlineKey {
    OnlineKey { code, ctrl: false }
}

fn ctrl(code: OnlineKeyCode) -> OnlineKey {
    OnlineKey { code, ctrl: true }
}

fn consumed(request: &OnlineRequest) -> bool {
    !matches!(request, OnlineRequest::PassOn)
}

/// The online tab as the player drives it: the password prompt, then the invite dialog,
/// then the tab's own keys.
fn press(core: &mut TuneCore, prompts: &mut OnlinePrompts, online: &mut OnlineState, k: OnlineKey) -> OnlineRequest {
    let request = handle_online_password_prompt_input(core, prompts, k);
    if consumed(&request) {
        return request;
    }
    let request = handle_host_invite_modal_input(core, prompts, k);
    if consumed(&request) {
        return request;
    }
    let room_code = online.session.as_ref().map(|session| session.room_code.clone());
    let request = handle_online_inline_input(core, prompts, k, room_code.as_deref(), None);
    if let OnlineRequest::LeaveRoom = request {
        online.leave_room();
    }
    request
}

fn invite_dialog() -> OnlinePrompts {
    let mut prompts = OnlinePrompts::new();
    prompts.host_invite_modal_active = true;
    prompts.host_invite_code = String::from("T1ABCDE");
    prompts
}

#[test]
fn host_invite_modal_tab_toggles_and_ok_closes_dialog() {
    let mut core = TuneCore::from_persisted(PersistedLibrary::default(), Vec::new());
    let mut prompts = invite_dialog();

    assert!(consumed(&handle_host_invite_modal_input(&mut core, &mut prompts, key(OnlineKeyCode::Tab))));
    assert_eq!(prompts.host_invite_button, HostInviteModalButton::Confirm);

    assert!(consumed(&handle_host_invite_modal_input(&mut core, &mut prompts, key(OnlineKeyCode::Enter))));
    assert!(!prompts.host_invite_modal_active);
}

#[test]
fn host_invite_modal_escape_closes_dialog() {
    let mut core = TuneCore::from_persisted(PersistedLibrary::default(), Vec::new());
    let mut prompts = invite_dialog();

    assert!(consumed(&handle_host_invite_modal_input(&mut core, &mut prompts, key(OnlineKeyCode::Esc))));
    assert!(!prompts.host_invite_modal_active);
}

#[test]
fn online_tab_consumes_library_navigation_keys() {
    let mut core = core_on_online_tab();
    let mut prompts = OnlinePrompts::new();

    assert!(consumed(&handle_online_inline_input(&mut core, &mut prompts, key(OnlineKeyCode::Down), None, None)));
    assert!(consumed(&handle_online_inline_input(&mut core, &mut prompts, key(OnlineKeyCode::Enter), None, None)));
}

#[test]
fn online_tab_does_not_consume_ctrl_c() {
    let mut core = core_on_online_tab();
    let mut prompts = OnlinePrompts::new();

    assert!(!consumed(&handle_online_inline_input(
        &mut core,
        &mut prompts,
        ctrl(OnlineKeyCode::Char('c')),
        None,
        None
    )));
}

#[test]
fn online_tab_consumes_ctrl_s() {
    let mut core = core_on_online_tab();
    let mut prompts = OnlinePrompts::new();

    assert!(consumed(&handle_online_inline_input(
        &mut core,
        &mut prompts,
        ctrl(OnlineKeyCode::Char('s')),
        None,
        None
    )));
}

#[test]
fn online_tab_does_not_consume_volume_keys() {
    let mut core = core_on_online_tab();
    let mut prompts = OnlinePrompts::new();

    assert!(!consumed(&handle_online_inline_input(&mut core, &mut prompts, key(OnlineKeyCode::Char('=')), None, None)));
    assert!(!consumed(&handle_online_inline_input(&mut core, &mut prompts, key(OnlineKeyCode::Char('-')), None, None)));
}

#[test]
fn join_prompt_allows_typing_v_without_triggering_paste() {
    let mut core = core_on_online_tab();
    let mut prompts = OnlinePrompts::new();
    prompts.join_prompt_active = true;
    prompts.join_code_input = String::from("AB");

    let request = handle_online_inline_input(&mut core, &mut prompts, key(OnlineKeyCode::Char('v')), None, None);

    assert!(consumed(&request));
    assert!(!matches!(request, OnlineRequest::PasteInvite));
    assert_eq!(prompts.join_code_input, "ABV");
}

#[test]
fn online_tab_uppercase_commands_work_with_caps_lock() {
    let mut core = core_on_online_tab();
    let mut prompts = OnlinePrompts::new();
    let mut online = OnlineState::default();

    assert!(consumed(&press(&mut core, &mut prompts, &mut online, key(OnlineKeyCode::Char('H')))));
    assert!(prompts.password_prompt_active);

    prompts.password_prompt_active = false;
    online.host_room("tester");
    assert!(consumed(&press(&mut core, &mut prompts, &mut online, key(OnlineKeyCode::Char('L')))));
    assert!(online.session.is_none());
}

#[test]
fn online_tab_does_not_apply_manual_delay_shortcuts_directly() {
    let mut core = core_on_online_tab();
    let mut prompts = OnlinePrompts::new();
    let mut online = OnlineState::default();
    online.host_room("tester");

    assert!(consumed(&press(&mut core, &mut prompts, &mut online, key(OnlineKeyCode::Char('[')))));
    let manual = online
        .session
        .as_ref()
        .and_then(|session| session.local_participant())
        .map(|local| local.manual_extra_delay_ms)
        .unwrap_or_default();
    assert_eq!(manual, 0);
}

#[test]
fn join_flow_goes_from_invite_code_to_password_to_request() {
    let mut core = core_on_online_tab();
    let mut prompts = OnlinePrompts::new();
    let mut online = OnlineState::default();

    press(&mut core, &mut prompts, &mut online, key(OnlineKeyCode::Char('j')));
    assert!(prompts.join_prompt_active);
    assert_eq!(core.status, "Enter invite code: ");
    for ch in " t1 ab".chars() {
        press(&mut core, &mut prompts, &mut online, key(OnlineKeyCode::Char(ch)));
    }
    assert_eq!(prompts.join_code_input, "T1AB");
    press(&mut core, &mut prompts, &mut online, key(OnlineKeyCode::Enter));
    assert!(prompts.password_prompt_active);
    assert_eq!(prompts.password_prompt_mode, OnlinePasswordPromptMode::Join);
    assert_eq!(core.status, "Enter room password, then press Enter");

    press(&mut core, &mut prompts, &mut online, key(OnlineKeyCode::Enter));
    assert_eq!(core.status, "Password is required");
    for ch in "pw".chars() {
        press(&mut core, &mut prompts, &mut online, key(OnlineKeyCode::Char(ch)));
    }
    assert_eq!(core.status, "Password length: 2");
    match press(&mut core, &mut prompts, &mut online, key(OnlineKeyCode::Enter)) {
        OnlineRequest::JoinRoom { invite_code, password } => {
            assert_eq!(invite_code, "T1AB");
            assert_eq!(password, "pw");
        },
        other => panic!("expected a join request, got {:?}", other),
    }
    assert!(!prompts.password_prompt_active);
}

#[test]
fn host_flow_and_room_commands() {
    let mut core = core_on_online_tab();
    let mut prompts = OnlinePrompts::new();
    let mut online = OnlineState::default();

    press(&mut core, &mut prompts, &mut online, key(OnlineKeyCode::Char('h')));
    assert_eq!(core.status, "Set room password, then press Enter");
    for ch in " secret ".chars() {
        press(&mut core, &mut prompts, &mut online, key(OnlineKeyCode::Char(ch)));
    }
    match press(&mut core, &mut prompts, &mut online, key(OnlineKeyCode::Enter)) {
        OnlineRequest::HostRoom { password } => assert_eq!(password, "secret"),
        other => panic!("expected a host request, got {:?}", other),
    }

    online.host_room("tester");
    press(&mut core, &mut prompts, &mut online, key(OnlineKeyCode::Char('h')));
    assert_eq!(core.status, "Already in online room. Press l to leave first");
    press(&mut core, &mut prompts, &mut online, key(OnlineKeyCode::Char('t')));
    assert_eq!(core.status, "Room code shown");
    assert!(matches!(
        press(&mut core, &mut prompts, &mut online, key(OnlineKeyCode::Char('2'))),
        OnlineRequest::CopyRoomCode(_)
    ));
    finish_room_code_copy(&mut core, None);
    assert_eq!(core.status, "Copied room code");
    assert!(matches!(
        press(&mut core, &mut prompts, &mut online, key(OnlineKeyCode::Char('O'))),
        OnlineRequest::ToggleMode
    ));
    assert!(matches!(
        press(&mut core, &mut prompts, &mut online, key(OnlineKeyCode::Tab)),
        OnlineRequest::PassOn
    ));
}

#[test]
fn clipboard_follow_ups_report_outcomes() {
    let mut core = core_on_online_tab();
    let mut prompts = OnlinePrompts::new();
    prompts.join_prompt_active = true;
    finish_invite_paste(&mut core, &mut prompts, Ok(String::from("t1 xy\n")));
    assert_eq!(prompts.join_code_input, "T1XY");
    assert_eq!(core.status, "Pasted invite code: T1XY");
    finish_invite_paste(&mut core, &mut prompts, Err(String::from("empty")));
    assert_eq!(core.status, "Clipboard paste failed: empty");
    finish_invite_copy(&mut core, "T1XY", None);
    assert_eq!(core.status, "Copied invite code: T1XY");
    finish_invite_copy(&mut core, "T1XY", Some(String::from("denied")));
    assert_eq!(core.status, "Clipboard copy failed: denied");
}

#[test]
fn pasted_text_goes_to_the_open_prompt() {
    let mut core = core_on_online_tab();
    let mut prompts = OnlinePrompts::new();
    assert!(!handle_online_paste(&mut core, &mut prompts, "abc"));

    prompts.join_prompt_active = true;
    assert!(handle_online_paste(&mut core, &mut prompts, "t1 ab"));
    assert_eq!(prompts.join_code_input, "T1AB");
    assert_eq!(core.status, "Enter invite code: T1AB");

    prompts.password_prompt_active = true;
    assert!(handle_online_paste(&mut core, &mut prompts, "pa\u{7}ss"));
    assert_eq!(prompts.password_input, "pass");
    assert_eq!(core.status, "Password length: 4");
}

use tune::browser::HeaderSection;
use tune::keymap::{global_key_action, GlobalAction, GlobalKey, GlobalKeyCode};

fn plain(code: GlobalKeyCode) -> GlobalKey {
    GlobalKey { code, ctrl: false, shift: false }
}

#[test]
fn player_keys_map_to_their_actions() {
    let library = HeaderSection::Library;
    assert_eq!(global_key_action(library, plain(GlobalKeyCode::Char('\u{3}'))), GlobalAction::Quit);
    assert_eq!(
        global_key_action(library, GlobalKey { code: GlobalKeyCode::Char('C'), ctrl: true, shift: false }),
        GlobalAction::Quit
    );
    assert_eq!(
        global_key_action(library, GlobalKey { code: GlobalKeyCode::Char('s'), ctrl: true, shift: false }),
        GlobalAction::QueueSelectionOnline
    );
    assert_eq!(
        global_key_action(HeaderSection::Stats, GlobalKey { code: GlobalKeyCode::Char('s'), ctrl: true, shift: false }),
        GlobalAction::Save
    );
    assert_eq!(global_key_action(library, plain(GlobalKeyCode::Char(' '))), GlobalAction::TogglePause);
    assert_eq!(global_key_action(library, plain(GlobalKeyCode::Char('N'))), GlobalAction::NextTrack);
    assert_eq!(global_key_action(library, plain(GlobalKeyCode::Char('b'))), GlobalAction::PrevTrack);
    assert_eq!(global_key_action(library, plain(GlobalKeyCode::Char('A'))), GlobalAction::ScrubBack);
    assert_eq!(global_key_action(library, plain(GlobalKeyCode::Char('d'))), GlobalAction::ScrubForward);
    assert_eq!(global_key_action(library, plain(GlobalKeyCode::Backspace)), GlobalAction::NavigateBack);
    assert_eq!(global_key_action(library, plain(GlobalKeyCode::Tab)), GlobalAction::CycleSection);
    assert_eq!(global_key_action(library, plain(GlobalKeyCode::Char('+'))), GlobalAction::VolumeUp { fine: true });
    assert_eq!(global_key_action(library, plain(GlobalKeyCode::Char('='))), GlobalAction::VolumeUp { fine: false });
    assert_eq!(
        global_key_action(library, GlobalKey { code: GlobalKeyCode::Char('='), ctrl: false, shift: true }),
        GlobalAction::VolumeUp { fine: true }
    );
    assert_eq!(global_key_action(library, plain(GlobalKeyCode::Char('-'))), GlobalAction::VolumeDown { fine: false });
    assert_eq!(global_key_action(library, plain(GlobalKeyCode::Char('_'))), GlobalAction::VolumeDown { fine: true });
    assert_eq!(global_key_action(library, plain(GlobalKeyCode::Char('/'))), GlobalAction::OpenPanel);
    assert_eq!(global_key_action(library, plain(GlobalKeyCode::Char('x'))), GlobalAction::Nothing);
}

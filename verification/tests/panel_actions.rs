use tune::panel::{
    inferred_tunetui_config_dir, is_online_disconnect_status, root_visible_actions,
    should_set_ssh_term, update_recent_root_actions, RootActionId,
};

#[test]
fn recent_root_actions_are_unique_and_capped_at_three() {
    let mut recent = Vec::new();
    update_recent_root_actions(&mut recent, RootActionId::AddDirectory);
    update_recent_root_actions(&mut recent, RootActionId::Theme);
    update_recent_root_actions(&mut recent, RootActionId::SaveState);
    update_recent_root_actions(&mut recent, RootActionId::Theme);
    update_recent_root_actions(&mut recent, RootActionId::PlaybackSettings);

    assert_eq!(
        recent,
        vec![
            RootActionId::PlaybackSettings,
            RootActionId::Theme,
            RootActionId::SaveState,
        ]
    );
}

#[test]
fn root_visible_actions_prioritize_recent_without_duplicates() {
    let visible = root_visible_actions("", &[RootActionId::Theme, RootActionId::AddDirectory]);

    assert_eq!(visible[0].action, RootActionId::Theme);
    assert_eq!(visible[1].action, RootActionId::AddDirectory);
    assert_eq!(
        visible
            .iter()
            .filter(|entry| entry.action == RootActionId::Theme)
            .count(),
        1
    );
}

#[test]
fn online_disconnect_status_detector_matches_disconnect_messages() {
    assert!(is_online_disconnect_status("Disconnected from online host"));
    assert!(is_online_disconnect_status("Host ended session"));
    assert!(is_online_disconnect_status(
        "Online socket read error: connection reset"
    ));
    assert!(!is_online_disconnect_status("Remote sync drift 120ms"));
}

#[test]
fn inferred_tunetui_config_dir_uses_home_when_userprofile_missing() {
    let inferred = inferred_tunetui_config_dir(None, Some("/home/tune"), None);
    assert_eq!(inferred, Some(String::from("/home/tune/.config/tunetui")));
}

#[test]
fn inferred_tunetui_config_dir_respects_existing_override() {
    let inferred =
        inferred_tunetui_config_dir(None, Some("/home/tune"), Some("/custom/tunetui-config"));
    assert_eq!(inferred, None);
}

#[test]
fn should_set_ssh_term_when_over_ssh_and_term_is_missing() {
    assert!(should_set_ssh_term(Some("/dev/pts/0"), None, None, None));
}

#[test]
fn should_not_set_ssh_term_when_terminal_is_already_set() {
    assert!(!should_set_ssh_term(
        Some("/dev/pts/0"),
        None,
        None,
        Some("xterm-256color")
    ));
}

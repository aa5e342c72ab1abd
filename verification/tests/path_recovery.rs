use tune::config::ChildEntry;
use tune::recovery::{ComponentRecovery, PathRecovery, PathStep, RecoveryAnswer, RecoveryRequest};

fn folder(name: &str) -> ChildEntry {
    ChildEntry { name: name.to_string(), is_dir: Some(true) }
}

#[test]
fn damaged_component_is_replaced_by_the_matching_child() {
    let (mut recovery, request) = ComponentRecovery::start("/music/Art\u{200B}ist/song.mp3");
    assert_eq!(request, RecoveryRequest::Exists(String::from("/music")));
    let request = recovery.answer(RecoveryAnswer::Exists(true));
    assert_eq!(request, RecoveryRequest::Exists(String::from("/music/Art\u{200B}ist")));
    let request = recovery.answer(RecoveryAnswer::Exists(false));
    assert_eq!(request, RecoveryRequest::List(String::from("/music")));
    let request = recovery.answer(RecoveryAnswer::Listing(Some(vec![folder("Other"), folder("Artist")])));
    assert_eq!(request, RecoveryRequest::Exists(String::from("/music/Artist/song.mp3")));
    let request = recovery.answer(RecoveryAnswer::Exists(true));
    assert_eq!(request, RecoveryRequest::Finished(String::from("/music/Artist/song.mp3")));
    assert_eq!(recovery.rebuilt(), "/music/Artist/song.mp3");
}

#[test]
fn relative_paths_are_probed_from_the_current_folder() {
    let (mut recovery, request) = ComponentRecovery::start("a/../b");
    assert_eq!(request, RecoveryRequest::Exists(String::from("./a")));
    let request = recovery.answer(RecoveryAnswer::Exists(true));
    assert_eq!(request, RecoveryRequest::Exists(String::from("./b")));
}

#[test]
fn unlistable_folder_or_no_match_fails() {
    let (mut recovery, _) = ComponentRecovery::start("/x/y");
    recovery.answer(RecoveryAnswer::Exists(false));
    assert_eq!(recovery.answer(RecoveryAnswer::Listing(None)), RecoveryRequest::Failed);

    let (mut other, _) = ComponentRecovery::start("/x/y");
    other.answer(RecoveryAnswer::Exists(false));
    assert_eq!(other.answer(RecoveryAnswer::Listing(Some(vec![folder("zzz")]))), RecoveryRequest::Failed);
    assert_eq!(other.answer(RecoveryAnswer::Exists(true)), RecoveryRequest::Failed);
}

#[test]
fn first_existing_cleaned_form_wins() {
    let (mut search, step) = PathRecovery::start("\u{2022} /music/a");
    assert_eq!(step, PathStep::Exists(String::from("\u{2022} /music/a")));
    assert_eq!(search.answer(RecoveryAnswer::Exists(false)), PathStep::Exists(String::from("\u{2022} /music/a")));
    assert_eq!(search.answer(RecoveryAnswer::Exists(false)), PathStep::Exists(String::from("/music/a")));
    assert_eq!(search.answer(RecoveryAnswer::Exists(true)), PathStep::Resolved(String::from("/music/a")));
}

#[test]
fn saved_path_stays_when_nothing_is_found() {
    let (mut search, _) = PathRecovery::start("/x/y");
    for _ in 0..3 {
        search.answer(RecoveryAnswer::Exists(false));
    }
    // All candidates missing: the rebuilding asks about `/x`, then lists `/`.
    assert_eq!(search.answer(RecoveryAnswer::Exists(false)), PathStep::List(String::from("/")));
    assert_eq!(search.answer(RecoveryAnswer::Listing(None)), PathStep::Resolved(String::from("/x/y")));
}

#[test]
fn rebuilt_path_is_used_only_when_it_exists() {
    let (mut search, _) = PathRecovery::start("/x/y");
    search.answer(RecoveryAnswer::Exists(false));
    search.answer(RecoveryAnswer::Exists(false));
    assert_eq!(search.answer(RecoveryAnswer::Exists(false)), PathStep::Exists(String::from("/x")));
    assert_eq!(search.answer(RecoveryAnswer::Exists(true)), PathStep::Exists(String::from("/x/y")));
    assert_eq!(search.answer(RecoveryAnswer::Exists(true)), PathStep::Exists(String::from("/x/y")));
    assert_eq!(search.answer(RecoveryAnswer::Exists(true)), PathStep::Resolved(String::from("/x/y")));
}

use ciel_build::group::ResolveError;
use ciel_build::notice::{Level, Notice};
use ciel_build::protocol::{
    build_command_line, fetch_command_line, package_command_line, update_command_line,
};

#[test]
fn notices_have_their_lines() {
    assert_eq!(
        Notice::LocalSourcesOff.message(),
        "Using this function without local sources caching is probably meaningless."
    );
    assert_eq!(
        Notice::PreparingOffline.message(),
        "Preparing offline mode. Fetching source packages first ..."
    );
    assert_eq!(
        Notice::OfflineReady.message(),
        "Running in offline mode. Network access disabled."
    );
    assert_eq!(Notice::RefreshingRepository.message(), "Refreshing local repository...");
    assert_eq!(
        Notice::UpdateFailed.message(),
        "Failed to update the OS before building packages"
    );
}

#[test]
fn notices_with_numbers_agree_with_std_formatting() {
    for count in [0usize, 1, 9, 10, 250, usize::MAX] {
        let notice = Notice::GroupResolved { group: "groups/g".to_string(), count };
        assert_eq!(notice.message(), format!("Read {} packages from {}", count, "groups/g"));
    }
    for status in [1, 2, 101, -1, i32::MIN, i32::MAX] {
        let notice = Notice::BuildFailed { status };
        assert_eq!(notice.message(), format!("Build failed with status: {}", status));
    }
    let notice = Notice::Building { position: 12, total: 130, package: "bash".to_string() };
    assert_eq!(notice.message(), format!("[{}/{}] Building {}...", 12, 130, "bash"));
    assert_eq!(
        notice.title(),
        Some(format!("\x1b]0;ciel: [{}/{}] {}\x07\r", 12, 130, "bash"))
    );
    let notice = Notice::Succeeded { total: 3, duration: "01:01:01".to_string() };
    assert_eq!(notice.message(), "3 packages in 01:01:01");
}

#[test]
fn a_failed_group_is_told_with_its_reason() {
    let notice = Notice::GroupFailed {
        group: "groups/g".to_string(),
        error: ResolveError::Io("permission denied".to_string()),
    };
    assert_eq!(notice.message(), "Unable to read package group `groups/g`: permission denied");
    let notice =
        Notice::GroupFailed { group: "groups/g".to_string(), error: ResolveError::DepthExceeded };
    assert_eq!(
        notice.message(),
        "Unable to read package group `groups/g`: Nested group exceeded 32 levels! Potential infinite loop."
    );
}

#[test]
fn only_the_announcement_of_a_build_has_a_title() {
    assert_eq!(Notice::UpdateFailed.title(), None);
    assert_eq!(Notice::RefreshingRepository.title(), None);
    assert_eq!(Notice::Succeeded { total: 1, duration: "00:00:01".to_string() }.title(), None);
    assert!(Notice::Building { position: 1, total: 1, package: "p".to_string() }.title().is_some());
}

#[test]
fn notices_have_their_levels() {
    assert_eq!(Notice::LocalSourcesOff.level(), Level::Warning);
    assert_eq!(Notice::PreparingOffline.level(), Level::Info);
    assert_eq!(Notice::OfflineReady.level(), Level::Info);
    assert_eq!(Notice::GroupResolved { group: String::new(), count: 0 }.level(), Level::Info);
    assert_eq!(
        Notice::GroupFailed { group: String::new(), error: ResolveError::DepthExceeded }.level(),
        Level::Warning
    );
    assert_eq!(
        Notice::Building { position: 1, total: 1, package: String::new() }.level(),
        Level::Info
    );
    assert_eq!(Notice::RefreshingRepository.level(), Level::Info);
    assert_eq!(Notice::UpdateFailed.level(), Level::Error);
    assert_eq!(Notice::BuildFailed { status: 1 }.level(), Level::Error);
    assert_eq!(Notice::Succeeded { total: 0, duration: String::new() }.level(), Level::Success);
}

#[test]
fn a_copy_of_a_notice_is_the_same_notice() {
    let notices = vec![
        Notice::LocalSourcesOff,
        Notice::GroupResolved { group: "groups/g".to_string(), count: 4 },
        Notice::GroupFailed { group: "g".to_string(), error: ResolveError::Io("x".to_string()) },
        Notice::Building { position: 2, total: 5, package: "bash".to_string() },
        Notice::BuildFailed { status: -3 },
        Notice::Succeeded { total: 5, duration: "00:10:00".to_string() },
    ];
    for notice in &notices {
        assert_eq!(&notice.duplicate(), notice);
    }
}

#[test]
fn command_lines() {
    let tokens = vec!["a".to_string(), "groups/g".to_string()];
    assert_eq!(fetch_command_line(&tokens), vec!["/bin/acbs-build", "-g", "--", "a", "groups/g"]);
    assert_eq!(build_command_line(&tokens), vec!["/bin/acbs-build", "--", "a", "groups/g"]);
    assert_eq!(package_command_line(&"a".to_string()), vec!["/bin/acbs-build", "--", "a"]);
    assert_eq!(update_command_line(&"true".to_string()), vec!["/bin/bash", "-ec", "true"]);
}

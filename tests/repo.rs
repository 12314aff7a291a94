use diff_review::model::BranchInfo;
use diff_review::repo::{branch_not_found_message, default_base, remote_tracking_name, ReviewError};

fn b(name: &str, current: bool, remote: bool) -> BranchInfo {
    BranchInfo { name: name.to_string(), is_current: current, is_remote: remote }
}

#[test]
fn default_base_prefers_main_then_master() {
    assert_eq!(default_base(&vec![b("dev", true, false), b("master", false, false), b("main", false, false)], "dev"), "main");
    assert_eq!(default_base(&vec![b("dev", true, false), b("master", false, false)], "dev"), "master");
    assert_eq!(default_base(&vec![b("main", false, true), b("feature", true, false), b("x", false, false), b("y", false, false)], "feature"), "x");
    assert_eq!(default_base(&vec![b("solo", true, false), b("origin/main", false, true)], "solo"), "solo");
    assert_eq!(default_base(&vec![], "HEAD"), "HEAD");
}

#[test]
fn missing_branch_message_names_it() {
    let m = branch_not_found_message("does-not-exist", "cannot locate local branch");
    assert_eq!(m, "Could not find branch 'does-not-exist': cannot locate local branch");
    assert!(m.contains("does-not-exist"));
    let e = ReviewError::BranchNotFound { branch: "does-not-exist".to_string(), detail: "gone".to_string() };
    assert!(e.message().contains("does-not-exist"));
}

#[test]
fn error_messages() {
    assert_eq!(ReviewError::NoWorkingDirectory.message(), "No working directory");
    assert_eq!(ReviewError::ReadFailure("io".to_string()).message(), "io");
    assert_eq!(ReviewError::RepositoryNotFound("nope".to_string()).message(), "nope");
}

#[test]
fn remote_tracking_names() {
    assert_eq!(remote_tracking_name("main"), "origin/main");
}

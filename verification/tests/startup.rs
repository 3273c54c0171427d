//! Behaviour of the startup checks and the search-path candidates.

use books_daemon::startup::{candidate_paths, do_checks, StartupError};

#[test]
fn test_do_checks_passes_when_everything_is_present() {
    assert_eq!(do_checks(true, true), Ok(()));
}

#[test]
fn test_do_checks_reports_missing_configuration_first() {
    assert_eq!(do_checks(false, true), Err(StartupError::ConfigFileMissing));
    assert_eq!(do_checks(false, false), Err(StartupError::ConfigFileMissing));
}

#[test]
fn test_do_checks_reports_missing_transfer_command() {
    assert_eq!(
        do_checks(true, false),
        Err(StartupError::TransferCommandMissing)
    );
}

#[test]
fn test_candidate_paths_follow_search_path_order() {
    assert_eq!(
        candidate_paths("/usr/bin:/usr/local/bin", "bt-obex"),
        vec![
            String::from("/usr/bin/bt-obex"),
            String::from("/usr/local/bin/bt-obex"),
        ]
    );
}

#[test]
fn test_candidate_paths_keep_empty_segments() {
    assert_eq!(
        candidate_paths("a::b", "prog"),
        vec![
            String::from("a/prog"),
            String::from("/prog"),
            String::from("b/prog"),
        ]
    );
}

#[test]
fn test_empty_search_path_is_one_empty_segment() {
    assert_eq!(candidate_paths("", "prog"), vec![String::from("/prog")]);
}

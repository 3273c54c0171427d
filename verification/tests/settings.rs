//! Behaviour of the settings record and the configuration file location.

use books_daemon::settings::{config_file_path, config_path, into_string, Settings};
use std::path::PathBuf;

#[test]
fn test_settings_getters_return_configured_values() {
    let settings = Settings::new(
        7,
        String::from("/home/u/books"),
        String::from("00:11:22:33:44:55"),
        String::from("/var/log/out"),
        String::from("/var/log/err"),
    );

    assert_eq!(settings.interval(), 7);
    assert_eq!(settings.books_dir(), "/home/u/books");
    assert_eq!(settings.device_mac(), "00:11:22:33:44:55");
    assert_eq!(settings.stdout_file(), "/var/log/out");
    assert_eq!(settings.stderr_file(), "/var/log/err");
}

#[test]
fn test_negative_interval_truncates_like_the_numeric_cast() {
    let settings = Settings::new(
        -1,
        String::new(),
        String::new(),
        String::new(),
        String::new(),
    );

    assert_eq!(settings.interval(), u64::MAX);
}

#[test]
fn test_config_file_path_appends_fixed_name() {
    assert_eq!(
        config_file_path("/home/u/.config"),
        String::from("/home/u/.config/books-daemon.toml")
    );
}

#[test]
fn test_config_path_ends_with_fixed_name_when_known() {
    match config_path() {
        Ok(path) => assert!(path.ends_with("/books-daemon.toml")),
        Err(_) => {}
    }
}

#[test]
fn test_into_string_on_unicode_path() {
    assert_eq!(
        into_string(PathBuf::from("/tmp/books")),
        Some(String::from("/tmp/books"))
    );
}

use watchr::path::PathConfig;
use watchr::text::{contains_nul, str_eq, u64_to_string};

#[test]
fn numbers_spell_in_decimal() {
    assert_eq!(u64_to_string(0), "0");
    assert_eq!(u64_to_string(7), "7");
    assert_eq!(u64_to_string(10), "10");
    assert_eq!(u64_to_string(63063), "63063");
    assert_eq!(u64_to_string(u64::MAX), "18446744073709551615");
}

#[test]
fn string_equality_is_by_characters() {
    assert!(str_eq("pause", "pause"));
    assert!(!str_eq("pause", "paused"));
    assert!(!str_eq("pause", "Pause"));
    assert!(str_eq("", ""));
    assert!(str_eq("épisode", "épisode"));
    assert!(!str_eq("épisode", "episode"));
}

#[test]
fn nul_detection() {
    assert!(!contains_nul("pause"));
    assert!(!contains_nul(""));
    assert!(contains_nul("a\0b"));
    assert!(contains_nul("\0"));
}

#[test]
fn paths_lie_under_the_config_directory() {
    let p = PathConfig::new("/home/u");
    assert_eq!(p.media_file(), "/home/u/.config/watchr/media.mkv");
    assert_eq!(p.log_path(), "/home/u/.config/watchr/log.mpv");
    assert_eq!(p.socket_path("server"), "/home/u/.config/watchr/sock.server");
    assert_eq!(p.socket_path("client"), "/home/u/.config/watchr/sock.client");
}

#[test]
fn error_messages_name_their_subject() {
    let t = watchr::error::TimeoutError("waiting for file existence".to_string());
    assert_eq!(t.message(), "Timed out while waiting for file existence");
    let c = watchr::error::ConnectionClosedError("websocket".to_string());
    assert_eq!(c.message(), "Connection to websocket was closed");
}

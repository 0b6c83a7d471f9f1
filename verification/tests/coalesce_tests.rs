use watchr::coalesce::{parse_fixed_millis, Coalescer};

#[test]
fn parse_plain_integers() {
    assert_eq!(parse_fixed_millis("7"), Some(7000));
    assert_eq!(parse_fixed_millis("0"), Some(0));
    assert_eq!(parse_fixed_millis("42"), Some(42000));
}

#[test]
fn parse_fractions() {
    assert_eq!(parse_fixed_millis("42.5"), Some(42500));
    assert_eq!(parse_fixed_millis("10.02"), Some(10020));
    assert_eq!(parse_fixed_millis("10.020000"), Some(10020));
    assert_eq!(parse_fixed_millis("12.3456"), Some(12345));
    assert_eq!(parse_fixed_millis("10."), Some(10000));
}

#[test]
fn parse_signed() {
    assert_eq!(parse_fixed_millis("-3.25"), Some(-3250));
    assert_eq!(parse_fixed_millis("-0.5"), Some(-500));
}

#[test]
fn parse_rejects_non_numerals() {
    assert_eq!(parse_fixed_millis(""), None);
    assert_eq!(parse_fixed_millis("."), None);
    assert_eq!(parse_fixed_millis("-"), None);
    assert_eq!(parse_fixed_millis(".5"), None);
    assert_eq!(parse_fixed_millis("1e3"), None);
    assert_eq!(parse_fixed_millis("4.2.1"), None);
    assert_eq!(parse_fixed_millis("abc"), None);
    assert_eq!(parse_fixed_millis("12a"), None);
    // more than fifteen integer digits
    assert_eq!(parse_fixed_millis("1234567890123456"), None);
    assert_eq!(parse_fixed_millis("123456789012345"), Some(123456789012345000));
}

#[test]
fn coalescing_forwards_only_material_advances() {
    let mut c = Coalescer::new();
    // establish the 10.00 baseline: the first position always goes out
    assert!(c.decide("playback-time", "10.00"));
    // threshold 0.1: three restatements under it are suppressed
    assert!(!c.decide("playback-time", "10.00"));
    assert!(!c.decide("playback-time", "10.02"));
    assert!(!c.decide("playback-time", "10.05"));
    assert!(c.decide("playback-time", "10.11"));
}

#[test]
fn suppressed_values_do_not_move_the_baseline() {
    let mut c = Coalescer::new();
    assert!(c.decide("playback-time", "10.00"));
    assert!(!c.decide("playback-time", "10.05"));
    assert!(!c.decide("playback-time", "10.09"));
    // 10.12 clears the threshold against 10.00, not against 10.09
    assert!(c.decide("playback-time", "10.12"));
}

#[test]
fn backward_seek_always_forwards() {
    let mut c = Coalescer::new();
    assert!(c.decide("playback-time", "10.00"));
    assert!(c.decide("playback-time", "5.00"));
}

#[test]
fn other_properties_bypass_coalescing() {
    let mut c = Coalescer::new();
    assert!(c.decide("pause", "true"));
    assert!(c.decide("pause", "true"));
    assert!(c.decide("pause", "false"));
}

#[test]
fn unreadable_position_fails_open() {
    let mut c = Coalescer::new();
    assert!(c.decide("playback-time", "10.00"));
    // forwarded unchanged, and the baseline stays at 10.00
    assert!(c.decide("playback-time", "not-a-number"));
    assert!(!c.decide("playback-time", "10.05"));
}

use watchr::error::ProtocolError;
use watchr::frame::{decode_frame, heartbeat_frame, Frame, UpdatePropertyMessage};

#[test]
fn encode_is_name_nul_value() {
    let m = UpdatePropertyMessage::new("pause".to_string(), "true".to_string());
    assert_eq!(m.encode(), b"pause\0true".to_vec());
}

#[test]
fn heartbeat_is_one_zero_byte() {
    assert_eq!(heartbeat_frame(), vec![0u8]);
}

#[test]
fn round_trip_playback_time() {
    let m = UpdatePropertyMessage::new("playback-time".to_string(), "42.5".to_string());
    match decode_frame(&m.encode()) {
        Ok(Frame::Update(d)) => {
            assert_eq!(d.property, "playback-time");
            assert_eq!(d.value, "42.5");
        }
        other => panic!("expected an update, got {:?}", other),
    }
}

#[test]
fn round_trip_keeps_equals_and_spaces() {
    let m = UpdatePropertyMessage::new("a=b c".to_string(), "x y=z ".to_string());
    match decode_frame(&m.encode()) {
        Ok(Frame::Update(d)) => {
            assert_eq!(d.property, "a=b c");
            assert_eq!(d.value, "x y=z ");
        }
        _ => panic!("expected an update"),
    }
}

#[test]
fn round_trip_non_ascii_text() {
    let m = UpdatePropertyMessage::new("name".to_string(), "épisode 42 ß".to_string());
    match decode_frame(&m.encode()) {
        Ok(Frame::Update(d)) => {
            assert_eq!(d.property, "name");
            assert_eq!(d.value, "épisode 42 ß");
        }
        _ => panic!("expected an update"),
    }
}

#[test]
fn single_zero_byte_decodes_as_heartbeat() {
    assert!(matches!(decode_frame(&vec![0u8]), Ok(Frame::Heartbeat)));
}

#[test]
fn missing_separator_is_an_error() {
    assert!(matches!(
        decode_frame(&b"pause=true".to_vec()),
        Err(ProtocolError::MissingSeparator)
    ));
    assert!(matches!(
        decode_frame(&Vec::new()),
        Err(ProtocolError::MissingSeparator)
    ));
}

#[test]
fn invalid_text_in_property_is_an_error() {
    assert!(matches!(
        decode_frame(&vec![0xFFu8, 0x00, b'a']),
        Err(ProtocolError::InvalidProperty)
    ));
}

#[test]
fn invalid_text_in_value_is_an_error() {
    assert!(matches!(
        decode_frame(&vec![b'p', 0x00, 0xFFu8]),
        Err(ProtocolError::InvalidValue)
    ));
}

#[test]
fn empty_name_splits_at_leading_nul() {
    // two bytes are not the heartbeat: the first NUL is the delimiter
    match decode_frame(&vec![0u8, b'a']) {
        Ok(Frame::Update(d)) => {
            assert_eq!(d.property, "");
            assert_eq!(d.value, "a");
        }
        _ => panic!("expected an update"),
    }
}

use watchr::bridge::{
    disable_events_command, host_apply_event, host_handle_line, host_init_commands, is_observed,
    make_command, set_property_command, IpcEvent,
};
use watchr::broadcast::Clients;
use watchr::store::State;

#[test]
fn event_line_reaches_store_and_wire() {
    let mut state = State::empty();
    let mut clients = Clients::empty();
    let line = "{\"event\":\"property-change\",\"id\":1,\"name\":\"pause\",\"data\":\"yes\"}";
    let frame = host_handle_line(&mut state, &mut clients, line)
        .expect("a well-formed pause change is forwarded");
    assert_eq!(frame, b"pause\0yes".to_vec());
    assert_eq!(
        state.snapshot(),
        vec![("pause".to_string(), "yes".to_string())]
    );
}

#[test]
fn event_line_unknown_fields_are_ignored() {
    let mut state = State::empty();
    let mut clients = Clients::empty();
    let line = "{\"event\":\"property-change\",\"id\":2,\"name\":\"playback-time\",\"data\":\"42.5\",\"extra\":[1,2]}";
    let frame = host_handle_line(&mut state, &mut clients, line)
        .expect("the first position is always forwarded");
    assert_eq!(frame, b"playback-time\x0042.5".to_vec());
}

#[test]
fn malformed_lines_are_discarded() {
    let mut state = State::empty();
    let mut clients = Clients::empty();
    assert!(host_handle_line(&mut state, &mut clients, "").is_none());
    assert!(host_handle_line(&mut state, &mut clients, "not json").is_none());
    assert!(
        host_handle_line(&mut state, &mut clients, "{\"event\":\"property-change\"}").is_none()
    );
    // a numeric data field is not the string the bridge reads
    assert!(host_handle_line(
        &mut state,
        &mut clients,
        "{\"event\":\"property-change\",\"id\":1,\"name\":\"pause\",\"data\":4}"
    )
    .is_none());
    assert!(host_handle_line(&mut state, &mut clients, "[1,2,3]").is_none());
    assert!(state.snapshot().is_empty());
}

#[test]
fn observed_set_is_pause_and_position() {
    assert!(is_observed("pause"));
    assert!(is_observed("playback-time"));
    assert!(!is_observed("volume"));
    assert!(!is_observed(""));
}

#[test]
fn startup_subscribes_to_the_synchronized_set() {
    let cmds = host_init_commands();
    assert_eq!(cmds.len(), 2);
    assert_eq!(cmds[0], "{\"command\":[\"observe_property_string\",1,\"pause\"]}");
    assert_eq!(
        cmds[1],
        "{\"command\":[\"observe_property_string\",2,\"playback-time\"]}"
    );
}

#[test]
fn set_property_quotes_its_arguments() {
    assert_eq!(
        set_property_command("pause", "true"),
        "{\"command\":[\"set_property_string\",\"pause\",\"true\"]}"
    );
    // quoting escapes what JSON cannot hold raw
    assert_eq!(
        set_property_command("name", "a\"b\nc"),
        "{\"command\":[\"set_property_string\",\"name\",\"a\\\"b\\nc\"]}"
    );
}

#[test]
fn command_envelope_is_one_object() {
    assert_eq!(make_command("[\"x\"]"), "{\"command\":[\"x\"]}");
    assert_eq!(
        disable_events_command(),
        "{\"command\":[\"disable_event\",\"all\"]}"
    );
}

#[test]
fn observed_change_updates_store_and_broadcasts() {
    let mut state = State::empty();
    let mut clients = Clients::empty();
    clients.push(1);
    let ev = IpcEvent {
        event: "property-change".to_string(),
        id: 1,
        data: "yes".to_string(),
        name: "pause".to_string(),
    };
    let frame = host_apply_event(&mut state, &mut clients, &ev)
        .expect("pause changes are never suppressed");
    assert_eq!(frame, b"pause\0yes".to_vec());
    let snap = state.snapshot();
    assert_eq!(snap, vec![("pause".to_string(), "yes".to_string())]);
}

#[test]
fn other_events_are_discarded() {
    let mut state = State::empty();
    let mut clients = Clients::empty();
    let ev = IpcEvent {
        event: "idle".to_string(),
        id: 0,
        data: "".to_string(),
        name: "".to_string(),
    };
    assert!(host_apply_event(&mut state, &mut clients, &ev).is_none());
    let ev = IpcEvent {
        event: "property-change".to_string(),
        id: 3,
        data: "85".to_string(),
        name: "volume".to_string(),
    };
    assert!(host_apply_event(&mut state, &mut clients, &ev).is_none());
    assert!(state.snapshot().is_empty());
}

#[test]
fn values_holding_nul_are_discarded() {
    let mut state = State::empty();
    let mut clients = Clients::empty();
    let ev = IpcEvent {
        event: "property-change".to_string(),
        id: 1,
        data: "a\0b".to_string(),
        name: "pause".to_string(),
    };
    assert!(host_apply_event(&mut state, &mut clients, &ev).is_none());
    assert!(state.snapshot().is_empty());
}

#[test]
fn position_changes_run_through_the_coalescer() {
    let mut state = State::empty();
    let mut clients = Clients::empty();
    let ev = |v: &str| IpcEvent {
        event: "property-change".to_string(),
        id: 2,
        data: v.to_string(),
        name: "playback-time".to_string(),
    };
    assert!(host_apply_event(&mut state, &mut clients, &ev("10.00")).is_some());
    assert!(host_apply_event(&mut state, &mut clients, &ev("10.05")).is_none());
    // the store still saw the suppressed restatement
    let snap = state.snapshot();
    assert_eq!(snap, vec![("playback-time".to_string(), "10.05".to_string())]);
}

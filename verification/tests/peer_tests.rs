use watchr::peer::{PeerAction, PeerEvent, PeerState, PollVerdict, ReadinessPoll, READY_POLLS, RETRY_SECS};

#[test]
fn failed_handshakes_cycle_through_the_same_two_states() {
    let mut state = PeerState::Connecting;
    for _ in 0..3 {
        let (s, a) = state.step(PeerEvent::ConnectFailed);
        assert_eq!(s, PeerState::Disconnected { retry_secs: RETRY_SECS });
        assert!(matches!(a, PeerAction::Backoff(secs) if secs == RETRY_SECS));
        let (s, a) = s.step(PeerEvent::RetryElapsed);
        assert_eq!(s, PeerState::Connecting);
        assert!(matches!(a, PeerAction::StartHandshake));
        state = s;
    }
    assert_eq!(state, PeerState::Connecting);
}

#[test]
fn successful_connect_walks_to_streaming() {
    let (s, a) = PeerState::Connecting.step(PeerEvent::ConnectSucceeded);
    assert_eq!(s, PeerState::Syncing);
    assert!(matches!(a, PeerAction::BeginSync));
    let (s, a) = s.step(PeerEvent::SettleElapsed);
    assert_eq!(s, PeerState::Streaming);
    assert!(matches!(a, PeerAction::AwaitFrame));
}

#[test]
fn heartbeat_frames_are_ignored() {
    let (s, a) = PeerState::Streaming.step(PeerEvent::FrameReceived(vec![0u8]));
    assert_eq!(s, PeerState::Streaming);
    assert!(matches!(a, PeerAction::AwaitFrame));
}

#[test]
fn update_frames_are_applied() {
    let (s, a) = PeerState::Streaming.step(PeerEvent::FrameReceived(b"pause\0true".to_vec()));
    assert_eq!(s, PeerState::Streaming);
    match a {
        PeerAction::ApplyUpdate(m) => {
            assert_eq!(m.property, "pause");
            assert_eq!(m.value, "true");
        }
        _ => panic!("expected an apply action"),
    }
}

#[test]
fn malformed_frames_terminate_the_connection() {
    let (s, a) = PeerState::Streaming.step(PeerEvent::FrameReceived(b"no separator".to_vec()));
    assert_eq!(s, PeerState::Disconnected { retry_secs: RETRY_SECS });
    assert!(matches!(a, PeerAction::Backoff(secs) if secs == RETRY_SECS));
}

#[test]
fn transport_failures_trigger_the_backoff() {
    let (s, _) = PeerState::Streaming.step(PeerEvent::TransportError);
    assert_eq!(s, PeerState::Disconnected { retry_secs: RETRY_SECS });
    let (s, _) = PeerState::Streaming.step(PeerEvent::ConnectionClosed);
    assert_eq!(s, PeerState::Disconnected { retry_secs: RETRY_SECS });
}

#[test]
fn readiness_poll_succeeds_when_reachable() {
    let mut p = ReadinessPoll::new(READY_POLLS);
    assert_eq!(p.on_check(false), PollVerdict::RetryAfterSecond);
    assert_eq!(p.on_check(true), PollVerdict::Ready);
}

#[test]
fn readiness_poll_times_out_after_its_budget() {
    let mut p = ReadinessPoll::new(READY_POLLS);
    for _ in 0..READY_POLLS {
        assert_eq!(p.on_check(false), PollVerdict::RetryAfterSecond);
    }
    assert_eq!(p.on_check(false), PollVerdict::TimedOut);
    assert_eq!(p.on_check(false), PollVerdict::TimedOut);
}

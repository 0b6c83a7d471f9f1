use watchr::broadcast::Clients;
use watchr::frame::UpdatePropertyMessage;

fn members(c: &Clients) -> Vec<u64> {
    let mut out = Vec::new();
    let mut i = 0;
    while i < c.len() {
        out.push(c.session_at(i));
        i += 1;
    }
    out
}

#[test]
fn one_failed_write_drops_only_that_session() {
    let mut c = Clients::empty();
    c.push(11);
    c.push(22);
    c.push(33);
    c.push(44);
    let m = UpdatePropertyMessage::new("pause".to_string(), "true".to_string());
    let frame = c.plan_update(&m).expect("pause updates are never suppressed");
    assert_eq!(frame, b"pause\0true".to_vec());
    // the caller wrote the same frame to all four; the second write failed
    let verdicts = vec![true, false, true, true];
    c.sweep(&verdicts);
    assert_eq!(members(&c), vec![11, 33, 44]);
}

#[test]
fn all_successful_writes_keep_everyone() {
    let mut c = Clients::empty();
    c.push(1);
    c.push(2);
    c.sweep(&vec![true, true]);
    assert_eq!(members(&c), vec![1, 2]);
}

#[test]
fn sweep_on_empty_membership_is_a_no_op() {
    let mut c = Clients::empty();
    c.sweep(&Vec::new());
    assert_eq!(c.len(), 0);
}

#[test]
fn plan_update_runs_the_coalescer() {
    let mut c = Clients::empty();
    c.push(7);
    let pos = |v: &str| UpdatePropertyMessage::new("playback-time".to_string(), v.to_string());
    assert!(c.plan_update(&pos("10.00")).is_some());
    assert!(c.plan_update(&pos("10.02")).is_none());
    assert!(c.plan_update(&pos("10.05")).is_none());
    let frame = c.plan_update(&pos("10.11")).expect("a material advance is forwarded");
    assert_eq!(frame, b"playback-time\x0010.11".to_vec());
    // suppression never touches membership
    assert_eq!(members(&c), vec![7]);
}

#[test]
fn registration_order_is_kept() {
    let mut c = Clients::empty();
    c.push(5);
    c.push(3);
    c.push(9);
    assert_eq!(members(&c), vec![5, 3, 9]);
}

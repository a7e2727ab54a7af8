use msg_server::message::DecodedMessage;
use msg_server::registry::{CommandError, Registry};
use msg_server::snapshot::{decode_snapshot, encode_snapshot, newest_snapshot};

fn json(s: &str) -> DecodedMessage {
    DecodedMessage::rendered(s.to_string())
}

#[test]
fn status_follows_start_and_stop() {
    let mut r = Registry::new();
    assert!(!r.status());
    assert_eq!(r.start("tcp://127.0.0.1:5555", true), Ok(1));
    assert!(r.status());
    assert_eq!(r.stop(), Ok(()));
    assert!(!r.status());
}

#[test]
fn scenario_echo_log_forward_then_stop() {
    let mut r = Registry::new();
    let g = r.start("tcp://127.0.0.1:5555", true).unwrap();
    assert!(r.keep_polling(g));
    let reply = r.serve(g, vec![0x01, 0x02], Some(json("{\"v\":[1,2]}")));
    assert_eq!(reply, vec![0x01, 0x02]);
    assert_eq!(r.received().len(), 1);
    assert_eq!(r.take_forwards(), vec!["{\"v\":[1,2]}".to_string()]);
    let reply = r.serve(g, vec![0xFF], None);
    assert_eq!(reply, vec![0xFF]);
    assert_eq!(r.received().len(), 1);
    assert!(r.take_forwards().is_empty());
    assert_eq!(r.stop(), Ok(()));
    assert!(!r.status());
    assert!(!r.keep_polling(g));
}

#[test]
fn start_while_running_is_refused() {
    let mut r = Registry::new();
    assert_eq!(r.start("tcp://a:1", true), Ok(1));
    assert_eq!(r.start("tcp://b:2", true), Err(CommandError::AlreadyRunning));
    assert!(r.status());
}

#[test]
fn stop_without_server_is_refused() {
    let mut r = Registry::new();
    assert_eq!(r.stop(), Err(CommandError::NotRunning));
    r.start("tcp://a:1", true).unwrap();
    r.stop().unwrap();
    assert_eq!(r.stop(), Err(CommandError::NotRunning));
}

#[test]
fn bind_failure_leaves_registry_stopped() {
    let mut r = Registry::new();
    assert_eq!(r.start("tcp://a:1", false), Err(CommandError::BindFailure));
    assert!(!r.status());
}

#[test]
fn restart_keeps_log_and_retires_old_loop() {
    let mut r = Registry::new();
    let g1 = r.start("tcp://a:1", true).unwrap();
    r.serve(g1, vec![1], Some(json("first")));
    r.stop().unwrap();
    let g2 = r.start("tcp://a:1", true).unwrap();
    assert_eq!(g2, 2);
    assert!(!r.keep_polling(g1));
    assert!(r.keep_polling(g2));
    let reply = r.serve(g1, vec![5], Some(json("stale")));
    assert_eq!(reply, vec![5]);
    r.serve(g2, vec![2], Some(json("second")));
    assert_eq!(r.received(), &vec!["first".to_string(), "second".to_string()]);
}

#[test]
fn no_dispatch_after_stop() {
    let mut r = Registry::new();
    let g = r.start("tcp://a:1", true).unwrap();
    r.stop().unwrap();
    let reply = r.serve(g, vec![3], Some(json("late")));
    assert_eq!(reply, vec![3]);
    assert!(r.received().is_empty());
    assert!(r.take_forwards().is_empty());
}

#[test]
fn newest_snapshot_picks_latest_first() {
    assert_eq!(newest_snapshot(&vec![]), None);
    assert_eq!(newest_snapshot(&vec![7]), Some(0));
    assert_eq!(newest_snapshot(&vec![3, 9, 4, 9, 0]), Some(1));
    assert_eq!(newest_snapshot(&vec![0, 0, i128::MAX]), Some(2));
    assert_eq!(newest_snapshot(&vec![-5, -2, -9]), Some(1));
}

#[test]
fn snapshot_text_is_pretty_json() {
    let messages = vec!["a".to_string(), "{\"k\":1}".to_string()];
    assert_eq!(encode_snapshot(&messages), "[\n  \"a\",\n  \"{\\\"k\\\":1}\"\n]".to_string());
    assert_eq!(encode_snapshot(&Vec::new()), "[]".to_string());
}

#[test]
fn snapshot_text_reads_back() {
    assert_eq!(decode_snapshot("[\"x\", \"y\"]"), Ok(vec!["x".to_string(), "y".to_string()]));
    let messages = vec!["m1".to_string(), "m2".to_string()];
    assert_eq!(decode_snapshot(&encode_snapshot(&messages)), Ok(messages));
}

#[test]
fn snapshot_text_that_is_no_string_list_is_refused() {
    assert!(decode_snapshot("[1, 2]").is_err());
    assert!(decode_snapshot("not json").is_err());
    assert!(!decode_snapshot("{").unwrap_err().is_empty());
}

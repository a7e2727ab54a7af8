use msg_server::dispatch::DispatchBridge;
use msg_server::message::DecodedMessage;
use msg_server::server::{PollStep, ServerHandler};

fn json(s: &str) -> DecodedMessage {
    DecodedMessage::rendered(s.to_string())
}

#[test]
fn new_instance_is_not_closed() {
    let mut s = ServerHandler::new("tcp://127.0.0.1:5555", DispatchBridge::new());
    assert!(!s.is_closed());
    assert_eq!(s.poll(), PollStep::Receive);
    assert!(s.run());
    assert!(!s.is_closed());
    assert_eq!(s.poll(), PollStep::Receive);
}

#[test]
fn decodable_request_is_dispatched_once_and_echoed() {
    let mut s = ServerHandler::new("tcp://127.0.0.1:5555", DispatchBridge::new());
    s.run();
    let reply = s.serve(vec![1, 2], Some(json("{\"a\":1}")));
    assert_eq!(reply, vec![1, 2]);
    assert_eq!(s.handler().received(), &vec!["{\"a\":1}".to_string()]);
}

#[test]
fn undecodable_request_is_echoed_without_dispatch() {
    let mut s = ServerHandler::new("tcp://127.0.0.1:5555", DispatchBridge::new());
    s.run();
    let reply = s.serve(vec![0xFF], None);
    assert_eq!(reply, vec![0xFF]);
    assert!(s.handler().received().is_empty());
}

#[test]
fn unrenderable_message_leaves_no_entry() {
    let mut s = ServerHandler::new("tcp://127.0.0.1:5555", DispatchBridge::new());
    s.run();
    let reply = s.serve(vec![7, 7], Some(DecodedMessage::unrenderable()));
    assert_eq!(reply, vec![7, 7]);
    assert!(s.handler().received().is_empty());
}

#[test]
fn log_keeps_receipt_order() {
    let mut s = ServerHandler::new("ipc:///tmp/q", DispatchBridge::new());
    s.run();
    s.serve(vec![1], Some(json("m1")));
    s.serve(vec![2], None);
    s.serve(vec![3], Some(json("m2")));
    s.serve(vec![4], Some(json("m3")));
    let expected: Vec<String> = vec!["m1".to_string(), "m2".to_string(), "m3".to_string()];
    assert_eq!(s.handler().received(), &expected);
}

#[test]
fn close_is_idempotent_and_final() {
    let mut s = ServerHandler::new("tcp://127.0.0.1:5555", DispatchBridge::new());
    s.run();
    s.close();
    assert!(s.is_closed());
    s.close();
    assert!(s.is_closed());
    assert_eq!(s.poll(), PollStep::Exit);
    assert!(!s.run());
    assert!(s.is_closed());
    let reply = s.serve(vec![9], Some(json("late")));
    assert_eq!(reply, vec![9]);
    assert!(s.handler().received().is_empty());
}

#[test]
fn close_before_run_keeps_it_stopped() {
    let mut s = ServerHandler::new("tcp://127.0.0.1:5555", DispatchBridge::new());
    s.close();
    assert!(!s.run());
    assert!(s.is_closed());
}

#[test]
fn address_and_handler_can_be_replaced() {
    let mut s = ServerHandler::new("tcp://a:1", DispatchBridge::new());
    assert_eq!(s.address(), "tcp://a:1");
    s.set_address("tcp://b:2");
    assert_eq!(s.address(), "tcp://b:2");
    s.run();
    s.serve(vec![1], Some(json("x")));
    s.set_handler(DispatchBridge::new());
    assert!(s.handler().received().is_empty());
    assert!(!s.is_closed());
}

#[test]
fn bridge_queues_forwards_and_keeps_log() {
    let mut s = ServerHandler::new("tcp://a:1", DispatchBridge::new());
    s.run();
    s.serve(vec![1], Some(json("x")));
    s.serve(vec![2], Some(json("y")));
    let sent = s.handler_mut().take_forwards();
    assert_eq!(sent, vec!["x".to_string(), "y".to_string()]);
    assert!(s.handler_mut().take_forwards().is_empty());
    assert_eq!(s.handler().received().len(), 2);
    let bridge = s.into_handler();
    assert_eq!(bridge.received(), &vec!["x".to_string(), "y".to_string()]);
}

#[test]
fn decoded_message_json_form() {
    assert_eq!(json("{}").to_json_string(), Some("{}".to_string()));
    assert_eq!(DecodedMessage::unrenderable().to_json_string(), None);
}

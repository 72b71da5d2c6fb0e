use blutgang::websocket::client::confirmed_id;
use blutgang::websocket::client::execute_ws_call;
use blutgang::websocket::client::subscription_of;
use blutgang::websocket::client::rewrite_call;
use blutgang::websocket::client::CallEvent;
use blutgang::websocket::client::CallProgress;
use blutgang::websocket::client::PendingCall;
use blutgang::websocket::client::WireIds;
use blutgang::websocket::error::Error;
use blutgang::websocket::types::IncomingResponse;
use blutgang::websocket::types::RequestResult;
use blutgang::websocket::types::WsconnMessage;
use serde_json::Value;

fn json(text: &str) -> Value {
    serde_json::from_str(text).unwrap()
}

fn frame(text: &str, node_id: usize) -> CallEvent {
    CallEvent::Frame(IncomingResponse {
        content: json(text),
        node_id,
    })
}

#[test]
fn claim_takes_the_candidate_when_it_is_free() {
    let mut ids = WireIds::new();
    assert!(!ids.is_in_flight(41));
    assert_eq!(ids.claim(41), Some(41));
    assert!(ids.is_in_flight(41));
    assert!(!ids.is_in_flight(42));
}

#[test]
fn claim_moves_on_from_a_taken_candidate() {
    let mut ids = WireIds::new();
    assert_eq!(ids.claim(5), Some(5));
    assert_eq!(ids.claim(5), Some(6));
    assert_eq!(ids.claim(5), Some(7));
    assert_eq!(ids.claim(6), Some(8));
    ids.release(6);
    assert_eq!(ids.claim(5), Some(6));
}

#[test]
fn claim_wraps_round_the_range() {
    let mut ids = WireIds::new();
    assert_eq!(ids.claim(u32::MAX), Some(u32::MAX));
    assert_eq!(ids.claim(u32::MAX), Some(0));
    assert_eq!(ids.claim(u32::MAX), Some(1));
}

#[test]
fn release_frees_the_id() {
    let mut ids = WireIds::new();
    ids.claim(9);
    ids.release(9);
    assert!(!ids.is_in_flight(9));
    ids.release(9);
    assert!(!ids.is_in_flight(9));
    assert_eq!(ids.claim(9), Some(9));
}

#[test]
fn fresh_ids_are_unique_among_calls_in_flight() {
    let mut ids = WireIds::new();
    let mut seen = std::collections::HashSet::new();
    for _ in 0..1000 {
        let id = ids.fresh().unwrap();
        assert!(seen.insert(id));
        assert!(ids.is_in_flight(id));
    }
}

#[test]
fn execute_ws_call_rewrites_the_id() {
    let call = "{\"jsonrpc\":\"2.0\",\"id\":\"abc\",\"method\":\"eth_blockNumber\"}".to_string();
    let (pending, request) = execute_ws_call(call, 77).unwrap();
    assert_eq!(pending.caller_id, Value::String("abc".to_string()));
    assert_eq!(pending.wire_id, 77);
    assert_eq!(
        request,
        json("{\"jsonrpc\":\"2.0\",\"id\":77,\"method\":\"eth_blockNumber\"}")
    );
}

#[test]
fn execute_ws_call_keeps_any_kind_of_id() {
    let (pending, request) = execute_ws_call("{\"id\":[1,{\"a\":null}],\"x\":1}".to_string(), 0).unwrap();
    assert_eq!(pending.caller_id, json("[1,{\"a\":null}]"));
    assert_eq!(request, json("{\"id\":0,\"x\":1}"));

    let (pending, request) = execute_ws_call("{\"method\":\"m\"}".to_string(), u32::MAX).unwrap();
    assert_eq!(pending.caller_id, Value::Null);
    assert_eq!(request, json("{\"id\":4294967295,\"method\":\"m\"}"));
}

#[test]
fn execute_ws_call_refuses_what_is_not_a_json_object() {
    assert_eq!(execute_ws_call("not json".to_string(), 1), Err(Error::ParseError));
    assert_eq!(execute_ws_call("".to_string(), 1), Err(Error::ParseError));
    assert_eq!(execute_ws_call("[1,2]".to_string(), 1), Err(Error::ParseError));
    assert_eq!(execute_ws_call("\"id\"".to_string(), 1), Err(Error::ParseError));
    assert_eq!(execute_ws_call("null".to_string(), 1), Err(Error::ParseError));
    assert_eq!(rewrite_call(Value::Null, 1), Err(Error::ParseError));
    assert_eq!(rewrite_call(json("3"), 1), Err(Error::ParseError));
}

#[test]
fn is_answer_compares_the_wire_id() {
    let pending = PendingCall {
        caller_id: json("1"),
        wire_id: 77,
    };
    assert!(pending.is_answer(&json("{\"id\":77,\"result\":true}")));
    assert!(!pending.is_answer(&json("{\"id\":78,\"result\":true}")));
    assert!(!pending.is_answer(&json("{\"id\":\"77\",\"result\":true}")));
    assert!(!pending.is_answer(&json("{\"id\":-77}")));
    assert!(!pending.is_answer(&json("{\"id\":77.5}")));
    assert!(!pending.is_answer(&json("{\"result\":true}")));
    assert!(!pending.is_answer(&json("[77]")));
    assert!(!pending.is_answer(&json("77")));
    assert!(!pending.is_answer(&json("{\"id\":4294967373}")));
}

#[test]
fn restore_puts_the_caller_id_back() {
    let pending = PendingCall {
        caller_id: json("{\"nested\":[1]}"),
        wire_id: 3,
    };
    assert_eq!(
        pending.restore(json("{\"id\":3,\"result\":\"0x1\"}")),
        Ok(json("{\"id\":{\"nested\":[1]},\"result\":\"0x1\"}"))
    );
    let pending = PendingCall {
        caller_id: json("5"),
        wire_id: 3,
    };
    assert_eq!(pending.restore(json("[3]")), Err(Error::ParseError));
}

#[test]
fn single_call_round_trip() {
    let mut ids = WireIds::new();
    let wire_id = ids.fresh().unwrap();
    let call = "{\"jsonrpc\":\"2.0\",\"id\":\"abc\",\"method\":\"eth_blockNumber\"}".to_string();
    let (pending, request) = execute_ws_call(call, wire_id).unwrap();
    assert_eq!(request["id"], wire_id);
    assert_eq!(request["method"], "eth_blockNumber");

    let upstream = format!("{{\"jsonrpc\":\"2.0\",\"id\":{},\"result\":\"0x10\"}}", wire_id);
    let progress = pending.on_event(frame(&upstream, 0));
    assert_eq!(
        progress,
        CallProgress::Done(Ok(json(
            "{\"jsonrpc\":\"2.0\",\"id\":\"abc\",\"result\":\"0x10\"}"
        )))
    );
    ids.release(wire_id);
    assert!(!ids.is_in_flight(wire_id));
}

#[test]
fn two_calls_on_one_upstream_do_not_mix_ids() {
    let mut ids = WireIds::new();
    // Both draw the same candidate: the ids on the wire still differ.
    let wire_one = ids.claim(1234).unwrap();
    let wire_two = ids.claim(1234).unwrap();
    assert_ne!(wire_one, wire_two);
    let (one, _) = execute_ws_call("{\"id\":\"1\",\"method\":\"a\"}".to_string(), wire_one).unwrap();
    let (two, _) = execute_ws_call("{\"id\":\"2\",\"method\":\"b\"}".to_string(), wire_two).unwrap();

    // The upstream answers the second call first.
    let reply_two = format!("{{\"id\":{},\"result\":\"for two\"}}", wire_two);
    let reply_one = format!("{{\"id\":{},\"result\":\"for one\"}}", wire_one);

    let one = match one.on_event(frame(&reply_two, 0)) {
        CallProgress::Waiting(pending) => pending,
        CallProgress::Done(_) => panic!("the first call took the reply to the second"),
    };
    assert_eq!(
        two.on_event(frame(&reply_two, 0)),
        CallProgress::Done(Ok(json("{\"id\":\"2\",\"result\":\"for two\"}")))
    );
    assert_eq!(
        one.on_event(frame(&reply_one, 0)),
        CallProgress::Done(Ok(json("{\"id\":\"1\",\"result\":\"for one\"}")))
    );
}

#[test]
fn a_call_ignores_notifications_and_times_out() {
    let (pending, _) = execute_ws_call("{\"id\":9,\"method\":\"m\"}".to_string(), 500).unwrap();
    let notification =
        "{\"method\":\"eth_subscription\",\"params\":{\"subscription\":\"0x1\",\"result\":1}}";
    let pending = match pending.on_event(frame(notification, 0)) {
        CallProgress::Waiting(pending) => pending,
        CallProgress::Done(_) => panic!("a notification ended the call"),
    };
    assert_eq!(pending.wire_id, 500);
    assert_eq!(pending.caller_id, json("9"));
    assert_eq!(
        pending.on_event(CallEvent::TimedOut),
        CallProgress::Done(Err(Error::Timeout))
    );
}

#[test]
fn messages_convert_to_their_json() {
    let call = RequestResult::Call(json("{\"a\":1}"));
    assert_eq!(Value::from(call.clone()), json("{\"a\":1}"));
    assert_eq!(call.clone(), call);
    let sub = RequestResult::Subscription(json("[1]"));
    assert_eq!(Value::from(sub), json("[1]"));
    assert_eq!(Value::from(WsconnMessage::Message(json("{\"b\":2}"))), json("{\"b\":2}"));
    assert_eq!(Value::from(WsconnMessage::Reconnect()), Value::Null);
    let incoming = IncomingResponse {
        content: json("{\"c\":3}"),
        node_id: 4,
    };
    assert_eq!(incoming.clone(), incoming);
}

#[test]
fn subscription_of_reads_a_notification() {

    let notification = json(
        "{\"jsonrpc\":\"2.0\",\"method\":\"eth_subscription\",\"params\":{\"subscription\":\"0xdeadbeef\",\"result\":{}}}",
    );
    assert_eq!(subscription_of(&notification), Some("0xdeadbeef".to_string()));
    assert_eq!(subscription_of(&json("{\"id\":1,\"result\":\"0x1\"}")), None);
    assert_eq!(subscription_of(&json("{\"params\":[\"subscription\"]}")), None);
    assert_eq!(subscription_of(&json("{\"params\":{\"subscription\":7}}")), None);
    assert_eq!(subscription_of(&json("{\"subscription\":\"0x1\"}")), None);
    assert_eq!(subscription_of(&Value::Null), None);
}

#[test]
fn confirmed_id_reads_the_result() {

    assert_eq!(
        confirmed_id(&json("{\"id\":1,\"result\":\"0xcafe\"}")),
        Some("0xcafe".to_string())
    );
    assert_eq!(confirmed_id(&json("{\"id\":1,\"result\":true}")), None);
    assert_eq!(confirmed_id(&json("{\"id\":1,\"error\":{\"code\":-32000}}")), None);
    assert_eq!(confirmed_id(&json("{\"params\":{\"result\":\"0x1\"}}")), None);
}

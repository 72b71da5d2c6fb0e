use blutgang::balancer::selection::select::Weights;
use blutgang::rpc::types::Rpc;
use blutgang::rpc::types::Status;
use blutgang::websocket::client::is_close;
use blutgang::websocket::client::ws_conn;
use blutgang::websocket::client::ws_conn_manager;
use blutgang::websocket::client::ws_target;
use blutgang::websocket::client::Backoff;
use blutgang::websocket::client::ManagerAction;
use blutgang::websocket::client::WorkerAction;
use blutgang::websocket::client::WorkerEvent;
use blutgang::websocket::client::WorkerState;
use blutgang::websocket::error::Error;
use blutgang::websocket::types::Delivery;
use blutgang::websocket::types::IncomingResponse;
use blutgang::websocket::types::RequestResult;
use blutgang::websocket::types::SubscriptionData;
use blutgang::websocket::types::UserData;
use blutgang::websocket::types::WsChannelErr;
use blutgang::websocket::types::WsconnMessage;
use serde_json::Value;
use tokio::sync::mpsc;

fn json(text: &str) -> Value {
    serde_json::from_str(text).unwrap()
}

fn node(rank: i32, is_erroring: bool, ws_url: Option<&str>) -> Rpc {
    Rpc {
        url: "http://localhost:8545".to_string(),
        ws_url: ws_url.map(|url| url.to_string()),
        rank,
        status: Status {
            is_erroring,
            latency: 0,
            throughput: 0,
            failures: 0,
        },
    }
}

const WEIGHTS: Weights = Weights {
    latency: 1,
    throughput: 1,
};

#[test]
fn ws_target_is_the_websocket_url() {
    assert_eq!(
        ws_target(&node(0, false, Some("ws://localhost:8546/path"))),
        Ok("ws://localhost:8546/path".to_string())
    );
    assert_eq!(
        ws_target(&node(0, false, Some("wss://node.example.com"))),
        Ok("wss://node.example.com".to_string())
    );
}

#[test]
fn ws_target_fails_without_a_usable_url() {
    assert_eq!(ws_target(&node(0, false, None)), Err(Error::ConnectFailed));
    assert_eq!(ws_target(&node(0, false, Some(""))), Err(Error::ConnectFailed));
    assert_eq!(
        ws_target(&node(0, false, Some("not a url"))),
        Err(Error::ConnectFailed)
    );
    assert_eq!(
        ws_target(&node(0, false, Some("/relative/path"))),
        Err(Error::ConnectFailed)
    );
}

#[test]
fn backoff_doubles_up_to_the_cap() {
    let backoff = Backoff {
        base: 100,
        cap: 1000,
    };
    assert_eq!(backoff.ceiling_of(0), 100);
    assert_eq!(backoff.ceiling_of(1), 200);
    assert_eq!(backoff.ceiling_of(2), 400);
    assert_eq!(backoff.ceiling_of(3), 800);
    assert_eq!(backoff.ceiling_of(4), 1000);
    assert_eq!(backoff.ceiling_of(5), 1000);
    assert_eq!(backoff.ceiling_of(u32::MAX), 1000);
}

#[test]
fn backoff_edge_policies() {
    let capped = Backoff { base: 50, cap: 10 };
    assert_eq!(capped.ceiling_of(0), 10);
    assert_eq!(capped.ceiling_of(7), 10);
    let none = Backoff { base: 0, cap: 10 };
    assert_eq!(none.ceiling_of(0), 0);
    assert_eq!(none.ceiling_of(u32::MAX), 0);
    assert_eq!(none.delay_of(3, 12345), 0);
    let huge = Backoff {
        base: u64::MAX / 2 + 1,
        cap: u64::MAX,
    };
    assert_eq!(huge.ceiling_of(0), u64::MAX / 2 + 1);
    assert_eq!(huge.ceiling_of(1), u64::MAX);
    assert_eq!(huge.delay_of(1, 0), u64::MAX - u64::MAX / 2);
}

#[test]
fn backoff_delay_adds_jitter_to_half_the_ceiling() {
    let backoff = Backoff {
        base: 100,
        cap: 1000,
    };
    // ceiling 400: 200 + jitter % 201
    assert_eq!(backoff.delay_of(2, 0), 200);
    assert_eq!(backoff.delay_of(2, 200), 400);
    assert_eq!(backoff.delay_of(2, 201), 200);
    assert_eq!(backoff.delay_of(2, 1000), 200 + 1000 % 201);
    // ceiling 1000: 500 + jitter % 501
    assert_eq!(backoff.delay_of(9, 500), 1000);
    // an odd ceiling: 7 - 3 + jitter % 4
    let odd = Backoff { base: 7, cap: 7 };
    assert_eq!(odd.delay_of(0, 0), 4);
    assert_eq!(odd.delay_of(0, 3), 7);
    assert_eq!(odd.delay_of(0, 4), 4);
}

#[test]
fn next_delay_stays_between_half_and_whole_ceiling() {
    let backoff = Backoff {
        base: 100,
        cap: 1000,
    };
    for attempt in 0..8u32 {
        let ceiling = backoff.ceiling_of(attempt);
        for _ in 0..50 {
            let delay = backoff.next_delay(attempt);
            assert!(ceiling - ceiling / 2 <= delay && delay <= ceiling);
        }
    }
}

#[test]
fn is_close_reads_the_method() {
    assert!(is_close(&json("{\"method\":\"close\"}")));
    assert!(is_close(&json("{\"id\":1,\"method\":\"close\"}")));
    assert!(!is_close(&json("{\"method\":\"closed\"}")));
    assert!(!is_close(&json("{\"method\":\"eth_call\"}")));
    assert!(!is_close(&json("{\"method\":[\"close\"]}")));
    assert!(!is_close(&json("{\"id\":\"close\"}")));
    assert!(!is_close(&json("\"close\"")));
    assert!(!is_close(&Value::Null));
}

#[test]
fn worker_connects_with_backoff() {
    let state = WorkerState::Connecting { attempt: 0 };
    let (state, action) = ws_conn(state, WorkerEvent::ConnectFailed, 3);
    assert_eq!(state, WorkerState::Connecting { attempt: 1 });
    assert_eq!(
        action,
        WorkerAction::RetryAfter {
            attempt: 0,
            cause: Error::ConnectFailed
        }
    );
    let (state, action) = ws_conn(state, WorkerEvent::ConnectFailed, 3);
    assert_eq!(state, WorkerState::Connecting { attempt: 2 });
    assert_eq!(
        action,
        WorkerAction::RetryAfter {
            attempt: 1,
            cause: Error::ConnectFailed
        }
    );
    let (state, action) = ws_conn(state, WorkerEvent::Connected, 3);
    assert_eq!((state, action), (WorkerState::Open, WorkerAction::Serve));

    let (state, action) = ws_conn(
        WorkerState::Connecting { attempt: u32::MAX },
        WorkerEvent::ConnectFailed,
        3,
    );
    assert_eq!(state, WorkerState::Connecting { attempt: u32::MAX });
    assert_eq!(
        action,
        WorkerAction::RetryAfter {
            attempt: u32::MAX,
            cause: Error::ConnectFailed
        }
    );
}

#[test]
fn open_worker_sends_and_publishes() {
    let request = json("{\"jsonrpc\":\"2.0\",\"id\":7,\"method\":\"eth_blockNumber\"}");
    let (state, action) = ws_conn(WorkerState::Open, WorkerEvent::Outbound(request.clone()), 2);
    assert_eq!(state, WorkerState::Open);
    match action {
        WorkerAction::Send(text) => {
            assert_eq!(text, request.to_string());
            assert_eq!(json(&text), request);
            assert!(!text.contains(' '));
        }
        other => panic!("expected a frame to send, got {:?}", other),
    }

    let (state, action) = ws_conn(
        WorkerState::Open,
        WorkerEvent::Inbound("{\"id\":7,\"result\":\"0x10\"}".to_string()),
        2,
    );
    assert_eq!(state, WorkerState::Open);
    assert_eq!(
        action,
        WorkerAction::Publish(IncomingResponse {
            content: json("{\"id\":7,\"result\":\"0x10\"}"),
            node_id: 2
        })
    );
}

#[test]
fn open_worker_drops_what_is_not_json() {
    let (state, action) = ws_conn(
        WorkerState::Open,
        WorkerEvent::Inbound("{\"id\":".to_string()),
        0,
    );
    assert_eq!(state, WorkerState::Open);
    assert_eq!(action, WorkerAction::Discard(Error::ParseError));
}

#[test]
fn close_request_drains_and_stops_the_worker() {
    let (state, action) = ws_conn(
        WorkerState::Open,
        WorkerEvent::Outbound(json("{\"method\":\"close\"}")),
        0,
    );
    assert_eq!((state, action), (WorkerState::Draining, WorkerAction::Close));
    let (state, action) = ws_conn(
        state,
        WorkerEvent::Outbound(json("{\"method\":\"eth_call\"}")),
        0,
    );
    assert_eq!((state, action), (WorkerState::Draining, WorkerAction::Ignore));
    let (state, action) = ws_conn(state, WorkerEvent::Drained, 0);
    assert_eq!((state, action), (WorkerState::Closed, WorkerAction::Stop));
    let (state, action) = ws_conn(state, WorkerEvent::Connected, 0);
    assert_eq!((state, action), (WorkerState::Closed, WorkerAction::Stop));
    let (state, action) = ws_conn(WorkerState::Draining, WorkerEvent::IoError, 0);
    assert_eq!((state, action), (WorkerState::Closed, WorkerAction::Stop));
}

#[test]
fn broken_worker_signals_and_reconnects() {
    let (state, action) = ws_conn(WorkerState::Open, WorkerEvent::IoError, 0);
    assert_eq!(state, WorkerState::Broken);
    assert_eq!(action, WorkerAction::SignalReconnect(Error::IoBroken));
    let (state, action) = ws_conn(state, WorkerEvent::Connected, 0);
    assert_eq!((state, action), (WorkerState::Broken, WorkerAction::Ignore));
    let (state, action) = ws_conn(state, WorkerEvent::Resumed, 0);
    assert_eq!(
        (state, action),
        (WorkerState::Connecting { attempt: 0 }, WorkerAction::Connect)
    );
}

#[test]
fn events_out_of_place_are_ignored() {
    let connecting = WorkerState::Connecting { attempt: 4 };
    for event in [
        WorkerEvent::Outbound(json("{}")),
        WorkerEvent::Inbound("{}".to_string()),
        WorkerEvent::IoError,
        WorkerEvent::Drained,
        WorkerEvent::Resumed,
    ] {
        assert_eq!(ws_conn(connecting, event, 0), (connecting, WorkerAction::Ignore));
    }
    for event in [
        WorkerEvent::Connected,
        WorkerEvent::ConnectFailed,
        WorkerEvent::Drained,
        WorkerEvent::Resumed,
    ] {
        assert_eq!(
            ws_conn(WorkerState::Open, event, 0),
            (WorkerState::Open, WorkerAction::Ignore)
        );
    }
}

#[test]
fn manager_forwards_to_the_picked_node() {
    let list = vec![
        node(1, false, None),
        node(5, true, None),
        node(3, false, None),
    ];
    let subscriptions = SubscriptionData::new();
    let request = json("{\"id\":1,\"method\":\"eth_chainId\"}");
    let action = ws_conn_manager(
        WsconnMessage::Message(request.clone()),
        &list,
        &WEIGHTS,
        &subscriptions,
    );
    assert_eq!(
        action,
        ManagerAction::Forward {
            node_id: 2,
            request
        }
    );
}

#[test]
fn manager_replays_the_active_subscriptions() {
    let list = vec![node(1, false, None)];
    let mut subscriptions = SubscriptionData::new();
    assert_eq!(
        ws_conn_manager(WsconnMessage::Reconnect(), &list, &WEIGHTS, &subscriptions),
        ManagerAction::Replay { requests: vec![] }
    );
    subscriptions.register_subscription("heads".to_string(), "0x1".to_string(), 0);
    subscriptions.register_subscription("logs".to_string(), "0x2".to_string(), 0);
    subscriptions.register_subscription("heads".to_string(), "0x3".to_string(), 0);
    match ws_conn_manager(WsconnMessage::Reconnect(), &list, &WEIGHTS, &subscriptions) {
        ManagerAction::Replay { mut requests } => {
            requests.sort();
            assert_eq!(requests, vec!["heads".to_string(), "logs".to_string()]);
        }
        other => panic!("expected a replay, got {:?}", other),
    }
}

#[test]
fn rebind_moves_the_subscribers_along() {
    let mut subscriptions = SubscriptionData::new();
    subscriptions.register_subscription("heads".to_string(), "0x1".to_string(), 0);
    subscriptions.subscribe_user(1, "heads".to_string()).unwrap();
    subscriptions.subscribe_user(2, "heads".to_string()).unwrap();
    subscriptions.register_subscription("logs".to_string(), "0x2".to_string(), 1);
    subscriptions.subscribe_user(3, "logs".to_string()).unwrap();

    subscriptions.rebind_subscription("heads".to_string(), "0x2".to_string(), 1);
    let node = subscriptions.lookup_subscription(&"heads".to_string()).unwrap();
    assert_eq!((node.node_id, node.subscription_id.as_str()), (1, "0x2"));
    for user in [1, 2, 3] {
        assert!(subscriptions.is_subscribed(user, 1, &"0x2".to_string()));
    }
    assert!(subscriptions.is_subscribed(1, 0, &"0x1".to_string()));
    assert!(!subscriptions.is_subscribed(3, 0, &"0x1".to_string()));

    // A request that was not registered is registered, and nobody follows it.
    subscriptions.rebind_subscription("pending".to_string(), "0x9".to_string(), 0);
    assert!(subscriptions.lookup_subscription(&"pending".to_string()).is_some());
    assert!(!subscriptions.has_subscription(0, &"0x9".to_string()));

    // Rebinding to the same subscription changes nothing.
    subscriptions.rebind_subscription("logs".to_string(), "0x2".to_string(), 1);
    for user in [1, 2, 3] {
        assert!(subscriptions.is_subscribed(user, 1, &"0x2".to_string()));
    }
    assert!(!subscriptions.is_subscribed(4, 1, &"0x2".to_string()));
}

#[test]
fn node_failure_and_reconnect_replays_subscriptions() {
    let list = vec![
        node(2, false, Some("ws://node0:8546")),
        node(1, false, Some("ws://node1:8546")),
    ];
    let mut subscriptions = SubscriptionData::new();
    let (tx1, mut rx1) = mpsc::unbounded_channel();
    let (tx2, mut rx2) = mpsc::unbounded_channel();
    subscriptions.add_user(100, UserData { message_channel: tx1 });
    subscriptions.add_user(200, UserData { message_channel: tx2 });
    let request = "{\"method\":\"eth_subscribe\",\"params\":[\"newHeads\"]}".to_string();
    subscriptions.register_subscription(request.clone(), "0xold".to_string(), 0);
    subscriptions.subscribe_user(100, request.clone()).unwrap();
    subscriptions.subscribe_user(200, request.clone()).unwrap();

    // The socket of node 0 breaks: its worker signals a reconnect.
    let (state, action) = ws_conn(WorkerState::Open, WorkerEvent::IoError, 0);
    assert_eq!(action, WorkerAction::SignalReconnect(Error::IoBroken));

    // The manager answers the signal with the requests to send again.
    let replay = ws_conn_manager(WsconnMessage::Reconnect(), &list, &WEIGHTS, &subscriptions);
    assert_eq!(
        replay,
        ManagerAction::Replay {
            requests: vec![request.clone()]
        }
    );

    // The worker comes back.
    let (state, action) = ws_conn(state, WorkerEvent::Resumed, 0);
    assert_eq!(action, WorkerAction::Connect);
    let (state, _) = ws_conn(state, WorkerEvent::Connected, 0);
    assert_eq!(state, WorkerState::Open);

    // The node confirms the subscription under a new id.
    subscriptions.rebind_subscription(request.clone(), "0xnew".to_string(), 0);
    let message = RequestResult::Subscription(json("{\"number\":\"0x2\"}"));
    let mut report = subscriptions
        .dispatch_to_subscribers("0xnew", 0, &message)
        .unwrap();
    report.sort_by_key(|delivery| delivery.user_id);
    assert_eq!(
        report,
        vec![
            Delivery { user_id: 100, sent: true },
            Delivery { user_id: 200, sent: true },
        ]
    );
    assert_eq!(rx1.try_recv().ok(), Some(message.clone()));
    assert_eq!(rx2.try_recv().ok(), Some(message));
}

#[test]
fn delivery_outcome_names_a_closed_channel() {
    assert_eq!(Delivery { user_id: 1, sent: true }.outcome(), Ok(()));
    assert_eq!(
        Delivery { user_id: 1, sent: false }.outcome(),
        Err(Error::SendFailed)
    );
    assert_eq!(WsChannelErr::Closed(3), WsChannelErr::Closed(3));
    assert_ne!(WsChannelErr::Closed(3), WsChannelErr::Closed(4));
}

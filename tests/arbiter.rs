use urocket_http_stage::arbiter::{new_request_id, Arbiter, ForHttpResponse, FrontResponse, ProxyMsg};

#[test]
fn arbiter_run() {
    let mut arbiter = Arbiter::new();
    let (mut rx, req_id) = arbiter.add_request();
    let rpay = ForHttpResponse::default();
    let matched = arbiter.fulfill_request(&req_id.clone(), rpay.clone());
    match rx.try_recv() {
        Ok(FrontResponse::BackMsg(m)) => assert_eq!(m.clone(), rpay),
        Ok(FrontResponse::InternalError) => panic!("Internal error (unspecified)"),
        Err(e) => panic!("er {:?}", e),
    }
    assert!(matched, "it is true");
}

#[test]
fn round_trip_delivers_the_payload() {
    let mut arbiter = Arbiter::new();
    let (mut rx, id) = arbiter.add_request();
    assert_eq!(id.len(), 36);
    assert_eq!(arbiter.pending_count(), 1);
    let payload = ForHttpResponse { code: 201, data: serde_json::Value::from("done") };
    assert!(arbiter.fulfill_request(&id, payload.clone()));
    assert_eq!(rx.try_recv().unwrap(), FrontResponse::BackMsg(payload));
    assert_eq!(arbiter.pending_count(), 0);
}

#[test]
fn second_fulfill_does_not_match() {
    let mut arbiter = Arbiter::new();
    let (_rx, id) = arbiter.add_request();
    assert!(arbiter.fulfill_request(&id, ForHttpResponse::default()));
    assert!(!arbiter.fulfill_request(&id, ForHttpResponse::default()));
    assert!(!arbiter.expire_request(&id));
}

#[test]
fn unknown_id_leaves_table_alone() {
    let mut arbiter = Arbiter::new();
    let (_rx1, id1) = arbiter.add_request();
    let (_rx2, id2) = arbiter.add_request();
    assert_ne!(id1, id2);
    assert_eq!(arbiter.pending_count(), 2);
    assert!(!arbiter.fulfill_request("no-such-id", ForHttpResponse::default()));
    assert_eq!(arbiter.pending_count(), 2);
    assert!(arbiter.is_pending(&id1));
    assert!(arbiter.is_pending(&id2));
}

#[test]
fn expiry_delivers_internal_error() {
    let mut arbiter = Arbiter::new();
    let (mut rx, id) = arbiter.add_request();
    assert!(arbiter.expire_request(&id));
    assert_eq!(rx.try_recv().unwrap(), FrontResponse::InternalError);
    assert!(!arbiter.fulfill_request(&id, ForHttpResponse::default()));
}

#[test]
fn fulfill_after_receiver_dropped_still_matches() {
    let mut arbiter = Arbiter::new();
    let (rx, id) = arbiter.add_request();
    drop(rx);
    assert!(arbiter.fulfill_request(&id, ForHttpResponse::default()));
    assert_eq!(arbiter.pending_count(), 0);
}

#[test]
fn mailbox_messages_subscribe_and_fulfill() {
    let mut arbiter = Arbiter::new();
    let (tx, mut rx) = tokio::sync::oneshot::channel();
    let id = new_request_id();
    arbiter.handle_message(ProxyMsg::AddSubscriber { request_id: id.clone(), timeout: 40000, respond_to: tx });
    assert!(arbiter.is_pending(&id));
    let (ack_tx, mut ack_rx) = tokio::sync::oneshot::channel();
    let payload = ForHttpResponse { code: 200, data: serde_json::Value::Null };
    arbiter.handle_message(ProxyMsg::FulfillRequest { request_id: id.clone(), response_payload: payload.clone(), respond_to: ack_tx });
    assert_eq!(ack_rx.try_recv().unwrap(), true);
    assert_eq!(rx.try_recv().unwrap(), FrontResponse::BackMsg(payload));
    let (ack_tx2, mut ack_rx2) = tokio::sync::oneshot::channel();
    arbiter.handle_message(ProxyMsg::FulfillRequest { request_id: id, response_payload: ForHttpResponse::default(), respond_to: ack_tx2 });
    assert_eq!(ack_rx2.try_recv().unwrap(), false);
}

#[test]
fn mailbox_expiry_sends_internal_error() {
    let mut arbiter = Arbiter::new();
    let (tx, mut rx) = tokio::sync::oneshot::channel();
    let id = new_request_id();
    arbiter.handle_message(ProxyMsg::AddSubscriber { request_id: id.clone(), timeout: 40000, respond_to: tx });
    arbiter.handle_message(ProxyMsg::ExpireRequest { request_id: id.clone() });
    assert_eq!(rx.try_recv().unwrap(), FrontResponse::InternalError);
    assert!(!arbiter.is_pending(&id));
    assert_eq!(arbiter.pending_count(), 0);
}

#[test]
fn resolved_now_holds_value_and_registers_nothing() {
    let mut arbiter = Arbiter::new();
    let mut rx = arbiter.resolved_now(FrontResponse::InternalError);
    assert_eq!(rx.try_recv().unwrap(), FrontResponse::InternalError);
    assert_eq!(arbiter.pending_count(), 0);
}

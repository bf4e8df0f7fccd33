use urocket_http_stage::arbiter::{ForHttpResponse, FrontResponse};
use urocket_http_stage::backserv::{ack_reply, payload_response, uri_extract_req_id};
use urocket_http_stage::frontserv::{front_reply, status_for};

#[test]
fn report_path_names_request() {
    assert_eq!(uri_extract_req_id("/urhttp/abc-123"), Some("abc-123".to_string()));
    assert_eq!(uri_extract_req_id("/urhttp/a/urhttp/b"), Some("ab".to_string()));
    assert_eq!(uri_extract_req_id("/urhttp/"), Some("".to_string()));
    assert_eq!(uri_extract_req_id("/other/abc"), None);
    assert_eq!(uri_extract_req_id("/urhttp"), None);
}

#[test]
fn report_body_becomes_fulfillment() {
    let ok = payload_response(b"{\"a\":1}");
    assert_eq!(ok.code, 200);
    assert_eq!(ok.data["a"], serde_json::Value::from(1));
    let bad = payload_response(b"not json");
    assert_eq!(bad.code, 500);
    assert_eq!(bad.data, serde_json::Value::Bool(false));
}

#[test]
fn reporter_is_told_whether_it_matched() {
    assert_eq!(ack_reply(Some(true)), (200, "ok\n"));
    assert_eq!(ack_reply(Some(false)), (200, "Does not match any response\n"));
    assert_eq!(ack_reply(None), (500, ""));
}

#[test]
fn front_reply_uses_code_and_json() {
    let resp = FrontResponse::BackMsg(ForHttpResponse { code: 201, data: serde_json::Value::from(vec![1, 2]) });
    assert_eq!(front_reply(&resp), (201, "[1,2]".to_string()));
    assert_eq!(front_reply(&FrontResponse::InternalError), (500, "Internal Error".to_string()));
}

#[test]
fn status_codes_outside_range_become_500() {
    assert_eq!(status_for(1), 500);
    assert_eq!(status_for(99), 500);
    assert_eq!(status_for(100), 100);
    assert_eq!(status_for(999), 999);
    assert_eq!(status_for(1000), 500);
    assert_eq!(status_for(65536 + 404), 404);
}

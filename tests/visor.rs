use std::collections::HashMap;
use urocket_http_stage::arbiter::{ForHttpResponse, FrontResponse};
use urocket_http_stage::procenv::ProcEnv;
use urocket_http_stage::processcontroller::{launch_plan, PAYLOAD_PLACEHOLDER, REQUEST_ID_VAR};
use urocket_http_stage::requestsvisor::RequestsVisorActor;
use urocket_http_stage::restmessage::RestMessage;
use urocket_http_stage::serviceconf::{PathVerb, ServiceConf, VerbAction};

fn staff_conf() -> ServiceConf {
    let mut proce = ProcEnv::new("", vec![], "sleep 2", "");
    proce.timeout = Some(300);
    let post = VerbAction { validatein: false, validateout: false, logstdout: true, inject: Some(proce) };
    let get = VerbAction::default();
    ServiceConf {
        servicename: "mynastyphpport".to_string(),
        socketpath: "/tmp/sock".to_string(),
        port: "8080".to_string(),
        paths: vec![("/put/staff/in".to_string(), PathVerb { get: Some(get), post: Some(post) })],
    }
}

#[test]
fn visor_run() {
    let conf = ServiceConf::default();
    let mut visor = RequestsVisorActor::new(&conf);
    let req = RestMessage::new("get", "/myurl", "");
    let reg = visor.register_pending(&req);
    let mut x = reg.receiver;
    let uuid = reg.request_id;
    assert_eq!(uuid, "");
    let response = ForHttpResponse { code: 1, data: serde_json::Value::String(String::from("helpme please")) };
    let matched = visor.fulfill_pending(&uuid, response);
    assert!(!matched);
    assert_eq!(x.try_recv().unwrap(), FrontResponse::InternalError);
}

#[test]
fn routed_request_is_registered_and_dispatched() {
    let conf = staff_conf();
    let mut visor = RequestsVisorActor::new(&conf);
    let req = RestMessage::new("POST", "/put/staff/in", "{\"a\":1}");
    let reg = visor.register_pending(&req);
    assert_eq!(reg.request_id.len(), 36);
    assert_eq!(visor.pending_count(), 1);
    let proce = reg.dispatch.expect("route injects a process");
    assert_eq!(proce.timeout, Some(300));

    let mut placeholders = HashMap::new();
    placeholders.insert(PAYLOAD_PLACEHOLDER, req.body());
    let plan = launch_plan(&proce, &placeholders, &reg.request_id).unwrap();
    assert_eq!(plan.program, "sleep");
    assert_eq!(plan.args, vec!["2".to_string()]);
    assert_eq!(plan.env, vec![(REQUEST_ID_VAR.to_string(), reg.request_id.clone())]);
    assert_eq!(plan.timeout_ms, 300);

    let mut rx = reg.receiver;
    let payload = ForHttpResponse { code: 200, data: serde_json::Value::from(7) };
    assert!(visor.fulfill_pending(&reg.request_id, payload.clone()));
    assert_eq!(rx.try_recv().unwrap(), FrontResponse::BackMsg(payload));
    assert_eq!(visor.pending_count(), 0);
}

#[test]
fn route_without_process_is_registered_only() {
    let conf = staff_conf();
    let mut visor = RequestsVisorActor::new(&conf);
    let req = RestMessage::new("get", "/put/staff/in", "");
    let reg = visor.register_pending(&req);
    assert_eq!(reg.request_id.len(), 36);
    assert!(reg.dispatch.is_none());
    assert_eq!(visor.pending_count(), 1);
    assert!(visor.expire_pending(&reg.request_id));
    let mut rx = reg.receiver;
    assert_eq!(rx.try_recv().unwrap(), FrontResponse::InternalError);
}

#[test]
fn other_verb_is_a_routing_miss() {
    let conf = staff_conf();
    let mut visor = RequestsVisorActor::new(&conf);
    let req = RestMessage::new("DELETE", "/put/staff/in", "");
    let reg = visor.register_pending(&req);
    assert_eq!(reg.request_id, "");
    assert_eq!(visor.pending_count(), 0);
    let mut rx = reg.receiver;
    assert_eq!(rx.try_recv().unwrap(), FrontResponse::InternalError);
}

#[test]
fn match_request_by_path_and_method() {
    let conf = staff_conf();
    let post = conf.match_request(&RestMessage::new("post", "/put/staff/in", "")).unwrap();
    assert!(post.logstdout);
    assert!(post.inject.is_some());
    let get = conf.match_request(&RestMessage::new("GET", "/put/staff/in", "")).unwrap();
    assert!(get.inject.is_none());
    assert!(conf.match_request(&RestMessage::new("POST", "/other", "")).is_none());
}

#[test]
fn method_names_are_normalized() {
    assert_eq!(RestMessage::new("post", "/", "").method(), "POST");
    assert_eq!(RestMessage::new("Patch", "/", "").method(), "PATCH");
    assert_eq!(RestMessage::new("", "/", "").method(), "GET");
    assert_eq!(RestMessage::new("bad method", "/", "").method(), "GET");
    let m = RestMessage::new("put", "/a/b", "body");
    assert_eq!(m.uri(), "/a/b");
    assert_eq!(m.body(), "body");
}

#[test]
fn launch_plan_needs_a_token() {
    let proce = ProcEnv::new_v("", vec![], &[], "");
    assert!(launch_plan(&proce, &HashMap::new(), "id").is_none());
}

#[test]
fn launch_plan_fills_environment() {
    let proce = ProcEnv::new_v("", vec!["MYENV={{jsonpayload}}"], &["/bin/sh", "-c", "echo {{jsonpayload}}"], "");
    let mut placeholders = HashMap::new();
    placeholders.insert(PAYLOAD_PLACEHOLDER, "provolone");
    let plan = launch_plan(&proce, &placeholders, "IQARRAY").unwrap();
    assert_eq!(plan.program, "/bin/sh");
    assert_eq!(plan.args, vec!["-c".to_string(), "echo provolone".to_string()]);
    assert_eq!(
        plan.env,
        vec![
            ("REQUEST_ID".to_string(), "IQARRAY".to_string()),
            ("MYENV".to_string(), "provolone".to_string())
        ]
    );
    assert_eq!(plan.timeout_ms, 1000);
}

#[test]
fn add_path_replaces_existing_route() {
    let mut conf = ServiceConf::default();
    conf.add_path("/a".to_string(), PathVerb { get: Some(VerbAction::default()), post: None });
    conf.add_path("/b".to_string(), PathVerb { get: None, post: None });
    let mut logged = VerbAction::default();
    logged.logstdout = true;
    conf.add_path("/a".to_string(), PathVerb { get: Some(logged), post: None });
    assert_eq!(conf.paths.len(), 2);
    let got = conf.match_request(&RestMessage::new("GET", "/a", "")).unwrap();
    assert!(got.logstdout);
    assert!(conf.match_request(&RestMessage::new("GET", "/b", "")).is_none());
}

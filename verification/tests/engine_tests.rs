use pin_client::config::{ApiMode, Config, NodeConfig, api_mode_of, default_price_micro,
    default_reconnect_delay, default_server_url, resolve_route};
use pin_client::dispatch::{Dispatcher, WorkItem};
use pin_client::encode::encode_client_message;
use pin_client::interview::{InterviewRun, build_prompt_result};
use pin_client::msg::{ChatChoice, ChatMsg, ChatResp, ChatUsage, ClientMessage, InterviewPrompt};
use pin_client::session::{Session, SessionAction, SessionEvent, TermReason, auth_success_replies,
    make_auth_frame, route_message, session_step, should_reconnect};
use pin_client::parse::decode_server_message;

fn b(s: &str) -> Vec<u8> {
    s.as_bytes().to_vec()
}

fn node(alias: &str) -> NodeConfig {
    NodeConfig {
        alias: b(alias),
        endpoint: b("http://localhost:11434"),
        api_mode: ApiMode::OllamaStyle,
        region: b("eu"),
        capacity: 4,
        price_micro: 1000,
    }
}

fn config_with(nodes: Vec<NodeConfig>, payout: Option<Vec<u8>>) -> Config {
    Config {
        client_id: b("alice"),
        api_secret: b("s3cr3t"),
        nodes,
        payout_address: payout,
        server_url: default_server_url(),
        reconnect_delay_secs: default_reconnect_delay(),
    }
}

fn item(id: &str) -> WorkItem {
    WorkItem {
        request_id: b(id),
        model: b("m1"),
        messages: vec![ChatMsg { role: b("user"), content: b("hi") }],
    }
}

fn ok_resp() -> ChatResp {
    ChatResp {
        choices: vec![ChatChoice {
            index: 0,
            message: ChatMsg { role: b("assistant"), content: b("four") },
            finish_reason: Some(b("stop")),
        }],
        usage: Some(ChatUsage { prompt_tokens: 2, completion_tokens: 3, total_tokens: 5 }),
        model: b("m1"),
    }
}

#[test]
fn defaults_match_spec() {
    assert_eq!(default_reconnect_delay(), 5);
    assert_eq!(default_price_micro(), 1000);
    assert_eq!(
        String::from_utf8(default_server_url()).unwrap(),
        "wss://aiassist-secure.replit.app/api/v1/pin/ws"
    );
}

#[test]
fn api_mode_tag_selects_family() {
    assert_eq!(api_mode_of(b"openai"), ApiMode::OpenAiStyle);
    assert_eq!(api_mode_of(b"ollama"), ApiMode::OllamaStyle);
    assert_eq!(api_mode_of(b"anything"), ApiMode::OllamaStyle);
}

#[test]
fn routing_resolves_alias_and_falls_back() {
    let cfg = config_with(vec![node("a"), node("b")], None);
    assert_eq!(resolve_route(&cfg, &Some(b("b"))), 1);
    assert_eq!(resolve_route(&cfg, &Some(b("a"))), 0);
    assert_eq!(resolve_route(&cfg, &Some(b("missing"))), 0);
    assert_eq!(resolve_route(&cfg, &None), 0);
}

#[test]
fn dispatcher_caps_concurrency() {
    let mut d = Dispatcher::new(2);
    d.submit(item("r1"));
    d.submit(item("r2"));
    d.submit(item("r3"));
    let first = d.try_start().expect("slot free");
    assert_eq!(first.request_id, b("r1"));
    let second = d.try_start().expect("slot free");
    assert_eq!(second.request_id, b("r2"));
    assert!(d.try_start().is_none(), "third call must wait for a release");
}

#[test]
fn dispatcher_fifo_under_saturation() {
    let mut d = Dispatcher::new(1);
    d.submit(item("r1"));
    d.submit(item("r2"));
    let first = d.try_start().expect("slot free");
    assert_eq!(first.request_id, b("r1"));
    assert!(d.try_start().is_none(), "second must start strictly after the first releases");
    let reply = d.complete(b"r1", Ok(ok_resp()));
    assert!(matches!(reply, ClientMessage::InferenceResponse { .. }));
    let second = d.try_start().expect("slot freed");
    assert_eq!(second.request_id, b("r2"));
}

#[test]
fn one_reply_per_request_either_way() {
    let mut d = Dispatcher::new(1);
    d.submit(item("ok1"));
    d.try_start().unwrap();
    match d.complete(b"ok1", Ok(ok_resp())) {
        ClientMessage::InferenceResponse { request_id, .. } => assert_eq!(request_id, b("ok1")),
        _ => panic!("success must answer with a response"),
    }
    d.submit(item("bad1"));
    d.try_start().unwrap();
    match d.complete(b"bad1", Err(b("backend down"))) {
        ClientMessage::InferenceError { request_id, error } => {
            assert_eq!(request_id, b("bad1"));
            assert_eq!(error, b("backend down"));
        },
        _ => panic!("failure must answer with an error"),
    }
}

fn prompt(id: &str, text: &str) -> InterviewPrompt {
    InterviewPrompt { id: b(id), prompt: b(text), max_tokens: 32 }
}

#[test]
fn interview_keeps_order_and_survives_failure() {
    let prompts = vec![prompt("p1", "a"), prompt("p2", "b"), prompt("p3", "c")];
    let mut run = InterviewRun::new(b("i1"), b("m1"), prompts);
    assert_eq!(run.next_prompt().unwrap().id, b("p1"));
    run.record(Ok(ok_resp()), 100);
    assert_eq!(run.next_prompt().unwrap().id, b("p2"));
    run.record(Err(b("timeout")), 30);
    assert_eq!(run.next_prompt().unwrap().id, b("p3"));
    run.record(Ok(ok_resp()), 80);
    assert!(run.next_prompt().is_none());
    let results = &run.results;
    assert_eq!(results.len(), 3);
    assert_eq!(results[0].prompt_id, b("p1"));
    assert_eq!(results[0].response, b("four"));
    assert_eq!(results[0].ttft_ms, 50);
    assert_eq!(results[0].total_ms, 100);
    assert_eq!(results[0].tokens_generated, 3);
    assert!(results[0].error.is_none());
    assert_eq!(results[1].prompt_id, b("p2"));
    assert_eq!(results[1].response, b(""));
    assert_eq!(results[1].ttft_ms, 0);
    assert_eq!(results[1].total_ms, 30);
    assert_eq!(results[1].tokens_generated, 0);
    assert_eq!(results[1].error, Some(b("timeout")));
    assert_eq!(results[2].prompt_id, b("p3"));
    assert!(results[2].error.is_none());
    let msg = run.finish();
    assert!(matches!(msg, ClientMessage::InterviewResult { .. }));
}

#[test]
fn prompt_result_handles_missing_choice_and_usage() {
    let empty = ChatResp { choices: vec![], usage: None, model: b("m1") };
    let r = build_prompt_result(b"p9", Ok(empty), 40);
    assert_eq!(r.response, b(""));
    assert_eq!(r.tokens_generated, 0);
    assert_eq!(r.ttft_ms, 20);
    assert!(r.error.is_none());
}

#[test]
fn auth_frame_carries_signature() {
    let cfg = config_with(vec![node("a")], None);
    let frame = make_auth_frame(&cfg, 1700000000);
    let expected = r#"{"type":"AUTH","clientId":"alice","timestamp":"1700000000","signature":"6291b018314d9eb52f7dd848aac91bd8ca0dc1da3b3a07f7046c49ab5589a558"}"#;
    assert_eq!(frame, b(expected));
}

#[test]
fn registration_one_node_no_payout() {
    let cfg = config_with(vec![node("n1")], None);
    let frames = auth_success_replies(&cfg, vec![Ok(vec![b("m1")])]);
    assert_eq!(frames.len(), 1, "exactly one REGISTER_NODE and no UPDATE_WALLET");
    let expected = r#"{"type":"REGISTER_NODE","alias":"n1","models":["m1"],"capacity":4,"region":"eu","pricePerThousandTokens":0.001000}"#;
    assert_eq!(frames[0], b(expected));
}

#[test]
fn registration_order_and_failure_tolerance() {
    let cfg = config_with(vec![node("n1"), node("n2"), node("n3")], Some(b("0xabc")));
    let frames = auth_success_replies(
        &cfg,
        vec![Ok(vec![b("m1")]), Err(b("unreachable")), Ok(vec![b("m3")])],
    );
    assert_eq!(frames.len(), 4, "wallet update plus one registration per node");
    assert_eq!(frames[0], b(r#"{"type":"UPDATE_WALLET","payoutAddress":"0xabc"}"#));
    let n2 = String::from_utf8(frames[2].clone()).unwrap();
    assert!(n2.contains(r#""alias":"n2""#));
    assert!(n2.contains(r#""models":[]"#), "a failed listing registers with an empty list");
    let n1 = String::from_utf8(frames[1].clone()).unwrap();
    assert!(n1.contains(r#""alias":"n1""#));
    let n3 = String::from_utf8(frames[3].clone()).unwrap();
    assert!(n3.contains(r#""alias":"n3""#));
}

#[test]
fn registration_skips_empty_payout_address() {
    let cfg = config_with(vec![node("n1")], Some(b("")));
    let frames = auth_success_replies(&cfg, vec![Ok(vec![])]);
    assert_eq!(frames.len(), 1);
}

#[test]
fn route_ping_answers_pong() {
    let cfg = config_with(vec![node("n1")], None);
    let mut st = Session::new(1, 0);
    let acts = route_message(&cfg, &mut st, decode_server_message(br#"{"type":"PING"}"#).unwrap());
    assert_eq!(acts.len(), 1);
    match &acts[0] {
        SessionAction::SendFrame(f) => assert_eq!(*f, b(r#"{"type":"PONG"}"#)),
        _ => panic!("PING must be answered with a PONG frame"),
    }
}

#[test]
fn route_error_terminates_session() {
    let cfg = config_with(vec![node("n1")], None);
    let mut st = Session::new(1, 0);
    let acts = route_message(
        &cfg,
        &mut st,
        decode_server_message(br#"{"type":"ERROR","message":"bad"}"#).unwrap(),
    );
    assert_eq!(acts.len(), 1);
    match &acts[0] {
        SessionAction::Terminate(TermReason::PeerError(e)) => assert_eq!(*e, b("bad")),
        _ => panic!("a peer ERROR is fatal to the session"),
    }
}

#[test]
fn route_auth_success_begins_registration() {
    let cfg = config_with(vec![node("n1")], None);
    let mut st = Session::new(1, 0);
    let msg = decode_server_message(
        br#"{"type":"AUTH_SUCCESS","operatorId":"op","message":"hi"}"#,
    )
    .unwrap();
    let acts = route_message(&cfg, &mut st, msg);
    assert_eq!(acts.len(), 1);
    assert!(matches!(acts[0], SessionAction::BeginRegistration));
}

fn inference_request(id: &str) -> pin_client::msg::ServerMessage {
    let text = format!(
        r#"{{"type":"INFERENCE_REQUEST","requestId":"{}","payload":{{"model":"m1","messages":[{{"role":"user","content":"hi"}}],"stream":false}}}}"#,
        id
    );
    decode_server_message(text.as_bytes()).unwrap()
}

#[test]
fn saturated_session_queues_then_replies_in_order() {
    let cfg = config_with(vec![node("n1")], None);
    let mut st = Session::new(1, 0);

    let acts1 = route_message(&cfg, &mut st, inference_request("r1"));
    assert_eq!(acts1.len(), 1);
    let w1 = match &acts1[0] {
        SessionAction::StartBackendCall { node_index, item } => {
            assert_eq!(*node_index, 0, "inference always runs against the first node");
            item.request_id.clone()
        },
        _ => panic!("first request starts at once"),
    };
    assert_eq!(w1, b("r1"));
    assert_eq!(st.requests_served, 1);

    let acts2 = route_message(&cfg, &mut st, inference_request("r2"));
    assert!(acts2.is_empty(), "the second request waits for the single slot");
    assert_eq!(st.requests_served, 2);

    let done = session_step(
        &cfg,
        &mut st,
        SessionEvent::BackendDone { request_id: b("r1"), outcome: Ok(ok_resp()) },
    );
    assert_eq!(done.len(), 2, "reply for the first, then the second starts");
    match &done[0] {
        SessionAction::SendFrame(f) => {
            let text = String::from_utf8(f.clone()).unwrap();
            assert!(text.starts_with(r#"{"type":"INFERENCE_RESPONSE","requestId":"r1""#));
        },
        _ => panic!("first action must send the reply"),
    }
    match &done[1] {
        SessionAction::StartBackendCall { node_index, item } => {
            assert_eq!(*node_index, 0);
            assert_eq!(item.request_id, b("r2"));
        },
        _ => panic!("freed slot must start the queued request"),
    }
}

#[test]
fn backend_failure_still_produces_one_reply() {
    let cfg = config_with(vec![node("n1")], None);
    let mut st = Session::new(1, 0);
    route_message(&cfg, &mut st, inference_request("r9"));
    let done = session_step(
        &cfg,
        &mut st,
        SessionEvent::BackendDone { request_id: b("r9"), outcome: Err(b("nope")) },
    );
    assert_eq!(done.len(), 1);
    match &done[0] {
        SessionAction::SendFrame(f) => {
            assert_eq!(*f, b(r#"{"type":"INFERENCE_ERROR","requestId":"r9","error":"nope"}"#));
        },
        _ => panic!("failure must still answer"),
    }
}

#[test]
fn heartbeat_tick_sends_heartbeat() {
    let cfg = config_with(vec![node("n1")], None);
    let mut st = Session::new(1, 0);
    let acts = session_step(&cfg, &mut st, SessionEvent::HeartbeatTick);
    assert_eq!(acts.len(), 1);
    match &acts[0] {
        SessionAction::SendFrame(f) => assert_eq!(*f, b(r#"{"type":"HEARTBEAT"}"#)),
        _ => panic!("the timer must send a heartbeat"),
    }
}

#[test]
fn undecodable_inbound_is_dropped() {
    let cfg = config_with(vec![node("n1")], None);
    let mut st = Session::new(1, 0);
    let acts = session_step(&cfg, &mut st, SessionEvent::Inbound(b("?? not a frame ??")));
    assert!(acts.is_empty(), "a malformed frame is logged and dropped");
}

#[test]
fn stop_and_faults_terminate() {
    let cfg = config_with(vec![node("n1")], None);
    let mut st = Session::new(1, 0);
    let acts = session_step(&cfg, &mut st, SessionEvent::StopRequested);
    assert!(matches!(acts[0], SessionAction::Terminate(TermReason::Shutdown)));
    let mut st2 = Session::new(1, 0);
    let acts2 = session_step(&cfg, &mut st2, SessionEvent::PeerClosed);
    assert!(matches!(acts2[0], SessionAction::Terminate(TermReason::PeerClosed)));
    let mut st3 = Session::new(1, 0);
    let acts3 = session_step(&cfg, &mut st3, SessionEvent::TransportError);
    assert!(matches!(acts3[0], SessionAction::Terminate(TermReason::TransportError)));
}

#[test]
fn interview_request_routes_by_alias_with_fallback() {
    let cfg = config_with(vec![node("n1"), node("n2")], None);
    let mut st = Session::new(1, 0);
    let text = r#"{"type":"INTERVIEW_REQUEST","interviewId":"i1","nodeId":"n2","model":"m1","prompts":[{"id":"p1","prompt":"q","maxTokens":8}],"timeoutMs":1000}"#;
    let acts = route_message(&cfg, &mut st, decode_server_message(text.as_bytes()).unwrap());
    assert_eq!(acts.len(), 1);
    match &acts[0] {
        SessionAction::RunInterview { node_index, interview_id, model, prompts } => {
            assert_eq!(*node_index, 1);
            assert_eq!(*interview_id, b("i1"));
            assert_eq!(*model, b("m1"));
            assert_eq!(prompts.len(), 1);
        },
        _ => panic!("an interview request must run the executor"),
    }
    let unknown = r#"{"type":"INTERVIEW_REQUEST","interviewId":"i2","nodeId":"ghost","model":"m1","prompts":[],"timeoutMs":1000}"#;
    let acts2 = route_message(&cfg, &mut st, decode_server_message(unknown.as_bytes()).unwrap());
    match &acts2[0] {
        SessionAction::RunInterview { node_index, .. } => assert_eq!(*node_index, 0),
        _ => panic!("unknown alias must fall back to the first node"),
    }
}

#[test]
fn acks_are_no_ops() {
    let cfg = config_with(vec![node("n1")], None);
    let mut st = Session::new(1, 0);
    for text in [
        r#"{"type":"HEARTBEAT_ACK"}"#.as_bytes().to_vec(),
        r#"{"type":"MODEL_LIST_ACK"}"#.as_bytes().to_vec(),
        br#"{"type":"UPDATE_WALLET_ACK","success":true,"message":"ok"}"#.to_vec(),
    ] {
        let acts = route_message(&cfg, &mut st, decode_server_message(&text).unwrap());
        assert!(acts.is_empty());
    }
}

#[test]
fn reconnect_follows_running_flag() {
    assert!(should_reconnect(true));
    assert!(!should_reconnect(false));
    let _ = encode_client_message(&ClientMessage::Pong);
}

#[test]
fn ollama_reply_normalises_to_one_choice() {
    let r = pin_client::backend::normalize_ollama_reply(
        b("m1"),
        b("assistant"),
        b("four"),
        Some(2),
        Some(3),
    );
    assert_eq!(r.choices.len(), 1);
    assert_eq!(r.choices[0].index, 0);
    assert_eq!(r.choices[0].message.content, b("four"));
    assert_eq!(r.choices[0].finish_reason, Some(b("stop")));
    let usage = r.usage.unwrap();
    assert_eq!(usage.prompt_tokens, 2);
    assert_eq!(usage.completion_tokens, 3);
    assert_eq!(usage.total_tokens, 5);
}

#[test]
fn ollama_reply_token_total_saturates() {
    let r = pin_client::backend::normalize_ollama_reply(b("m"), b("a"), b("c"), Some(u32::MAX), Some(9));
    assert_eq!(r.usage.unwrap().total_tokens, u32::MAX);
    let r2 = pin_client::backend::normalize_ollama_reply(b("m"), b("a"), b("c"), None, None);
    assert_eq!(r2.usage.unwrap().total_tokens, 0);
}

use pin_client::codec::dec_bytes;
use pin_client::encode::encode_client_message;
use pin_client::msg::{ChatChoice, ChatMsg, ChatResp, ChatUsage, ClientMessage, PromptResult,
    ServerMessage};
use pin_client::parse::{decode_client_message, decode_server_message};
use pin_client::sig::compute_signature;

fn b(s: &str) -> Vec<u8> {
    s.as_bytes().to_vec()
}

#[test]
fn signature_deterministic() {
    let a = compute_signature(b"alice", b"1700000000", b"s3cr3t");
    let again = compute_signature(b"alice", b"1700000000", b"s3cr3t");
    assert_eq!(a, again);
}

#[test]
fn signature_known_value() {
    let sig = compute_signature(b"alice", b"1700000000", b"s3cr3t");
    assert_eq!(
        String::from_utf8(sig).unwrap(),
        "6291b018314d9eb52f7dd848aac91bd8ca0dc1da3b3a07f7046c49ab5589a558"
    );
}

#[test]
fn signature_input_sensitive() {
    let base = compute_signature(b"alice", b"1700000000", b"s3cr3t");
    assert_ne!(base, compute_signature(b"alicf", b"1700000000", b"s3cr3t"));
    assert_ne!(base, compute_signature(b"alice", b"1700000001", b"s3cr3t"));
    assert_ne!(base, compute_signature(b"alice", b"1700000000", b"s3cr3u"));
}

#[test]
fn dec_bytes_renders_decimal() {
    assert_eq!(dec_bytes(0), b"0".to_vec());
    assert_eq!(dec_bytes(42), b"42".to_vec());
    assert_eq!(dec_bytes(u64::MAX), b"18446744073709551615".to_vec());
}

#[test]
fn encode_pong_and_heartbeat() {
    assert_eq!(encode_client_message(&ClientMessage::Pong), b(r#"{"type":"PONG"}"#));
    assert_eq!(encode_client_message(&ClientMessage::Heartbeat), b(r#"{"type":"HEARTBEAT"}"#));
}

#[test]
fn encode_auth_exact() {
    let m = ClientMessage::Auth {
        client_id: b("alice"),
        timestamp: b("1700000000"),
        signature: b("aa"),
    };
    assert_eq!(
        encode_client_message(&m),
        b(r#"{"type":"AUTH","clientId":"alice","timestamp":"1700000000","signature":"aa"}"#)
    );
}

#[test]
fn encode_register_exact() {
    let m = ClientMessage::RegisterNode {
        alias: b("n1"),
        models: vec![b("m1"), b("m2")],
        capacity: 4,
        region: b("eu"),
        price_micro: 1000,
    };
    let expected = r#"{"type":"REGISTER_NODE","alias":"n1","models":["m1","m2"],"capacity":4,"region":"eu","pricePerThousandTokens":0.001000}"#;
    assert_eq!(encode_client_message(&m), b(expected));
}

#[test]
fn encode_escapes_strings() {
    let m = ClientMessage::InferenceError {
        request_id: b("r1"),
        error: b("say \"hi\"\n\\done"),
    };
    let expected = r#"{"type":"INFERENCE_ERROR","requestId":"r1","error":"say \"hi\"\n\\done"}"#;
    assert_eq!(encode_client_message(&m), b(expected));
}

fn sample_resp() -> ChatResp {
    ChatResp {
        choices: vec![ChatChoice {
            index: 0,
            message: ChatMsg { role: b("assistant"), content: b("hello") },
            finish_reason: Some(b("stop")),
        }],
        usage: Some(ChatUsage { prompt_tokens: 3, completion_tokens: 5, total_tokens: 8 }),
        model: b("m1"),
    }
}

#[test]
fn encode_inference_response_exact() {
    let m = ClientMessage::InferenceResponse { request_id: b("r7"), result: sample_resp() };
    let expected = r#"{"type":"INFERENCE_RESPONSE","requestId":"r7","result":{"choices":[{"index":0,"message":{"role":"assistant","content":"hello"},"finishReason":"stop"}],"usage":{"promptTokens":3,"completionTokens":5,"totalTokens":8},"model":"m1"}}"#;
    assert_eq!(encode_client_message(&m), b(expected));
}

fn round_trips(m: ClientMessage) {
    let bytes = encode_client_message(&m);
    let back = decode_client_message(&bytes).expect("canonical frame must decode");
    assert_eq!(encode_client_message(&back), bytes);
}

#[test]
fn round_trip_every_variant() {
    round_trips(ClientMessage::Pong);
    round_trips(ClientMessage::Heartbeat);
    round_trips(ClientMessage::Auth {
        client_id: b("alice"),
        timestamp: b("1700000000"),
        signature: b("ff00"),
    });
    round_trips(ClientMessage::UpdateWallet { payout_address: b("0xabc") });
    round_trips(ClientMessage::RegisterNode {
        alias: b("n1"),
        models: vec![],
        capacity: 1,
        region: b("us"),
        price_micro: 1234567,
    });
    round_trips(ClientMessage::RegisterNode {
        alias: b("n\"2"),
        models: vec![b("m1"), b("m\\2")],
        capacity: u32::MAX,
        region: b(""),
        price_micro: 0,
    });
    round_trips(ClientMessage::InferenceResponse { request_id: b("r7"), result: sample_resp() });
    round_trips(ClientMessage::InferenceResponse {
        request_id: b(""),
        result: ChatResp { choices: vec![], usage: None, model: b("m") },
    });
    round_trips(ClientMessage::InferenceError { request_id: b("r8"), error: b("boom\n") });
    round_trips(ClientMessage::InterviewResult {
        interview_id: b("i1"),
        model: b("m1"),
        results: vec![
            PromptResult {
                prompt_id: b("p1"),
                response: b("fine"),
                ttft_ms: 50,
                total_ms: 100,
                tokens_generated: 7,
                error: None,
            },
            PromptResult {
                prompt_id: b("p2"),
                response: b(""),
                ttft_ms: 0,
                total_ms: 30,
                tokens_generated: 0,
                error: Some(b("down")),
            },
        ],
    });
}

#[test]
fn round_trip_recovers_fields() {
    let bytes = encode_client_message(&ClientMessage::Auth {
        client_id: b("alice"),
        timestamp: b("17"),
        signature: b("sig"),
    });
    match decode_client_message(&bytes) {
        Some(ClientMessage::Auth { client_id, timestamp, signature }) => {
            assert_eq!(client_id, b("alice"));
            assert_eq!(timestamp, b("17"));
            assert_eq!(signature, b("sig"));
        },
        other => panic!("wrong decode: {:?}", other.is_some()),
    }
}

#[test]
fn decode_server_ping_and_acks() {
    assert!(matches!(
        decode_server_message(br#"{"type":"PING"}"#),
        Some(ServerMessage::Ping)
    ));
    assert!(matches!(
        decode_server_message(br#"{"type":"HEARTBEAT_ACK"}"#),
        Some(ServerMessage::HeartbeatAck)
    ));
    assert!(matches!(
        decode_server_message(br#"{"type":"MODEL_LIST_ACK"}"#),
        Some(ServerMessage::ModelListAck)
    ));
}

#[test]
fn decode_auth_success_literal() {
    let text = br#"{"type":"AUTH_SUCCESS","operatorId":"op1","nodeId":"n1","message":"welcome"}"#;
    match decode_server_message(text) {
        Some(ServerMessage::AuthSuccess { operator_id, node_id, message }) => {
            assert_eq!(operator_id, b("op1"));
            assert_eq!(node_id, Some(b("n1")));
            assert_eq!(message, b("welcome"));
        },
        _ => panic!("AUTH_SUCCESS did not decode"),
    }
}

#[test]
fn decode_auth_success_without_node_id() {
    let text = br#"{"type":"AUTH_SUCCESS","operatorId":"op1","message":"hi"}"#;
    match decode_server_message(text) {
        Some(ServerMessage::AuthSuccess { node_id, .. }) => assert_eq!(node_id, None),
        _ => panic!("AUTH_SUCCESS did not decode"),
    }
}

#[test]
fn decode_error_frame() {
    match decode_server_message(br#"{"type":"ERROR","message":"bad key"}"#) {
        Some(ServerMessage::ErrorMsg { message }) => assert_eq!(message, b("bad key")),
        _ => panic!("ERROR did not decode"),
    }
}

#[test]
fn decode_inference_request() {
    let text = r#"{"type":"INFERENCE_REQUEST","requestId":"r1","payload":{"model":"m1","messages":[{"role":"user","content":"hi"}],"stream":false}}"#;
    match decode_server_message(text.as_bytes()) {
        Some(ServerMessage::InferenceRequest { request_id, payload }) => {
            assert_eq!(request_id, b("r1"));
            assert_eq!(payload.model, b("m1"));
            assert_eq!(payload.messages.len(), 1);
            assert_eq!(payload.messages[0].role, b("user"));
            assert_eq!(payload.messages[0].content, b("hi"));
            assert!(!payload.stream);
        },
        _ => panic!("INFERENCE_REQUEST did not decode"),
    }
}

#[test]
fn decode_interview_request() {
    let text = r#"{"type":"INTERVIEW_REQUEST","interviewId":"i1","nodeId":"n1","model":"m1","prompts":[{"id":"p1","prompt":"2+2?","maxTokens":16}],"timeoutMs":30000}"#;
    match decode_server_message(text.as_bytes()) {
        Some(ServerMessage::InterviewRequest { interview_id, node_id, model, prompts, timeout_ms }) => {
            assert_eq!(interview_id, b("i1"));
            assert_eq!(node_id, Some(b("n1")));
            assert_eq!(model, b("m1"));
            assert_eq!(prompts.len(), 1);
            assert_eq!(prompts[0].id, b("p1"));
            assert_eq!(prompts[0].prompt, b("2+2?"));
            assert_eq!(prompts[0].max_tokens, 16);
            assert_eq!(timeout_ms, 30000);
        },
        _ => panic!("INTERVIEW_REQUEST did not decode"),
    }
}

#[test]
fn decode_interview_complete_keeps_raw_numbers() {
    let text = r#"{"type":"INTERVIEW_COMPLETE","interviewId":"i1","tier":"gold","accuracy":92.5,"tokensPerSec":33.1,"reason":"ok"}"#;
    match decode_server_message(text.as_bytes()) {
        Some(ServerMessage::InterviewComplete { tier, accuracy, tokens_per_sec, reason, .. }) => {
            assert_eq!(tier, b("gold"));
            assert_eq!(accuracy, b("92.5"));
            assert_eq!(tokens_per_sec, b("33.1"));
            assert_eq!(reason, b("ok"));
        },
        _ => panic!("INTERVIEW_COMPLETE did not decode"),
    }
}

#[test]
fn decode_register_node_ack() {
    let text = r#"{"type":"REGISTER_NODE_ACK","nodeId":"n1","alias":"a1","models":["m1"],"created":true,"message":"ok"}"#;
    match decode_server_message(text.as_bytes()) {
        Some(ServerMessage::RegisterNodeAck { node_id, alias, models, created, message }) => {
            assert_eq!(node_id, b("n1"));
            assert_eq!(alias, b("a1"));
            assert_eq!(models, vec![b("m1")]);
            assert!(created);
            assert_eq!(message, b("ok"));
        },
        _ => panic!("REGISTER_NODE_ACK did not decode"),
    }
}

#[test]
fn decode_update_wallet_ack() {
    match decode_server_message(br#"{"type":"UPDATE_WALLET_ACK","success":false,"message":"no"}"#)
    {
        Some(ServerMessage::UpdateWalletAck { success, message }) => {
            assert!(!success);
            assert_eq!(message, b("no"));
        },
        _ => panic!("UPDATE_WALLET_ACK did not decode"),
    }
}

#[test]
fn malformed_frames_are_refused() {
    assert!(decode_server_message(b"").is_none());
    assert!(decode_server_message(b"not json").is_none());
    assert!(decode_server_message(br#"{"type":"UNKNOWN_TAG"}"#).is_none());
    assert!(decode_server_message(br#"{"type":"PING""#).is_none());
    assert!(decode_server_message(br#"{"type":"ERROR","message":"x"} garbage"#).is_none());
    assert!(decode_server_message(br#"{"type":"ERROR"}"#).is_none());
}

#[test]
fn decode_tolerates_whitespace() {
    let text = b" {\n  \"type\" : \"ERROR\" ,\r\n  \"message\" : \"bad\"\n} ";
    match decode_server_message(text) {
        Some(ServerMessage::ErrorMsg { message }) => assert_eq!(message, b("bad")),
        _ => panic!("a whitespace-formatted frame must decode"),
    }
}

#[test]
fn decode_tolerates_any_key_order() {
    let text = br#"{"message":"welcome","nodeId":"n1","operatorId":"op1","type":"AUTH_SUCCESS"}"#;
    match decode_server_message(text) {
        Some(ServerMessage::AuthSuccess { operator_id, node_id, message }) => {
            assert_eq!(operator_id, b("op1"));
            assert_eq!(node_id, Some(b("n1")));
            assert_eq!(message, b("welcome"));
        },
        _ => panic!("reordered keys must decode"),
    }
}

#[test]
fn decode_ignores_unknown_fields() {
    let text = concat_bytes_helper();
    match decode_server_message(&text) {
        Some(ServerMessage::InferenceRequest { request_id, payload }) => {
            assert_eq!(request_id, b("r1"));
            assert_eq!(payload.model, b("m1"));
            assert!(!payload.stream, "an absent stream field means false");
        },
        _ => panic!("unknown fields must be ignored"),
    }
}

fn concat_bytes_helper() -> Vec<u8> {
    let mut t = Vec::new();
    t.extend_from_slice(br#"{"priority":3,"type":"INFERENCE_REQUEST","requestId":"r1","trace":{"a":[1,2,{}]},"#);
    t.extend_from_slice(br#""payload":{"extra":null,"model":"m1","messages":[{"role":"user","content":"hi"}]}}"#);
    t
}

#[test]
fn control_bytes_round_trip_as_unicode_escapes() {
    let m = ClientMessage::InferenceError {
        request_id: b("r1"),
        error: vec![0x01, 0x1f, 0x62],
    };
    let bytes = encode_client_message(&m);
    let text = String::from_utf8(bytes.clone()).unwrap();
    assert!(text.contains(r"\u0001"));
    assert!(text.contains(r"\u001f"));
    match decode_client_message(&bytes) {
        Some(ClientMessage::InferenceError { error, .. }) => {
            assert_eq!(error, vec![0x01, 0x1f, 0x62]);
        },
        _ => panic!("control bytes must survive the round trip"),
    }
}

#[test]
fn decode_accepts_uppercase_unicode_escapes() {
    let text = b"{\"type\":\"ERROR\",\"message\":\"a\\u001Fb\"}";
    match decode_server_message(text) {
        Some(ServerMessage::ErrorMsg { message }) => {
            assert_eq!(message, vec![0x61, 0x1f, 0x62]);
        },
        _ => panic!("an uppercase hex escape must decode"),
    }
}

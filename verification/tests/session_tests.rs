//! Tests of the session state machine over a stubbed transport: the
//! authentication gate, status mapping, sender-id advisories, balance
//! extraction and endpoint isolation.

use comms_sdk::models::{ApiResponseCode, Balance, DiagnosticKind, MessagePriority};
use comms_sdk::transport::Transport;
use comms_sdk::{CommsSDK, SdkError};

/// A transport stub: replies with a fixed canned result and records every
/// call it sees.
struct StubTransport {
    reply: Result<String, String>,
    calls: usize,
    urls: Vec<String>,
    bodies: Vec<String>,
}

impl StubTransport {
    fn replying(body: &str) -> StubTransport {
        StubTransport { reply: Ok(body.to_string()), calls: 0, urls: Vec::new(), bodies: Vec::new() }
    }

    fn failing(msg: &str) -> StubTransport {
        StubTransport {
            reply: Err(msg.to_string()),
            calls: 0,
            urls: Vec::new(),
            bodies: Vec::new(),
        }
    }
}

impl Transport for StubTransport {
    fn post_json(&mut self, url: &str, body: &str) -> Result<String, String> {
        self.calls += 1;
        self.urls.push(url.to_string());
        self.bodies.push(body.to_string());
        self.reply.clone()
    }
}

fn session(reply: &str) -> CommsSDK<StubTransport> {
    CommsSDK::with_transport("user", "key", StubTransport::replying(reply))
}

fn numbers() -> Vec<String> {
    vec!["0712345678".to_string()]
}

#[test]
fn operations_before_authentication_fail_without_network() {
    let mut sdk = session(r#"{"Status":"OK"}"#);
    assert!(matches!(
        sdk.send_sms(numbers(), "hello"),
        Err(SdkError::AuthRequired)
    ));
    assert!(matches!(
        sdk.query_send_sms(numbers(), "hello"),
        Err(SdkError::AuthRequired)
    ));
    assert!(matches!(sdk.query_balance(), Err(SdkError::AuthRequired)));
    assert!(matches!(sdk.get_balance(), Err(SdkError::AuthRequired)));
    assert_eq!(sdk.transport().calls, 0);
}

#[test]
fn authenticate_ok_reply_marks_session_authenticated() {
    let mut sdk = session(r#"{"Status":"OK"}"#);
    assert_eq!(sdk.authenticate().unwrap(), true);
    assert!(sdk.is_authenticated());
    assert_eq!(sdk.transport().calls, 1);
}

#[test]
fn authenticate_failed_reply_is_soft_false() {
    let mut sdk = session(r#"{"Status":"Failed","Message":"bad credentials"}"#);
    assert_eq!(sdk.authenticate().unwrap(), false);
    assert!(!sdk.is_authenticated());
}

#[test]
fn authenticate_transport_failure_is_soft_false() {
    let mut sdk = CommsSDK::with_transport("user", "key", StubTransport::failing("down"));
    assert_eq!(sdk.authenticate().unwrap(), false);
    assert!(!sdk.is_authenticated());
}

#[test]
fn authenticate_blank_credentials_is_hard_error_without_network() {
    let mut sdk = CommsSDK::with_transport("  ", "key", StubTransport::replying(r#"{"Status":"OK"}"#));
    assert!(matches!(sdk.authenticate(), Err(SdkError::Config)));
    assert_eq!(sdk.transport().calls, 0);
    let mut sdk = CommsSDK::with_transport("user", "", StubTransport::replying(r#"{"Status":"OK"}"#));
    assert!(matches!(sdk.authenticate(), Err(SdkError::Config)));
    assert_eq!(sdk.transport().calls, 0);
}

#[test]
fn send_ok_status_maps_to_true_with_follow_up_code() {
    let mut sdk = session(r#"{"Status":"OK", "MsgFollowUpUniqueCode":"abc123"}"#);
    sdk.set_authenticated();
    assert_eq!(sdk.send_sms(numbers(), "hello").unwrap(), true);
    let resp = sdk.query_send_sms(numbers(), "hello").unwrap();
    assert_eq!(resp.status, ApiResponseCode::OK);
    assert_eq!(resp.message_follow_up_code.as_deref(), Some("abc123"));
}

#[test]
fn send_failed_status_maps_to_false_with_message() {
    let mut sdk = session(r#"{"Status":"Failed","Message":"insufficient funds"}"#);
    sdk.set_authenticated();
    assert_eq!(sdk.send_sms(numbers(), "hello").unwrap(), false);
    let resp = sdk.query_send_sms(numbers(), "hello").unwrap();
    assert!(resp.status.is_failed());
    assert_eq!(resp.message.as_deref(), Some("insufficient funds"));
}

#[test]
fn send_unknown_status_is_protocol_error() {
    let mut sdk = session(r#"{"Status":"Weird"}"#);
    sdk.set_authenticated();
    match sdk.send_sms(numbers(), "hello") {
        Err(SdkError::Protocol(t)) => assert_eq!(t, "Weird"),
        other => panic!("expected a protocol error, got {:?}", other),
    }
}

#[test]
fn send_transport_failure_is_transport_error() {
    let mut sdk = CommsSDK::with_transport("user", "key", StubTransport::failing("boom"));
    sdk.set_authenticated();
    match sdk.send_sms(numbers(), "hello") {
        Err(SdkError::Transport(t)) => assert_eq!(t, "boom"),
        other => panic!("expected a transport error, got {:?}", other),
    }
}

#[test]
fn send_garbled_reply_is_transport_error() {
    let mut sdk = session("not json at all");
    sdk.set_authenticated();
    assert!(matches!(
        sdk.send_sms(numbers(), "hello"),
        Err(SdkError::Transport(_))
    ));
}

#[test]
fn send_without_any_valid_number_fails_before_network() {
    let mut sdk = session(r#"{"Status":"OK"}"#);
    sdk.set_authenticated();
    let bad = vec!["12345".to_string(), "".to_string()];
    assert!(matches!(sdk.send_sms(bad, "hello"), Err(SdkError::Validation)));
    assert_eq!(sdk.transport().calls, 0);
}

#[test]
fn long_sender_id_warns_but_send_completes() {
    let mut sdk = session(r#"{"Status":"OK"}"#);
    sdk.set_authenticated();
    let r = sdk.send_sms_full(numbers(), "hello", "TWELVECHARSX", MessagePriority::Highest);
    assert_eq!(r.unwrap(), true);
    let warnings: Vec<_> = sdk
        .diagnostics()
        .iter()
        .filter(|d| d.kind == DiagnosticKind::LongSenderId)
        .collect();
    assert_eq!(warnings.len(), 1);
    assert_eq!(warnings[0].value, "TWELVECHARSX");
}

#[test]
fn short_sender_id_warns_nothing() {
    let mut sdk = session(r#"{"Status":"OK"}"#);
    sdk.set_authenticated();
    let r = sdk.send_sms_full(numbers(), "hello", "ELEVENCHARS", MessagePriority::Highest);
    assert_eq!(r.unwrap(), true);
    assert!(sdk
        .diagnostics()
        .iter()
        .all(|d| d.kind != DiagnosticKind::LongSenderId));
}

#[test]
fn get_balance_extracts_decimal_value() {
    let mut sdk = session(r#"{"Status":"OK","Balance":42.5}"#);
    sdk.set_authenticated();
    let b = sdk.get_balance().unwrap();
    assert_eq!(b, Balance { negative: false, mantissa: 425, scale: 1 });
    let as_float = b.mantissa as f64 / 10f64.powi(b.scale as i32);
    assert_eq!(as_float, 42.5);
}

#[test]
fn get_balance_accepts_text_balance() {
    let mut sdk = session(r#"{"Status":"OK","Balance":"42.5"}"#);
    sdk.set_authenticated();
    let b = sdk.get_balance().unwrap();
    assert_eq!(b, Balance { negative: false, mantissa: 425, scale: 1 });
}

#[test]
fn get_balance_without_balance_field_is_typed_error() {
    let mut sdk = session(r#"{"Status":"OK"}"#);
    sdk.set_authenticated();
    assert!(matches!(sdk.get_balance(), Err(SdkError::MissingBalance)));
}

#[test]
fn get_balance_with_non_numeric_text_is_typed_error() {
    let mut sdk = session(r#"{"Status":"OK","Balance":"n/a"}"#);
    sdk.set_authenticated();
    assert!(matches!(sdk.get_balance(), Err(SdkError::MissingBalance)));
}

#[test]
fn query_balance_hands_back_full_response() {
    let mut sdk = session(r#"{"Status":"OK","Balance":7,"Cost":3}"#);
    sdk.set_authenticated();
    let resp = sdk.query_balance().unwrap();
    assert!(resp.status.is_ok());
    assert_eq!(resp.cost, Some(3));
    assert_eq!(
        resp.balance,
        Some(Balance { negative: false, mantissa: 7, scale: 0 })
    );
}

#[test]
fn sessions_keep_their_own_endpoints() {
    let mut sandboxed = session(r#"{"Status":"OK"}"#);
    let mut live = session(r#"{"Status":"OK"}"#);
    sandboxed.use_sandbox();
    sandboxed.set_authenticated();
    live.set_authenticated();
    sandboxed.send_sms(numbers(), "a").unwrap();
    live.send_sms(numbers(), "b").unwrap();
    sandboxed.query_balance().unwrap();
    live.query_balance().unwrap();
    assert!(sandboxed
        .transport()
        .urls
        .iter()
        .all(|u| u == "https://comms-test.pahappa.net/api/v1/json/"));
    assert!(live
        .transport()
        .urls
        .iter()
        .all(|u| u == "https://comms.egosms.co/api/v1/json/"));
}

#[test]
fn send_posts_the_exact_envelope() {
    let mut sdk = session(r#"{"Status":"OK"}"#);
    sdk.set_authenticated();
    sdk.send_sms(numbers(), "hi").unwrap();
    assert_eq!(
        sdk.transport().bodies[0],
        r#"{"method":"SendSms","userdata":{"username":"user","password":"key"},"msgdata":[{"number":"256712345678","message":"hi","senderid":"EgoSMS","priority":"0"}]}"#
    );
}

#[test]
fn balance_posts_the_exact_envelope() {
    let mut sdk = session(r#"{"Status":"OK","Balance":1}"#);
    sdk.set_authenticated();
    sdk.query_balance().unwrap();
    assert_eq!(
        sdk.transport().bodies[0],
        r#"{"method":"Balance","userdata":{"username":"user","password":"key"}}"#
    );
}

#[test]
fn lowest_priority_serializes_as_four() {
    let mut sdk = session(r#"{"Status":"OK"}"#);
    sdk.set_authenticated();
    sdk.send_sms_full(numbers(), "hi", "EgoSMS", MessagePriority::Lowest)
        .unwrap();
    assert!(sdk.transport().bodies[0].contains(r#""priority":"4""#));
}

#[test]
fn with_sender_id_changes_the_default_sender() {
    let mut sdk = session(r#"{"Status":"OK"}"#).with_sender_id("OtherName");
    sdk.set_authenticated();
    sdk.send_sms(numbers(), "hi").unwrap();
    assert!(sdk.transport().bodies[0].contains(r#""senderid":"OtherName""#));
}

#[test]
fn describe_names_the_session() {
    let sdk = session(r#"{"Status":"OK"}"#);
    assert_eq!(sdk.describe(), "SDK(user => key)");
}

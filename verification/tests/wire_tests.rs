//! Tests of the wire codec: exact request rendering and response parsing.

use comms_sdk::models::{ApiRequest, ApiResponseCode, Balance, MessagePriority};
use comms_sdk::wire::{parse_api_response, render_request, ParseFail};

#[test]
fn render_send_request_exactly() {
    let numbers = vec!["256712345678".to_string()];
    let req = ApiRequest::send_request("u", "p", &numbers, "hello", "EgoSMS", MessagePriority::High);
    assert_eq!(
        render_request(&req),
        r#"{"method":"SendSms","userdata":{"username":"u","password":"p"},"msgdata":[{"number":"256712345678","message":"hello","senderid":"EgoSMS","priority":"1"}]}"#
    );
}

#[test]
fn render_balance_request_exactly() {
    let req = ApiRequest::balance_request("u", "p");
    assert_eq!(
        render_request(&req),
        r#"{"method":"Balance","userdata":{"username":"u","password":"p"}}"#
    );
}

#[test]
fn render_joins_several_messages_with_commas() {
    let numbers = vec!["256712345678".to_string(), "256700000000".to_string()];
    let req = ApiRequest::send_request("u", "p", &numbers, "x", "S", MessagePriority::Highest);
    let body = render_request(&req);
    assert_eq!(body.matches(r#"{"number":""#).count(), 2);
    assert!(body.contains(r#""},{"number":"256700000000""#));
}

#[test]
fn render_escapes_quotes_backslashes_and_controls() {
    let numbers = vec!["256712345678".to_string()];
    let req = ApiRequest::send_request(
        "u",
        "p",
        &numbers,
        "say \"hi\" \\ twice\nplease\u{1}",
        "S",
        MessagePriority::Highest,
    );
    let body = render_request(&req);
    assert!(body.contains(r#"say \"hi\" \\ twice\nplease\u0001"#));
}

#[test]
fn parse_full_response() {
    let resp = parse_api_response(
        r#" { "Status" : "OK" , "Message" : "done" , "Cost" : 2 , "MsgFollowUpUniqueCode" : "xyz" , "Balance" : 10.25 } "#,
    )
    .unwrap();
    assert_eq!(resp.status, ApiResponseCode::OK);
    assert_eq!(resp.message.as_deref(), Some("done"));
    assert_eq!(resp.cost, Some(2));
    assert_eq!(resp.message_follow_up_code.as_deref(), Some("xyz"));
    assert_eq!(
        resp.balance,
        Some(Balance { negative: false, mantissa: 1025, scale: 2 })
    );
}

#[test]
fn parse_decodes_string_escapes() {
    let resp = parse_api_response(r#"{"Status":"OK","Message":"a\"b\\c\nd\te\/f"}"#).unwrap();
    assert_eq!(resp.message.as_deref(), Some("a\"b\\c\nd\te/f"));
}

#[test]
fn parse_ignores_unknown_members() {
    let resp =
        parse_api_response(r#"{"Other":true,"Status":"Failed","Extra":null,"N":-12.5}"#).unwrap();
    assert_eq!(resp.status, ApiResponseCode::Failed);
}

#[test]
fn parse_unknown_status_is_protocol_failure() {
    match parse_api_response(r#"{"Status":"Weird"}"#) {
        Err(ParseFail::UnknownStatus(t)) => assert_eq!(t, "Weird"),
        other => panic!("expected an unknown status, got {:?}", other),
    }
}

#[test]
fn parse_missing_status_is_malformed() {
    assert!(matches!(
        parse_api_response(r#"{"Message":"x"}"#),
        Err(ParseFail::Malformed)
    ));
}

#[test]
fn parse_null_members_mean_absent() {
    let resp = parse_api_response(
        r#"{"Status":"OK","Message":null,"Cost":null,"MsgFollowUpUniqueCode":null,"Balance":null}"#,
    )
    .unwrap();
    assert_eq!(resp.message, None);
    assert_eq!(resp.cost, None);
    assert_eq!(resp.message_follow_up_code, None);
    assert_eq!(resp.balance, None);
}

#[test]
fn parse_later_member_overwrites_earlier() {
    let resp = parse_api_response(r#"{"Status":"Failed","Status":"OK"}"#).unwrap();
    assert_eq!(resp.status, ApiResponseCode::OK);
}

#[test]
fn parse_negative_cost_and_balance() {
    let resp = parse_api_response(r#"{"Status":"OK","Cost":-3,"Balance":-0.5}"#).unwrap();
    assert_eq!(resp.cost, Some(-3));
    assert_eq!(
        resp.balance,
        Some(Balance { negative: true, mantissa: 5, scale: 1 })
    );
}

#[test]
fn parse_fractional_cost_is_malformed() {
    assert!(matches!(
        parse_api_response(r#"{"Status":"OK","Cost":2.5}"#),
        Err(ParseFail::Malformed)
    ));
}

#[test]
fn parse_mistyped_status_is_malformed() {
    assert!(matches!(
        parse_api_response(r#"{"Status":7}"#),
        Err(ParseFail::Malformed)
    ));
}

#[test]
fn parse_trailing_garbage_is_malformed() {
    assert!(matches!(
        parse_api_response(r#"{"Status":"OK"} tail"#),
        Err(ParseFail::Malformed)
    ));
    assert!(matches!(parse_api_response(""), Err(ParseFail::Malformed)));
    assert!(matches!(
        parse_api_response(r#"{"Status":"OK""#),
        Err(ParseFail::Malformed)
    ));
}

#[test]
fn parse_leading_zero_number_is_malformed() {
    assert!(matches!(
        parse_api_response(r#"{"Status":"OK","Cost":007}"#),
        Err(ParseFail::Malformed)
    ));
}

#[test]
fn parse_oversized_balance_is_kept_absent() {
    let resp =
        parse_api_response(r#"{"Status":"OK","Balance":12345678901234567890123}"#).unwrap();
    assert_eq!(resp.balance, None);
}

#[test]
fn parse_empty_object_is_malformed_for_missing_status() {
    assert!(matches!(parse_api_response("{}"), Err(ParseFail::Malformed)));
}

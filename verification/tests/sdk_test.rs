//! Tests of the session over the real HTTP transport, and of the small
//! model types. No gateway is reachable from the test environment, so the
//! network-touching cases exercise the soft-false and hard-error paths.

use comms_sdk::models::{ApiResponseCode, UserData};
use comms_sdk::CommsSDK;

#[test]
fn test_new() {
    let _sdk = CommsSDK::new("username", "api_key");
}

#[test]
fn test_authenticate() {
    let mut sdk = CommsSDK::new("username", "api_key");
    sdk.use_sandbox();
    let outcome = sdk.authenticate().unwrap();
    // that account does not exist on the sandbox (and no gateway is
    // reachable here), so the probe is a soft false
    assert!(!outcome);
    assert!(!sdk.is_authenticated());
}

#[test]
fn test_send_sms_failure() {
    let mut sdk = CommsSDK::new("username", "api_key");
    let _ = sdk.authenticate();
    let numbers = vec!["256700000000".to_string()];
    let message = "Test message";
    let result = sdk.send_sms(numbers, message);
    assert!(result.is_err());
}

#[test]
fn test_balance_live() {
    let mut sdk = CommsSDK::new("username", "api_key");
    let _ = sdk.authenticate();
    assert!(!sdk.is_authenticated()); // provided credentials were incorrect
    let result = sdk.get_balance();
    assert!(result.is_err());
}

#[test]
fn test_use_sandbox_and_live() {
    let mut sdk = CommsSDK::new("username", "api_key");
    sdk.use_sandbox();
    assert_eq!(sdk.api_url(), "https://comms-test.pahappa.net/api/v1/json/");
    sdk.use_live_server();
    assert_eq!(sdk.api_url(), "https://comms.egosms.co/api/v1/json/");
}

#[test]
fn response_codes_answer_for_themselves() {
    assert!(ApiResponseCode::OK.is_ok());
    assert!(!ApiResponseCode::OK.is_failed());
    assert!(ApiResponseCode::Failed.is_failed());
    assert!(!ApiResponseCode::Failed.is_ok());
}

#[test]
fn user_data_serializes_key_under_password() {
    let u = UserData::new("someone", "secret");
    assert_eq!(u.username, "someone");
    assert_eq!(u.password, "secret");
}

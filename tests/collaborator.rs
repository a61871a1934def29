use cogno::collaborator::{
    clean_json_text, failure_kind, is_retryable_error, next_retry_step, ApiFailure,
    CleanJsonError, LlmApiConfig, RetryStep,
};
use cogno::mind::FailureKind;

#[test]
fn test_json_cleaning() {
    let test_input = "```json\n{\"test\": \"value\"}\n```";
    let cleaned = clean_json_text(test_input).unwrap();
    assert_eq!(cleaned, r#"{"test": "value"}"#);
}

#[test]
fn json_cleaning_plain_fence_and_spaces() {
    assert_eq!(clean_json_text("  ```\n{}\n```  ").unwrap(), "{}");
    assert_eq!(clean_json_text("\u{a0}{\"a\":1}\u{3000}").unwrap(), "{\"a\":1}");
}

#[test]
fn json_cleaning_empty() {
    assert!(matches!(clean_json_text(""), Err(CleanJsonError::EmptyResponse)));
    assert!(matches!(clean_json_text(" ```json ``` "), Err(CleanJsonError::EmptyResponse)));
}

#[test]
fn json_cleaning_not_an_object() {
    match clean_json_text("```json\n[1, 2]\n```") {
        Err(CleanJsonError::NotJsonObject(s)) => assert_eq!(s, "[1, 2]"),
        other => panic!("unexpected {:?}", other),
    }
}

#[test]
fn retry_policy() {
    let c = LlmApiConfig::default();
    assert_eq!(next_retry_step(&c, 1, ApiFailure::Network), RetryStep::WaitAndRetry(1000));
    assert_eq!(next_retry_step(&c, 2, ApiFailure::RateLimitExceeded), RetryStep::WaitAndRetry(5000));
    assert_eq!(next_retry_step(&c, 1, ApiFailure::Unparsable), RetryStep::WaitAndRetry(1000));
    assert_eq!(next_retry_step(&c, 1, ApiFailure::Http(404)), RetryStep::GiveUp);
    assert_eq!(next_retry_step(&c, 1, ApiFailure::Http(503)), RetryStep::WaitAndRetry(1000));
    assert_eq!(next_retry_step(&c, 3, ApiFailure::Network), RetryStep::GiveUp);
    assert!(is_retryable_error(ApiFailure::Timeout));
    assert!(!is_retryable_error(ApiFailure::ApiKeyMissing));
}

#[test]
fn failure_categories() {
    assert_eq!(failure_kind(ApiFailure::Network), FailureKind::Network);
    assert_eq!(failure_kind(ApiFailure::RateLimitExceeded), FailureKind::RateLimit);
    assert_eq!(failure_kind(ApiFailure::EmptyResponse), FailureKind::MalformedResponse);
    assert_eq!(failure_kind(ApiFailure::Http(500)), FailureKind::Other);
}

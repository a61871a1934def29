use cogno::collaborator::{format_error_for_user, LlmApiConfig};

#[test]
fn test_error_formatting() {
    let error = std::io::Error::new(std::io::ErrorKind::TimedOut, "Network timeout");
    let formatted = format_error_for_user(&error.to_string());
    assert!(formatted.contains("Network connectivity"));
}

#[test]
fn error_formatting_api_key() {
    let formatted = format_error_for_user("API key not found in environment");
    assert_eq!(
        formatted,
        "🔑 API configuration issue. Please check your environment variables."
    );
}

#[test]
fn error_formatting_timeout_lowercase() {
    let formatted = format_error_for_user("request timeout after 30s");
    assert_eq!(
        formatted,
        "🌐 Network connectivity issue. The system will continue with local processing."
    );
}

#[test]
fn error_formatting_rate_limit() {
    let formatted = format_error_for_user("API rate limit exceeded");
    assert_eq!(
        formatted,
        "⏳ Service is busy. The system will slow down requests automatically."
    );
}

#[test]
fn error_formatting_other_keeps_message() {
    let formatted = format_error_for_user("LLM returned empty response");
    assert_eq!(formatted, "⚠️ LLM returned empty response");
}

#[test]
fn error_formatting_empty_message() {
    assert_eq!(format_error_for_user(""), "⚠️ ");
}

#[test]
fn llm_config_defaults() {
    let c = LlmApiConfig::default();
    assert_eq!(c.timeout_seconds, 30);
    assert_eq!(c.max_retries, 3);
    assert_eq!(c.retry_delay_ms, 1000);
    assert_eq!(c.rate_limit_delay_ms, 5000);
}

//! Error messages.
use edocrs::errors::{ApiError, AppError, SessionError, ToolError};

#[test]
fn io_error_converts_into_app_error() {
    fn inner() -> Result<(), AppError> {
        let missing = std::io::Error::from_raw_os_error(2);
        Err(missing).map_err(|e| AppError::Io(e.to_string()))?;
        Ok(())
    }
    let s = inner().unwrap_err().message();
    assert!(s.to_lowercase().contains("io") || s.contains("No such file"));
}

#[test]
fn rate_limit_display_is_human_friendly() {
    let s = ApiError::RateLimit.message();
    assert!(s.contains("429") || s.contains("速率") || s.to_lowercase().contains("rate"));
}

#[test]
fn errors_convert_into_app_errors() {
    assert!(matches!(AppError::from(ApiError::Cancelled), AppError::Api(ApiError::Cancelled)));
    assert!(matches!(AppError::from(ToolError::Timeout(3)), AppError::Tool(ToolError::Timeout(3))));
    let s = AppError::from(SessionError::NotFound("x".into()));
    assert!(matches!(s, AppError::Session(SessionError::NotFound(id)) if id == "x"));
}

#[test]
fn messages_carry_their_details() {
    let http = ApiError::Http { status: 500, body: "boom".into() };
    assert_eq!(http.message(), "HTTP 500: boom");
    assert!(ApiError::IdleTimeout(300_000).message().contains("300s"));
    assert!(ApiError::Network("down".into()).message().contains("down"));
    assert!(ApiError::BadStream("bad".into()).message().contains("bad"));
    assert!(ApiError::BadJson("eof".into()).message().contains("eof"));
    assert!(ToolError::Timeout(7).message().contains("7"));
    assert!(ToolError::Failed("why".into()).message().contains("why"));
    assert!(ToolError::BadArgs("why".into()).message().contains("why"));
    assert!(SessionError::Replay("line".into()).message().contains("line"));
    assert!(SessionError::Io("disk".into()).message().contains("disk"));
    assert!(AppError::Config("key".into()).message().contains("key"));
}

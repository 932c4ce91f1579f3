use snippet_forge::errors::{AppError, ErrorActionType, ErrorHandler, ErrorSeverity};

#[test]
fn image_generation_error_response() {
    let r = ErrorHandler::handle_error(AppError::image_generation_failed("boom"));
    assert_eq!(r.message, "Failed to generate code snippet image");
    assert_eq!(r.error_code, "IMAGE_GENERATION_FAILED");
    assert_eq!(r.severity, ErrorSeverity::High);
    assert_eq!(r.retry_after, Some(2));
    assert_eq!(r.details, Some("boom".to_string()));
    let kinds: Vec<ErrorActionType> = r.actions.iter().map(|a| a.action_type).collect();
    assert_eq!(kinds, vec![ErrorActionType::Retry, ErrorActionType::ChangeSettings]);
    assert_eq!(r.actions[1].label, "Change Theme");
}

#[test]
fn theme_not_found_and_timeout_details() {
    let r = ErrorHandler::handle_error(AppError::theme_not_found("neon"));
    assert_eq!(r.details, Some("Theme 'neon' does not exist".to_string()));
    assert_eq!(r.severity, ErrorSeverity::Low);
    assert_eq!(r.retry_after, None);
    let t = ErrorHandler::handle_error(AppError::timeout(45));
    assert_eq!(t.details, Some("Operation exceeded 45 second timeout".to_string()));
    assert_eq!(t.error_code, "TIMEOUT");
    assert_eq!(t.retry_after, Some(3));
}

#[test]
fn every_kind_has_its_code() {
    let cases = vec![
        (AppError::ocr_failed("m"), "OCR_FAILED"),
        (AppError::file_upload_failed("m"), "UPLOAD_FAILED"),
        (AppError::theme_error("m"), "THEME_ERROR"),
        (AppError::language_detection_failed("m"), "LANGUAGE_DETECTION_FAILED"),
        (AppError::syntax_highlighting_failed("m"), "SYNTAX_HIGHLIGHTING_FAILED"),
        (AppError::validation_failed("m"), "VALIDATION_FAILED"),
        (AppError::storage_failed("m"), "STORAGE_FAILED"),
        (AppError::rate_limited("m"), "RATE_LIMITED"),
        (AppError::session_error("m"), "SESSION_ERROR"),
        (AppError::internal_error("m"), "INTERNAL_ERROR"),
    ];
    for (e, code) in cases {
        assert_eq!(ErrorHandler::handle_error(e).error_code, code);
    }
}

#[test]
fn retryable_kinds_and_delays() {
    assert!(ErrorHandler::is_retryable(&AppError::timeout(1)));
    assert!(ErrorHandler::is_retryable(&AppError::storage_failed("x")));
    assert!(!ErrorHandler::is_retryable(&AppError::validation_failed("x")));
    assert!(!ErrorHandler::is_retryable(&AppError::rate_limited("x")));
    assert_eq!(ErrorHandler::get_retry_delay(&AppError::rate_limited("x")), 60);
    assert_eq!(ErrorHandler::get_retry_delay(&AppError::storage_failed("x")), 5);
    assert_eq!(ErrorHandler::get_retry_delay(&AppError::theme_error("x")), 1);
}

#[test]
fn failures_describe_themselves() {
    assert_eq!(AppError::validation_failed("bad").to_display(), "Validation error: bad");
    assert_eq!(AppError::theme_not_found("x").to_display(), "Theme not found: x");
    assert_eq!(AppError::timeout(7).to_display(), "Processing timeout: operation took longer than 7 seconds");
    assert_eq!(AppError::storage_failed("s").message(), Some("s".to_string()));
    assert_eq!(AppError::timeout(7).message(), None);
}

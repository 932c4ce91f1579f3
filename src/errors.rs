use vstd::prelude::*;

use crate::text::{decimal, decimal_string, join2, owned};

verus! {

/// Every failure the service can report.
#[derive(Debug, Clone)]
pub enum AppError {
    OCRError { message: String },
    ImageGenerationError { message: String },
    FileUploadError { message: String },
    ThemeNotFound { theme_id: String },
    ThemeError { message: String },
    LanguageDetectionError { message: String },
    SyntaxHighlightingError { message: String },
    ValidationError { message: String },
    StorageError { message: String },
    TimeoutError { timeout_seconds: u64 },
    RateLimitError { message: String },
    SessionError { message: String },
    InternalError { message: String },
}

/// A user-facing description of a failure.
#[derive(Debug, Clone)]
pub struct ErrorResponse {
    pub message: String,
    pub error_code: String,
    pub severity: ErrorSeverity,
    pub actions: Vec<ErrorAction>,
    /// Suggested wait before retrying, in seconds.
    pub retry_after: Option<u64>,
    pub details: Option<String>,
}

#[derive(Debug, Clone, Copy, PartialEq, Eq, Structural)]
pub enum ErrorSeverity {
    Low,
    Medium,
    High,
}

/// Something the user can do about a failure.
#[derive(Debug, Clone)]
pub struct ErrorAction {
    pub action_type: ErrorActionType,
    pub label: String,
    pub description: String,
}

#[derive(Debug, Clone, Copy, PartialEq, Eq, Structural)]
pub enum ErrorActionType {
    Retry,
    EditInput,
    ChangeSettings,
    ContactSupport,
    TryAlternative,
}

/// Maps failures to responses and retry advice.
pub struct ErrorHandler;

/// The stable code under which a failure is reported.
pub open spec fn error_code_of(e: AppError) -> Seq<char> {
    match e {
        AppError::OCRError { .. } => "OCR_FAILED"@,
        AppError::ImageGenerationError { .. } => "IMAGE_GENERATION_FAILED"@,
        AppError::FileUploadError { .. } => "UPLOAD_FAILED"@,
        AppError::ThemeNotFound { .. } => "THEME_NOT_FOUND"@,
        AppError::ThemeError { .. } => "THEME_ERROR"@,
        AppError::LanguageDetectionError { .. } => "LANGUAGE_DETECTION_FAILED"@,
        AppError::SyntaxHighlightingError { .. } => "SYNTAX_HIGHLIGHTING_FAILED"@,
        AppError::ValidationError { .. } => "VALIDATION_FAILED"@,
        AppError::StorageError { .. } => "STORAGE_FAILED"@,
        AppError::TimeoutError { .. } => "TIMEOUT"@,
        AppError::RateLimitError { .. } => "RATE_LIMITED"@,
        AppError::SessionError { .. } => "SESSION_ERROR"@,
        AppError::InternalError { .. } => "INTERNAL_ERROR"@,
    }
}

/// The headline shown to the user for a failure.
pub open spec fn summary_of(e: AppError) -> Seq<char> {
    match e {
        AppError::OCRError { .. } => "Failed to extract text from image"@,
        AppError::ImageGenerationError { .. } => "Failed to generate code snippet image"@,
        AppError::FileUploadError { .. } => "File upload failed"@,
        AppError::ThemeNotFound { .. } => "Theme not found"@,
        AppError::ThemeError { .. } => "Theme configuration error"@,
        AppError::LanguageDetectionError { .. } => "Could not detect programming language"@,
        AppError::SyntaxHighlightingError { .. } => "Syntax highlighting failed"@,
        AppError::ValidationError { .. } => "Input validation failed"@,
        AppError::StorageError { .. } => "Storage operation failed"@,
        AppError::TimeoutError { .. } => "Operation timed out"@,
        AppError::RateLimitError { .. } => "Too many requests"@,
        AppError::SessionError { .. } => "Session error"@,
        AppError::InternalError { .. } => "An unexpected error occurred"@,
    }
}

pub open spec fn severity_of(e: AppError) -> ErrorSeverity {
    match e {
        AppError::ImageGenerationError { .. } => ErrorSeverity::High,
        AppError::StorageError { .. } => ErrorSeverity::High,
        AppError::InternalError { .. } => ErrorSeverity::High,
        AppError::ThemeNotFound { .. } => ErrorSeverity::Low,
        AppError::LanguageDetectionError { .. } => ErrorSeverity::Low,
        _ => ErrorSeverity::Medium,
    }
}

/// The wait, in seconds, that a response suggests before a retry.
pub open spec fn retry_after_of(e: AppError) -> Option<u64> {
    match e {
        AppError::OCRError { .. } => Some(1),
        AppError::ImageGenerationError { .. } => Some(2),
        AppError::FileUploadError { .. } => Some(1),
        AppError::SyntaxHighlightingError { .. } => Some(1),
        AppError::StorageError { .. } => Some(5),
        AppError::TimeoutError { .. } => Some(3),
        AppError::RateLimitError { .. } => Some(60),
        AppError::InternalError { .. } => Some(5),
        _ => None,
    }
}

/// The technical detail attached to a response.
pub open spec fn details_of(e: AppError) -> Seq<char> {
    match e {
        AppError::ThemeNotFound { theme_id } => "Theme '"@ + theme_id@ + "' does not exist"@,
        AppError::TimeoutError { timeout_seconds } => "Operation exceeded "@ + decimal(
            timeout_seconds as nat,
        ) + " second timeout"@,
        AppError::OCRError { message } => message@,
        AppError::ImageGenerationError { message } => message@,
        AppError::FileUploadError { message } => message@,
        AppError::ThemeError { message } => message@,
        AppError::LanguageDetectionError { message } => message@,
        AppError::SyntaxHighlightingError { message } => message@,
        AppError::ValidationError { message } => message@,
        AppError::StorageError { message } => message@,
        AppError::RateLimitError { message } => message@,
        AppError::SessionError { message } => message@,
        AppError::InternalError { message } => message@,
    }
}

/// The actions a response offers, in order: kind, label and description.
pub open spec fn actions_of(e: AppError) -> Seq<(ErrorActionType, Seq<char>, Seq<char>)> {
    match e {
        AppError::OCRError { .. } => seq![
            (ErrorActionType::Retry, "Try Again"@, "Upload the image again"@),
            (ErrorActionType::TryAlternative, "Type Code"@, "Enter your code manually instead"@),
        ],
        AppError::ImageGenerationError { .. } => seq![
            (ErrorActionType::Retry, "Retry"@, "Try generating the image again"@),
            (ErrorActionType::ChangeSettings, "Change Theme"@, "Try a different theme or settings"@),
        ],
        AppError::FileUploadError { .. } => seq![
            (ErrorActionType::Retry, "Try Again"@, "Upload the file again"@),
            (
                ErrorActionType::EditInput,
                "Check File"@,
                "Ensure the file is a valid image (PNG, JPG, JPEG)"@,
            ),
        ],
        AppError::ThemeNotFound { .. } => seq![
            (ErrorActionType::ChangeSettings, "Choose Different Theme"@, "Select from available themes"@),
        ],
        AppError::ThemeError { .. } => seq![
            (ErrorActionType::EditInput, "Fix Theme"@, "Correct the theme configuration"@),
            (ErrorActionType::ChangeSettings, "Use Default Theme"@, "Switch to a default theme"@),
        ],
        AppError::LanguageDetectionError { .. } => seq![
            (ErrorActionType::EditInput, "Select Language"@, "Manually choose the programming language"@),
        ],
        AppError::SyntaxHighlightingError { .. } => seq![
            (ErrorActionType::Retry, "Try Again"@, "Retry with syntax highlighting"@),
            (ErrorActionType::TryAlternative, "Use Plain Text"@, "Continue without syntax highlighting"@),
        ],
        AppError::ValidationError { .. } => seq![
            (ErrorActionType::EditInput, "Fix Input"@, "Please correct the input and try again"@),
        ],
        AppError::StorageError { .. } => seq![
            (ErrorActionType::Retry, "Try Again"@, "Retry the operation"@),
            (
                ErrorActionType::ContactSupport,
                "Contact Support"@,
                "If the problem persists, please contact support"@,
            ),
        ],
        AppError::TimeoutError { .. } => seq![
            (ErrorActionType::Retry, "Try Again"@, "The operation may succeed if retried"@),
        ],
        AppError::RateLimitError { .. } => seq![
            (ErrorActionType::Retry, "Wait and Retry"@, "Please wait a moment before trying again"@),
        ],
        AppError::SessionError { .. } => seq![
            (ErrorActionType::Retry, "Refresh"@, "Refresh the page to start a new session"@),
        ],
        AppError::InternalError { .. } => seq![
            (ErrorActionType::Retry, "Try Again"@, "The error might be temporary"@),
            (ErrorActionType::ContactSupport, "Report Issue"@, "Report this issue if it continues"@),
        ],
    }
}

/// A list of actions as kind, label and description.
pub open spec fn described(actions: Seq<ErrorAction>) -> Seq<(ErrorActionType, Seq<char>, Seq<char>)> {
    actions.map_values(|a: ErrorAction| (a.action_type, a.label@, a.description@))
}

/// Failures that may go away when the operation is tried again.
pub open spec fn retryable(e: AppError) -> bool {
    match e {
        AppError::OCRError { .. } => true,
        AppError::ImageGenerationError { .. } => true,
        AppError::FileUploadError { .. } => true,
        AppError::StorageError { .. } => true,
        AppError::TimeoutError { .. } => true,
        AppError::SyntaxHighlightingError { .. } => true,
        AppError::InternalError { .. } => true,
        _ => false,
    }
}

/// The delay, in seconds, recommended before retrying after a failure.
pub open spec fn retry_delay_of(e: AppError) -> u64 {
    match e {
        AppError::ImageGenerationError { .. } => 2,
        AppError::StorageError { .. } => 5,
        AppError::TimeoutError { .. } => 3,
        AppError::RateLimitError { .. } => 60,
        AppError::InternalError { .. } => 5,
        _ => 1,
    }
}

/// The text by which a failure describes itself.
pub open spec fn display_of(e: AppError) -> Seq<char> {
    match e {
        AppError::OCRError { message } => "OCR processing failed: "@ + message@,
        AppError::ImageGenerationError { message } => "Image generation failed: "@ + message@,
        AppError::FileUploadError { message } => "File upload error: "@ + message@,
        AppError::ThemeNotFound { theme_id } => "Theme not found: "@ + theme_id@,
        AppError::ThemeError { message } => "Theme error: "@ + message@,
        AppError::LanguageDetectionError { message } => "Language detection failed: "@ + message@,
        AppError::SyntaxHighlightingError { message } => "Syntax highlighting failed: "@ + message@,
        AppError::ValidationError { message } => "Validation error: "@ + message@,
        AppError::StorageError { message } => "Storage error: "@ + message@,
        AppError::TimeoutError { timeout_seconds } => "Processing timeout: operation took longer than "@
            + decimal(timeout_seconds as nat) + " seconds"@,
        AppError::RateLimitError { message } => "Rate limit exceeded: "@ + message@,
        AppError::SessionError { message } => "Session error: "@ + message@,
        AppError::InternalError { message } => "Internal server error: "@ + message@,
    }
}

/// The message carried by a failure, if its kind carries one.
pub open spec fn message_of(e: AppError) -> Option<Seq<char>> {
    match e {
        AppError::ThemeNotFound { .. } => None,
        AppError::TimeoutError { .. } => None,
        AppError::OCRError { message } => Some(message@),
        AppError::ImageGenerationError { message } => Some(message@),
        AppError::FileUploadError { message } => Some(message@),
        AppError::ThemeError { message } => Some(message@),
        AppError::LanguageDetectionError { message } => Some(message@),
        AppError::SyntaxHighlightingError { message } => Some(message@),
        AppError::ValidationError { message } => Some(message@),
        AppError::StorageError { message } => Some(message@),
        AppError::RateLimitError { message } => Some(message@),
        AppError::SessionError { message } => Some(message@),
        AppError::InternalError { message } => Some(message@),
    }
}

fn action(action_type: ErrorActionType, label: &str, description: &str) -> (r: ErrorAction)
    ensures
        r.action_type == action_type,
        r.label@ == label@,
        r.description@ == description@,
{
    ErrorAction { action_type, label: owned(label), description: owned(description) }
}

fn respond(
    message: &str,
    error_code: &str,
    severity: ErrorSeverity,
    actions: Vec<ErrorAction>,
    retry_after: Option<u64>,
    details: String,
) -> (r: ErrorResponse)
    ensures
        r.message@ == message@,
        r.error_code@ == error_code@,
        r.severity == severity,
        r.actions@ == actions@,
        r.retry_after == retry_after,
        r.details is Some && r.details->Some_0@ == details@,
{
    ErrorResponse {
        message: owned(message),
        error_code: owned(error_code),
        severity,
        actions,
        retry_after,
        details: Some(details),
    }
}

impl ErrorHandler {
    /// Turns a failure into the response shown to the user.
    pub fn handle_error(error: AppError) -> (r: ErrorResponse)
        ensures
            r.message@ == summary_of(error),
            r.error_code@ == error_code_of(error),
            r.severity == severity_of(error),
            described(r.actions@) =~= actions_of(error),
            r.retry_after == retry_after_of(error),
            r.details is Some,
            r.details->Some_0@ == details_of(error),
    {
        match error {
            AppError::OCRError { message } => respond(
                "Failed to extract text from image",
                "OCR_FAILED",
                ErrorSeverity::Medium,
                vec![
                    action(ErrorActionType::Retry, "Try Again", "Upload the image again"),
                    action(
                        ErrorActionType::TryAlternative,
                        "Type Code",
                        "Enter your code manually instead",
                    ),
                ],
                Some(1),
                message,
            ),
            AppError::ImageGenerationError { message } => respond(
                "Failed to generate code snippet image",
                "IMAGE_GENERATION_FAILED",
                ErrorSeverity::High,
                vec![
                    action(ErrorActionType::Retry, "Retry", "Try generating the image again"),
                    action(
                        ErrorActionType::ChangeSettings,
                        "Change Theme",
                        "Try a different theme or settings",
                    ),
                ],
                Some(2),
                message,
            ),
            AppError::FileUploadError { message } => respond(
                "File upload failed",
                "UPLOAD_FAILED",
                ErrorSeverity::Medium,
                vec![
                    action(ErrorActionType::Retry, "Try Again", "Upload the file again"),
                    action(
                        ErrorActionType::EditInput,
                        "Check File",
                        "Ensure the file is a valid image (PNG, JPG, JPEG)",
                    ),
                ],
                Some(1),
                message,
            ),
            AppError::ThemeNotFound { theme_id } => {
                let mut details = owned("Theme '");
                details.append(theme_id.as_str());
                details.append("' does not exist");
                respond(
                    "Theme not found",
                    "THEME_NOT_FOUND",
                    ErrorSeverity::Low,
                    vec![
                        action(
                            ErrorActionType::ChangeSettings,
                            "Choose Different Theme",
                            "Select from available themes",
                        ),
                    ],
                    None,
                    details,
                )
            },
            AppError::ThemeError { message } => respond(
                "Theme configuration error",
                "THEME_ERROR",
                ErrorSeverity::Medium,
                vec![
                    action(ErrorActionType::EditInput, "Fix Theme", "Correct the theme configuration"),
                    action(
                        ErrorActionType::ChangeSettings,
                        "Use Default Theme",
                        "Switch to a default theme",
                    ),
                ],
                None,
                message,
            ),
            AppError::LanguageDetectionError { message } => respond(
                "Could not detect programming language",
                "LANGUAGE_DETECTION_FAILED",
                ErrorSeverity::Low,
                vec![
                    action(
                        ErrorActionType::EditInput,
                        "Select Language",
                        "Manually choose the programming language",
                    ),
                ],
                None,
                message,
            ),
            AppError::SyntaxHighlightingError { message } => respond(
                "Syntax highlighting failed",
                "SYNTAX_HIGHLIGHTING_FAILED",
                ErrorSeverity::Medium,
                vec![
                    action(ErrorActionType::Retry, "Try Again", "Retry with syntax highlighting"),
                    action(
                        ErrorActionType::TryAlternative,
                        "Use Plain Text",
                        "Continue without syntax highlighting",
                    ),
                ],
                Some(1),
                message,
            ),
            AppError::ValidationError { message } => respond(
                "Input validation failed",
                "VALIDATION_FAILED",
                ErrorSeverity::Medium,
                vec![
                    action(
                        ErrorActionType::EditInput,
                        "Fix Input",
                        "Please correct the input and try again",
                    ),
                ],
                None,
                message,
            ),
            AppError::StorageError { message } => respond(
                "Storage operation failed",
                "STORAGE_FAILED",
                ErrorSeverity::High,
                vec![
                    action(ErrorActionType::Retry, "Try Again", "Retry the operation"),
                    action(
                        ErrorActionType::ContactSupport,
                        "Contact Support",
                        "If the problem persists, please contact support",
                    ),
                ],
                Some(5),
                message,
            ),
            AppError::TimeoutError { timeout_seconds } => {
                let mut details = owned("Operation exceeded ");
                let n = decimal_string(timeout_seconds);
                details.append(n.as_str());
                details.append(" second timeout");
                respond(
                    "Operation timed out",
                    "TIMEOUT",
                    ErrorSeverity::Medium,
                    vec![
                        action(
                            ErrorActionType::Retry,
                            "Try Again",
                            "The operation may succeed if retried",
                        ),
                    ],
                    Some(3),
                    details,
                )
            },
            AppError::RateLimitError { message } => respond(
                "Too many requests",
                "RATE_LIMITED",
                ErrorSeverity::Medium,
                vec![
                    action(
                        ErrorActionType::Retry,
                        "Wait and Retry",
                        "Please wait a moment before trying again",
                    ),
                ],
                Some(60),
                message,
            ),
            AppError::SessionError { message } => respond(
                "Session error",
                "SESSION_ERROR",
                ErrorSeverity::Medium,
                vec![
                    action(
                        ErrorActionType::Retry,
                        "Refresh",
                        "Refresh the page to start a new session",
                    ),
                ],
                None,
                message,
            ),
            AppError::InternalError { message } => respond(
                "An unexpected error occurred",
                "INTERNAL_ERROR",
                ErrorSeverity::High,
                vec![
                    action(ErrorActionType::Retry, "Try Again", "The error might be temporary"),
                    action(
                        ErrorActionType::ContactSupport,
                        "Report Issue",
                        "Report this issue if it continues",
                    ),
                ],
                Some(5),
                message,
            ),
        }
    }

    /// Whether a failure may go away on a retry.
    pub fn is_retryable(error: &AppError) -> (r: bool)
        ensures
            r == retryable(*error),
    {
        match error {
            AppError::OCRError { .. } => true,
            AppError::ImageGenerationError { .. } => true,
            AppError::FileUploadError { .. } => true,
            AppError::StorageError { .. } => true,
            AppError::TimeoutError { .. } => true,
            AppError::SyntaxHighlightingError { .. } => true,
            AppError::InternalError { .. } => true,
            _ => false,
        }
    }

    /// The recommended delay before retrying after a failure, in seconds.
    pub fn get_retry_delay(error: &AppError) -> (r: u64)
        ensures
            r == retry_delay_of(*error),
    {
        match error {
            AppError::ImageGenerationError { .. } => 2,
            AppError::StorageError { .. } => 5,
            AppError::TimeoutError { .. } => 3,
            AppError::RateLimitError { .. } => 60,
            AppError::InternalError { .. } => 5,
            _ => 1,
        }
    }
}

impl AppError {
    pub fn ocr_failed(message: &str) -> (r: AppError)
        ensures
            r matches AppError::OCRError { message: m } && m@ == message@,
    {
        AppError::OCRError { message: owned(message) }
    }

    pub fn image_generation_failed(message: &str) -> (r: AppError)
        ensures
            r matches AppError::ImageGenerationError { message: m } && m@ == message@,
    {
        AppError::ImageGenerationError { message: owned(message) }
    }

    pub fn file_upload_failed(message: &str) -> (r: AppError)
        ensures
            r matches AppError::FileUploadError { message: m } && m@ == message@,
    {
        AppError::FileUploadError { message: owned(message) }
    }

    pub fn theme_not_found(theme_id: &str) -> (r: AppError)
        ensures
            r matches AppError::ThemeNotFound { theme_id: t } && t@ == theme_id@,
    {
        AppError::ThemeNotFound { theme_id: owned(theme_id) }
    }

    pub fn theme_error(message: &str) -> (r: AppError)
        ensures
            r matches AppError::ThemeError { message: m } && m@ == message@,
    {
        AppError::ThemeError { message: owned(message) }
    }

    pub fn language_detection_failed(message: &str) -> (r: AppError)
        ensures
            r matches AppError::LanguageDetectionError { message: m } && m@ == message@,
    {
        AppError::LanguageDetectionError { message: owned(message) }
    }

    pub fn syntax_highlighting_failed(message: &str) -> (r: AppError)
        ensures
            r matches AppError::SyntaxHighlightingError { message: m } && m@ == message@,
    {
        AppError::SyntaxHighlightingError { message: owned(message) }
    }

    pub fn validation_failed(message: &str) -> (r: AppError)
        ensures
            r matches AppError::ValidationError { message: m } && m@ == message@,
    {
        AppError::ValidationError { message: owned(message) }
    }

    pub fn storage_failed(message: &str) -> (r: AppError)
        ensures
            r matches AppError::StorageError { message: m } && m@ == message@,
    {
        AppError::StorageError { message: owned(message) }
    }

    pub fn timeout(timeout_seconds: u64) -> (r: AppError)
        ensures
            r == (AppError::TimeoutError { timeout_seconds }),
    {
        AppError::TimeoutError { timeout_seconds }
    }

    pub fn rate_limited(message: &str) -> (r: AppError)
        ensures
            r matches AppError::RateLimitError { message: m } && m@ == message@,
    {
        AppError::RateLimitError { message: owned(message) }
    }

    pub fn session_error(message: &str) -> (r: AppError)
        ensures
            r matches AppError::SessionError { message: m } && m@ == message@,
    {
        AppError::SessionError { message: owned(message) }
    }

    pub fn internal_error(message: &str) -> (r: AppError)
        ensures
            r matches AppError::InternalError { message: m } && m@ == message@,
    {
        AppError::InternalError { message: owned(message) }
    }

    /// The text by which this failure describes itself.
    pub fn to_display(&self) -> (r: String)
        ensures
            r@ == display_of(*self),
    {
        match self {
            AppError::OCRError { message } => join2("OCR processing failed: ", message.as_str()),
            AppError::ImageGenerationError { message } => join2(
                "Image generation failed: ",
                message.as_str(),
            ),
            AppError::FileUploadError { message } => join2("File upload error: ", message.as_str()),
            AppError::ThemeNotFound { theme_id } => join2("Theme not found: ", theme_id.as_str()),
            AppError::ThemeError { message } => join2("Theme error: ", message.as_str()),
            AppError::LanguageDetectionError { message } => join2(
                "Language detection failed: ",
                message.as_str(),
            ),
            AppError::SyntaxHighlightingError { message } => join2(
                "Syntax highlighting failed: ",
                message.as_str(),
            ),
            AppError::ValidationError { message } => join2("Validation error: ", message.as_str()),
            AppError::StorageError { message } => join2("Storage error: ", message.as_str()),
            AppError::TimeoutError { timeout_seconds } => {
                let mut s = owned("Processing timeout: operation took longer than ");
                let n = decimal_string(*timeout_seconds);
                s.append(n.as_str());
                s.append(" seconds");
                s
            },
            AppError::RateLimitError { message } => join2("Rate limit exceeded: ", message.as_str()),
            AppError::SessionError { message } => join2("Session error: ", message.as_str()),
            AppError::InternalError { message } => join2("Internal server error: ", message.as_str()),
        }
    }

    /// The message this failure carries, as `to_string` would show it after its prefix.
    pub fn message(&self) -> (r: Option<String>)
        ensures
            r is Some <==> message_of(*self) is Some,
            r is Some ==> r->Some_0@ == message_of(*self)->Some_0,
    {
        match self {
            AppError::ThemeNotFound { .. } => None,
            AppError::TimeoutError { .. } => None,
            AppError::OCRError { message } => Some(message.clone()),
            AppError::ImageGenerationError { message } => Some(message.clone()),
            AppError::FileUploadError { message } => Some(message.clone()),
            AppError::ThemeError { message } => Some(message.clone()),
            AppError::LanguageDetectionError { message } => Some(message.clone()),
            AppError::SyntaxHighlightingError { message } => Some(message.clone()),
            AppError::ValidationError { message } => Some(message.clone()),
            AppError::StorageError { message } => Some(message.clone()),
            AppError::RateLimitError { message } => Some(message.clone()),
            AppError::SessionError { message } => Some(message.clone()),
            AppError::InternalError { message } => Some(message.clone()),
        }
    }
}

} // verus!

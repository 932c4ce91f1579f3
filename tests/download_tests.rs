use snippet_forge::errors::AppError;
use snippet_forge::export::{EnhancedExportOptions, ExportResult, ImageFormat};
use snippet_forge::jobs::{DownloadService, DownloadStatus, NextStep};

fn png_options() -> EnhancedExportOptions {
    EnhancedExportOptions::default()
}

fn result(format: ImageFormat, size: usize) -> ExportResult {
    ExportResult {
        data: vec![7u8; size],
        format,
        width: 10,
        height: 20,
        file_size: size,
        export_id: "e".to_string(),
    }
}

/// Runs a job through its tries with the given outcomes and stores a success at `now`.
fn drive(service: &mut DownloadService, id: &str, outcomes: Vec<Result<ExportResult, AppError>>, now: u64) {
    assert!(service.begin_processing(id));
    let mut attempt: u32 = 1;
    for outcome in outcomes {
        assert!(service.record_attempt(id, attempt));
        match service.on_attempt_result(id, attempt, outcome) {
            NextStep::Retry { attempt: next, .. } => attempt = next,
            NextStep::Store(res) => {
                assert!(service.complete_download(id, "file-1".to_string(), res.format, res.file_size, now));
                return;
            }
            NextStep::Done => return,
        }
    }
}

#[test]
fn test_start_download() {
    let mut service = DownloadService::new();
    let download_id = service.start_download("fn main(){}", &png_options(), 1_000).unwrap();
    assert!(!download_id.is_empty());
    let progress = service.get_progress(&download_id).unwrap();
    assert_eq!(progress.download_id, download_id);
    assert_eq!(progress.status, DownloadStatus::Queued);
}

#[test]
fn test_invalid_export_options() {
    let mut service = DownloadService::new();
    let options = EnhancedExportOptions { format: ImageFormat::JPEG, quality: 101, ..Default::default() };
    let result = service.start_download("fn main(){}", &options, 0);
    assert!(result.is_err());
}

#[test]
fn test_download_stats() {
    let service = DownloadService::new();
    let stats = service.get_stats();
    assert_eq!(stats.queued, 0);
    assert_eq!(stats.processing, 0);
    assert_eq!(stats.completed, 0);
    assert_eq!(stats.failed, 0);
}

#[test]
fn test_concurrent_download_limit() {
    let mut service = DownloadService::new();
    service.set_max_concurrent_downloads(1);
    let download_id1 = service.start_download("fn main(){}", &png_options(), 0).unwrap();
    let result2 = service.start_download("fn main(){}", &png_options(), 0);
    assert!(result2.is_err());
    assert!(service.get_progress(&download_id1).is_some());
}

#[test]
fn test_cleanup_expired_downloads() {
    let mut service = DownloadService::new();
    service.set_download_expiry(1);
    let id = service.start_download("fn main(){}", &png_options(), 0).unwrap();
    drive(&mut service, &id, vec![Ok(result(ImageFormat::PNG, 5))], 100);
    let cleaned = service.cleanup_expired_downloads(110);
    assert_eq!(cleaned.len(), 1);
    assert_eq!(service.get_progress(&id).unwrap().status, DownloadStatus::Expired);
}

#[test]
fn start_then_complete_makes_artifact_fetchable() {
    let mut service = DownloadService::new();
    let id = service.start_download("fn main(){}", &png_options(), 1_000).unwrap();
    let p = service.get_progress(&id).unwrap();
    assert_eq!(p.status, DownloadStatus::Queued);
    assert_eq!(p.progress_percent, 0);
    drive(&mut service, &id, vec![Ok(result(ImageFormat::PNG, 42))], 2_000);
    let p = service.get_progress(&id).unwrap();
    assert_eq!(p.status, DownloadStatus::Completed);
    assert_eq!(p.progress_percent, 100);
    assert_eq!(p.completed_at, Some(2_000));
    assert_eq!(p.file_size, Some(42));
    let meta = service.get_download_file(&id, 2_500).unwrap();
    assert_eq!(meta.content_type, "image/png");
    assert_eq!(meta.original_filename, "code-snippet.png");
    assert_eq!(meta.file_size, 42);
    assert_eq!(meta.expires_at, 2_000 + 3_600_000);
}

#[test]
fn eleventh_start_is_refused_as_busy() {
    let mut service = DownloadService::new();
    for i in 0..10u64 {
        assert!(service.start_download("fn main(){}", &png_options(), i).is_ok());
    }
    match service.start_download("fn main(){}", &png_options(), 11) {
        Err(AppError::ImageGenerationError { message }) => {
            assert_eq!(message, "Server is busy. Please try again later.")
        }
        other => panic!("unexpected {:?}", other),
    }
    assert_eq!(service.count_active_downloads(), 10);
}

#[test]
fn jpeg_quality_out_of_range_creates_no_job() {
    let mut service = DownloadService::new();
    let options = EnhancedExportOptions { format: ImageFormat::JPEG, quality: 150, ..Default::default() };
    match service.start_download("fn main(){}", &options, 0) {
        Err(AppError::ValidationError { message }) => {
            assert_eq!(message, "JPEG quality must be between 1 and 100")
        }
        other => panic!("unexpected {:?}", other),
    }
    let stats = service.get_stats();
    assert_eq!(stats.queued + stats.processing, 0);
}

#[test]
fn third_try_success_completes() {
    let mut service = DownloadService::new();
    let id = service.start_download("fn main(){}", &png_options(), 0).unwrap();
    let outcomes = vec![
        Err(AppError::image_generation_failed("one")),
        Err(AppError::image_generation_failed("two")),
        Ok(result(ImageFormat::SVG, 3)),
    ];
    drive(&mut service, &id, outcomes, 10);
    let p = service.get_progress(&id).unwrap();
    assert_eq!(p.status, DownloadStatus::Completed);
    assert_eq!(p.error_message, None);
}

#[test]
fn three_failures_fail_with_last_error() {
    let mut service = DownloadService::new();
    let id = service.start_download("fn main(){}", &png_options(), 0).unwrap();
    let outcomes = vec![
        Err(AppError::image_generation_failed("one")),
        Err(AppError::image_generation_failed("two")),
        Err(AppError::timeout(30)),
    ];
    drive(&mut service, &id, outcomes, 10);
    let p = service.get_progress(&id).unwrap();
    assert_eq!(p.status, DownloadStatus::Failed);
    assert_eq!(p.progress_percent, 0);
    assert_eq!(p.message, "Image generation failed");
    assert_eq!(
        p.error_message,
        Some("Processing timeout: operation took longer than 30 seconds".to_string())
    );
    assert!(service.get_download_file(&id, 10).is_err());
}

#[test]
fn retry_waits_one_then_two_seconds() {
    let mut service = DownloadService::new();
    let id = service.start_download("fn main(){}", &png_options(), 0).unwrap();
    service.begin_processing(&id);
    service.record_attempt(&id, 1);
    let p = service.get_progress(&id).unwrap();
    assert_eq!(p.progress_percent, 20);
    assert_eq!(p.message, "Generating image...");
    match service.on_attempt_result(&id, 1, Err(AppError::internal_error("x"))) {
        NextStep::Retry { attempt, delay_ms } => {
            assert_eq!(attempt, 2);
            assert_eq!(delay_ms, 1_000);
        }
        _ => panic!("expected a retry"),
    }
    service.record_attempt(&id, 2);
    let p = service.get_progress(&id).unwrap();
    assert_eq!(p.progress_percent, 40);
    assert_eq!(p.message, "Retrying image generation (attempt 2/3)");
    match service.on_attempt_result(&id, 2, Err(AppError::internal_error("y"))) {
        NextStep::Retry { attempt, delay_ms } => {
            assert_eq!(attempt, 3);
            assert_eq!(delay_ms, 2_000);
        }
        _ => panic!("expected a retry"),
    }
}

#[test]
fn fetch_distinguishes_missing_and_expired() {
    let mut service = DownloadService::new();
    let id = service.start_download("fn main(){}", &png_options(), 0).unwrap();
    drive(&mut service, &id, vec![Ok(result(ImageFormat::JPEG, 1))], 100);
    let expires = 100 + 3_600_000;
    assert!(service.get_download_file(&id, expires).is_ok());
    match service.get_download_file(&id, expires + 1) {
        Err(AppError::StorageError { message }) => assert_eq!(message, "Download has expired"),
        other => panic!("unexpected {:?}", other),
    }
    match service.get_download_file("never-assigned", 0) {
        Err(AppError::StorageError { message }) => assert_eq!(message, "Download not found"),
        other => panic!("unexpected {:?}", other),
    }
    let removed = service.cleanup_expired_downloads(expires + 1);
    assert_eq!(removed.len(), 1);
    assert_eq!(removed[0].metadata.content_type, "image/jpeg");
    match service.get_download_file(&id, expires + 1) {
        Err(AppError::StorageError { message }) => assert_eq!(message, "Download not found"),
        other => panic!("unexpected {:?}", other),
    }
}

#[test]
fn old_job_records_are_purged_after_a_day() {
    let mut service = DownloadService::new();
    let id = service.start_download("fn main(){}", &png_options(), 0).unwrap();
    service.begin_processing(&id);
    service.fail_download(&id, "Failed to save generated image", &AppError::storage_failed("disk"));
    assert_eq!(service.cleanup_expired_downloads(86_400_000).len(), 0);
    assert!(service.get_progress(&id).is_some());
    service.cleanup_expired_downloads(86_400_001);
    assert!(service.get_progress(&id).is_none());
}

#[test]
fn transitions_never_go_back() {
    let mut service = DownloadService::new();
    let id = service.start_download("fn main(){}", &png_options(), 0).unwrap();
    assert!(!service.record_attempt(&id, 1));
    assert!(service.begin_processing(&id));
    assert!(!service.begin_processing(&id));
    assert!(service.fail_download(&id, "stop", &AppError::internal_error("z")));
    assert!(!service.complete_download(&id, "f".to_string(), ImageFormat::PNG, 1, 5));
    assert_eq!(service.get_progress(&id).unwrap().status, DownloadStatus::Failed);
}

#[test]
fn stats_count_statuses_and_sizes() {
    let mut service = DownloadService::new();
    let a = service.start_download("fn main(){}", &png_options(), 0).unwrap();
    let _b = service.start_download("fn main(){}", &png_options(), 0).unwrap();
    drive(&mut service, &a, vec![Ok(result(ImageFormat::PNG, 30))], 1);
    let stats = service.get_stats();
    assert_eq!(stats.queued, 1);
    assert_eq!(stats.completed, 1);
    assert_eq!(stats.total_files, 1);
    assert_eq!(stats.total_size, 30);
}

#[test]
fn empty_code_is_refused_before_any_job() {
    let mut service = DownloadService::new();
    match service.start_download("", &png_options(), 0) {
        Err(AppError::ValidationError { message }) => assert_eq!(message, "Code content cannot be empty"),
        other => panic!("unexpected {:?}", other),
    }
    assert_eq!(service.get_stats().queued, 0);
}

#[test]
fn validation_failure_during_export_is_not_retried() {
    let mut service = DownloadService::new();
    let id = service.start_download("x", &png_options(), 0).unwrap();
    service.begin_processing(&id);
    service.record_attempt(&id, 1);
    match service.on_attempt_result(&id, 1, Err(AppError::validation_failed("bad"))) {
        NextStep::Done => {}
        _ => panic!("expected the job to end"),
    }
    let p = service.get_progress(&id).unwrap();
    assert_eq!(p.status, DownloadStatus::Failed);
    assert_eq!(p.error_message, Some("Validation error: bad".to_string()));
}

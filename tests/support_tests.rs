use snippet_forge::config::AppConfig;
use snippet_forge::retry::{RetryDecision, RetryPolicy};
use snippet_forge::snippet::InputSource;
use snippet_forge::upload::validate_image_format;
use snippet_forge::storage::FileStorageService;

#[test]
fn temp_file_paths() {
    let s = FileStorageService::new("/tmp/store");
    assert_eq!(s.get_temp_file_path("abc", "png"), "/tmp/store/abc.png");
    assert_eq!(s.get_temp_file_path("abc", "..svg"), "/tmp/store/abc.svg");
    let t = FileStorageService::new("/tmp/store/");
    assert_eq!(t.get_temp_file_path("id", ".jpg"), "/tmp/store/id.jpg");
    assert_eq!(t.temp_dir(), "/tmp/store/");
}

#[test]
fn max_file_age_can_be_set() {
    let mut s = FileStorageService::new("d");
    assert_eq!(s.max_file_age(), 3_600_000);
    s.set_max_file_age(5);
    assert_eq!(s.max_file_age(), 5);
}

#[test]
fn bind_address_joins_host_and_port() {
    let mut c = AppConfig::default();
    assert_eq!(c.bind_address(), "0.0.0.0:3000");
    c.host = "127.0.0.1".to_string();
    c.port = 8;
    assert_eq!(c.bind_address(), "127.0.0.1:8");
    assert_eq!(c.cors_origins, vec!["*".to_string()]);
}

#[test]
fn input_sources_describe_themselves() {
    assert_eq!(InputSource::Upload.description(), "Uploaded from image");
    assert_eq!(InputSource::Paste.description(), "Pasted from clipboard");
    assert_eq!(InputSource::Type.description(), "Typed directly");
}

#[test]
fn image_format_by_signature_then_type() {
    let png = [0x89, 0x50, 0x4E, 0x47, 0x0D, 0x0A, 0x1A, 0x0A, 0];
    assert_eq!(validate_image_format(&png, None), (true, "png".to_string()));
    let jpeg = [0xFF, 0xD8, 0xFF, 0, 0, 0, 0, 0];
    assert_eq!(validate_image_format(&jpeg, Some("image/png")), (true, "jpg".to_string()));
    let other = [1u8; 8];
    assert_eq!(validate_image_format(&other, Some("image/jpg")), (true, "jpg".to_string()));
    assert_eq!(validate_image_format(&other, Some("text/plain")), (false, String::new()));
    assert_eq!(validate_image_format(&png[..7], Some("image/png")), (false, String::new()));
}

#[test]
fn retry_policy_backs_off_to_its_cap() {
    let p = RetryPolicy { max_attempts: 6, initial_delay_ms: 1_000, multiplier: 2, max_delay_ms: 5_000 };
    assert_eq!(p.delay_after(1), 1_000);
    assert_eq!(p.delay_after(2), 2_000);
    assert_eq!(p.delay_after(3), 4_000);
    assert_eq!(p.delay_after(4), 5_000);
    assert_eq!(p.after_failure(5), RetryDecision::RetryAfter { attempt: 6, delay_ms: 5_000 });
    assert_eq!(p.after_failure(6), RetryDecision::GiveUp);
    let e = RetryPolicy::export();
    assert_eq!(e.after_failure(1), RetryDecision::RetryAfter { attempt: 2, delay_ms: 1_000 });
    assert_eq!(e.after_failure(3), RetryDecision::GiveUp);
}

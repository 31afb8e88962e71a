use rust_lambda_s3_tagging_sqs::validation::S3Entity;
use rust_lambda_s3_tagging_sqs::validation::check_file_extension;
use rust_lambda_s3_tagging_sqs::validation::check_file_name;
use rust_lambda_s3_tagging_sqs::validation::check_file_size;
use rust_lambda_s3_tagging_sqs::validation::is_valid_file;

fn entity(key: Option<&str>, size: Option<i64>) -> S3Entity {
    S3Entity {
        bucket_name: Some("bucket".to_string()),
        key: key.map(|k| k.to_string()),
        size,
        version_id: Some("v1".to_string()),
    }
}

#[test]
fn test_valid_file_passes_every_check() {
    let e = entity(Some("1234-0001-0002-0003.txt"), Some(10));
    let (valid, message) = is_valid_file(&e);
    assert!(valid);
    assert_eq!(message, "File is valid");
}

#[test]
fn test_zero_size_fails_with_size_reason() {
    let e = entity(Some("1-2-3-4.txt"), Some(0));
    let (valid, message) = is_valid_file(&e);
    assert!(!valid);
    assert_eq!(message, "Invalid size, it should be greater than 0");
}

#[test]
fn test_missing_size_fails_with_size_reason() {
    let e = entity(Some("1-2-3-4.txt"), None);
    let (valid, message) = is_valid_file(&e);
    assert!(!valid);
    assert_eq!(message, "Missing object size");
}

#[test]
fn test_four_numeric_segments_pass_the_name_check() {
    let e = entity(Some("1-2-3-4.txt"), Some(5));
    assert_eq!(check_file_name(&e), None);
    let (valid, message) = is_valid_file(&e);
    assert!(valid);
    assert_eq!(message, "File is valid");
}

#[test]
fn test_two_segments_fail_the_name_check() {
    let e = entity(Some("12-34.txt"), Some(5));
    assert_eq!(
        check_file_name(&e),
        Some("Invalid file name format, it should be formated as a Prod ID".to_string())
    );
}

#[test]
fn test_non_numeric_segment_fails_the_name_check() {
    let e = entity(Some("ab-12-34-56.txt"), Some(5));
    assert_eq!(
        check_file_name(&e),
        Some("Invalid file name format, it should be a numeric code".to_string())
    );
}

#[test]
fn test_missing_key_reported_by_extension_and_name_checks() {
    let e = entity(None, Some(5));
    assert_eq!(check_file_extension(&e), Some("Missing object key".to_string()));
    assert_eq!(check_file_name(&e), Some("Missing object key".to_string()));
    let (valid, message) = is_valid_file(&e);
    assert!(!valid);
    assert_eq!(message, "Missing object key, Missing object key");
}

#[test]
fn test_missing_extension_reported() {
    let e = entity(Some("1-2-3-4"), Some(5));
    assert_eq!(check_file_extension(&e), Some("Missing file extension".to_string()));
}

#[test]
fn test_leading_dot_name_has_no_extension() {
    let e = entity(Some(".txt"), Some(5));
    assert_eq!(check_file_extension(&e), Some("Missing file extension".to_string()));
}

#[test]
fn test_wrong_extension_reported() {
    let e = entity(Some("1-2-3-4.csv"), Some(5));
    assert_eq!(
        check_file_extension(&e),
        Some("Invalid file extension, should be .txt".to_string())
    );
}

#[test]
fn test_extension_and_name_follow_the_last_path_separator() {
    let e = entity(Some("incoming/batch/1-2-3-4.txt"), Some(5));
    assert_eq!(check_file_extension(&e), None);
    assert_eq!(check_file_name(&e), None);
}

#[test]
fn test_every_failed_reason_appears_in_order() {
    let e = entity(Some("bad.csv"), Some(0));
    let (valid, message) = is_valid_file(&e);
    assert!(!valid);
    assert_eq!(
        message,
        "Invalid file extension, should be .txt, \
         Invalid size, it should be greater than 0, \
         Invalid file name format, it should be formated as a Prod ID"
    );
}

#[test]
fn test_trailing_separator_is_ignored() {
    let e = entity(Some("1-2-3-4.txt/"), Some(5));
    assert_eq!(check_file_extension(&e), None);
    assert_eq!(check_file_name(&e), None);
}

#[test]
fn test_current_dir_component_is_skipped() {
    let e = entity(Some("incoming/1-2-3-4.txt/."), Some(5));
    assert_eq!(check_file_extension(&e), None);
    assert_eq!(check_file_name(&e), None);
}

#[test]
fn test_parent_dir_component_has_no_filename() {
    let e = entity(Some(".."), Some(5));
    assert_eq!(check_file_extension(&e), Some("Missing file extension".to_string()));
    let e = entity(Some("a/.."), Some(5));
    assert_eq!(check_file_extension(&e), Some("Missing file extension".to_string()));
}

#[test]
fn test_size_check_passes_on_positive_size() {
    let e = entity(Some("whatever"), Some(1));
    assert_eq!(check_file_size(&e), None);
}

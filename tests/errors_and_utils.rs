use std::io;

use dochub_core::error::{
    validate, validate_file_size, validate_not_empty, AppError, OptionExt, ValidationError,
};
use dochub_core::file_handler::FileHandler;
use dochub_core::util::{
    bytes_to_hex, format_duration, generate_unique_filename, sanitize_filename, validate_non_empty,
    validate_path_safety, validate_range, ValidatedPath,
};

#[test]
fn test_io_error_conversion() {
    let io_error = io::Error::new(io::ErrorKind::NotFound, "File not found");
    let app_error: AppError = io_error.into();
    assert!(app_error.is_io_error());
    assert_eq!(app_error.error_code(), "IO_ERROR");
}

#[test]
fn test_string_conversion() {
    let error: AppError = "Test error".into();
    match error {
        AppError::Legacy(msg) => assert_eq!(msg, "Test error"),
        _ => panic!("Expected Legacy error"),
    }
}

#[test]
fn test_validate_helper() {
    let result = validate(true, "Should not error");
    assert!(result.is_ok());

    let result = validate(false, AppError::validation("Test error"));
    assert!(result.is_err());

    if let Err(AppError::Validation(ValidationError::InvalidInput { message })) = result {
        assert_eq!(message, "Test error");
    } else {
        panic!("Expected validation error");
    }
}

#[test]
fn test_option_ext() {
    let some_value: Option<i32> = Some(42);
    let result = some_value.ok_or_error("Error message");
    assert_eq!(result.unwrap(), 42);

    let none_value: Option<i32> = None;
    let result = none_value.ok_or_error(AppError::validation("Empty"));
    assert!(result.is_err());
}

#[test]
fn test_validate_not_empty() {
    let empty: Vec<i32> = vec![];
    let result = validate_not_empty(&empty, "List is empty");
    assert!(result.is_err());

    let non_empty = vec![1, 2, 3];
    let result = validate_not_empty(&non_empty, "List is empty");
    assert!(result.is_ok());
}

#[test]
fn error_codes_and_families() {
    let e = AppError::validation("Input is invalid");
    assert!(e.is_validation_error());
    assert_eq!(e.error_code(), "VALIDATION_ERROR");
    assert_eq!(AppError::processing("x").error_code(), "PDF_ERROR");
    assert_eq!(AppError::config("x").error_code(), "CONFIG_ERROR");
    assert_eq!(AppError::serialization("x").error_code(), "IO_ERROR");
    assert_eq!(AppError::from_string("x").error_code(), "LEGACY_ERROR");
    assert!(matches!(
        AppError::unknown_action("zip"),
        AppError::Validation(ValidationError::UnknownAction { action }) if action == "zip"
    ));
    assert!(matches!(None::<u8>.ok_or_empty_file_list(), Err(AppError::Validation(ValidationError::EmptyFileList))));
}

#[test]
fn file_size_limit() {
    let path = "a.pdf".to_string();
    assert!(validate_file_size(&path, 10, 10).is_ok());
    assert!(matches!(
        validate_file_size(&path, 11, 10),
        Err(AppError::Validation(ValidationError::FileTooLarge { size: 11, max: 10, .. }))
    ));
}

#[test]
fn test_file_handler_creation() {
    let handler = FileHandler::new();
    assert_eq!(handler.config.max_file_size, 100 * 1024 * 1024);
    let temp = std::path::Path::new(&handler.config.temp_dir);
    assert!(temp.exists() || temp.parent().unwrap().exists());
}

#[test]
fn test_validate_path_security() -> Result<(), AppError> {
    let handler = FileHandler::new();
    let result = handler.validate_path("../etc/passwd");
    assert!(result.is_err());
    let result = handler.validate_path("");
    assert!(result.is_err());
    let result = handler.validate_path("documents/test.pdf");
    assert!(result.is_ok());
    Ok(())
}

#[test]
fn path_checks() {
    let handler = FileHandler::new();
    assert!(handler.validate_path("a/../b").is_err());
    assert!(handler.validate_path("a/..b/c").is_ok());
    assert!(handler.validate_path(&"x".repeat(4097)).is_err());
    assert!(handler.validate_path(&"x".repeat(4096)).is_ok());
    assert!(handler.check_file("doc.pdf", true, 10).is_ok());
    assert!(handler.check_file("doc.pdf", false, 10).is_err());
    assert!(matches!(
        handler.check_file("doc.pdf", true, 100 * 1024 * 1024 + 1),
        Err(AppError::Validation(ValidationError::FileTooLarge { .. }))
    ));
    assert!(validate_path_safety("a/b.pdf").is_ok());
    assert!(validate_path_safety("a/../b").is_err());
    assert!(validate_path_safety("a\\b").is_err());
    assert!(ValidatedPath::new("docs/a.pdf".to_string()).is_ok());
    assert!(ValidatedPath::new("/etc/passwd".to_string()).is_err());
    assert!(ValidatedPath::new("..".to_string()).is_err());
    assert_eq!(ValidatedPath::new("x/y".to_string()).unwrap().as_path(), "x/y");
}

#[test]
fn small_formatters() {
    assert_eq!(sanitize_filename("a<b>:c\"d/e\\f|g?h*i.pdf"), "abcdefghi.pdf");
    assert_eq!(bytes_to_hex(&[0x00, 0xab, 0x7f, 0x10]), "00ab7f10");
    assert_eq!(bytes_to_hex(&[]), "");
    assert_eq!(format_duration(3725), "1h 2m 5s");
    assert_eq!(format_duration(65), "1m 5s");
    assert_eq!(format_duration(9), "9s");
    assert_eq!(generate_unique_filename("merged", "..pdf", 1700), "merged_1700.pdf");
    assert!(validate_non_empty("  x ", "name").is_ok());
    match validate_non_empty(" \t ", "name") {
        Err(AppError::Validation(ValidationError::InvalidInput { message })) => {
            assert_eq!(message, "Field 'name' cannot be empty")
        }
        _ => panic!("expected an invalid-input error"),
    }
    assert!(validate_range(5, 1, 9, "level").is_ok());
    assert!(validate_range(10, 1, 9, "level").is_err());
}

#[test]
fn default_handler_accepts_pdf_extensions() {
    let handler = FileHandler::new();
    assert_eq!(handler.config.allowed_extensions, vec!["pdf".to_string(), "PDF".to_string()]);
}

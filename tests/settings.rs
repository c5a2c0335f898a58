use dochub_core::api_types::{ApiAction, ApiError, ErrorType};
use dochub_core::config::{
    Environment, FileConfig, LogFormat, LogLevel, LoggingConfig, PdfConfig, PerformanceConfig,
    SecurityConfig, ServerConfig,
};
use dochub_core::error::AppError;

#[test]
fn test_api_action_conversion() -> Result<(), AppError> {
    assert_eq!(ApiAction::from_str("merge")?, ApiAction::Merge);
    assert_eq!(ApiAction::from_str("split")?, ApiAction::Split);
    assert_eq!(ApiAction::from_str("health_check")?, ApiAction::HealthCheck);
    assert_eq!(ApiAction::from_str("health")?, ApiAction::HealthCheck);
    assert!(ApiAction::from_str("unknown").is_err());
    Ok(())
}

#[test]
fn actions_ignore_case() {
    assert_eq!(ApiAction::from_str("MeRgE").unwrap(), ApiAction::Merge);
    assert!(ApiAction::from_lowercase("MERGE").is_err());
    assert_eq!(ApiAction::from_lowercase("get_metrics").unwrap(), ApiAction::GetMetrics);
}

#[test]
fn test_api_action_as_str() {
    assert_eq!(ApiAction::Merge.as_str(), "merge");
    assert_eq!(ApiAction::Split.as_str(), "split");
    assert_eq!(ApiAction::HealthCheck.as_str(), "health_check");
}

#[test]
fn test_api_error_creation() {
    let validation_error = ApiError::validation("Field required", None);
    assert_eq!(validation_error.code, "VALIDATION_ERROR");
    assert_eq!(validation_error.error_type, ErrorType::Validation);

    let processing_error = ApiError::processing("Failed to process", None);
    assert_eq!(processing_error.code, "PROCESSING_ERROR");
    assert_eq!(processing_error.error_type, ErrorType::Processing);

    let io_error = ApiError::io("File not found", None);
    assert_eq!(io_error.code, "IO_ERROR");
    assert_eq!(io_error.error_type, ErrorType::Io);
}

#[test]
fn unknown_action_lists_supported_actions() {
    let e = ApiError::unknown_action("zip");
    assert_eq!(e.code, "UNKNOWN_ACTION");
    assert_eq!(e.message, "Ação desconhecida: zip");
    assert_eq!(e.suggested_action.as_deref(), Some("Verifique a documentação da API"));
    assert_eq!(
        e.details.unwrap(),
        "Ações suportadas: merge, split, validate, get_metadata, health_check, list_files, create_directory, remove_path"
    );
}

#[test]
fn environments() {
    assert!(Environment::Development.is_development());
    assert!(Environment::Testing.is_development());
    assert!(!Environment::Staging.is_development());
    assert!(Environment::Production.is_production());
    assert_eq!(Environment::Staging.as_str(), "staging");
}

#[test]
fn test_file_config_validation() -> Result<(), AppError> {
    let mut config = FileConfig::default();
    assert!(config.validate().is_ok());
    config.max_file_size = 0;
    assert!(config.validate().is_err());
    config.max_file_size = 100 * 1024 * 1024;
    config.allowed_extensions.clear();
    assert!(config.validate().is_err());
    Ok(())
}

#[test]
fn test_pdf_config_validation() -> Result<(), AppError> {
    let mut config = PdfConfig::default();
    assert!(config.validate().is_ok());
    config.default_pdf_version = "0.9".to_string();
    assert!(config.validate().is_err());
    config.default_pdf_version = "1.5".to_string();
    config.default_compression_level = 10;
    assert!(config.validate().is_err());
    Ok(())
}

#[test]
fn thumbnail_format_ignores_case() {
    let mut config = PdfConfig::default();
    config.thumbnail_format = "JPEG".to_string();
    assert!(config.validate().is_ok());
    config.thumbnail_format = "gif".to_string();
    assert!(config.validate().is_err());
}

#[test]
fn test_security_config_default() {
    let config = SecurityConfig::default();
    assert!(config.validate_paths);
    assert!(config.sanitize_filenames);
    assert!(!config.forbidden_filename_chars.is_empty());
    assert!(config.max_path_length > 0);
    assert!(!config.allowed_mime_types.is_empty());
    assert!(config.validate().is_ok());
}

#[test]
fn test_performance_config_default() {
    let config = PerformanceConfig::default();
    assert!(config.io_threads > 0);
    assert!(config.cpu_threads > 0);
    assert!(config.thread_pool_size > 0);
    assert!(config.default_operation_timeout_ms > 0);
    assert!(config.validate().is_ok());
}

#[test]
fn server_config_needs_a_port() {
    let mut config = ServerConfig::default();
    assert!(config.validate().is_err());
    config.port = 8080;
    assert!(config.validate().is_ok());
}

#[test]
fn test_logging_config_for_environment() {
    let dev_config = LoggingConfig::for_environment(&Environment::Development);
    assert_eq!(dev_config.level, LogLevel::Debug);
    assert_eq!(dev_config.format, LogFormat::Text);
    assert!(dev_config.colored);

    let prod_config = LoggingConfig::for_environment(&Environment::Production);
    assert_eq!(prod_config.level, LogLevel::Warn);
    assert_eq!(prod_config.format, LogFormat::Json);
    assert!(!prod_config.colored);
}

#[test]
fn security_config_takes_the_user_directories() {
    let config = SecurityConfig::for_directories(Some("/home/u".to_string()), None, Some("/home/u/Downloads".to_string()), None);
    assert_eq!(config.allowed_directories, vec!["/home/u", "", "/home/u/Downloads", ""]);
    assert!(SecurityConfig::default().allowed_directories.iter().all(|d| d.is_empty()));
}

#[test]
fn thumbnail_formats_in_lower_case() {
    assert!(dochub_core::config::is_known_format("webp"));
    assert!(!dochub_core::config::is_known_format("WEBP"));
    assert!(!dochub_core::config::is_known_format("gif"));
}

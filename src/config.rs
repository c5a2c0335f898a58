use vstd::prelude::*;

use crate::api_types::{lower_of, lowercase};
use crate::error::{AppError, ConfigError};

verus! {

/// Where the application runs.
#[derive(Debug, Clone, Copy, PartialEq, Eq, Structural)]
pub enum Environment {
    Development,
    Staging,
    Production,
    Testing,
}

impl Environment {
    /// Development and testing count as development.
    pub fn is_development(&self) -> (r: bool)
        ensures
            r == is_dev(*self),
    {
        match self {
            Environment::Development | Environment::Testing => true,
            _ => false,
        }
    }

    pub fn is_production(&self) -> (r: bool)
        ensures
            r == (*self == Environment::Production),
    {
        match self {
            Environment::Production => true,
            _ => false,
        }
    }

    pub fn as_str(&self) -> (r: &'static str)
        ensures
            r@ == environment_name(*self)@,
    {
        match self {
            Environment::Development => "development",
            Environment::Staging => "staging",
            Environment::Production => "production",
            Environment::Testing => "testing",
        }
    }
}

/// Development and testing count as development.
pub open spec fn is_dev(e: Environment) -> bool {
    e == Environment::Development || e == Environment::Testing
}

pub open spec fn environment_name(e: Environment) -> &'static str {
    match e {
        Environment::Development => "development",
        Environment::Staging => "staging",
        Environment::Production => "production",
        Environment::Testing => "testing",
    }
}

/// Log verbosity.
#[derive(Debug, Clone, Copy, PartialEq, Eq, Structural)]
pub enum LogLevel {
    Trace,
    Debug,
    Info,
    Warn,
    Error,
    Off,
}

/// Log layout.
#[derive(Debug, Clone, Copy, PartialEq, Eq, Structural)]
pub enum LogFormat {
    Json,
    Text,
    Compact,
}

/// The error of a rejected configuration.
pub open spec fn is_config_error(e: AppError) -> bool {
    e matches AppError::Config(ConfigError::LoadFailed { .. })
}

/// Limits and locations for files.
#[derive(Debug)]
pub struct FileConfig {
    pub max_file_size: u64,
    pub allowed_extensions: Vec<String>,
    pub pdf_extensions: Vec<String>,
    pub temp_dir: String,
    pub keep_temp_files: bool,
    pub temp_file_ttl_secs: u64,
    pub auto_clean_temp_files: bool,
    pub cleanup_interval_secs: u64,
    pub io_buffer_size: usize,
}

impl FileConfig {
    /// 100 MiB files, `pdf`/`PDF` extensions, temporary files under `/tmp/dochub`.
    pub fn default() -> (r: FileConfig)
        ensures
            r.max_file_size == 100 * 1024 * 1024,
            r.allowed_extensions.len() == 2,
            r.pdf_extensions.len() == 2,
            r.temp_dir@ == "/tmp/dochub"@,
            r.io_buffer_size == 8192,
            r.valid(),
    {
        let mut allowed_extensions: Vec<String> = Vec::new();
        allowed_extensions.push("pdf".to_string());
        allowed_extensions.push("PDF".to_string());
        let mut pdf_extensions: Vec<String> = Vec::new();
        pdf_extensions.push("pdf".to_string());
        pdf_extensions.push("PDF".to_string());
        let r = FileConfig {
            max_file_size: 100 * 1024 * 1024,
            allowed_extensions,
            pdf_extensions,
            temp_dir: "/tmp/dochub".to_string(),
            keep_temp_files: false,
            temp_file_ttl_secs: 3600,
            auto_clean_temp_files: true,
            cleanup_interval_secs: 300,
            io_buffer_size: 8192,
        };
        proof {
            reveal_strlit("/tmp/dochub");
        }
        r
    }

    pub open spec fn valid(&self) -> bool {
        &&& self.max_file_size > 0
        &&& self.allowed_extensions.len() > 0
        &&& self.pdf_extensions.len() > 0
        &&& self.temp_dir@.len() > 0
        &&& self.io_buffer_size > 0
    }

    /// Fails with a configuration error exactly when the settings are not `valid`.
    pub fn validate(&self) -> (r: Result<(), AppError>)
        ensures
            r is Ok <==> self.valid(),
            r is Err ==> is_config_error(r->Err_0),
    {
        if self.max_file_size == 0 {
            return Err(AppError::config("Max file size cannot be 0"));
        }
        if self.allowed_extensions.len() == 0 {
            return Err(AppError::config("Allowed extensions cannot be empty"));
        }
        if self.pdf_extensions.len() == 0 {
            return Err(AppError::config("PDF extensions cannot be empty"));
        }
        if self.temp_dir.as_str().is_empty() {
            return Err(AppError::config("Temp directory cannot be empty"));
        }
        if self.io_buffer_size == 0 {
            return Err(AppError::config("IO buffer size cannot be 0"));
        }
        Ok(())
    }
}

/// Document defaults.
#[derive(Debug)]
pub struct PdfConfig {
    pub default_pdf_version: String,
    pub default_compression_level: u8,
    pub preserve_metadata_by_default: bool,
    pub keep_bookmarks_by_default: bool,
    pub optimize_size_by_default: bool,
    pub thumbnail_max_size: u32,
    pub thumbnail_quality: u8,
    pub thumbnail_format: String,
    pub validate_before_processing: bool,
    pub attempt_repair_corrupted: bool,
    pub reject_encrypted_pdfs: bool,
    pub log_pdf_operations: bool,
}

/// The versions a document may declare.
pub open spec fn known_version(v: Seq<char>) -> bool {
    v == "1.0"@ || v == "1.1"@ || v == "1.2"@ || v == "1.3"@ || v == "1.4"@ || v == "1.5"@ || v
        == "1.6"@ || v == "1.7"@ || v == "2.0"@
}

/// The thumbnail formats, in lower case.
pub open spec fn known_format(f: Seq<char>) -> bool {
    f == "png"@ || f == "jpeg"@ || f == "jpg"@ || f == "webp"@
}

fn seq_is(s: &str, lit: &str) -> (r: bool)
    ensures
        r == (s@ == lit@),
{
    let x = s.to_string();
    let y = lit.to_string();
    x == y
}

/// Whether an already lower-cased name is a thumbnail format (see `known_format`).
pub fn is_known_format(s: &str) -> (r: bool)
    ensures
        r == known_format(s@),
{
    seq_is(s, "png") || seq_is(s, "jpeg") || seq_is(s, "jpg") || seq_is(s, "webp")
}

impl PdfConfig {
    pub fn default() -> (r: PdfConfig)
        ensures
            r.default_pdf_version@ == "1.5"@,
            r.default_compression_level == 6,
            r.thumbnail_quality == 85,
            r.thumbnail_format@ == "png"@,
    {
        PdfConfig {
            default_pdf_version: "1.5".to_string(),
            default_compression_level: 6,
            preserve_metadata_by_default: true,
            keep_bookmarks_by_default: true,
            optimize_size_by_default: false,
            thumbnail_max_size: 200,
            thumbnail_quality: 85,
            thumbnail_format: "png".to_string(),
            validate_before_processing: true,
            attempt_repair_corrupted: false,
            reject_encrypted_pdfs: false,
            log_pdf_operations: true,
        }
    }

    pub open spec fn valid(&self) -> bool {
        &&& known_version(self.default_pdf_version@)
        &&& 1 <= self.default_compression_level <= 9
        &&& 1 <= self.thumbnail_quality <= 100
        &&& known_format(lower_of(self.thumbnail_format@))
    }

    /// Fails with a configuration error exactly when the settings are not `valid`.
    pub fn validate(&self) -> (r: Result<(), AppError>)
        ensures
            r is Ok <==> self.valid(),
            r is Err ==> is_config_error(r->Err_0),
    {
        let v = self.default_pdf_version.as_str();
        if !(seq_is(v, "1.0") || seq_is(v, "1.1") || seq_is(v, "1.2") || seq_is(v, "1.3") || seq_is(
            v,
            "1.4",
        ) || seq_is(v, "1.5") || seq_is(v, "1.6") || seq_is(v, "1.7") || seq_is(v, "2.0")) {
            return Err(AppError::config("Invalid PDF version"));
        }
        if self.default_compression_level < 1 || self.default_compression_level > 9 {
            return Err(AppError::config("Compression level must be between 1 and 9"));
        }
        if self.thumbnail_quality < 1 || self.thumbnail_quality > 100 {
            return Err(AppError::config("Thumbnail quality must be between 1 and 100"));
        }
        let f = lowercase(self.thumbnail_format.as_str());
        if !is_known_format(f.as_str()) {
            return Err(AppError::config("Invalid thumbnail format"));
        }
        Ok(())
    }
}

/// Service settings.
#[derive(Debug)]
pub struct ServerConfig {
    pub host: String,
    pub port: u16,
    pub max_operation_time_secs: u64,
    pub max_concurrent_operations: usize,
    pub operation_queue_size: usize,
    pub enable_metrics: bool,
    pub metrics_interval_secs: u64,
}

impl ServerConfig {
    /// Local host, a port chosen at run time (0), five-minute operations, four at a time.
    pub fn default() -> (r: ServerConfig)
        ensures
            r.host@ == "127.0.0.1"@,
            r.port == 0,
            r.max_operation_time_secs == 300,
            r.max_concurrent_operations == 4,
    {
        ServerConfig {
            host: "127.0.0.1".to_string(),
            port: 0,
            max_operation_time_secs: 300,
            max_concurrent_operations: 4,
            operation_queue_size: 100,
            enable_metrics: true,
            metrics_interval_secs: 60,
        }
    }

    pub open spec fn valid(&self) -> bool {
        &&& self.host@.len() > 0
        &&& self.port != 0
        &&& self.max_operation_time_secs > 0
        &&& self.max_concurrent_operations > 0
    }

    /// Fails with a configuration error exactly when the settings are not `valid`.
    pub fn validate(&self) -> (r: Result<(), AppError>)
        ensures
            r is Ok <==> self.valid(),
            r is Err ==> is_config_error(r->Err_0),
    {
        if self.host.as_str().is_empty() {
            return Err(AppError::config("Server host cannot be empty"));
        }
        if self.port == 0 {
            return Err(AppError::config("Server port cannot be 0"));
        }
        if self.max_operation_time_secs == 0 {
            return Err(AppError::config("Max operation time cannot be 0"));
        }
        if self.max_concurrent_operations == 0 {
            return Err(AppError::config("Max concurrent operations cannot be 0"));
        }
        Ok(())
    }
}

/// Relies on `num_cpus::get`: the machine's logical processor count, which
/// its documentation promises is at least 1.
#[verifier::external_body]
fn cpu_count() -> (r: usize)
    ensures
        r >= 1,
{
    num_cpus::get()
}

/// Threads, caches and time limits.
#[derive(Debug)]
pub struct PerformanceConfig {
    pub io_threads: usize,
    pub cpu_threads: usize,
    pub thread_pool_size: usize,
    pub document_cache_size: usize,
    pub page_cache_size: usize,
    pub default_operation_timeout_ms: u64,
    pub io_timeout_ms: u64,
    pub use_memory_mapping: bool,
    pub memory_limit_mb: Option<u64>,
    pub collect_performance_stats: bool,
}

impl PerformanceConfig {
    /// Sized from the machine's processor count `n`: `max(2, n / 2)` input
    /// threads, `n` processing threads, a pool of `2n`.
    pub fn default() -> (r: PerformanceConfig)
        ensures
            r.io_threads >= 2,
            r.io_threads == if r.cpu_threads / 2 > 2 {
                r.cpu_threads / 2
            } else {
                2
            },
            r.thread_pool_size == if r.cpu_threads <= usize::MAX / 2 {
                2 * r.cpu_threads
            } else {
                usize::MAX as int
            },
            r.default_operation_timeout_ms == 30_000,
            r.io_timeout_ms == 5_000,
            r.document_cache_size == 10,
            r.page_cache_size == 100,
            r.cpu_threads >= 1,
            r.valid(),
    {
        let n = cpu_count();
        let half = n / 2;
        PerformanceConfig {
            io_threads: if half > 2 {
                half
            } else {
                2
            },
            cpu_threads: n,
            thread_pool_size: if n <= usize::MAX / 2 {
                2 * n
            } else {
                usize::MAX
            },
            document_cache_size: 10,
            page_cache_size: 100,
            default_operation_timeout_ms: 30_000,
            io_timeout_ms: 5_000,
            use_memory_mapping: true,
            memory_limit_mb: None,
            collect_performance_stats: true,
        }
    }

    pub open spec fn valid(&self) -> bool {
        &&& self.io_threads > 0
        &&& self.cpu_threads > 0
        &&& self.thread_pool_size > 0
        &&& self.default_operation_timeout_ms > 0
        &&& self.io_timeout_ms > 0
    }

    /// Fails with a configuration error exactly when the settings are not `valid`.
    pub fn validate(&self) -> (r: Result<(), AppError>)
        ensures
            r is Ok <==> self.valid(),
            r is Err ==> is_config_error(r->Err_0),
    {
        if self.io_threads == 0 {
            return Err(AppError::config("IO threads cannot be 0"));
        }
        if self.cpu_threads == 0 {
            return Err(AppError::config("CPU threads cannot be 0"));
        }
        if self.thread_pool_size == 0 {
            return Err(AppError::config("Thread pool size cannot be 0"));
        }
        if self.default_operation_timeout_ms == 0 {
            return Err(AppError::config("Default operation timeout cannot be 0"));
        }
        if self.io_timeout_ms == 0 {
            return Err(AppError::config("IO timeout cannot be 0"));
        }
        Ok(())
    }
}

/// `s` is the directory given, or empty when none was.
pub open spec fn dir_or_empty(d: Option<String>, s: String) -> bool {
    match d {
        Some(x) => s == x,
        None => s@.len() == 0,
    }
}

fn or_empty(d: Option<String>) -> (r: String)
    ensures
        d matches Some(s) ==> r == s,
        d is None ==> r@.len() == 0,
{
    match d {
        Some(s) => s,
        None => String::new(),
    }
}

/// Path, name and type checks.
#[derive(Debug)]
pub struct SecurityConfig {
    pub validate_paths: bool,
    pub verify_file_signatures: bool,
    pub sanitize_filenames: bool,
    pub forbidden_filename_chars: Vec<char>,
    pub max_path_length: usize,
    pub allow_absolute_paths: bool,
    /// The user's home, documents, downloads and desktop directories (empty when unknown).
    pub allowed_directories: Vec<String>,
    pub rate_limit_ops_per_sec: Option<u32>,
    pub max_operation_timeout_secs: u64,
    pub validate_mime_types: bool,
    pub allowed_mime_types: Vec<String>,
}

impl SecurityConfig {
    /// The defaults, with none of the user's directories known (each left
    /// empty); `for_directories` takes them from the caller.
    pub fn default() -> (r: SecurityConfig)
        ensures
            r.validate_paths,
            r.sanitize_filenames,
            !r.allow_absolute_paths,
            r.forbidden_filename_chars@ == seq!['<', '>', ':', '"', '/', '\\', '|', '?', '*', '\0'],
            r.max_path_length == 4096,
            r.allowed_directories.len() == 4,
            forall|i: int| 0 <= i < 4 ==> (#[trigger] r.allowed_directories@[i])@.len() == 0,
            r.rate_limit_ops_per_sec == Some(10u32),
            r.max_operation_timeout_secs == 300,
            r.validate_mime_types,
            r.allowed_mime_types.len() == 2,
            r.valid(),
    {
        SecurityConfig::for_directories(None, None, None, None)
    }

    /// The defaults, allowing the user's home, documents, downloads and
    /// desktop directories as given (an unknown one is left empty).
    pub fn for_directories(
        home: Option<String>,
        documents: Option<String>,
        downloads: Option<String>,
        desktop: Option<String>,
    ) -> (r: SecurityConfig)
        ensures
            r.validate_paths,
            r.sanitize_filenames,
            !r.allow_absolute_paths,
            r.forbidden_filename_chars@ == seq!['<', '>', ':', '"', '/', '\\', '|', '?', '*', '\0'],
            r.max_path_length == 4096,
            r.allowed_directories.len() == 4,
            dir_or_empty(home, r.allowed_directories@[0]),
            dir_or_empty(documents, r.allowed_directories@[1]),
            dir_or_empty(downloads, r.allowed_directories@[2]),
            dir_or_empty(desktop, r.allowed_directories@[3]),
            r.rate_limit_ops_per_sec == Some(10u32),
            r.max_operation_timeout_secs == 300,
            r.validate_mime_types,
            r.allowed_mime_types.len() == 2,
            r.valid(),
    {
        let mut forbidden: Vec<char> = Vec::new();
        forbidden.push('<');
        forbidden.push('>');
        forbidden.push(':');
        forbidden.push('"');
        forbidden.push('/');
        forbidden.push('\\');
        forbidden.push('|');
        forbidden.push('?');
        forbidden.push('*');
        forbidden.push('\0');
        let mut dirs: Vec<String> = Vec::new();
        dirs.push(or_empty(home));
        dirs.push(or_empty(documents));
        dirs.push(or_empty(downloads));
        dirs.push(or_empty(desktop));
        let mut mime: Vec<String> = Vec::new();
        mime.push("application/pdf".to_string());
        mime.push("application/x-pdf".to_string());
        let r = SecurityConfig {
            validate_paths: true,
            verify_file_signatures: false,
            sanitize_filenames: true,
            forbidden_filename_chars: forbidden,
            max_path_length: 4096,
            allow_absolute_paths: false,
            allowed_directories: dirs,
            rate_limit_ops_per_sec: Some(10),
            max_operation_timeout_secs: 300,
            validate_mime_types: true,
            allowed_mime_types: mime,
        };
        assert(r.forbidden_filename_chars@ =~= seq!['<', '>', ':', '"', '/', '\\', '|', '?', '*', '\0']);
        r
    }

    pub open spec fn valid(&self) -> bool {
        &&& self.max_path_length > 0
        &&& self.max_operation_timeout_secs > 0
        &&& (self.validate_mime_types ==> self.allowed_mime_types.len() > 0)
    }

    /// Fails with a configuration error exactly when the settings are not `valid`.
    pub fn validate(&self) -> (r: Result<(), AppError>)
        ensures
            r is Ok <==> self.valid(),
            r is Err ==> is_config_error(r->Err_0),
    {
        if self.max_path_length == 0 {
            return Err(AppError::config("Max path length cannot be 0"));
        }
        if self.max_operation_timeout_secs == 0 {
            return Err(AppError::config("Max operation timeout cannot be 0"));
        }
        if self.validate_mime_types && self.allowed_mime_types.len() == 0 {
            return Err(
                AppError::config("Allowed MIME types cannot be empty when MIME validation is enabled"),
            );
        }
        Ok(())
    }
}

/// Logging settings.
#[derive(Debug)]
pub struct LoggingConfig {
    pub level: LogLevel,
    pub format: LogFormat,
    pub enable_file_logging: bool,
    pub max_log_files: usize,
    pub max_log_file_size: u64,
    pub include_timestamps: bool,
    pub include_level: bool,
    pub include_module_path: bool,
    pub colored: bool,
    /// Per-module levels.
    pub module_filters: Vec<(String, LogLevel)>,
}

impl LoggingConfig {
    /// Debug text in colour for development and testing, info JSON to files
    /// for staging, warnings as JSON to files for production.
    pub fn for_environment(env: &Environment) -> (r: LoggingConfig)
        ensures
            r.level == match *env {
                Environment::Development | Environment::Testing => LogLevel::Debug,
                Environment::Staging => LogLevel::Info,
                Environment::Production => LogLevel::Warn,
            },
            r.format == if is_dev(*env) {
                LogFormat::Text
            } else {
                LogFormat::Json
            },
            r.colored == is_dev(*env),
            r.enable_file_logging == !is_dev(*env),
            r.include_module_path == is_dev(*env),
            r.max_log_files == 10,
            r.max_log_file_size == 10 * 1024 * 1024,
    {
        let (level, format, dev) = match env {
            Environment::Development | Environment::Testing => (LogLevel::Debug, LogFormat::Text, true),
            Environment::Staging => (LogLevel::Info, LogFormat::Json, false),
            Environment::Production => (LogLevel::Warn, LogFormat::Json, false),
        };
        LoggingConfig {
            level,
            format,
            enable_file_logging: !dev,
            max_log_files: 10,
            max_log_file_size: 10 * 1024 * 1024,
            include_timestamps: true,
            include_level: true,
            include_module_path: dev,
            colored: dev,
            module_filters: Vec::new(),
        }
    }
}

/// The application's identity and directories.
#[derive(Debug)]
pub struct AppInfo {
    pub name: String,
    pub version: String,
    pub description: String,
    pub environment: Environment,
    pub debug: bool,
    pub base_dir: String,
    pub config_dir: String,
    pub data_dir: String,
    pub cache_dir: String,
    pub log_dir: String,
}

impl AppInfo {
    pub open spec fn valid(&self) -> bool {
        &&& self.name@.len() > 0
        &&& self.version@.len() > 0
        &&& self.data_dir@.len() > 0
        &&& self.cache_dir@.len() > 0
        &&& self.log_dir@.len() > 0
    }

    /// Fails with a configuration error exactly when the settings are not `valid`.
    pub fn validate(&self) -> (r: Result<(), AppError>)
        ensures
            r is Ok <==> self.valid(),
            r is Err ==> is_config_error(r->Err_0),
    {
        if self.name.as_str().is_empty() {
            return Err(AppError::config("App name cannot be empty"));
        }
        if self.version.as_str().is_empty() {
            return Err(AppError::config("App version cannot be empty"));
        }
        if self.data_dir.as_str().is_empty() || self.cache_dir.as_str().is_empty()
            || self.log_dir.as_str().is_empty() {
            return Err(AppError::config("App directories cannot be empty"));
        }
        Ok(())
    }
}

} // verus!

use vstd::prelude::*;

use crate::api_types::ApiError;

verus! {

#[verifier::external_type_specification]
#[verifier::external_body]
pub struct ExIoError(std::io::Error);

/// The library's error: one variant for each family of failures.
#[derive(Debug)]
pub enum AppError {
    Io(IoError),
    Validation(ValidationError),
    Pdf(PdfError),
    Config(ConfigError),
    Api(ApiError),
    /// A bare message.
    Legacy(String),
}

/// Failures of input and output.
#[derive(Debug)]
pub enum IoError {
    FileNotFound { path: String },
    PermissionDenied { path: String },
    DiskFull { path: String },
    ReadFailed { path: String, source: std::io::Error },
    WriteFailed { path: String, source: std::io::Error },
    SerializationFailed { message: String },
    DeserializationFailed { message: String },
}

/// Rejections of a request's shape or values.
#[derive(Debug)]
pub enum ValidationError {
    EmptyFileList,
    FileTooLarge { path: String, size: u64, max: u64 },
    InvalidPageRange { range: String },
    UnsupportedPdfVersion { version: String },
    InvalidInput { message: String },
    DuplicateFile { path: String },
    InvalidFileFormat { actual: String },
    UnknownAction { action: String },
}

/// Failures while reading or assembling documents.
#[derive(Debug)]
pub enum PdfError {
    CorruptedPdf { path: String },
    EncryptedPdf { path: String },
    MergeFailed { reason: String },
    SplitFailed { page: u32, reason: String },
    LibraryError(String),
    ProcessingFailed { reason: String },
    PageNotFound { path: String, page: u32 },
}

/// Failures of configuration.
#[derive(Debug)]
pub enum ConfigError {
    MissingConfig { key: String },
    InvalidConfig { key: String, value: String },
    LoadFailed { reason: String },
}

/// The error is a rejected page range.
pub open spec fn is_invalid_page_range(e: AppError) -> bool {
    e matches AppError::Validation(ValidationError::InvalidPageRange { .. })
}

/// The error is a plain rejected input.
pub open spec fn is_invalid_input(e: AppError) -> bool {
    e matches AppError::Validation(ValidationError::InvalidInput { .. })
}

impl AppError {
    pub fn validation(msg: &str) -> (r: AppError)
        ensures
            r matches AppError::Validation(ValidationError::InvalidInput { message }) && message@
                == msg@,
    {
        AppError::Validation(ValidationError::InvalidInput { message: msg.to_string() })
    }

    pub fn processing(msg: &str) -> (r: AppError)
        ensures
            r matches AppError::Pdf(PdfError::ProcessingFailed { reason }) && reason@ == msg@,
    {
        AppError::Pdf(PdfError::ProcessingFailed { reason: msg.to_string() })
    }

    pub fn config(msg: &str) -> (r: AppError)
        ensures
            r matches AppError::Config(ConfigError::LoadFailed { reason }) && reason@ == msg@,
    {
        AppError::Config(ConfigError::LoadFailed { reason: msg.to_string() })
    }

    pub fn serialization(msg: &str) -> (r: AppError)
        ensures
            r matches AppError::Io(IoError::SerializationFailed { message }) && message@ == msg@,
    {
        AppError::Io(IoError::SerializationFailed { message: msg.to_string() })
    }

    pub fn unknown_action(action: &str) -> (r: AppError)
        ensures
            r matches AppError::Validation(ValidationError::UnknownAction { action: a }) && a@
                == action@,
    {
        AppError::Validation(ValidationError::UnknownAction { action: action.to_string() })
    }

    /// A failed read of `path`; the context is not kept.
    pub fn from_io_error(context: &str, path: String, source: std::io::Error) -> (r: AppError)
        ensures
            r matches AppError::Io(IoError::ReadFailed { path: p, .. }) && p == path,
    {
        AppError::Io(IoError::ReadFailed { path, source })
    }

    pub fn from_string(msg: &str) -> (r: AppError)
        ensures
            r matches AppError::Legacy(m) && m@ == msg@,
    {
        AppError::Legacy(msg.to_string())
    }

    /// A stable code for the error's family.
    pub fn error_code(&self) -> (r: &'static str)
        ensures
            r@ == error_code_of(*self)@,
    {
        match self {
            AppError::Io(_) => "IO_ERROR",
            AppError::Validation(_) => "VALIDATION_ERROR",
            AppError::Pdf(_) => "PDF_ERROR",
            AppError::Config(_) => "CONFIG_ERROR",
            AppError::Api(_) => "API_ERROR",
            AppError::Legacy(_) => "LEGACY_ERROR",
        }
    }

    pub fn is_validation_error(&self) -> (r: bool)
        ensures
            r == (*self is Validation),
    {
        match self {
            AppError::Validation(_) => true,
            _ => false,
        }
    }

    pub fn is_io_error(&self) -> (r: bool)
        ensures
            r == (*self is Io),
    {
        match self {
            AppError::Io(_) => true,
            _ => false,
        }
    }
}

pub open spec fn error_code_of(e: AppError) -> &'static str {
    match e {
        AppError::Io(_) => "IO_ERROR",
        AppError::Validation(_) => "VALIDATION_ERROR",
        AppError::Pdf(_) => "PDF_ERROR",
        AppError::Config(_) => "CONFIG_ERROR",
        AppError::Api(_) => "API_ERROR",
        AppError::Legacy(_) => "LEGACY_ERROR",
    }
}

impl From<String> for AppError {
    fn from(s: String) -> (r: AppError) {
        AppError::Legacy(s)
    }
}

impl vstd::std_specs::convert::FromSpecImpl<String> for AppError {
    open spec fn obeys_from_spec() -> bool {
        true
    }

    open spec fn from_spec(s: String) -> AppError {
        AppError::Legacy(s)
    }
}

impl From<&str> for AppError {
    fn from(s: &str) -> (r: AppError) {
        AppError::Legacy(s.to_string())
    }
}

impl vstd::std_specs::convert::FromSpecImpl<&str> for AppError {
    open spec fn obeys_from_spec() -> bool {
        false
    }

    open spec fn from_spec(s: &str) -> AppError {
        arbitrary()
    }
}

impl From<std::io::Error> for AppError {
    fn from(error: std::io::Error) -> (r: AppError) {
        AppError::Io(IoError::ReadFailed { path: "unknown".to_string(), source: error })
    }
}

impl vstd::std_specs::convert::FromSpecImpl<std::io::Error> for AppError {
    open spec fn obeys_from_spec() -> bool {
        false
    }

    open spec fn from_spec(error: std::io::Error) -> AppError {
        arbitrary()
    }
}

/// Turns an absent value into an error.
pub trait OptionExt<T>: Sized {
    /// The value that may be absent.
    spec fn present(&self) -> Option<T>;

    /// The value, or `error` when there is none.
    fn ok_or_error<E>(self, error: E) -> (r: Result<T, AppError>) where AppError: From<E>
        ensures
            self.present() matches Some(v) ==> r == Ok::<T, AppError>(v),
            self.present() is None ==> r is Err && call_ensures(AppError::from, (error,), r->Err_0),
    ;

    /// The value, or `EmptyFileList` when there is none.
    fn ok_or_empty_file_list(self) -> (r: Result<T, AppError>)
        ensures
            self.present() matches Some(v) ==> r == Ok::<T, AppError>(v),
            self.present() is None ==> r matches Err(
                AppError::Validation(ValidationError::EmptyFileList),
            ),
    ;
}

impl<T> OptionExt<T> for Option<T> {
    open spec fn present(&self) -> Option<T> {
        *self
    }

    fn ok_or_error<E>(self, error: E) -> (r: Result<T, AppError>) where AppError: From<E> {
        match self {
            Some(v) => Ok(v),
            None => Err(AppError::from(error)),
        }
    }

    fn ok_or_empty_file_list(self) -> (r: Result<T, AppError>) {
        match self {
            Some(v) => Ok(v),
            None => Err(AppError::Validation(ValidationError::EmptyFileList)),
        }
    }
}

/// Succeeds exactly when `condition` holds; otherwise fails with `error`.
pub fn validate<E>(condition: bool, error: E) -> (r: Result<(), AppError>) where AppError: From<E>
    ensures
        r is Ok <==> condition,
        !condition ==> call_ensures(AppError::from, (error,), r->Err_0),
{
    if condition {
        Ok(())
    } else {
        Err(AppError::from(error))
    }
}

/// Fails with an invalid-input error carrying `error_msg` exactly when `items` is empty.
pub fn validate_not_empty<T>(items: &[T], error_msg: &str) -> (r: Result<(), AppError>)
    ensures
        r is Ok <==> items@.len() > 0,
        r is Err ==> (r->Err_0 matches AppError::Validation(ValidationError::InvalidInput { message })
            && message@ == error_msg@),
{
    if items.len() == 0 {
        Err(AppError::validation(error_msg))
    } else {
        Ok(())
    }
}

/// Fails with `FileTooLarge` exactly when `size` exceeds `max_size`.
pub fn validate_file_size(path: &String, size: u64, max_size: u64) -> (r: Result<(), AppError>)
    ensures
        r is Ok <==> size <= max_size,
        r is Err ==> (r->Err_0 matches AppError::Validation(
            ValidationError::FileTooLarge { path: p, size: s, max: m },
        ) && p@ == path@ && s == size && m == max_size),
{
    if size > max_size {
        Err(
            AppError::Validation(
                ValidationError::FileTooLarge { path: path.clone(), size, max: max_size },
            ),
        )
    } else {
        Ok(())
    }
}

} // verus!

use vstd::prelude::*;

use crate::error::{is_invalid_input, AppError};

verus! {

/// Family of an error reported to a caller.
#[derive(Debug, Clone, Copy, PartialEq, Eq, Structural)]
pub enum ErrorType {
    Validation,
    Processing,
    Io,
    Configuration,
    Client,
    Server,
    Timeout,
    Permission,
}

/// An error as reported to a caller.
#[derive(Debug)]
pub struct ApiError {
    pub code: String,
    pub message: String,
    pub details: Option<String>,
    pub error_type: ErrorType,
    pub suggested_action: Option<String>,
    pub stack_trace: Option<String>,
}

impl ApiError {
    /// A rejected input: code `VALIDATION_ERROR`.
    pub fn validation(message: &str, details: Option<String>) -> (r: ApiError)
        ensures
            r.code@ == "VALIDATION_ERROR"@,
            r.message@ == message@,
            r.details == details,
            r.error_type == ErrorType::Validation,
            r.suggested_action is Some,
            r.stack_trace is None,
    {
        ApiError {
            code: "VALIDATION_ERROR".to_string(),
            message: message.to_string(),
            details,
            error_type: ErrorType::Validation,
            suggested_action: Some("Verifique os dados fornecidos e tente novamente".to_string()),
            stack_trace: None,
        }
    }

    /// A failed operation: code `PROCESSING_ERROR`.
    pub fn processing(message: &str, details: Option<String>) -> (r: ApiError)
        ensures
            r.code@ == "PROCESSING_ERROR"@,
            r.message@ == message@,
            r.details == details,
            r.error_type == ErrorType::Processing,
            r.suggested_action is Some,
            r.stack_trace is None,
    {
        ApiError {
            code: "PROCESSING_ERROR".to_string(),
            message: message.to_string(),
            details,
            error_type: ErrorType::Processing,
            suggested_action: Some("Tente novamente ou verifique os arquivos de entrada".to_string()),
            stack_trace: None,
        }
    }

    /// A failed input or output: code `IO_ERROR`.
    pub fn io(message: &str, details: Option<String>) -> (r: ApiError)
        ensures
            r.code@ == "IO_ERROR"@,
            r.message@ == message@,
            r.details == details,
            r.error_type == ErrorType::Io,
            r.suggested_action is Some,
            r.stack_trace is None,
    {
        ApiError {
            code: "IO_ERROR".to_string(),
            message: message.to_string(),
            details,
            error_type: ErrorType::Io,
            suggested_action: Some("Verifique permissões de arquivo e espaço em disco".to_string()),
            stack_trace: None,
        }
    }

    /// An action nobody handles: code `UNKNOWN_ACTION`, the supported actions as details.
    pub fn unknown_action(action: &str) -> (r: ApiError)
        ensures
            r.code@ == "UNKNOWN_ACTION"@,
            r.message@ == "Ação desconhecida: "@ + action@,
            r.details matches Some(d) && d@ == "Ações suportadas: "@ + supported_actions()@,
            r.error_type == ErrorType::Client,
            r.suggested_action matches Some(a) && a@ == "Verifique a documentação da API"@,
            r.stack_trace is None,
    {
        let mut message = "Ação desconhecida: ".to_string();
        message.append(action);
        let mut details = "Ações suportadas: ".to_string();
        let list = supported_actions_list();
        details.append(list.as_str());
        ApiError {
            code: "UNKNOWN_ACTION".to_string(),
            message,
            details: Some(details),
            error_type: ErrorType::Client,
            suggested_action: Some("Verifique a documentação da API".to_string()),
            stack_trace: None,
        }
    }
}

pub open spec fn supported_actions() -> &'static str {
    "merge, split, validate, get_metadata, health_check, list_files, create_directory, remove_path"
}

/// The actions that callers may name, comma-separated.
pub fn supported_actions_list() -> (r: String)
    ensures
        r@ == supported_actions()@,
{
    "merge, split, validate, get_metadata, health_check, list_files, create_directory, remove_path".to_string()
}

/// An operation that a request can ask for.
#[derive(Debug, Clone, Copy, PartialEq, Eq, Structural)]
pub enum ApiAction {
    Merge,
    Split,
    Validate,
    GetMetadata,
    HealthCheck,
    ListFiles,
    CreateDirectory,
    RemovePath,
    GetSystemInfo,
    GetConfig,
    UpdateConfig,
    GetMetrics,
}

/// What `str::to_lowercase` makes of a string (Unicode lower-casing, which
/// depends on the characters alone).
pub uninterp spec fn lower_of(s: Seq<char>) -> Seq<char>;

/// Relies on `str::to_lowercase`: the lower-cased characters, a function of
/// the string alone.
#[verifier::external_body]
pub(crate) fn lowercase(s: &str) -> (r: String)
    ensures
        r@ == lower_of(s@),
{
    s.to_lowercase()
}

/// The action that an already lower-cased name stands for.
pub open spec fn action_named(s: Seq<char>) -> Option<ApiAction> {
    if s == "merge"@ {
        Some(ApiAction::Merge)
    } else if s == "split"@ {
        Some(ApiAction::Split)
    } else if s == "validate"@ {
        Some(ApiAction::Validate)
    } else if s == "get_metadata"@ {
        Some(ApiAction::GetMetadata)
    } else if s == "health_check"@ || s == "health"@ {
        Some(ApiAction::HealthCheck)
    } else if s == "list_files"@ {
        Some(ApiAction::ListFiles)
    } else if s == "create_directory"@ {
        Some(ApiAction::CreateDirectory)
    } else if s == "remove_path"@ {
        Some(ApiAction::RemovePath)
    } else if s == "get_system_info"@ {
        Some(ApiAction::GetSystemInfo)
    } else if s == "get_config"@ {
        Some(ApiAction::GetConfig)
    } else if s == "update_config"@ {
        Some(ApiAction::UpdateConfig)
    } else if s == "get_metrics"@ {
        Some(ApiAction::GetMetrics)
    } else {
        None
    }
}

/// The name of an action.
pub open spec fn action_name(a: ApiAction) -> &'static str {
    match a {
        ApiAction::Merge => "merge",
        ApiAction::Split => "split",
        ApiAction::Validate => "validate",
        ApiAction::GetMetadata => "get_metadata",
        ApiAction::HealthCheck => "health_check",
        ApiAction::ListFiles => "list_files",
        ApiAction::CreateDirectory => "create_directory",
        ApiAction::RemovePath => "remove_path",
        ApiAction::GetSystemInfo => "get_system_info",
        ApiAction::GetConfig => "get_config",
        ApiAction::UpdateConfig => "update_config",
        ApiAction::GetMetrics => "get_metrics",
    }
}

fn str_eq(a: &str, b: &str) -> (r: bool)
    ensures
        r == (a@ == b@),
{
    let x = a.to_string();
    let y = b.to_string();
    x == y
}

impl ApiAction {
    /// The action that `s` names, ignoring case; an invalid-input error otherwise.
    pub fn from_str(s: &str) -> (r: Result<ApiAction, AppError>)
        ensures
            r is Ok <==> action_named(lower_of(s@)) is Some,
            r is Ok ==> r->Ok_0 == action_named(lower_of(s@))->0,
            r is Err ==> is_invalid_input(r->Err_0),
    {
        let lower = lowercase(s);
        ApiAction::from_lowercase(lower.as_str())
    }

    /// The action that a lower-case name stands for (see `action_named`).
    pub fn from_lowercase(s: &str) -> (r: Result<ApiAction, AppError>)
        ensures
            r is Ok <==> action_named(s@) is Some,
            r is Ok ==> r->Ok_0 == action_named(s@)->0,
            r is Err ==> is_invalid_input(r->Err_0),
    {
        if str_eq(s, "merge") {
            Ok(ApiAction::Merge)
        } else if str_eq(s, "split") {
            Ok(ApiAction::Split)
        } else if str_eq(s, "validate") {
            Ok(ApiAction::Validate)
        } else if str_eq(s, "get_metadata") {
            Ok(ApiAction::GetMetadata)
        } else if str_eq(s, "health_check") || str_eq(s, "health") {
            Ok(ApiAction::HealthCheck)
        } else if str_eq(s, "list_files") {
            Ok(ApiAction::ListFiles)
        } else if str_eq(s, "create_directory") {
            Ok(ApiAction::CreateDirectory)
        } else if str_eq(s, "remove_path") {
            Ok(ApiAction::RemovePath)
        } else if str_eq(s, "get_system_info") {
            Ok(ApiAction::GetSystemInfo)
        } else if str_eq(s, "get_config") {
            Ok(ApiAction::GetConfig)
        } else if str_eq(s, "update_config") {
            Ok(ApiAction::UpdateConfig)
        } else if str_eq(s, "get_metrics") {
            Ok(ApiAction::GetMetrics)
        } else {
            let mut message = "Unknown API action: ".to_string();
            message.append(s);
            Err(AppError::validation(message.as_str()))
        }
    }

    pub fn as_str(&self) -> (r: &'static str)
        ensures
            r@ == action_name(*self)@,
    {
        match self {
            ApiAction::Merge => "merge",
            ApiAction::Split => "split",
            ApiAction::Validate => "validate",
            ApiAction::GetMetadata => "get_metadata",
            ApiAction::HealthCheck => "health_check",
            ApiAction::ListFiles => "list_files",
            ApiAction::CreateDirectory => "create_directory",
            ApiAction::RemovePath => "remove_path",
            ApiAction::GetSystemInfo => "get_system_info",
            ApiAction::GetConfig => "get_config",
            ApiAction::UpdateConfig => "update_config",
            ApiAction::GetMetrics => "get_metrics",
        }
    }
}

} // verus!

//! The unified error type of the store and its mapping to API responses.

use vstd::prelude::*;
use vstd::string::StringExecFns;

verus! {

/// Application-wide error kinds. Each variant carries a human-readable
/// message; the variant decides how the transport layer reports it.
#[derive(Debug, Clone)]
pub enum AppError {
    /// User-related error.
    User(String),
    /// Collection-related error.
    Collection(String),
    /// Hitokoto-related error.
    Hitokoto(String),
    /// Storage-related error.
    Storage(String),
    /// File I/O error.
    Io(String),
    /// JSON serialization or deserialization error.
    Json(String),
    /// Validation error.
    Validation(String),
    /// A referenced resource does not exist.
    NotFound(String),
    /// A resource with the same key already exists.
    AlreadyExists(String),
}

/// Error shape handed to API consumers.
#[derive(Debug, Clone)]
pub struct ErrorResponse {
    pub error: String,
    pub code: String,
}

/// The message of an error: a fixed prefix for the variant, then the carried text.
pub open spec fn display_view(e: AppError) -> Seq<char> {
    match e {
        AppError::User(m) => "用户错误: "@ + m@,
        AppError::Collection(m) => "文集错误: "@ + m@,
        AppError::Hitokoto(m) => "Hitokoto错误: "@ + m@,
        AppError::Storage(m) => "存储错误: "@ + m@,
        AppError::Io(m) => "文件操作错误: "@ + m@,
        AppError::Json(m) => "JSON格式错误: "@ + m@,
        AppError::Validation(m) => "验证错误: "@ + m@,
        AppError::NotFound(m) => "资源不存在: "@ + m@,
        AppError::AlreadyExists(m) => "资源已存在: "@ + m@,
    }
}

/// The machine-readable code of an error variant.
pub open spec fn code_view(e: AppError) -> Seq<char> {
    match e {
        AppError::User(_) => "USER_ERROR"@,
        AppError::Collection(_) => "COLLECTION_ERROR"@,
        AppError::Hitokoto(_) => "HITOKOTO_ERROR"@,
        AppError::Storage(_) => "STORAGE_ERROR"@,
        AppError::Io(_) => "IO_ERROR"@,
        AppError::Json(_) => "JSON_ERROR"@,
        AppError::Validation(_) => "VALIDATION_ERROR"@,
        AppError::NotFound(_) => "NOT_FOUND"@,
        AppError::AlreadyExists(_) => "ALREADY_EXISTS"@,
    }
}

impl AppError {
    /// The full message of the error, prefix included.
    pub fn display_string(&self) -> (r: String)
        ensures
            r@ == display_view(*self),
    {
        match self {
            AppError::User(m) => "用户错误: ".to_owned().concat(m.as_str()),
            AppError::Collection(m) => "文集错误: ".to_owned().concat(m.as_str()),
            AppError::Hitokoto(m) => "Hitokoto错误: ".to_owned().concat(m.as_str()),
            AppError::Storage(m) => "存储错误: ".to_owned().concat(m.as_str()),
            AppError::Io(m) => "文件操作错误: ".to_owned().concat(m.as_str()),
            AppError::Json(m) => "JSON格式错误: ".to_owned().concat(m.as_str()),
            AppError::Validation(m) => "验证错误: ".to_owned().concat(m.as_str()),
            AppError::NotFound(m) => "资源不存在: ".to_owned().concat(m.as_str()),
            AppError::AlreadyExists(m) => "资源已存在: ".to_owned().concat(m.as_str()),
        }
    }

    /// The response body for this error.
    pub fn to_response(&self) -> (r: ErrorResponse)
        ensures
            r.error@ == display_view(*self),
            r.code@ == code_view(*self),
    {
        let error = self.display_string();
        let code = match self {
            AppError::User(_) => "USER_ERROR".to_owned(),
            AppError::Collection(_) => "COLLECTION_ERROR".to_owned(),
            AppError::Hitokoto(_) => "HITOKOTO_ERROR".to_owned(),
            AppError::Storage(_) => "STORAGE_ERROR".to_owned(),
            AppError::Io(_) => "IO_ERROR".to_owned(),
            AppError::Json(_) => "JSON_ERROR".to_owned(),
            AppError::Validation(_) => "VALIDATION_ERROR".to_owned(),
            AppError::NotFound(_) => "NOT_FOUND".to_owned(),
            AppError::AlreadyExists(_) => "ALREADY_EXISTS".to_owned(),
        };
        ErrorResponse { error, code }
    }

    /// The HTTP status code the transport layer answers with for this error.
    pub fn status_code(&self) -> (r: u16)
        ensures
            r == match *self {
                AppError::NotFound(_) => 404u16,
                AppError::AlreadyExists(_) => 409u16,
                AppError::Validation(_) => 400u16,
                AppError::User(_) | AppError::Collection(_) | AppError::Hitokoto(_) => 400u16,
                AppError::Storage(_) | AppError::Io(_) | AppError::Json(_) => 500u16,
            },
    {
        match self {
            AppError::NotFound(_) => 404,
            AppError::AlreadyExists(_) => 409,
            AppError::Validation(_) => 400,
            AppError::User(_) | AppError::Collection(_) | AppError::Hitokoto(_) => 400,
            AppError::Storage(_) | AppError::Io(_) | AppError::Json(_) => 500,
        }
    }
}

/// Result alias used by every store operation.
pub type AppResult<T> = Result<T, AppError>;

} // verus!

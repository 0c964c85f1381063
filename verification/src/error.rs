//! The library's error type.

use vstd::prelude::*;

use crate::text::push_str;

verus! {

/// Errors reported by the client. Failures that come from outside
/// libraries (HTTP, I/O, JSON, URL parsing, the desktop shell) carry the
/// text of the underlying error.
#[derive(Debug, Clone, PartialEq, Eq)]
pub enum AppError {
    Http(String),
    Io(String),
    Json(String),
    Url(String),
    Config(String),
    NotLoggedIn,
    Lanzou(String),
    Tauri(String),
    Parse(String),
    Update(String),
}

/// The user-facing message of an error.
pub open spec fn error_message(e: AppError) -> Seq<char> {
    match e {
        AppError::Http(m) => "网络请求失败: "@ + m@,
        AppError::Io(m) => "IO 错误: "@ + m@,
        AppError::Json(m) => "JSON 错误: "@ + m@,
        AppError::Url(m) => "URL 错误: "@ + m@,
        AppError::Config(m) => "配置错误: "@ + m@,
        AppError::NotLoggedIn => "未登录"@,
        AppError::Lanzou(m) => "蓝奏云接口返回错误: "@ + m@,
        AppError::Tauri(m) => "Tauri 错误: "@ + m@,
        AppError::Parse(m) => "解析错误: "@ + m@,
        AppError::Update(m) => "更新检查失败: "@ + m@,
    }
}

impl AppError {
    /// The user-facing message of this error (what `to_string` shows).
    pub fn message(&self) -> (r: String)
        ensures
            r@ == error_message(*self),
    {
        let mut r = String::new();
        match self {
            AppError::Http(m) => {
                push_str(&mut r, "网络请求失败: ");
                push_str(&mut r, m.as_str());
            },
            AppError::Io(m) => {
                push_str(&mut r, "IO 错误: ");
                push_str(&mut r, m.as_str());
            },
            AppError::Json(m) => {
                push_str(&mut r, "JSON 错误: ");
                push_str(&mut r, m.as_str());
            },
            AppError::Url(m) => {
                push_str(&mut r, "URL 错误: ");
                push_str(&mut r, m.as_str());
            },
            AppError::Config(m) => {
                push_str(&mut r, "配置错误: ");
                push_str(&mut r, m.as_str());
            },
            AppError::NotLoggedIn => {
                push_str(&mut r, "未登录");
            },
            AppError::Lanzou(m) => {
                push_str(&mut r, "蓝奏云接口返回错误: ");
                push_str(&mut r, m.as_str());
            },
            AppError::Tauri(m) => {
                push_str(&mut r, "Tauri 错误: ");
                push_str(&mut r, m.as_str());
            },
            AppError::Parse(m) => {
                push_str(&mut r, "解析错误: ");
                push_str(&mut r, m.as_str());
            },
            AppError::Update(m) => {
                push_str(&mut r, "更新检查失败: ");
                push_str(&mut r, m.as_str());
            },
        }
        r
    }
}

/// A `Lanzou` error with the given message.
pub fn lanzou_err(msg: &str) -> (e: AppError)
    ensures
        e matches AppError::Lanzou(m) && m@ == msg@,
{
    AppError::Lanzou(crate::text::owned(msg))
}

/// A `Parse` error with the given message.
pub fn parse_err(msg: &str) -> (e: AppError)
    ensures
        e matches AppError::Parse(m) && m@ == msg@,
{
    AppError::Parse(crate::text::owned(msg))
}

} // verus!

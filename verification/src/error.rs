//! The error type shared by the library's fallible operations.

use vstd::prelude::*;
use crate::text::push_str;

verus! {

/// Why an operation could not be done as a whole.
///
/// Each variant carries the detail; `message` gives the sentence shown to
/// the user.
#[derive(Debug)]
pub enum AppError {
    Registry(String),
    Win32(String),
    Com(String),
    Io(String),
    Serde(String),
    Other(String),
}

/// The user-facing sentence of an error, as characters.
pub open spec fn error_text(e: AppError) -> Seq<char> {
    match e {
        AppError::Registry(d) => "访问注册表失败："@ + d@,
        AppError::Win32(d) => "调用 Windows 接口失败："@ + d@,
        AppError::Com(d) => "COM 组件调用失败："@ + d@,
        AppError::Io(d) => "读取文件失败："@ + d@,
        AppError::Serde(d) => "数据格式错误："@ + d@,
        AppError::Other(d) => d@,
    }
}

impl AppError {
    /// The user-facing sentence: a fixed prefix per kind, then the detail.
    pub fn message(&self) -> (r: String)
        ensures
            r@ == error_text(*self),
    {
        let mut s = String::new();
        match self {
            AppError::Registry(d) => {
                push_str(&mut s, "访问注册表失败：");
                push_str(&mut s, d.as_str());
            },
            AppError::Win32(d) => {
                push_str(&mut s, "调用 Windows 接口失败：");
                push_str(&mut s, d.as_str());
            },
            AppError::Com(d) => {
                push_str(&mut s, "COM 组件调用失败：");
                push_str(&mut s, d.as_str());
            },
            AppError::Io(d) => {
                push_str(&mut s, "读取文件失败：");
                push_str(&mut s, d.as_str());
            },
            AppError::Serde(d) => {
                push_str(&mut s, "数据格式错误：");
                push_str(&mut s, d.as_str());
            },
            AppError::Other(d) => {
                push_str(&mut s, d.as_str());
            },
        }
        s
    }
}

} // verus!

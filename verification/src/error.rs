//! The errors that the shell's commands answer with.

use vstd::prelude::*;
use vstd::string::*;

use crate::text::concat_str;

verus! {

/// Why a command of the shell was refused.
#[derive(Debug)]
pub enum AppError {
    /// No tab has the given id.
    TabNotFound,
    /// As many tabs as the shell allows are already open.
    TabLimitReached,
    /// The URL may not be opened this way.
    InvalidUrl,
    /// Showing or driving a page view failed; the text says how.
    WebviewFailure(String),
}

/// The text shown to the user for an error.
pub open spec fn error_message(e: AppError) -> Seq<char> {
    match e {
        AppError::TabNotFound => "対象のタブが見つかりません"@,
        AppError::TabLimitReached => "開けるタブは最大20件です"@,
        AppError::InvalidUrl => "このURLは開けません"@,
        AppError::WebviewFailure(detail) => "ページ表示の操作に失敗しました: "@ + detail@,
    }
}

/// The name under which an error is reported to the front end.
pub open spec fn error_code(e: AppError) -> Seq<char> {
    match e {
        AppError::TabNotFound => "TabNotFound"@,
        AppError::TabLimitReached => "TabLimitReached"@,
        AppError::InvalidUrl => "InvalidUrl"@,
        AppError::WebviewFailure(_) => "WebviewFailure"@,
    }
}

impl AppError {
    /// The text shown to the user for this error.
    pub fn message(&self) -> (r: String)
        ensures
            r@ == error_message(*self),
    {
        match self {
            AppError::TabNotFound => String::from_str("対象のタブが見つかりません"),
            AppError::TabLimitReached => String::from_str("開けるタブは最大20件です"),
            AppError::InvalidUrl => String::from_str("このURLは開けません"),
            AppError::WebviewFailure(detail) => concat_str(
                "ページ表示の操作に失敗しました: ",
                detail.as_str(),
            ),
        }
    }

    /// The name under which this error is reported to the front end.
    pub fn code(&self) -> (r: &'static str)
        ensures
            r@ == error_code(*self),
    {
        match self {
            AppError::TabNotFound => "TabNotFound",
            AppError::TabLimitReached => "TabLimitReached",
            AppError::InvalidUrl => "InvalidUrl",
            AppError::WebviewFailure(_) => "WebviewFailure",
        }
    }
}

} // verus!

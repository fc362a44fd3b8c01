//! The error type that the library's fallible operations return.

use vstd::prelude::*;

verus! {

/// An application error. The variants other than `Message` carry the text
/// (and, for ESP errors, the numeric code) of a failure that the platform
/// layer reported.
#[derive(Debug, Clone, PartialEq, Eq)]
pub enum AppError {
    Message(String),
    Esp { code: i32, text: String },
    EspIo { code: i32, text: String },
    Json(String),
    Utf8(String),
    ParseInt(String),
}

/// An error by its variant and texts.
pub enum ErrorView {
    Message(Seq<char>),
    Esp(i32, Seq<char>),
    EspIo(i32, Seq<char>),
    Json(Seq<char>),
    Utf8(Seq<char>),
    ParseInt(Seq<char>),
}

pub open spec fn error_view(e: AppError) -> ErrorView {
    match e {
        AppError::Message(m) => ErrorView::Message(m@),
        AppError::Esp { code, text } => ErrorView::Esp(code, text@),
        AppError::EspIo { code, text } => ErrorView::EspIo(code, text@),
        AppError::Json(t) => ErrorView::Json(t@),
        AppError::Utf8(t) => ErrorView::Utf8(t@),
        AppError::ParseInt(t) => ErrorView::ParseInt(t@),
    }
}

/// A text result by the characters of its text and the view of its error.
pub open spec fn text_result(r: Result<String, AppError>) -> Result<Seq<char>, ErrorView> {
    match r {
        Ok(s) => Ok(s@),
        Err(e) => Err(error_view(e)),
    }
}

/// Whether `e` is a plain message error with text `m`.
pub open spec fn is_message(e: AppError, m: Seq<char>) -> bool {
    e matches AppError::Message(s) && s@ == m
}

/// Whether `res` is the outcome `expected`, an error being given by its message text.
pub open spec fn unit_outcome(res: Result<(), AppError>, expected: Result<(), Seq<char>>) -> bool {
    match expected {
        Ok(()) => res is Ok,
        Err(m) => res matches Err(e) && is_message(e, m),
    }
}

/// The text that the error displays.
pub open spec fn error_text(e: AppError) -> Seq<char> {
    match e {
        AppError::Message(m) => m@,
        AppError::Esp { code, text } => "ESP error: "@ + text@,
        AppError::EspIo { code, text } => "ESP I/O error: "@ + text@,
        AppError::Json(text) => "JSON error: "@ + text@,
        AppError::Utf8(text) => "UTF-8 error: "@ + text@,
        AppError::ParseInt(text) => "Parse int error: "@ + text@,
    }
}

/// The ESP error code the error carries, if any.
pub open spec fn error_code(e: AppError) -> Option<i32> {
    match e {
        AppError::Esp { code, text } => Some(code),
        AppError::EspIo { code, text } => Some(code),
        _ => None,
    }
}

impl AppError {
    /// A plain message error.
    pub fn message(text: String) -> (res: AppError)
        ensures
            is_message(res, text@),
    {
        AppError::Message(text)
    }

    /// The text of the error, as it is displayed.
    pub fn display_text(&self) -> (res: String)
        ensures
            res@ == error_text(*self),
    {
        match self {
            AppError::Message(m) => m.clone(),
            AppError::Esp { code, text } => crate::text::concat("ESP error: ", text.as_str()),
            AppError::EspIo { code, text } => crate::text::concat("ESP I/O error: ", text.as_str()),
            AppError::Json(text) => crate::text::concat("JSON error: ", text.as_str()),
            AppError::Utf8(text) => crate::text::concat("UTF-8 error: ", text.as_str()),
            AppError::ParseInt(text) => crate::text::concat("Parse int error: ", text.as_str()),
        }
    }

    /// The ESP error code carried by ESP and ESP I/O errors.
    pub fn esp_code(&self) -> (res: Option<i32>)
        ensures
            res == error_code(*self),
    {
        match self {
            AppError::Esp { code, text } => Some(*code),
            AppError::EspIo { code, text } => Some(*code),
            _ => None,
        }
    }
}

} // verus!

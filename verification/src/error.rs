use vstd::prelude::*;

verus! {

/// Errors raised anywhere in the pipeline.
#[derive(Debug)]
pub enum AppError {
    /// A free-form description of what went wrong.
    Message(String),
    /// Media Foundation support is unavailable.
    MediaFoundation(&'static str),
    /// A Win32 API call failed.
    Win32(&'static str),
}

impl AppError {
    /// The text the error is shown with.
    pub fn describe(&self) -> (s: String)
        ensures
            s@ == match self {
                AppError::Message(m) => m@,
                AppError::MediaFoundation(m) => "Media Foundation support unavailable: "@ + m@,
                AppError::Win32(m) => "Win32 API error: "@ + m@,
            },
    {
        match self {
            AppError::Message(m) => m.clone(),
            AppError::MediaFoundation(m) => String::from_str("Media Foundation support unavailable: ").concat(m),
            AppError::Win32(m) => String::from_str("Win32 API error: ").concat(m),
        }
    }
}

/// Result type used across the crate.
pub type AppResult<T> = Result<T, AppError>;

/// Builds `AppError::Message` holding exactly the given text.
pub fn message_error(text: &str) -> (e: AppError)
    ensures
        e matches AppError::Message(m) && m@ == text@,
{
    AppError::Message(String::from_str(text))
}

} // verus!

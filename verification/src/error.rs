//! The error type of the library, and how failures of the outside world become part of it.

use vstd::prelude::*;
use vstd::string::to_string_from_display_ensures;

use crate::diagnostics::Diagnostic;

pub use crate::api_errors::{ApiErrorResponse, ApiErrors, FieldErrors};

verus! {

/// An error of the HTTP transport, [`reqwest::Error`]. Its value is carried through unread.
#[verifier::external_type_specification]
#[verifier::external_body]
pub struct ExTransportError(reqwest::Error);

/// An error of the middleware pipeline, [`reqwest_middleware::Error`]. Its value is carried
/// through unread.
#[verifier::external_type_specification]
#[verifier::external_body]
pub struct ExPipelineError(reqwest_middleware::Error);

/// An error of the JSON codec, [`serde_json::Error`]. Its value is carried through unread.
#[verifier::external_type_specification]
#[verifier::external_body]
pub struct ExJsonError(serde_json::Error);

/// An input or output error, [`std::io::Error`]. Its value is carried through unread.
#[verifier::external_type_specification]
#[verifier::external_body]
pub struct ExIoError(std::io::Error);

/// Everything that can go wrong.
#[derive(Debug)]
pub enum MoonError {
    /// A failure within the middleware pipeline or a lifecycle hook.
    Middleware(String),
    /// A failure of the transport: a dropped connection, a name that does not resolve, a timeout.
    Network(String),
    /// A payload that does not have the expected form.
    Parse(serde_json::Error),
    /// A failure of file input or output.
    Io(std::io::Error),
    /// Values that the remote service rejected (HTTP 422).
    ApiValidation(ApiErrors),
    /// An error status from the remote service.
    ApiError {
        /// The status code.
        code: u16,
        /// The response body, or what the status code means.
        message: String,
    },
    /// A configuration that cannot work.
    Config(String),
    /// A response body that could not be decoded. The body is kept, as far as it was read.
    ResponseDecode {
        /// What the decoder said.
        error_message: String,
        /// The body.
        raw: String,
    },
    /// A call that needs a session when there is none.
    Unauthorized(String),
    /// Parameters that were rejected before sending.
    ValidationError(String),
    /// A failure without further knowledge.
    Unknown,
}

/// The result of an operation of this library.
pub type Result<T> = std::result::Result<T, MoonError>;

impl From<reqwest_middleware::Error> for MoonError {
    /// Failures of the pipeline become [`MoonError::Middleware`] with the error's own text.
    fn from(err: reqwest_middleware::Error) -> (error: MoonError)
        ensures
            error matches MoonError::Middleware(text) && to_string_from_display_ensures::<
                reqwest_middleware::Error,
            >(&err, text),
    {
        MoonError::Middleware(err.to_string())
    }
}

impl vstd::std_specs::convert::FromSpecImpl<reqwest_middleware::Error> for MoonError {
    open spec fn obeys_from_spec() -> bool {
        false
    }

    open spec fn from_spec(err: reqwest_middleware::Error) -> MoonError {
        arbitrary()
    }
}

impl From<reqwest::Error> for MoonError {
    /// Failures of the transport become [`MoonError::Network`] with the error's own text.
    fn from(err: reqwest::Error) -> (error: MoonError)
        ensures
            error matches MoonError::Network(text) && to_string_from_display_ensures::<
                reqwest::Error,
            >(&err, text),
    {
        MoonError::Network(err.to_string())
    }
}

impl vstd::std_specs::convert::FromSpecImpl<reqwest::Error> for MoonError {
    open spec fn obeys_from_spec() -> bool {
        false
    }

    open spec fn from_spec(err: reqwest::Error) -> MoonError {
        arbitrary()
    }
}

impl From<std::io::Error> for MoonError {
    /// Failures of input and output are kept whole.
    fn from(err: std::io::Error) -> (error: MoonError) {
        MoonError::Io(err)
    }
}

impl vstd::std_specs::convert::FromSpecImpl<std::io::Error> for MoonError {
    open spec fn obeys_from_spec() -> bool {
        true
    }

    open spec fn from_spec(err: std::io::Error) -> MoonError {
        MoonError::Io(err)
    }
}

impl From<serde_json::Error> for MoonError {
    /// Failures of the JSON codec are kept whole.
    fn from(err: serde_json::Error) -> (error: MoonError) {
        MoonError::Parse(err)
    }
}

impl vstd::std_specs::convert::FromSpecImpl<serde_json::Error> for MoonError {
    open spec fn obeys_from_spec() -> bool {
        true
    }

    open spec fn from_spec(err: serde_json::Error) -> MoonError {
        MoonError::Parse(err)
    }
}

/// Why a request could not be sent, in the words of the layer that failed.
#[derive(Debug)]
pub enum SendFailure {
    /// The transport failed.
    Transport(String),
    /// The middleware pipeline failed, for one because its retries are used up.
    Pipeline(String),
}

impl SendFailure {
    /// The error that the caller of a request gets.
    pub open spec fn as_error(self) -> MoonError {
        match self {
            SendFailure::Transport(text) => MoonError::Network(text),
            SendFailure::Pipeline(text) => MoonError::Middleware(text),
        }
    }

    /// Turns the failure into the error that the caller of a request gets.
    pub fn into_error(self) -> (error: MoonError)
        ensures
            error == self.as_error(),
    {
        match self {
            SendFailure::Transport(text) => MoonError::Network(text),
            SendFailure::Pipeline(text) => MoonError::Middleware(text),
        }
    }
}

impl MoonError {
    /// `message` is the message for this error: the one of its kind, with its details.
    pub open spec fn is_described_by(&self, message: Diagnostic) -> bool {
        match *self {
            MoonError::Middleware(text) => message == (Diagnostic::Middleware { error: text }),
            MoonError::Network(text) => message == (Diagnostic::Network { error: text }),
            MoonError::Parse(err) => message matches Diagnostic::Parse { error }
                && to_string_from_display_ensures::<serde_json::Error>(&err, error),
            MoonError::Io(err) => message matches Diagnostic::Io { error }
                && to_string_from_display_ensures::<std::io::Error>(&err, error),
            MoonError::ApiValidation(errors) => message matches Diagnostic::ApiValidation { error }
                && error@ == errors.summary(),
            MoonError::ApiError { code, message: text } => message == (Diagnostic::ApiError {
                code,
                message: text,
            }),
            MoonError::Config(text) => message == (Diagnostic::Config { error: text }),
            MoonError::ResponseDecode { error_message, raw } => message == (
            Diagnostic::ResponseDecode { error: error_message, raw }),
            MoonError::Unauthorized(text) => message == (Diagnostic::Unauthorized { error: text }),
            MoonError::ValidationError(text) => message == (Diagnostic::ValidationError {
                error: text,
            }),
            MoonError::Unknown => message == Diagnostic::Unknown,
        }
    }

    /// The message for this error.
    pub fn diagnostic(&self) -> (message: Diagnostic)
        ensures
            self.is_described_by(message),
    {
        match self {
            MoonError::Middleware(text) => Diagnostic::Middleware { error: text.clone() },
            MoonError::Network(text) => Diagnostic::Network { error: text.clone() },
            MoonError::Parse(err) => Diagnostic::Parse { error: err.to_string() },
            MoonError::Io(err) => Diagnostic::Io { error: err.to_string() },
            MoonError::ApiValidation(errors) => Diagnostic::ApiValidation {
                error: errors.to_text(),
            },
            MoonError::ApiError { code, message } => Diagnostic::ApiError {
                code: *code,
                message: message.clone(),
            },
            MoonError::Config(text) => Diagnostic::Config { error: text.clone() },
            MoonError::ResponseDecode { error_message, raw } => Diagnostic::ResponseDecode {
                error: error_message.clone(),
                raw: raw.clone(),
            },
            MoonError::Unauthorized(text) => Diagnostic::Unauthorized { error: text.clone() },
            MoonError::ValidationError(text) => Diagnostic::ValidationError {
                error: text.clone(),
            },
            MoonError::Unknown => Diagnostic::Unknown,
        }
    }
}

/// A failure of the transport is a network error and a failure of the pipeline a middleware error,
/// each with its own words.
pub proof fn law_send_failures_keep_their_words(text: String)
    ensures
        SendFailure::Transport(text).as_error() == MoonError::Network(text),
        SendFailure::Pipeline(text).as_error() == MoonError::Middleware(text),
{
}

/// The message for an error is the one of its kind, and carries what the error holds.
pub proof fn law_errors_are_told_as_they_are(error: MoonError, message: Diagnostic)
    requires
        error.is_described_by(message),
    ensures
        match error {
            MoonError::Middleware(text) => message == (Diagnostic::Middleware { error: text }),
            MoonError::Network(text) => message == (Diagnostic::Network { error: text }),
            MoonError::Parse(err) => message matches Diagnostic::Parse { error: text }
                && to_string_from_display_ensures::<serde_json::Error>(&err, text),
            MoonError::Io(err) => message matches Diagnostic::Io { error: text }
                && to_string_from_display_ensures::<std::io::Error>(&err, text),
            MoonError::ApiValidation(errors) => message matches Diagnostic::ApiValidation {
                error: text,
            } && text@ == errors.summary(),
            MoonError::ApiError { code, message: text } => message == (Diagnostic::ApiError {
                code,
                message: text,
            }),
            MoonError::Config(text) => message == (Diagnostic::Config { error: text }),
            MoonError::ResponseDecode { error_message, raw } => message == (
            Diagnostic::ResponseDecode { error: error_message, raw }),
            MoonError::Unauthorized(text) => message == (Diagnostic::Unauthorized { error: text }),
            MoonError::ValidationError(text) => message == (Diagnostic::ValidationError {
                error: text,
            }),
            MoonError::Unknown => message == Diagnostic::Unknown,
        },
{
}

} // verus!

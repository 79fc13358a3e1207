//! The messages that the library has translated: a key into the message catalogue, and named
//! arguments.

use vstd::prelude::*;

use crate::text::{decimal, decimal_text};

verus! {

/// A message for people, before translation.
#[derive(Debug)]
pub enum Diagnostic {
    /// A failure within the middleware pipeline.
    Middleware { error: String },
    /// A failure of the transport.
    Network { error: String },
    /// A payload that could not be parsed.
    Parse { error: String },
    /// A failure of file input or output.
    Io { error: String },
    /// Values that the remote service rejected.
    ApiValidation { error: String },
    /// An error status from the remote service.
    ApiError { code: u16, message: String },
    /// A configuration that cannot work.
    Config { error: String },
    /// A response body that could not be decoded.
    ResponseDecode { error: String, raw: String },
    /// A call that needs a session when there is none.
    Unauthorized { error: String },
    /// Parameters that were rejected before sending.
    ValidationError { error: String },
    /// A failure without further knowledge.
    Unknown,
    /// A base URL that cannot be parsed, or that cannot carry a path.
    InvalidBaseUrl,
    /// A base URL that cannot carry path segments.
    InvalidMacroBaseUrl,
    /// A rate limiting rule that leaves less than one nanosecond per request.
    InvalidPeriod,
    /// The coordinator of a distributed limiter failed.
    RedisLimitError { error: String },
}

impl Diagnostic {
    /// The key of the message in the catalogue.
    pub open spec fn key_text(&self) -> Seq<char> {
        match self {
            Diagnostic::Middleware { .. } => "err-middleware"@,
            Diagnostic::Network { .. } => "err-network"@,
            Diagnostic::Parse { .. } => "err-parse"@,
            Diagnostic::Io { .. } => "err-io"@,
            Diagnostic::ApiValidation { .. } => "err-api-validation"@,
            Diagnostic::ApiError { .. } => "err-api-error"@,
            Diagnostic::Config { .. } => "err-config"@,
            Diagnostic::ResponseDecode { .. } => "err-response-decode"@,
            Diagnostic::Unauthorized { .. } => "err-unauthorized"@,
            Diagnostic::ValidationError { .. } => "err-validation-error"@,
            Diagnostic::Unknown => "err-unknown"@,
            Diagnostic::InvalidBaseUrl => "expect-invalid-base-url"@,
            Diagnostic::InvalidMacroBaseUrl => "expect-invalid-macro-base-url"@,
            Diagnostic::InvalidPeriod => "expect-invalid-period-calculation"@,
            Diagnostic::RedisLimitError { .. } => "redis-limit-error"@,
        }
    }

    /// The names and values of the message's arguments.
    pub open spec fn arg_texts(&self) -> Seq<(Seq<char>, Seq<char>)> {
        match self {
            Diagnostic::Middleware { error } => seq![("error"@, error@)],
            Diagnostic::Network { error } => seq![("error"@, error@)],
            Diagnostic::Parse { error } => seq![("error"@, error@)],
            Diagnostic::Io { error } => seq![("error"@, error@)],
            Diagnostic::ApiValidation { error } => seq![("error"@, error@)],
            Diagnostic::ApiError { code, message } => seq![
                ("code"@, decimal(*code as nat)),
                ("message"@, message@),
            ],
            Diagnostic::Config { error } => seq![("error"@, error@)],
            Diagnostic::ResponseDecode { error, raw } => seq![("error"@, error@), ("raw"@, raw@)],
            Diagnostic::Unauthorized { error } => seq![("error"@, error@)],
            Diagnostic::ValidationError { error } => seq![("error"@, error@)],
            Diagnostic::Unknown => Seq::empty(),
            Diagnostic::InvalidBaseUrl => Seq::empty(),
            Diagnostic::InvalidMacroBaseUrl => Seq::empty(),
            Diagnostic::InvalidPeriod => Seq::empty(),
            Diagnostic::RedisLimitError { error } => seq![("error"@, error@)],
        }
    }

    /// The key of the message in the catalogue.
    pub fn key(&self) -> (key: &'static str)
        ensures
            key@ == self.key_text(),
    {
        match self {
            Diagnostic::Middleware { .. } => "err-middleware",
            Diagnostic::Network { .. } => "err-network",
            Diagnostic::Parse { .. } => "err-parse",
            Diagnostic::Io { .. } => "err-io",
            Diagnostic::ApiValidation { .. } => "err-api-validation",
            Diagnostic::ApiError { .. } => "err-api-error",
            Diagnostic::Config { .. } => "err-config",
            Diagnostic::ResponseDecode { .. } => "err-response-decode",
            Diagnostic::Unauthorized { .. } => "err-unauthorized",
            Diagnostic::ValidationError { .. } => "err-validation-error",
            Diagnostic::Unknown => "err-unknown",
            Diagnostic::InvalidBaseUrl => "expect-invalid-base-url",
            Diagnostic::InvalidMacroBaseUrl => "expect-invalid-macro-base-url",
            Diagnostic::InvalidPeriod => "expect-invalid-period-calculation",
            Diagnostic::RedisLimitError { .. } => "redis-limit-error",
        }
    }

    /// The names and values of the message's arguments.
    pub fn args(&self) -> (args: Vec<(&'static str, String)>)
        ensures
            args@.map_values(|arg: (&'static str, String)| (arg.0@, arg.1@)) == self.arg_texts(),
    {
        let mut args: Vec<(&'static str, String)> = Vec::new();
        match self {
            Diagnostic::Middleware { error }
            | Diagnostic::Network { error }
            | Diagnostic::Parse { error }
            | Diagnostic::Io { error }
            | Diagnostic::ApiValidation { error }
            | Diagnostic::Config { error }
            | Diagnostic::Unauthorized { error }
            | Diagnostic::ValidationError { error }
            | Diagnostic::RedisLimitError { error } => {
                args.push(("error", error.clone()));
            },
            Diagnostic::ApiError { code, message } => {
                args.push(("code", decimal_text(*code as u64)));
                args.push(("message", message.clone()));
            },
            Diagnostic::ResponseDecode { error, raw } => {
                args.push(("error", error.clone()));
                args.push(("raw", raw.clone()));
            },
            Diagnostic::Unknown
            | Diagnostic::InvalidBaseUrl
            | Diagnostic::InvalidMacroBaseUrl
            | Diagnostic::InvalidPeriod => {},
        }
        assert(args@.map_values(|arg: (&'static str, String)| (arg.0@, arg.1@))
            =~= self.arg_texts());
        args
    }
}

/// A message carries every detail of what it is about, whole and under its name.
pub proof fn law_messages_carry_their_details(message: Diagnostic)
    ensures
        match message {
            Diagnostic::Middleware { error } => message.arg_texts() == seq![("error"@, error@)],
            Diagnostic::Network { error } => message.arg_texts() == seq![("error"@, error@)],
            Diagnostic::Parse { error } => message.arg_texts() == seq![("error"@, error@)],
            Diagnostic::Io { error } => message.arg_texts() == seq![("error"@, error@)],
            Diagnostic::ApiValidation { error } => message.arg_texts() == seq![("error"@, error@)],
            Diagnostic::Config { error } => message.arg_texts() == seq![("error"@, error@)],
            Diagnostic::Unauthorized { error } => message.arg_texts() == seq![("error"@, error@)],
            Diagnostic::ValidationError { error } => message.arg_texts() == seq![
                ("error"@, error@),
            ],
            Diagnostic::RedisLimitError { error } => message.arg_texts() == seq![
                ("error"@, error@),
            ],
            Diagnostic::ApiError { code, message: text } => {
                &&& message.arg_texts().len() == 2
                &&& message.arg_texts()[0].0 == "code"@
                &&& crate::text::number_of(message.arg_texts()[0].1) == code
                &&& message.arg_texts()[1] == ("message"@, text@)
            },
            Diagnostic::ResponseDecode { error, raw } => message.arg_texts() == seq![
                ("error"@, error@),
                ("raw"@, raw@),
            ],
            Diagnostic::Unknown => message.arg_texts().len() == 0,
            Diagnostic::InvalidBaseUrl => message.arg_texts().len() == 0,
            Diagnostic::InvalidMacroBaseUrl => message.arg_texts().len() == 0,
            Diagnostic::InvalidPeriod => message.arg_texts().len() == 0,
        },
{
    if let Diagnostic::ApiError { code, .. } = message {
        crate::text::law_decimal_reads_back(code as nat);
    }
}

/// Every kind of message has its own key.
pub proof fn law_messages_have_their_key(message: Diagnostic)
    ensures
        message.key_text() == match message {
            Diagnostic::Middleware { .. } => "err-middleware"@,
            Diagnostic::Network { .. } => "err-network"@,
            Diagnostic::Parse { .. } => "err-parse"@,
            Diagnostic::Io { .. } => "err-io"@,
            Diagnostic::ApiValidation { .. } => "err-api-validation"@,
            Diagnostic::ApiError { .. } => "err-api-error"@,
            Diagnostic::Config { .. } => "err-config"@,
            Diagnostic::ResponseDecode { .. } => "err-response-decode"@,
            Diagnostic::Unauthorized { .. } => "err-unauthorized"@,
            Diagnostic::ValidationError { .. } => "err-validation-error"@,
            Diagnostic::Unknown => "err-unknown"@,
            Diagnostic::InvalidBaseUrl => "expect-invalid-base-url"@,
            Diagnostic::InvalidMacroBaseUrl => "expect-invalid-macro-base-url"@,
            Diagnostic::InvalidPeriod => "expect-invalid-period-calculation"@,
            Diagnostic::RedisLimitError { .. } => "redis-limit-error"@,
        },
{
}

} // verus!

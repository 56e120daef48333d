//! The error kinds that the engine surfaces at its boundary.

use vstd::prelude::*;
use vstd::string::StringExecFns;

verus! {

/// Why a module URL was refused before any fetch.
#[derive(Debug, PartialEq, Eq)]
pub enum InvalidUrl {
    /// The text is not a URL.
    ParseError,
    /// No loader claims the URL's scheme and origin.
    RejectedOrigin,
    /// The URL carries a user name or a password.
    CredentialsNotAllowed,
    /// The loader does not accept the URL's path.
    InvalidPath,
}

/// Why a module could not be fetched. Where the failure came from the
/// transport or the file system, the variant carries its message.
#[derive(Debug, PartialEq, Eq)]
pub enum WebError {
    /// The request could not be completed, or the host answered with an
    /// error status; trying again later may succeed.
    TemporaryFailure(String),
    /// The HTTP client could not be set up, or the answer could not be read.
    ReqwestError(String),
    /// The source holds nothing that can be taken for a WebAssembly module.
    NotWasm,
    /// The artifact exceeds the size that the service accepts.
    TooLarge,
    /// No credentials are available for the code host.
    NoCredentials,
    /// Reading a local file failed.
    IoError(String),
    /// Every candidate failed; each tried path with its own error.
    Multiple(Vec<(String, WebError)>),
}

/// An error of the service façade.
#[derive(Debug, PartialEq, Eq)]
pub enum Error {
    /// The guest trapped, or the engine reported an error of its own.
    Wasm(String),
    InvalidModuleName,
    ModuleNotFound,
    FunctionNotFound,
    WrongFunctionType,
    MemoryNotExported,
    InvalidPointer,
    TimedOut,
    InvalidUrl(InvalidUrl),
    CannotFetch(WebError),
    /// The module of this name was loaded from this URL, which now
    /// resolves to another name.
    ModuleGone(String, String),
}

impl InvalidUrl {
    /// The text that describes the error to a user.
    pub fn message(&self) -> (text: &'static str)
        ensures
            text@ == match self {
                InvalidUrl::ParseError => "url cannot be parsed"@,
                InvalidUrl::RejectedOrigin => "rejected origin"@,
                InvalidUrl::CredentialsNotAllowed => "url cannot contain username or password"@,
                InvalidUrl::InvalidPath => "invalid path"@,
            },
    {
        match self {
            InvalidUrl::ParseError => "url cannot be parsed",
            InvalidUrl::RejectedOrigin => "rejected origin",
            InvalidUrl::CredentialsNotAllowed => "url cannot contain username or password",
            InvalidUrl::InvalidPath => "invalid path",
        }
    }
}

/// The text that describes an error of fetching.
pub open spec fn web_error_text(e: WebError) -> Seq<char>
    decreases e,
{
    match e {
        WebError::TemporaryFailure(message) => "temporary failure: "@ + message@,
        WebError::ReqwestError(message) => "web client error: "@ + message@,
        WebError::NotWasm => "not a webassembly module"@,
        WebError::TooLarge => "file too large"@,
        WebError::NoCredentials => "missing credentials"@,
        WebError::IoError(_) => "I/O error"@,
        WebError::Multiple(errors) => "multiple errors: ["@ + attempts_text(
            errors@,
            errors@.len() as int,
        ) + "]"@,
    }
}

/// The text that describes the first `n` of the attempts: for each its
/// path and the text of its error, with `; ` between the attempts.
pub open spec fn attempts_text(errors: Seq<(String, WebError)>, n: int) -> Seq<char>
    decreases errors, n,
{
    if n <= 0 || n > errors.len() {
        Seq::empty()
    } else {
        attempts_text(errors, n - 1) + (if n > 1 {
            "; "@
        } else {
            Seq::empty()
        }) + errors[n - 1].0@ + ": "@ + web_error_text(errors[n - 1].1)
    }
}

/// The text that describes an error of the service.
pub open spec fn error_text(e: Error) -> Seq<char> {
    match e {
        Error::Wasm(message) => "wasm runtime error: "@ + message@,
        Error::InvalidModuleName => "invalid module name"@,
        Error::ModuleNotFound => "no such module"@,
        Error::FunctionNotFound => "no such function"@,
        Error::WrongFunctionType => "wrong function signature"@,
        Error::MemoryNotExported => "memory is not exported"@,
        Error::InvalidPointer => "invalid pointer"@,
        Error::TimedOut => "execution timed out"@,
        Error::InvalidUrl(reason) => "invalid url: "@ + (match reason {
            InvalidUrl::ParseError => "url cannot be parsed"@,
            InvalidUrl::RejectedOrigin => "rejected origin"@,
            InvalidUrl::CredentialsNotAllowed => "url cannot contain username or password"@,
            InvalidUrl::InvalidPath => "invalid path"@,
        }),
        Error::CannotFetch(reason) => "error while fetching url: "@ + web_error_text(reason),
        Error::ModuleGone(name, url) => "module "@ + name@ + " previously at url "@ + url@
            + " not found"@,
    }
}

impl WebError {
    /// The text that describes the error to a user.
    pub fn message(&self) -> (text: String)
        ensures
            text@ == web_error_text(*self),
        decreases self,
    {
        match self {
            WebError::TemporaryFailure(message) => {
                let mut text = "temporary failure: ".to_owned();
                text.append(message.as_str());
                text
            },
            WebError::ReqwestError(message) => {
                let mut text = "web client error: ".to_owned();
                text.append(message.as_str());
                text
            },
            WebError::NotWasm => "not a webassembly module".to_owned(),
            WebError::TooLarge => "file too large".to_owned(),
            WebError::NoCredentials => "missing credentials".to_owned(),
            WebError::IoError(_) => "I/O error".to_owned(),
            WebError::Multiple(errors) => {
                let mut text = "multiple errors: [".to_owned();
                text.append(attempts_message(errors, errors.len()).as_str());
                text.append("]");
                text
            },
        }
    }
}

/// The text that describes the first `n` of the attempts.
fn attempts_message(errors: &Vec<(String, WebError)>, n: usize) -> (text: String)
    requires
        n <= errors@.len(),
    ensures
        text@ == attempts_text(errors@, n as int),
    decreases errors@, n,
{
    if n == 0 {
        String::new()
    } else {
        let mut text = attempts_message(errors, n - 1);
        if n > 1 {
            text.append("; ");
        }
        text.append(errors[n - 1].0.as_str());
        text.append(": ");
        text.append(errors[n - 1].1.message().as_str());
        text
    }
}

impl Error {
    /// The text that describes the error to a user.
    pub fn message(&self) -> (text: String)
        ensures
            text@ == error_text(*self),
    {
        match self {
            Error::Wasm(message) => {
                let mut text = "wasm runtime error: ".to_owned();
                text.append(message.as_str());
                text
            },
            Error::InvalidModuleName => "invalid module name".to_owned(),
            Error::ModuleNotFound => "no such module".to_owned(),
            Error::FunctionNotFound => "no such function".to_owned(),
            Error::WrongFunctionType => "wrong function signature".to_owned(),
            Error::MemoryNotExported => "memory is not exported".to_owned(),
            Error::InvalidPointer => "invalid pointer".to_owned(),
            Error::TimedOut => "execution timed out".to_owned(),
            Error::InvalidUrl(reason) => {
                let mut text = "invalid url: ".to_owned();
                text.append(reason.message());
                text
            },
            Error::CannotFetch(reason) => {
                let mut text = "error while fetching url: ".to_owned();
                text.append(reason.message().as_str());
                text
            },
            Error::ModuleGone(name, url) => {
                let mut text = "module ".to_owned();
                text.append(name.as_str());
                text.append(" previously at url ");
                text.append(url.as_str());
                text.append(" not found");
                text
            },
        }
    }
}

impl From<InvalidUrl> for Error {
    fn from(value: InvalidUrl) -> (r: Error)
    {
        Error::InvalidUrl(value)
    }
}

impl vstd::std_specs::convert::FromSpecImpl<InvalidUrl> for Error {
    open spec fn obeys_from_spec() -> bool {
        true
    }

    open spec fn from_spec(value: InvalidUrl) -> Error {
        Error::InvalidUrl(value)
    }
}

impl From<WebError> for Error {
    fn from(value: WebError) -> (r: Error)
    {
        Error::CannotFetch(value)
    }
}

impl vstd::std_specs::convert::FromSpecImpl<WebError> for Error {
    open spec fn obeys_from_spec() -> bool {
        true
    }

    open spec fn from_spec(value: WebError) -> Error {
        Error::CannotFetch(value)
    }
}

} // verus!

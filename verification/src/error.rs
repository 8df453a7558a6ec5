//! The failures of the host, and what each looks like to an HTTP client.

use vstd::prelude::*;
use crate::module::ModuleError;
use crate::settings::DapSettingsError;
use vstd::string::StringExecFns;
use crate::text::concatenate;

verus! {

/// Everything that can go wrong while the host serves a request or scans
/// for daps.
#[derive(Debug, PartialEq, Eq)]
pub enum ServerError {
    /// No dap of this name is registered, or the name is not open to the
    /// request.
    DapNotFound(String),
    /// The settings of a dap could not be loaded or saved.
    Settings(DapSettingsError),
    /// The module of a dap could not be loaded, or is not running.
    Module(ModuleError),
    /// The file system failed during discovery; the text says how.
    Io(String),
    /// The body of an administrative request is malformed; the text says
    /// how.
    Request(String),
}

/// What an operation of the host ends with.
pub type ServerResult<T> = Result<T, ServerError>;

/// The class of a failure, as a client is told it.
#[derive(Clone, Copy, Debug, PartialEq, Eq, Structural)]
pub enum ErrorKind {
    NotFound,
    Settings,
    Module,
    Io,
    Request,
}

/// The class of an error.
pub open spec fn kind_of(error: ServerError) -> ErrorKind {
    match error {
        ServerError::DapNotFound(_) => ErrorKind::NotFound,
        ServerError::Settings(_) => ErrorKind::Settings,
        ServerError::Module(_) => ErrorKind::Module,
        ServerError::Io(_) => ErrorKind::Io,
        ServerError::Request(_) => ErrorKind::Request,
    }
}

/// The HTTP status that reports an error: 404 for an unknown dap, 400 for a
/// malformed request, 503 for a dap whose module is not running because the
/// dap is disabled or not loaded, and 500 for every other failure.
pub open spec fn status_of(error: ServerError) -> u16 {
    match error {
        ServerError::DapNotFound(_) => 404,
        ServerError::Request(_) => 400,
        ServerError::Module(ModuleError::Disabled) => 503,
        ServerError::Module(ModuleError::NotLoaded) => 503,
        ServerError::Module(_) => 500,
        ServerError::Settings(_) => 500,
        ServerError::Io(_) => 500,
    }
}

/// What an error says of itself in the body of an error response.
pub open spec fn message_of(error: ServerError) -> Seq<char> {
    match error {
        ServerError::DapNotFound(name) => "dap not found: "@ + name@,
        ServerError::Settings(DapSettingsError::NotFound) => "settings not found"@,
        ServerError::Settings(DapSettingsError::Parse(reason)) => "settings are malformed: "@
            + reason@,
        ServerError::Settings(DapSettingsError::Io(reason)) => "settings could not be kept: "@
            + reason@,
        ServerError::Module(ModuleError::Disabled) => "dap is disabled"@,
        ServerError::Module(ModuleError::NotLoaded) => "dap is not loaded"@,
        ServerError::Module(ModuleError::Unreadable(reason)) => "module could not be read: "@
            + reason@,
        ServerError::Module(ModuleError::Compile(reason)) => "module was rejected: "@ + reason@,
        ServerError::Module(ModuleError::Instantiate(reason)) => "module did not start: "@
            + reason@,
        ServerError::Io(reason) => "file system failed: "@ + reason@,
        ServerError::Request(reason) => "malformed request: "@ + reason@,
    }
}

impl ServerError {
    /// What this error says of itself in the body of an error response.
    pub fn message(&self) -> (r: String)
        ensures
            r@ == message_of(*self),
    {
        match self {
            ServerError::DapNotFound(name) => concatenate("dap not found: ", name.as_str()),
            ServerError::Settings(DapSettingsError::NotFound) => String::from_str(
                "settings not found",
            ),
            ServerError::Settings(DapSettingsError::Parse(reason)) => concatenate(
                "settings are malformed: ",
                reason.as_str(),
            ),
            ServerError::Settings(DapSettingsError::Io(reason)) => concatenate(
                "settings could not be kept: ",
                reason.as_str(),
            ),
            ServerError::Module(ModuleError::Disabled) => String::from_str("dap is disabled"),
            ServerError::Module(ModuleError::NotLoaded) => String::from_str("dap is not loaded"),
            ServerError::Module(ModuleError::Unreadable(reason)) => concatenate(
                "module could not be read: ",
                reason.as_str(),
            ),
            ServerError::Module(ModuleError::Compile(reason)) => concatenate(
                "module was rejected: ",
                reason.as_str(),
            ),
            ServerError::Module(ModuleError::Instantiate(reason)) => concatenate(
                "module did not start: ",
                reason.as_str(),
            ),
            ServerError::Io(reason) => concatenate("file system failed: ", reason.as_str()),
            ServerError::Request(reason) => concatenate("malformed request: ", reason.as_str()),
        }
    }

    /// The class of this error.
    pub fn kind(&self) -> (r: ErrorKind)
        ensures
            r == kind_of(*self),
    {
        match self {
            ServerError::DapNotFound(_) => ErrorKind::NotFound,
            ServerError::Settings(_) => ErrorKind::Settings,
            ServerError::Module(_) => ErrorKind::Module,
            ServerError::Io(_) => ErrorKind::Io,
            ServerError::Request(_) => ErrorKind::Request,
        }
    }

    /// The HTTP status that reports this error; never a success status.
    pub fn status(&self) -> (r: u16)
        ensures
            r == status_of(*self),
            400 <= r < 600,
    {
        match self {
            ServerError::DapNotFound(_) => 404,
            ServerError::Request(_) => 400,
            ServerError::Module(ModuleError::Disabled) => 503,
            ServerError::Module(ModuleError::NotLoaded) => 503,
            ServerError::Module(_) => 500,
            ServerError::Settings(_) => 500,
            ServerError::Io(_) => 500,
        }
    }
}

impl ErrorKind {
    /// The word for this class in the body of an error response.
    pub fn as_str(&self) -> (r: &'static str)
        ensures
            r@ == kind_word(*self),
    {
        match self {
            ErrorKind::NotFound => "not_found",
            ErrorKind::Settings => "settings",
            ErrorKind::Module => "module",
            ErrorKind::Io => "io",
            ErrorKind::Request => "request",
        }
    }
}

/// The word for a class in the body of an error response.
pub open spec fn kind_word(kind: ErrorKind) -> Seq<char> {
    match kind {
        ErrorKind::NotFound => "not_found"@,
        ErrorKind::Settings => "settings"@,
        ErrorKind::Module => "module"@,
        ErrorKind::Io => "io"@,
        ErrorKind::Request => "request"@,
    }
}

} // verus!

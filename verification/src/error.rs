//! Error types for stilch, and helpers that turn errors into defaults.
use crate::text::{concat_str, decimal, decimal_chars};
use crate::window::{ContainerId, WindowId};
use vstd::prelude::*;

verus! {

/// Main error type for stilch operations
#[derive(Debug)]
pub enum StilchError {
    /// Window not found in registry
    WindowNotFound(WindowId),
    /// Surface has no associated window
    SurfaceNotMapped,
    /// Client is missing required compositor state
    ClientStateMissing,
    /// Invalid window operation
    InvalidOperation(String),
    /// Workspace not found
    WorkspaceNotFound(u8),
    /// Virtual output not found
    VirtualOutputNotFound(usize),
    /// Container not found
    ContainerNotFound(ContainerId),
    /// Configuration error
    Config(String),
    /// Rendering error
    Render(String),
    /// IO error, with the text of the system's error
    Io(String),
    /// Wayland protocol error
    Wayland(String),
    /// Backend-specific error
    Backend(String),
}

/// The text of an error.
pub open spec fn stilch_error_text(e: StilchError) -> Seq<char> {
    match e {
        StilchError::WindowNotFound(id) => "Window WindowId { id: "@ + decimal_chars(id.id as nat)
            + " } not found"@,
        StilchError::SurfaceNotMapped => "Surface has no associated window"@,
        StilchError::ClientStateMissing => "Client is missing compositor state"@,
        StilchError::InvalidOperation(m) => "Invalid window operation: "@ + m@,
        StilchError::WorkspaceNotFound(n) => "Workspace "@ + decimal_chars(n as nat) + " not found"@,
        StilchError::VirtualOutputNotFound(n) => "Virtual output "@ + decimal_chars(n as nat)
            + " not found"@,
        StilchError::ContainerNotFound(c) => "Container ContainerId { id: "@ + decimal_chars(
            c.id as nat,
        ) + " } not found"@,
        StilchError::Config(m) => "Configuration error: "@ + m@,
        StilchError::Render(m) => "Rendering error: "@ + m@,
        StilchError::Io(m) => "IO error: "@ + m@,
        StilchError::Wayland(m) => "Wayland error: "@ + m@,
        StilchError::Backend(m) => "Backend error: "@ + m@,
    }
}

impl StilchError {
    /// The error as text.
    pub fn to_string(&self) -> (s: String)
        ensures
            s@ == stilch_error_text(*self),
    {
        match self {
            StilchError::WindowNotFound(id) => concat_str(
                concat_str("Window WindowId { id: ".to_owned(), decimal(id.get() as u64).as_str()),
                " } not found",
            ),
            StilchError::SurfaceNotMapped => "Surface has no associated window".to_owned(),
            StilchError::ClientStateMissing => "Client is missing compositor state".to_owned(),
            StilchError::InvalidOperation(m) => concat_str(
                "Invalid window operation: ".to_owned(),
                m.as_str(),
            ),
            StilchError::WorkspaceNotFound(n) => concat_str(
                concat_str("Workspace ".to_owned(), decimal(*n as u64).as_str()),
                " not found",
            ),
            StilchError::VirtualOutputNotFound(n) => concat_str(
                concat_str("Virtual output ".to_owned(), decimal(*n as u64).as_str()),
                " not found",
            ),
            StilchError::ContainerNotFound(c) => concat_str(
                concat_str("Container ContainerId { id: ".to_owned(), decimal(c.id).as_str()),
                " } not found",
            ),
            StilchError::Config(m) => concat_str("Configuration error: ".to_owned(), m.as_str()),
            StilchError::Render(m) => concat_str("Rendering error: ".to_owned(), m.as_str()),
            StilchError::Io(m) => concat_str("IO error: ".to_owned(), m.as_str()),
            StilchError::Wayland(m) => concat_str("Wayland error: ".to_owned(), m.as_str()),
            StilchError::Backend(m) => concat_str("Backend error: ".to_owned(), m.as_str()),
        }
    }
}

/// Extension trait for Option to convert to Result with error context
pub trait OptionExt<T>: Sized {
    /// Convert None to an error with context
    fn ok_or_log<F: FnOnce() -> StilchError>(self, error_fn: F) -> (r: Result<T, StilchError>)
        requires
            call_requires(error_fn, ()),
    ;
}

impl<T> OptionExt<T> for Option<T> {
    /// The value, or the error `error_fn` makes where there is none.
    fn ok_or_log<F: FnOnce() -> StilchError>(self, error_fn: F) -> (r: Result<T, StilchError>)
        ensures
            match self {
                Some(v) => r == Ok::<T, StilchError>(v),
                None => r matches Err(e) && call_ensures(error_fn, (), e),
            },
    {
        match self {
            Some(val) => Ok(val),
            None => {
                let err = error_fn();
                Err(err)
            },
        }
    }
}

/// For operations whose errors are reported but not propagated: the value of
/// a success, `None` for an error. Reporting the error is the caller's part
/// (the program's logging does it before handing the result here).
pub fn log_error<T, E>(result: Result<T, E>) -> (r: Option<T>)
    ensures
        match result {
            Ok(v) => r == Some(v),
            Err(_) => r is None,
        },
{
    match result {
        Ok(val) => Some(val),
        Err(_) => None,
    }
}

/// For operations whose errors are reported and replaced by a default: the
/// value of a success, the type's default for an error. Reporting the error
/// is the caller's part (the program's logging does it before handing the
/// result here).
pub fn log_error_default<T: Default, E>(result: Result<T, E>) -> (r: T)
    ensures
        match result {
            Ok(v) => r == v,
            Err(_) => call_ensures(T::default, (), r),
        },
{
    match result {
        Ok(val) => val,
        Err(_) => T::default(),
    }
}

} // verus!

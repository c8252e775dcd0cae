//! Typed errors for session construction and interface enumeration.

use vstd::prelude::*;
use vstd::string::StringExecFns;

verus! {

/// Failure while enumerating network interfaces. It carries the display text
/// of the underlying I/O-style cause.
#[derive(Debug)]
pub enum InterfaceError {
    Io(String),
}

impl InterfaceError {
    /// The human-readable text of this error.
    pub open spec fn message_view(&self) -> Seq<char> {
        match self {
            InterfaceError::Io(cause) => "interface error: "@ + cause@,
        }
    }

    pub fn message(&self) -> (r: String)
        ensures
            r@ == self.message_view(),
    {
        match self {
            InterfaceError::Io(cause) => {
                let mut s = String::from_str("interface error: ");
                s.append(cause.as_str());
                s
            },
        }
    }
}

/// A fatal, startup-time failure of session construction.
#[derive(Debug)]
pub enum AppError {
    /// An explicitly requested interface is absent from the enumerated list;
    /// carries the requested name verbatim.
    InterfaceNotFound(String),
    /// Interface enumeration itself failed.
    Interface(InterfaceError),
    /// Capturing needs an elevated capability that the process lacks.
    PermissionDenied,
    /// Enumeration succeeded but returned an empty list.
    NoInterfaces,
}

impl AppError {
    /// The human-readable text of this error.
    pub open spec fn message_view(&self) -> Seq<char> {
        match self {
            AppError::InterfaceNotFound(name) => "interface not found: "@ + name@,
            AppError::Interface(e) => e.message_view(),
            AppError::PermissionDenied => "permission denied (requires CAP_NET_RAW and sudo)"@,
            AppError::NoInterfaces => "no network interfaces found"@,
        }
    }

    pub fn message(&self) -> (r: String)
        ensures
            r@ == self.message_view(),
    {
        match self {
            AppError::InterfaceNotFound(name) => {
                let mut s = String::from_str("interface not found: ");
                s.append(name.as_str());
                s
            },
            AppError::Interface(e) => e.message(),
            AppError::PermissionDenied => String::from_str(
                "permission denied (requires CAP_NET_RAW and sudo)",
            ),
            AppError::NoInterfaces => String::from_str("no network interfaces found"),
        }
    }
}

} // verus!

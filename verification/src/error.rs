use vstd::prelude::*;

use crate::text::{int_dec, push_i64, push_str};

verus! {

/// Errors of the process sources and of the output formats.
#[derive(Debug, Clone)]
pub enum PrexpError {
    ProcessNotFound { pid: i32 },
    PermissionDenied { pid: i32 },
    Backend(String),
    /// Serialization failed; carries the serializer's message.
    Serialization(String),
    /// An I/O operation failed; carries the system's message.
    Io(String),
}

/// A second name of the error type, for callers that use it.
pub type FdtopError = PrexpError;

/// The message of an error, as it is displayed to the user.
pub open spec fn error_message(e: PrexpError) -> Seq<char> {
    match e {
        PrexpError::ProcessNotFound { pid } => "process "@ + int_dec(pid as int) + " not found"@,
        PrexpError::PermissionDenied { pid } => "permission denied for process "@ + int_dec(pid as int),
        PrexpError::Backend(s) => "backend error: "@ + s@,
        PrexpError::Serialization(s) => "serialization error: "@ + s@,
        PrexpError::Io(s) => "IO error: "@ + s@,
    }
}

impl PrexpError {
    /// The message of the error.
    pub fn message(&self) -> (r: String)
        ensures
            r@ == error_message(*self),
    {
        let mut s = String::new();
        match self {
            PrexpError::ProcessNotFound { pid } => {
                push_str(&mut s, "process ");
                push_i64(&mut s, *pid as i64);
                push_str(&mut s, " not found");
            },
            PrexpError::PermissionDenied { pid } => {
                push_str(&mut s, "permission denied for process ");
                push_i64(&mut s, *pid as i64);
            },
            PrexpError::Backend(m) => {
                push_str(&mut s, "backend error: ");
                push_str(&mut s, m.as_str());
            },
            PrexpError::Serialization(m) => {
                push_str(&mut s, "serialization error: ");
                push_str(&mut s, m.as_str());
            },
            PrexpError::Io(m) => {
                push_str(&mut s, "IO error: ");
                push_str(&mut s, m.as_str());
            },
        }
        assert(s@ =~= error_message(*self));
        s
    }
}

} // verus!

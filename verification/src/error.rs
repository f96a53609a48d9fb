//! Errors of RAPL reads.

use vstd::prelude::*;

verus! {

/// Why a RAPL register could not be read.
#[derive(Clone, Copy, Debug, PartialEq, Eq, Structural)]
pub enum RaplError {
    /// The operating system refused the driver request; the error code it returned.
    Windows(i32),
    /// Any other failure.
    Unknown,
}

impl RaplError {
    /// The human-readable text of the error.
    pub fn message(&self) -> (res: &'static str)
        ensures
            res@ == (match self {
                RaplError::Windows(_) => "windows error"@,
                RaplError::Unknown => "unknown RAPL error"@,
            }),
    {
        match self {
            RaplError::Windows(_) => "windows error",
            RaplError::Unknown => "unknown RAPL error",
        }
    }
}

} // verus!

//! Error kinds reported by the engine.

use vstd::prelude::*;

verus! {

/// Every failure the engine can report. None of these is retried: each one
/// propagates to the caller and terminates the run.
#[derive(Clone, Copy, Debug, PartialEq, Eq, Structural)]
pub enum EngineError {
    /// No compatible compute device was found, or device/queue creation was
    /// refused. Fatal at startup.
    DeviceUnavailable,
    /// A size parameter is zero, or the model dimension is not divisible by
    /// three. Detected before any buffer allocation.
    InvalidConfiguration,
    /// The document-to-text collaborator failed to start or exited
    /// abnormally.
    ExternalConversionFailure,
    /// A device upload or download failed to complete; no partial output is
    /// returned.
    TransferFailure,
    /// A defensive check found a memory normalizer entry negative or
    /// non-finite, which indicates an accumulation bug.
    NumericDegeneracy,
}

impl EngineError {
    /// A short description of the failure, for reporting at the process
    /// boundary.
    pub fn describe(&self) -> (r: &'static str)
        ensures
            self is DeviceUnavailable ==> r@ == "no compatible compute device found"@,
            self is InvalidConfiguration ==> r@ == "invalid configuration"@,
            self is ExternalConversionFailure ==> r@ == "document conversion failed"@,
            self is TransferFailure ==> r@ == "device transfer failed"@,
            self is NumericDegeneracy ==> r@ == "memory normalizer degenerated"@,
    {
        match self {
            EngineError::DeviceUnavailable => "no compatible compute device found",
            EngineError::InvalidConfiguration => "invalid configuration",
            EngineError::ExternalConversionFailure => "document conversion failed",
            EngineError::TransferFailure => "device transfer failed",
            EngineError::NumericDegeneracy => "memory normalizer degenerated",
        }
    }
}

} // verus!

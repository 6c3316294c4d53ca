//! Error taxonomy of the pipeline.

use vstd::prelude::*;
use vstd::string::StringExecFns;

verus! {

/// Everything that can go wrong inside one pipeline invocation.
///
/// `NotAvailable` (no image on the clipboard) is not represented here: it is
/// the normal idle case and is modelled as an absent snapshot, not an error.
#[derive(Debug)]
pub enum PipelineError {
    /// Zero-length pixel data was handed to the fingerprinter.
    EmptyInput,
    /// The pixel buffer length is inconsistent with the declared dimensions.
    BufferSizeMismatch,
    /// The lossless compression step could not produce output; carries the
    /// underlying cause text.
    EncodeFailure(String),
    /// The mutual-exclusion primitive protecting the dedup state could not be
    /// acquired by the host shell.
    LockFailure,
}

impl PipelineError {
    /// The human-readable description of this error.
    pub open spec fn spec_message(self) -> Seq<char> {
        match self {
            PipelineError::EmptyInput => "Empty RGBA data"@,
            PipelineError::BufferSizeMismatch => "RGBA buffer length does not match width*height*4"@,
            PipelineError::EncodeFailure(cause) => "PNG encoding failed: "@ + cause@,
            PipelineError::LockFailure => "Failed to lock hash mutex"@,
        }
    }

    /// Renders the error as a plain string for the caller.
    pub fn message(&self) -> (s: String)
        ensures
            s@ == self.spec_message(),
    {
        match self {
            PipelineError::EmptyInput => String::from_str("Empty RGBA data"),
            PipelineError::BufferSizeMismatch => {
                String::from_str("RGBA buffer length does not match width*height*4")
            },
            PipelineError::EncodeFailure(cause) => {
                let mut s = String::from_str("PNG encoding failed: ");
                s.append(cause.as_str());
                s
            },
            PipelineError::LockFailure => String::from_str("Failed to lock hash mutex"),
        }
    }
}

} // verus!

//! The failures of a bake. Each one is final: nothing is retried, and a bake
//! that failed leaves no partial output.

use vstd::prelude::*;

verus! {

/// Why a bake failed.
#[derive(Clone, Copy, Debug, PartialEq, Eq, Structural)]
pub enum BakeError {
    /// The data does not have the size that its stated shape asks for.
    InvalidSize,
    /// No device that can run compute kernels was found.
    NoGPUFound,
    /// The device did not hand a mip level back to the host.
    ReadbackFailed,
    /// The container file could not be written.
    ContainerWriteFailed,
}

impl BakeError {
    /// The words in which the failure is reported.
    pub open spec fn text(self) -> Seq<char> {
        match self {
            BakeError::InvalidSize => "The source files are not the same size"@,
            BakeError::NoGPUFound => "Error requesting GPU adapter"@,
            BakeError::ReadbackFailed => "Error reading the cubemap back from the GPU"@,
            BakeError::ContainerWriteFailed => "Error writing the container file"@,
        }
    }

    /// The words in which the failure is reported.
    pub fn message(self) -> (message: &'static str)
        ensures
            message@ == self.text(),
    {
        match self {
            BakeError::InvalidSize => "The source files are not the same size",
            BakeError::NoGPUFound => "Error requesting GPU adapter",
            BakeError::ReadbackFailed => "Error reading the cubemap back from the GPU",
            BakeError::ContainerWriteFailed => "Error writing the container file",
        }
    }
}

} // verus!

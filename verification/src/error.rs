//! Failure conditions of the firmware parse and directive build.

use vstd::prelude::*;

verus! {

/// Why parsing the firmware image or building the descriptor failed.
#[derive(Clone, Copy, Debug, PartialEq, Eq, Structural)]
pub enum BuildError {
    /// A metadata table is truncated, its length field is inconsistent with
    /// its position, or a payload is shorter than its format requires.
    MalformedTable,
    /// The fixed footer table near the end of the image does not carry the
    /// expected footer GUID.
    FooterNotFound,
    /// The firmware declares more prevalidated memory regions than the
    /// descriptor format admits.
    TooManyRegions,
    /// The firmware image does not fit below the 4 GiB boundary.
    FirmwareTooLarge,
}

impl BuildError {
    /// A short description of the failure, for reporting.
    pub fn message(&self) -> (r: &'static str)
    {
        match self {
            BuildError::MalformedTable => "Invalid metadata table in OVMF firmware",
            BuildError::FooterNotFound => "OVMF table footer not found",
            BuildError::TooManyRegions => "OVMF metadata defines too many memory regions",
            BuildError::FirmwareTooLarge => "OVMF firmware is too large",
        }
    }
}

} // verus!

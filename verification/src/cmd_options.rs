//! The run-wide options: file names, processor count, and the isolation
//! platform the descriptor is built for.

use vstd::prelude::*;

verus! {

/// The isolation technology the guest is launched under.
#[derive(Copy, Clone, Debug, PartialEq, Eq, Structural)]
pub enum Platform {
    /// AMD SEV
    Sev,
    /// AMD SEV-ES
    SevEs,
    /// AMD SEV-SNP
    SevSnp,
    /// An X86-64 platform that does not include support for any isolation
    /// technology
    Native,
}

/// Options that select the input firmware, the output path, the number of
/// virtual processors and the isolation platform for one run.
#[derive(Clone, Debug)]
pub struct CmdOptions {
    /// Firmware file, e.g. OVMF.fd
    pub firmware: String,

    /// Output filename for the generated IGVM file
    pub output: String,

    /// Number of virtual processors to describe
    pub cpucount: u16,

    /// Print verbose output
    pub verbose: bool,

    /// The isolation platform to build the descriptor for
    pub platform: Platform,
}

} // verus!

//! Error kinds surfaced by the library.

use vstd::prelude::*;

verus! {

/// A representation of all possible errors.
#[derive(Debug)]
pub enum Error {
    /// The address for the target and detour are identical.
    SameAddress,
    /// The address does not contain valid instructions.
    InvalidCode,
    /// The address has no available area for patching.
    NoPatchArea,
    /// The address is not executable memory.
    NotExecutable,
    /// The detour is not initialized.
    NotInitialized,
    /// The detour is already initialized.
    AlreadyInitialized,
    /// The system is out of executable memory.
    OutOfMemory,
    /// The address contains an instruction that prevents detouring.
    UnsupportedInstruction,
    /// A memory operation failed; holds the description of the failure.
    RegionFailure(String),
}

impl Error {
    /// Returns a human readable description of the error.
    pub fn message(&self) -> String {
        match self {
            Error::SameAddress => String::from_str("Target and detour address is the same"),
            Error::InvalidCode => String::from_str("Address contains invalid assembly"),
            Error::NoPatchArea => String::from_str("Cannot find an inline patch area"),
            Error::NotExecutable => String::from_str("Address is not executable"),
            Error::NotInitialized => String::from_str("Detour is not initialized"),
            Error::AlreadyInitialized => String::from_str("Detour is already initialized"),
            Error::OutOfMemory => String::from_str("Cannot allocate memory"),
            Error::UnsupportedInstruction => String::from_str(
                "Address contains an unsupported instruction",
            ),
            Error::RegionFailure(message) => message.clone(),
        }
    }
}

} // verus!

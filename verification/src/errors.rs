//! The failure taxonomy of the install and uninstall flows.
use vstd::prelude::*;

verus! {

/// Why an install or uninstall run aborted. Every error aborts the run in
/// full; the documented recovery is re-invoking the same operation, every
/// step of which is idempotent.
#[derive(Clone, Copy, Debug, PartialEq, Eq, Structural)]
pub enum Error {
    /// The per-user data root cannot be resolved by the host.
    Configuration,
    /// The executable to install cannot be located.
    MissingArtifact,
    /// Directory creation or file copy failed.
    Io,
    /// The persisted path list cannot be opened or written.
    PathListAccess,
}

impl Error {
    /// The failure reason, as printed for the user.
    pub fn message(&self) -> (r: &'static str)
        ensures
            self is Configuration ==> r@ == "Could not determine local data directory."@,
            self is MissingArtifact ==> r@
                == "lcli.exe not found next to the installer. Both files must be in the same folder."@,
            self is Io ==> r@ == "A file or directory operation failed."@,
            self is PathListAccess ==> r@
                == "The user PATH list could not be opened or written."@,
    {
        match self {
            Error::Configuration => "Could not determine local data directory.",
            Error::MissingArtifact => "lcli.exe not found next to the installer. Both files must be in the same folder.",
            Error::Io => "A file or directory operation failed.",
            Error::PathListAccess => "The user PATH list could not be opened or written.",
        }
    }
}

} // verus!

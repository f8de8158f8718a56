//! The errors of the installer.

use vstd::prelude::*;

verus! {

/// Everything that can stop the installer.
#[derive(Debug)]
pub enum InstallerError {
    /// `dialog` ended in a way that the installer does not expect.
    Dialog(String),
    /// There is no disk to install on.
    NoDisks,
    /// The user backed out.
    Cancelled,
    /// Reading or writing failed.
    IO(std::io::Error),
    /// A JSON document could not be read.
    Serialization(serde_json::Error),
    /// The partitioning shell failed.
    ShellError,
    /// Nothing is mounted at `/mnt`.
    ValidationMissingRoot,
    /// No partition plan was made.
    PartitionPlanMissing,
    /// A command of the installation failed; the text names it.
    InstallError(String),
}

} // verus!

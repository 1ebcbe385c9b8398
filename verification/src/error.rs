//! The failures that the setup tooling reports.

use vstd::prelude::*;

verus! {

/// Why an operation on setups, conductors or admin connections failed.
#[derive(Clone, Copy, Debug, PartialEq, Eq, Structural)]
pub enum HcError {
    /// The manifest could not be read or written.
    Io,
    /// A selection names an entry that the registry does not hold.
    InvalidIndex { index: usize },
    /// The conductor binary could not be started.
    ProcessSpawn,
    /// The conductor never announced an admin port.
    LaunchTimeout,
    /// The admin connection to `port` could not be opened.
    Connect { port: u16 },
    /// A request could not be written, or its response never arrived.
    Request,
    /// One target was needed and the registry holds `count` entries.
    AmbiguousSelection { count: usize },
}

/// The name of each kind of failure.
pub open spec fn kind_name(error: HcError) -> Seq<char> {
    match error {
        HcError::Io => "IoError"@,
        HcError::InvalidIndex { .. } => "InvalidIndex"@,
        HcError::ProcessSpawn => "ProcessSpawnError"@,
        HcError::LaunchTimeout => "LaunchTimeout"@,
        HcError::Connect { .. } => "ConnectError"@,
        HcError::Request => "RequestError"@,
        HcError::AmbiguousSelection { .. } => "AmbiguousSelection"@,
    }
}

impl HcError {
    /// The name of this kind of failure, as it is reported.
    pub fn kind(&self) -> (name: &'static str)
        ensures
            name@ == kind_name(*self),
    {
        match self {
            HcError::Io => "IoError",
            HcError::InvalidIndex { .. } => "InvalidIndex",
            HcError::ProcessSpawn => "ProcessSpawnError",
            HcError::LaunchTimeout => "LaunchTimeout",
            HcError::Connect { .. } => "ConnectError",
            HcError::Request => "RequestError",
            HcError::AmbiguousSelection { .. } => "AmbiguousSelection",
        }
    }
}

} // verus!

//! Failures that end a transfer or the whole run.

use vstd::prelude::*;
use vstd::string::StringExecFns;

verus! {

/// How an I/O failure is to be treated.
#[derive(Clone, Copy, Debug, PartialEq, Eq, Structural)]
pub enum IoErrorKind {
    /// The operation was interrupted before it moved any data and may be tried again.
    Interrupted,
    /// Any other failure; none of these is retried.
    Other,
}

/// A failure of a read, a write or a file creation.
#[derive(Clone, Debug, PartialEq, Eq)]
pub struct IoError {
    pub kind: IoErrorKind,
    pub message: String,
}

impl IoError {
    /// A failure that is not retried.
    pub fn other(message: &str) -> (e: IoError)
        ensures
            e.kind == IoErrorKind::Other,
            e.message@ == message@,
    {
        IoError { kind: IoErrorKind::Other, message: String::from_str(message) }
    }

    /// A transient interruption.
    pub fn interrupted(message: &str) -> (e: IoError)
        ensures
            e.kind == IoErrorKind::Interrupted,
            e.message@ == message@,
    {
        IoError { kind: IoErrorKind::Interrupted, message: String::from_str(message) }
    }

    /// Whether a read that failed with this error is simply tried again.
    pub open spec fn is_transient(&self) -> bool {
        self.kind == IoErrorKind::Interrupted
    }

    /// Executable form of [`IoError::is_transient`].
    pub fn transient(&self) -> (t: bool)
        ensures
            t == self.is_transient(),
    {
        match self.kind {
            IoErrorKind::Interrupted => true,
            IoErrorKind::Other => false,
        }
    }

    /// An equal error, for handing the same failure to two places.
    pub fn duplicate(&self) -> (e: IoError)
        ensures
            e == *self,
    {
        IoError { kind: self.kind, message: self.message.clone() }
    }
}

/// A condition that must hold before any work on an asset starts.
#[derive(Clone, Copy, Debug, PartialEq, Eq, Structural)]
pub enum PreconditionError {
    /// A file already stands where the asset would be written.
    DestinationExists,
    /// The install directory is missing.
    InstallDirMissing,
    /// The server configuration file cannot be opened for appending.
    ConfigUnavailable,
}

impl PreconditionError {
    /// What the user is told.
    pub open spec fn text(self) -> Seq<char> {
        match self {
            PreconditionError::DestinationExists => "Map file already exists!"@,
            PreconditionError::InstallDirMissing => "%KF2_INSTALL% folder does not exist!"@,
            PreconditionError::ConfigUnavailable =>
                "Could not open configuration file PCServer-KFGame.ini"@,
        }
    }

    /// What the user is told.
    pub fn message(&self) -> (message: String)
        ensures
            message@ == self.text(),
    {
        match self {
            PreconditionError::DestinationExists => String::from_str("Map file already exists!"),
            PreconditionError::InstallDirMissing => String::from_str(
                "%KF2_INSTALL% folder does not exist!",
            ),
            PreconditionError::ConfigUnavailable => String::from_str(
                "Could not open configuration file PCServer-KFGame.ini",
            ),
        }
    }
}

/// Why fetching an asset failed. Every one of these ends the run.
#[derive(Clone, Debug, PartialEq, Eq)]
pub enum FetchError {
    /// Nothing was attempted because a precondition did not hold.
    Precondition(PreconditionError),
    /// The remote endpoint could not be reached; the text says why.
    Connection(String),
    /// The endpoint answered with a status outside the success class.
    Http(u16),
    /// Creating, reading or writing failed locally or mid-stream.
    Io(IoError),
}

impl FetchError {
    /// What the user is told.
    pub open spec fn text(self) -> Seq<char> {
        match self {
            FetchError::Precondition(unmet) => unmet.text(),
            FetchError::Connection(detail) => "Error connecting to Tripwire CDN: "@ + detail@,
            FetchError::Http(_) => "Failed to fetch URL. Exiting."@,
            FetchError::Io(error) => error.message@,
        }
    }

    /// What the user is told.
    pub fn message(&self) -> (message: String)
        ensures
            message@ == self.text(),
    {
        match self {
            FetchError::Precondition(unmet) => unmet.message(),
            FetchError::Connection(detail) => String::from_str(
                "Error connecting to Tripwire CDN: ",
            ).concat(detail.as_str()),
            FetchError::Http(_) => String::from_str("Failed to fetch URL. Exiting."),
            FetchError::Io(error) => error.message.clone(),
        }
    }
}

} // verus!

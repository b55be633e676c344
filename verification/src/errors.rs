use vstd::prelude::*;

verus! {

/// The error taxonomy of the shell core. Every recoverable failure the
/// library can report is one of these variants; the dispatch loop prints
/// them and continues.
#[derive(Clone, Copy, Debug, PartialEq, Eq, Structural)]
pub enum ShellError {
    /// A path did not resolve to an existing directory.
    PathNotFound,
    /// A session with the requested name already exists.
    DuplicateSession,
    /// No session with the requested name exists.
    SessionNotFound,
    /// An external program could not be located or spawned.
    CommandNotFound,
    /// The assistant was asked to act without a credential.
    MissingCredential,
    /// The network client failed while contacting the model provider.
    TransportError,
    /// The credential could not be persisted to the configuration store.
    PersistError,
    /// A file could not be read or written.
    IOFailure,
}

impl ShellError {
    /// A human-readable description, for the unverified presentation layer.
    pub fn message(&self) -> (r: &'static str)
        ensures
            r@ == self.spec_message(),
    {
        match self {
            ShellError::PathNotFound => "directory not found",
            ShellError::DuplicateSession => "session with this name already exists",
            ShellError::SessionNotFound => "session not found",
            ShellError::CommandNotFound => "command not found",
            ShellError::MissingCredential => "no API credential is configured",
            ShellError::TransportError => "the network request failed",
            ShellError::PersistError => "the credential could not be saved",
            ShellError::IOFailure => "file could not be read or written",
        }
    }

    /// The description each variant carries.
    pub open spec fn spec_message(&self) -> Seq<char> {
        match self {
            ShellError::PathNotFound => "directory not found"@,
            ShellError::DuplicateSession => "session with this name already exists"@,
            ShellError::SessionNotFound => "session not found"@,
            ShellError::CommandNotFound => "command not found"@,
            ShellError::MissingCredential => "no API credential is configured"@,
            ShellError::TransportError => "the network request failed"@,
            ShellError::PersistError => "the credential could not be saved"@,
            ShellError::IOFailure => "file could not be read or written"@,
        }
    }
}

} // verus!

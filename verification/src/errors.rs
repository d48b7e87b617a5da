//! The error type shared by the whole crate.

use vstd::prelude::*;

verus! {

/// Everything that can go wrong while loading a project, materializing
/// its pods or planning a hook run.  Each variant carries the name or
/// path it is about, so callers can print a useful message.
#[derive(Debug, Clone)]
pub enum Error {
    /// No project marker was found walking upward from the start directory.
    ProjectNotFound,
    /// A directory listing could not be read; carries the directory path.
    DirectoryReadFailure { path: String },
    /// A file could not be read; carries the file path.
    FileReadFailure { path: String },
    /// An explicitly named pod or service does not exist in the project.
    NameResolutionFailure { name: String },
    /// A source reference yields no usable identifier; carries the reference.
    AliasDerivationFailure { source: String },
    /// The export destination already exists; carries the destination path.
    DestinationExists { path: String },
    /// A transform rejected or could not be applied to a merged document.
    TransformFailure { reason: String },
    /// A hook script or underlying tool failed; carries the command.
    ExternalCommandFailure { command: String },
}

impl Error {
    /// A short human-readable description of this error.
    pub fn describe(&self) -> String {
        match self {
            Error::ProjectNotFound => "no project found".to_owned(),
            Error::DirectoryReadFailure { path } => "cannot read directory ".to_owned().concat(
                path.as_str(),
            ),
            Error::FileReadFailure { path } => "cannot read file ".to_owned().concat(
                path.as_str(),
            ),
            Error::NameResolutionFailure { name } => "unknown pod or service ".to_owned().concat(
                name.as_str(),
            ),
            Error::AliasDerivationFailure { source } => "cannot derive an alias from "
                .to_owned()
                .concat(source.as_str()),
            Error::DestinationExists { path } => "the directory ".to_owned().concat(
                path.as_str(),
            ).concat(" already exists"),
            Error::TransformFailure { reason } => "transform failed: ".to_owned().concat(
                reason.as_str(),
            ),
            Error::ExternalCommandFailure { command } => "command failed: ".to_owned().concat(
                command.as_str(),
            ),
        }
    }
}

} // verus!

//! The failures that plugin management reports.

use vstd::prelude::*;
use vstd::string::*;

verus! {

/// Why an operation on the plugin catalogue failed.
#[derive(Clone, Debug, PartialEq, Eq)]
pub enum Error {
    /// No manifest or plugin at the requested location or in the registry.
    NotFound(String),
    /// The manifest document is malformed.
    ParseError(String),
    /// The manifest fails the host-version or platform gate; the text is the
    /// reason shown to the user.
    IncompatibleError(String),
    /// A registry lookup found the plugin, but no entry that the host can
    /// run; `required` is the host-version range that the entry asks for.
    IncompatibleCheckFailed { name: String, required: String },
    /// The candidate is older than what is installed and downgrades were not
    /// allowed.
    DowngradeNotAllowed { name: String, installed: String, candidate: String },
    /// The artifact downloaded for the plugin `name` does not have the
    /// package's checksum.
    ChecksumMismatch { name: String, expected: String, actual: String },
    /// A network or filesystem failure; `what` is the plugin, or the place
    /// that was read, and `reason` says what went wrong.
    Io { what: String, reason: String },
    /// The files of the plugin `name` could not be written to the
    /// installed-plugins store; `reason` says what went wrong.
    WriteError { name: String, reason: String },
    /// Another update of the registry mirror is in progress.
    LockDenied,
    /// A lookup request did not name exactly one source.
    AmbiguousLocation,
    /// An upgrade from the registry was asked for without a plugin name.
    NameRequired,
}

/// What the user is told of a failure: the plugin or the thing concerned,
/// and the precise reason.
pub open spec fn error_text(e: Error) -> Seq<char> {
    match e {
        Error::NotFound(what) => "plugin '"@ + what@ + "' not found"@,
        Error::ParseError(what) => "malformed plugin manifest: "@ + what@,
        Error::IncompatibleError(reason) => reason@,
        Error::IncompatibleCheckFailed { name, required } => "plugin '"@ + name@
            + "' requires Spin "@ + required@,
        Error::DowngradeNotAllowed { name, installed, candidate } => "plugin '"@ + name@
            + "' is installed with version "@ + installed@ + ", which is newer than "@
            + candidate@ + "; downgrades are not allowed"@,
        Error::ChecksumMismatch { name, expected, actual } => "checksum mismatch for plugin '"@
            + name@ + "': expected "@ + expected@ + ", got "@ + actual@,
        Error::Io { what, reason } => "transfer of '"@ + what@ + "' failed: "@ + reason@,
        Error::WriteError { name, reason } => "could not write plugin '"@ + name@ + "': "@
            + reason@,
        Error::LockDenied => "Another plugin update operation is already in progress"@,
        Error::AmbiguousLocation =>
            "For plugin lookup, must provide exactly one of: plugin name, url to manifest, local path to manifest"@,
        Error::NameRequired => "plugin name is required for upgrades"@,
    }
}

impl Error {
    /// Puts the failure into words for the user.
    pub fn message(&self) -> (r: String)
        ensures
            r@ == error_text(*self),
    {
        let mut out = String::new();
        match self {
            Error::NotFound(what) => {
                out.append("plugin '");
                out.append(what.as_str());
                out.append("' not found");
            },
            Error::ParseError(what) => {
                out.append("malformed plugin manifest: ");
                out.append(what.as_str());
            },
            Error::IncompatibleError(reason) => {
                out.append(reason.as_str());
            },
            Error::IncompatibleCheckFailed { name, required } => {
                out.append("plugin '");
                out.append(name.as_str());
                out.append("' requires Spin ");
                out.append(required.as_str());
            },
            Error::DowngradeNotAllowed { name, installed, candidate } => {
                out.append("plugin '");
                out.append(name.as_str());
                out.append("' is installed with version ");
                out.append(installed.as_str());
                out.append(", which is newer than ");
                out.append(candidate.as_str());
                out.append("; downgrades are not allowed");
            },
            Error::ChecksumMismatch { name, expected, actual } => {
                out.append("checksum mismatch for plugin '");
                out.append(name.as_str());
                out.append("': expected ");
                out.append(expected.as_str());
                out.append(", got ");
                out.append(actual.as_str());
            },
            Error::Io { what, reason } => {
                out.append("transfer of '");
                out.append(what.as_str());
                out.append("' failed: ");
                out.append(reason.as_str());
            },
            Error::WriteError { name, reason } => {
                out.append("could not write plugin '");
                out.append(name.as_str());
                out.append("': ");
                out.append(reason.as_str());
            },
            Error::LockDenied => {
                out.append("Another plugin update operation is already in progress");
            },
            Error::AmbiguousLocation => {
                out.append(
                    "For plugin lookup, must provide exactly one of: plugin name, url to manifest, local path to manifest",
                );
            },
            Error::NameRequired => {
                out.append("plugin name is required for upgrades");
            },
        }
        assert(out@ =~= error_text(*self));
        out
    }
}

} // verus!

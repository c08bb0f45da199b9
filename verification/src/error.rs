//! The library's error type.

use vstd::prelude::*;

verus! {

/// Every failure the library can report.
///
/// Per-file failures (a malformed archive, a name that does not match the
/// query, a package without new changelog entries) are recovered locally by
/// the directory walker; configuration and command failures are surfaced to
/// the caller.
#[derive(Debug)]
pub enum Error {
    /// A captured output stream was not valid UTF-8 text.
    Utf8StringError(std::string::FromUtf8Error),
    /// The update list was not well-formed XML.
    XMLError(quick_xml::errors::Error),
    /// An attribute of the update list was malformed.
    XMLAttributeError(quick_xml::events::attributes::AttrError),
    /// A number printed by the `rpm` query could not be read as a decimal
    /// 64-bit value.
    ParseIntError,
    /// The package archive could not be read.
    RPMError(rpm::Error),
    /// The file's bytes do not lay out a well-formed package archive, so
    /// they were rejected before the archive reader ran.
    MalformedRPMArchive,
    /// A package has no changelog entries newer than the threshold.
    NoChangelogsForPackage,
    /// No package under the directory contributed any changelog text.
    NoChangelogsInDirectory,
    /// The package's declared name does not start with the query's filter:
    /// holds the declared name and the filter.
    PackageNameDoesNotMatch(String, String),
    /// The `rpm` query printed nothing usable on its first line.
    InvalidRPMResponse,
    /// The `rpm` query itself failed: holds its standard error text.
    RPMCommandError(String),
    /// The configured backend selector is absent or not implemented.
    UnsupportedPackageManager,
    /// `cached_package_path` is absent from the configuration.
    UnkownCachedPackagePath,
    /// An operation's configured command string is empty.
    EmptyCommand,
    /// The download command failed: holds its standard error text.
    DownloadError(String),
    /// The update command failed: holds its standard error text.
    UpdateError(String),
    /// The zypper update-list command failed: holds its standard error text.
    ZypperError(String),
    /// The dnf check-update command failed: holds its standard error text.
    DnfError(String),
}

} // verus!

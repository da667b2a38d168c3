//! Error types for manifest parsing and reading.

use vstd::prelude::*;

verus! {

/// Why a single manifest line failed to parse.
#[derive(Debug, Clone, Copy, PartialEq, Eq, Structural)]
pub enum PackageLineParseError {
    /// The line carried content but no kind marker was found.
    ExpectedPackageType,
    /// The first character of the line is not a known kind marker;
    /// carries the offending character.
    UnknownPackageType(char),
    /// A kind marker was present but no package name followed it.
    ExpectedPackageName,
    /// Content followed the package name; carries its first character.
    UnexpectedString(char),
}

/// Why reading the next record out of a manifest failed.
#[derive(Debug, Clone, Copy, PartialEq, Eq, Structural)]
pub enum PackageListError {
    /// A line failed to parse; carries the 1-based line number and the reason.
    LineParseError(usize, PackageLineParseError),
}

} // verus!

use vstd::prelude::*;

verus! {

/// What can stop one step of a rename.
#[derive(Debug, PartialEq, Eq, Structural, Clone, Copy)]
pub enum RenameError {
    /// The regular-expression engine refused a search pattern.
    Pattern,
    /// A package name holds characters that cannot stand in an import path.
    InvalidIdentifier,
    /// A manifest is not a well-formed TOML document.
    Manifest,
    /// A manifest has no `[package]` table to hold the name.
    MissingPackageTable,
    /// No package of the workspace carries the name to be renamed.
    PackageNotFound,
}

} // verus!

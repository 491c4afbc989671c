use vstd::prelude::*;

verus! {

/// The kinds of failure the renamer distinguishes.
///
/// `OffsetOutOfRange` is the one global error: it concerns the run-wide
/// offset flag and is raised before any file is touched.  The others are
/// per-file and never abort the remaining batch.
#[derive(Clone, Copy, Debug, PartialEq, Eq, Structural)]
pub enum RenameError {
    /// The file's extension names no supported container format.
    UnrecognizedContainerType,
    /// The container's own parser rejected the file.
    ContainerParseFailure,
    /// No usable creation date was found in the container.
    DateNotFound,
    /// The requested timezone offset does not fit the signed seconds range.
    OffsetOutOfRange,
    /// The filesystem rename itself failed.
    RenameFailure,
}

impl RenameError {
    /// A short human-readable description of the failure.
    pub fn message(&self) -> (r: &'static str)
        ensures
            *self is UnrecognizedContainerType ==> r@ == "unknown file type"@,
            *self is ContainerParseFailure ==> r@ == "unable to parse container"@,
            *self is DateNotFound ==> r@ == "unable to determine creation date"@,
            *self is OffsetOutOfRange ==> r@ == "offset too big"@,
            *self is RenameFailure ==> r@ == "unable to rename"@,
    {
        match self {
            RenameError::UnrecognizedContainerType => "unknown file type",
            RenameError::ContainerParseFailure => "unable to parse container",
            RenameError::DateNotFound => "unable to determine creation date",
            RenameError::OffsetOutOfRange => "offset too big",
            RenameError::RenameFailure => "unable to rename",
        }
    }
}

} // verus!

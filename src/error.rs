use vstd::prelude::*;

verus! {

/// The broad class of a failure.
#[derive(Debug, Clone, Copy, PartialEq, Eq)]
pub enum ErrorKind {
    NotFound,
    AlreadyExists,
    Corrupt,
    IoFailure,
    NoSelection,
}

/// Why an operation of the engine stopped.
#[derive(Debug, Clone)]
pub enum ModError {
    /// The archive could not be opened or its directory could not be parsed.
    ArchiveUnreadable,
    /// A registry entry with this name already exists.
    NameAlreadyExists { name: String },
    /// The store directory exists although no registry entry names it.
    StoreDirExists { name: String },
    /// No installed MOD of this name.
    ModDirNotFound { name: String },
    /// The game directory is missing.
    GameDirNotFound,
    /// The MOD's manifest file is missing.
    ManifestNotFound { name: String },
    /// The MOD's manifest or the registry could not be parsed.
    ManifestCorrupt { name: String },
    /// A copy, write or delete failed on this path.
    IoFailure { path: String, cause: String },
    /// Renaming the extracted `nativepc` folder failed.
    RenameFailed { path: String },
    /// The user cancelled a picker.
    NoSelection,
}

impl ModError {
    pub open spec fn spec_kind(&self) -> ErrorKind {
        match self {
            ModError::ArchiveUnreadable => ErrorKind::Corrupt,
            ModError::NameAlreadyExists { .. } => ErrorKind::AlreadyExists,
            ModError::StoreDirExists { .. } => ErrorKind::AlreadyExists,
            ModError::ModDirNotFound { .. } => ErrorKind::NotFound,
            ModError::GameDirNotFound => ErrorKind::NotFound,
            ModError::ManifestNotFound { .. } => ErrorKind::NotFound,
            ModError::ManifestCorrupt { .. } => ErrorKind::Corrupt,
            ModError::IoFailure { .. } => ErrorKind::IoFailure,
            ModError::RenameFailed { .. } => ErrorKind::IoFailure,
            ModError::NoSelection => ErrorKind::NoSelection,
        }
    }

    /// The class of this failure.
    #[verifier::when_used_as_spec(spec_kind)]
    pub fn kind(&self) -> (r: ErrorKind)
        ensures
            r == self.spec_kind(),
    {
        match self {
            ModError::ArchiveUnreadable => ErrorKind::Corrupt,
            ModError::NameAlreadyExists { .. } => ErrorKind::AlreadyExists,
            ModError::StoreDirExists { .. } => ErrorKind::AlreadyExists,
            ModError::ModDirNotFound { .. } => ErrorKind::NotFound,
            ModError::GameDirNotFound => ErrorKind::NotFound,
            ModError::ManifestNotFound { .. } => ErrorKind::NotFound,
            ModError::ManifestCorrupt { .. } => ErrorKind::Corrupt,
            ModError::IoFailure { .. } => ErrorKind::IoFailure,
            ModError::RenameFailed { .. } => ErrorKind::IoFailure,
            ModError::NoSelection => ErrorKind::NoSelection,
        }
    }
}

} // verus!

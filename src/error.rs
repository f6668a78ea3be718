use vstd::prelude::*;

verus! {

/// The kind of a filesystem failure, as reported by the operating system.
#[derive(Debug, Clone, Copy, PartialEq, Eq, Structural)]
pub enum FsKind {
    AlreadyExists,
    NotFound,
    PermissionDenied,
    Other,
}

/// Every way in which one run of the resolve-and-extract pipeline can fail.
#[derive(Debug)]
pub enum PipelineError {
    /// The input holds no 32-character alphanumeric identifier.
    NoIdentifierFound,
    /// No cache endpoint had the identifier, or the archive could not be fetched.
    ResolutionExhausted,
    /// A network-level failure during a metadata or archive request.
    TransportFailure,
    /// A directory could not be created or a file could not be written.
    FilesystemFailure { kind: FsKind, path: String },
    /// A reference (symlink target, metadata, archive stream) could not be read.
    MalformedReference,
}

} // verus!

use vstd::prelude::*;
use crate::error::{FsKind, PipelineError};
use crate::hash::{extract_hash, has_window, is_hash_start, HASH_LEN};
use crate::text::concat_str;

verus! {

/// The directory under which each identifier's archive is extracted.
pub const RESULT_DIR: &'static str = "./result/";

/// The destination root of the archive for `hash`.
pub open spec fn destination_root_of(hash: Seq<char>) -> Seq<char> {
    RESULT_DIR@ + hash
}

/// The destination root of the archive for `hash`: `./result/<hash>`.
pub fn destination_root(hash: &str) -> (r: String)
    ensures
        r@ == destination_root_of(hash@),
{
    concat_str(RESULT_DIR, hash)
}

/// Where an entry named `name` goes under `root`.
pub open spec fn entry_path_of(root: Seq<char>, name: Seq<char>) -> Seq<char> {
    root + "/"@ + name
}

/// Where an entry named `name` goes under `root`.
pub fn entry_path(root: &str, name: &str) -> (r: String)
    ensures
        r@ == entry_path_of(root@, name@),
{
    let a = concat_str(root, "/");
    concat_str(a.as_str(), name)
}

/// What kind of thing an archive entry is.
pub enum EntryKind {
    Directory,
    File,
    Executable,
    /// A link whose target refers to another archive.
    Symlink(String),
    Other,
}

/// One entry of an archive: its path relative to the root, and its kind.
pub struct Entry {
    pub name: String,
    pub kind: EntryKind,
}

/// What to do for one entry.
pub enum Action {
    /// Create this directory, accepting one that already exists as a directory.
    CreateDir(String),
    /// Write the entry's content to this path, executable or not.
    Unpack { path: String, executable: bool },
    /// Resolve and extract the archive of this identifier, to completion, before going on.
    Extract(String),
    /// Leave the entry out and go on.
    Skip,
}

/// What an `Action` means, with text as character sequences.
pub enum ActionView {
    CreateDir(Seq<char>),
    Unpack(Seq<char>, bool),
    Extract(Seq<char>),
    Skip,
}

impl View for Action {
    type V = ActionView;

    open spec fn view(&self) -> ActionView {
        match self {
            Action::CreateDir(p) => ActionView::CreateDir(p@),
            Action::Unpack { path, executable } => ActionView::Unpack(path@, *executable),
            Action::Extract(h) => ActionView::Extract(h@),
            Action::Skip => ActionView::Skip,
        }
    }
}

/// The action for `entry` under `root`, or why there is none: a directory is created,
/// a file is written (executable when the entry is), a symlink's target is taken as a
/// reference to another archive whose identifier is then extracted, and anything else
/// is skipped.
pub fn plan_entry(root: &str, entry: &Entry) -> (r: Result<Action, PipelineError>)
    ensures
        entry.kind is Directory ==> (r matches Ok(a) && a@ == ActionView::CreateDir(
            entry_path_of(root@, entry.name@),
        )),
        entry.kind is File ==> (r matches Ok(a) && a@ == ActionView::Unpack(
            entry_path_of(root@, entry.name@),
            false,
        )),
        entry.kind is Executable ==> (r matches Ok(a) && a@ == ActionView::Unpack(
            entry_path_of(root@, entry.name@),
            true,
        )),
        entry.kind matches EntryKind::Symlink(t) ==> if has_window(t@) {
            (r matches Ok(a) && exists|i: int|
                is_hash_start(t@, i) && a@ == ActionView::Extract(
                    #[trigger] t@.subrange(i, i + HASH_LEN),
                ))
        } else {
            r matches Err(PipelineError::MalformedReference)
        },
        entry.kind is Other ==> (r matches Ok(a) && a@ == ActionView::Skip),
{
    match &entry.kind {
        EntryKind::Directory => Ok(Action::CreateDir(entry_path(root, entry.name.as_str()))),
        EntryKind::File => Ok(
            Action::Unpack { path: entry_path(root, entry.name.as_str()), executable: false },
        ),
        EntryKind::Executable => Ok(
            Action::Unpack { path: entry_path(root, entry.name.as_str()), executable: true },
        ),
        EntryKind::Symlink(target) => match extract_hash(target.as_str()) {
            Some(h) => Ok(Action::Extract(h)),
            None => Err(PipelineError::MalformedReference),
        },
        EntryKind::Other => Ok(Action::Skip),
    }
}

/// The outcome of creating a directory, from what the attempt reported and whether the
/// path then is a directory: `None` for success, else the kind of the failure.
pub open spec fn settle_of(attempt: Result<(), FsKind>, is_dir: bool) -> Option<FsKind> {
    match attempt {
        Ok(()) => None,
        Err(kind) => if kind == FsKind::AlreadyExists && is_dir {
            None
        } else {
            Some(kind)
        },
    }
}

/// Settles an attempt to create the directory `path`: success if the attempt succeeded
/// or found that a directory is already there; otherwise the attempt's failure, with
/// its kind and the path.
pub fn settle_create_dir(path: &str, attempt: Result<(), FsKind>, is_dir: bool) -> (r: Result<
    (),
    PipelineError,
>)
    ensures
        r is Ok <==> settle_of(attempt, is_dir) is None,
        r is Err ==> (r matches Err(PipelineError::FilesystemFailure { kind, path: p })
            && settle_of(attempt, is_dir) == Some(kind) && p@ == path@),
{
    match attempt {
        Ok(()) => Ok(()),
        Err(kind) => {
            if kind == FsKind::AlreadyExists && is_dir {
                Ok(())
            } else {
                Err(PipelineError::FilesystemFailure { kind, path: path.to_owned() })
            }
        },
    }
}

/// Archives of different identifiers go to different destination roots.
pub proof fn lemma_roots_independent(h1: Seq<char>, h2: Seq<char>)
    requires
        h1 != h2,
    ensures
        destination_root_of(h1) != destination_root_of(h2),
{
    let n = RESULT_DIR@.len();
    if destination_root_of(h1) == destination_root_of(h2) {
        assert(h1 =~= destination_root_of(h1).subrange(n as int, destination_root_of(h1).len() as int));
        assert(h2 =~= destination_root_of(h2).subrange(n as int, destination_root_of(h2).len() as int));
    }
}

/// What is at a path of the filesystem.
pub enum PathState {
    Absent,
    Directory,
    NonDirectory,
}

/// A recursive directory creation that the system allows: it makes an absent path a
/// directory and succeeds, succeeds on a directory, and reports that something already
/// exists on anything else. The result is the path's new state and what was reported.
pub open spec fn create_dir_all_model(state: PathState) -> (PathState, Result<(), FsKind>) {
    match state {
        PathState::Absent => (PathState::Directory, Ok(())),
        PathState::Directory => (PathState::Directory, Ok(())),
        PathState::NonDirectory => (PathState::NonDirectory, Err(FsKind::AlreadyExists)),
    }
}

/// Creating a directory at a path in `state` and settling the attempt: the path's new
/// state and the outcome.
pub open spec fn create_dir_step(state: PathState) -> (PathState, Option<FsKind>) {
    let (after, attempt) = create_dir_all_model(state);
    (after, settle_of(attempt, after is Directory))
}

/// Directory creation is idempotent: on a path that already is a directory it succeeds,
/// and does so again; on a path that holds something else it fails, and fails again
/// with the same kind; on an absent path it succeeds and then succeeds again.
pub proof fn lemma_create_dir_idempotent(state: PathState)
    ensures
        ({
            let (s1, r1) = create_dir_step(state);
            let (s2, r2) = create_dir_step(s1);
            &&& state is Directory ==> r1 is None && r2 is None && s2 is Directory
            &&& state is NonDirectory ==> r1 == Some(FsKind::AlreadyExists) && r2 == r1
            &&& state is Absent ==> r1 is None && r2 is None && s2 is Directory
        }),
{
}

} // verus!

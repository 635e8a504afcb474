//! Failures of a disk access, and the ones that only mean the file is not there.
use vstd::prelude::*;

verus! {

/// The kind of a failed input/output operation, as far as this crate tells kinds apart.
#[derive(Clone, Copy, Debug, PartialEq, Eq, Structural)]
pub enum IoErrorKind {
    NotFound,
    InvalidFilename,
    PermissionDenied,
    WouldBlock,
    /// Any other kind.
    Other,
}

/// A failed input/output operation: its kind, the operating system's error code when it
/// gave one on a Unix system, and its message.
#[derive(Debug)]
pub struct IoFailure {
    pub kind: IoErrorKind,
    /// The Unix error code (`errno`); `None` when there is none or the system is not Unix,
    /// whose codes mean other things.
    pub raw_os_error: Option<i32>,
    pub message: String,
}

/// A failed disk access other than a missing file: what was being done, and the failure.
#[derive(Debug)]
pub struct DiskAccessError {
    pub context: String,
    pub source: IoFailure,
}

/// What was being done when reading `path` failed.
pub open spec fn reading_context(path: Seq<char>) -> Seq<char> {
    "reading file "@ + path
}

/// A failure that only means the file is not there.
pub open spec fn means_absent(kind: IoErrorKind) -> bool {
    kind == IoErrorKind::NotFound || kind == IoErrorKind::InvalidFilename
}

/// The outcome of a disk access at `path`: the value when it succeeded, `None` when the
/// file is not there (not found, or an invalid file name), and otherwise the failure with
/// the context `reading file <path>`.
pub fn extract_disk_access<T>(value: Result<T, IoFailure>, path: &str) -> (r: Result<Option<T>, DiskAccessError>)
    ensures
        match value {
            Ok(v) => r == Ok::<Option<T>, DiskAccessError>(Some(v)),
            Err(e) => if means_absent(e.kind) {
                r == Ok::<Option<T>, DiskAccessError>(None)
            } else {
                r matches Err(d) && d.context@ == reading_context(path@) && d.source == e
            },
        },
{
    match value {
        Ok(v) => Ok(Some(v)),
        Err(e) => {
            if matches!(e.kind, IoErrorKind::NotFound | IoErrorKind::InvalidFilename) {
                Ok(None)
            } else {
                let mut context = "reading file ".to_owned();
                context.append(path);
                proof {
                    reveal_strlit("reading file ");
                }
                Err(DiskAccessError { context, source: e })
            }
        },
    }
}

} // verus!

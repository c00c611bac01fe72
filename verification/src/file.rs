//! File access policy.

use vstd::prelude::*;
use crate::bytes::lit;
use crate::date::Timestamp;
use crate::error::{outcome, HttpError, HttpErrorView, IoError, IoErrorView};

verus! {

/// What the system reports of a freshly opened file.
#[derive(Debug)]
pub struct Metadata {
    /// The file's mode bits.
    pub mode: u32,
    /// Whether the file is a directory.
    pub is_dir: bool,
    /// Whether the file is a regular file.
    pub is_file: bool,
    /// The file's modification time, or why it cannot be had.
    pub modified: Result<Timestamp, IoError>,
    /// The file's length in bytes.
    pub length: u64,
}

/// The mathematical content of a [`Metadata`].
#[verifier::ext_equal]
pub struct MetadataView {
    pub mode: u32,
    pub is_dir: bool,
    pub is_file: bool,
    pub modified: Result<Timestamp, IoErrorView>,
    pub length: u64,
}

impl View for Metadata {
    type V = MetadataView;

    open spec fn view(&self) -> MetadataView {
        MetadataView {
            mode: self.mode,
            is_dir: self.is_dir,
            is_file: self.is_file,
            modified: match self.modified {
                Ok(t) => Ok(t),
                Err(e) => Err(e@),
            },
            length: self.length,
        }
    }
}

/// The content of an attempt to open a file.
pub open spec fn opened_view(opened: Result<Metadata, IoError>) -> Result<
    MetadataView,
    IoErrorView,
> {
    match opened {
        Ok(meta) => Ok(meta@),
        Err(e) => Err(e@),
    }
}

/// A regular file that passed the checks of `safe_open`.
#[derive(Clone, Copy, Debug, PartialEq, Eq, Structural)]
pub struct OpenFile {
    /// The file's modification time, at the time it was opened.
    pub mtime: Timestamp,
    /// The file's length, at the time it was opened.  Note that this may
    /// change while the file is read; take care.
    pub length: u64,
}

/// The result of opening a path, which might have turned out to be a
/// directory.
#[derive(Clone, Copy, Debug, PartialEq, Eq, Structural)]
pub enum FileOrDir {
    File(OpenFile),
    Dir,
}

impl View for OpenFile {
    type V = OpenFile;

    open spec fn view(&self) -> OpenFile {
        *self
    }
}

impl View for FileOrDir {
    type V = FileOrDir;

    open spec fn view(&self) -> FileOrDir {
        *self
    }
}

/// The mode bits that every served file must have: readable by user, group
/// and others.
pub const MODE_READABLE: u32 = 0o444;

/// The mode bits that betray a file meant to be private when only the
/// second of them is set: executable by the user, and by others.
pub const MODE_EXECUTABLE: u32 = 0o101;

/// The mode bit for execution by others.
pub const MODE_OTHERS_EXECUTE: u32 = 0o001;

/// Whether a mode grants reading to user, group and others.
pub open spec fn readable_by_all(mode: u32) -> bool {
    mode & MODE_READABLE == MODE_READABLE
}

/// Whether a mode grants execution to others and withholds it from the
/// user.
pub open spec fn executable_by_others_only(mode: u32) -> bool {
    mode & MODE_EXECUTABLE == MODE_OTHERS_EXECUTE
}

/// What the pedantic checks make of an attempt to open a file.
pub open spec fn checked(opened: Result<MetadataView, IoErrorView>) -> Result<
    FileOrDir,
    HttpErrorView,
> {
    match opened {
        Err(e) => Err(HttpErrorView::from_io(e)),
        Ok(meta) => if !readable_by_all(meta.mode) {
            Err(HttpErrorView::NotFound(lit("not ugo+r")))
        } else if executable_by_others_only(meta.mode) {
            Err(HttpErrorView::NotFound(lit("o+x but u-x")))
        } else if meta.is_dir {
            Ok(FileOrDir::Dir)
        } else if meta.is_file {
            match meta.modified {
                Ok(mtime) => Ok(FileOrDir::File(OpenFile { mtime, length: meta.length })),
                Err(e) => Err(HttpErrorView::from_io(e)),
            }
        } else {
            Err(HttpErrorView::NotFound(lit("not a regular file")))
        },
    }
}

/// Judges a file that was opened for reading: it is served only if its
/// permissions and kind match some seriously pedantic checks.  `opened` is
/// what opening the file and asking for its metadata gave.
///
/// On success, returns some of the metadata retrieved during the checks, as
/// a useful side effect.
pub fn safe_open(opened: Result<Metadata, IoError>) -> (r: Result<FileOrDir, HttpError>)
    ensures
        outcome(r) == checked(opened_view(opened)),
{
    let meta = match opened {
        Ok(meta) => meta,
        Err(e) => {
            return Err(HttpError::from_io(e));
        },
    };
    if (meta.mode & MODE_READABLE) != MODE_READABLE {
        Err(HttpError::NotFound("not ugo+r".as_bytes()))
    } else if (meta.mode & MODE_EXECUTABLE) == MODE_OTHERS_EXECUTE {
        Err(HttpError::NotFound("o+x but u-x".as_bytes()))
    } else if meta.is_dir {
        Ok(FileOrDir::Dir)
    } else if meta.is_file {
        match meta.modified {
            Ok(mtime) => Ok(FileOrDir::File(OpenFile { mtime, length: meta.length })),
            Err(e) => Err(HttpError::from_io(e)),
        }
    } else {
        Err(HttpError::NotFound("not a regular file".as_bytes()))
    }
}

/// The modification time that a response about this file would give: that
/// of a regular file that passes the checks, if the system tells it.
pub open spec fn served_mtime(meta: MetadataView) -> Option<Timestamp> {
    match checked(Ok(meta)) {
        Ok(FileOrDir::File(f)) => Some(f.mtime),
        _ => None,
    }
}

/// Returns the modification time that a response about this file would
/// give, if the file is one that is served.
pub fn mtime_if_served(meta: &Metadata) -> (r: Option<Timestamp>)
    ensures
        r == served_mtime(meta@),
{
    if (meta.mode & MODE_READABLE) != MODE_READABLE {
        None
    } else if (meta.mode & MODE_EXECUTABLE) == MODE_OTHERS_EXECUTE {
        None
    } else if meta.is_dir {
        None
    } else if meta.is_file {
        match &meta.modified {
            Ok(mtime) => Some(*mtime),
            Err(_) => None,
        }
    } else {
        None
    }
}

} // verus!

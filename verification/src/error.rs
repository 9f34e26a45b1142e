//! The error taxonomy of the shaping core, and the reading of the outline
//! engine's status codes.

use vstd::prelude::*;

verus! {

/// Why a font face could not be loaded.
#[derive(Clone, Copy, Debug, PartialEq, Eq, Structural)]
pub enum FaceLoadReason {
    /// Nothing exists at the path.
    NotFound,
    /// The path exists but its bytes could not be read.
    Unreadable,
    /// The file is not a font the outline engine understands, or it is corrupt.
    UnsupportedFormat,
    /// The file holds fewer faces than the requested index needs.
    IndexOutOfRange,
}

/// Every failure the core reports to its caller.
#[derive(Clone, Copy, Debug, PartialEq, Eq, Structural)]
pub enum LayoutError {
    /// The outline engine could not set up its state.
    EngineInit,
    /// A face could not be loaded.
    FaceLoad(FaceLoadReason),
    /// A pixel size of zero, or one above the configured maximum.
    InvalidSize,
    /// A size-dependent query on a face that has no pixel size yet.
    SizeUnset,
    /// A shaping context whose face was resized after the context was derived.
    StaleContext,
    /// A run of code units that is not well-formed UTF-16.
    Encoding,
    /// A push or a shape on a buffer that was already shaped.
    BufferConsumed,
    /// A character without a glyph, under the fatal missing-glyph policy.
    UnmappableGlyph,
}

/// The outline engine's code for "the resource cannot be opened".
pub const STATUS_CANNOT_OPEN_RESOURCE: i32 = 1;

/// The outline engine's code for "invalid argument", which is what it answers
/// to a face index that the file does not hold.
pub const STATUS_INVALID_ARGUMENT: i32 = 6;

/// The outline engine's code for "the stream cannot be opened".
pub const STATUS_CANNOT_OPEN_STREAM: i32 = 81;

/// The last of the outline engine's codes for a failed read of an open stream.
pub const STATUS_INVALID_FRAME_READ: i32 = 88;

/// `freetype::succeeded` compares the status with `FT_Err_Ok`, which is zero.
pub assume_specification[ freetype::succeeded ](error: freetype::FT_Error) -> (ok: bool)
    ensures
        ok == (error == 0),
;

/// Whether a status code says that the path could not be opened at all.
pub open spec fn is_open_failure(status: i32) -> bool {
    status == STATUS_CANNOT_OPEN_RESOURCE || status == STATUS_CANNOT_OPEN_STREAM
}

/// Whether a status code says that an open stream could not be read.
pub open spec fn is_read_failure(status: i32) -> bool {
    STATUS_CANNOT_OPEN_STREAM < status <= STATUS_INVALID_FRAME_READ
}

/// The reason that a status code of the outline engine stands for, given
/// whether anything exists at the path; `None` for success.
pub open spec fn load_failure(status: i32, path_exists: bool) -> Option<FaceLoadReason> {
    if status == 0 {
        None
    } else if is_open_failure(status) {
        if path_exists {
            Some(FaceLoadReason::Unreadable)
        } else {
            Some(FaceLoadReason::NotFound)
        }
    } else if is_read_failure(status) {
        Some(FaceLoadReason::Unreadable)
    } else if status == STATUS_INVALID_ARGUMENT {
        Some(FaceLoadReason::IndexOutOfRange)
    } else {
        Some(FaceLoadReason::UnsupportedFormat)
    }
}

impl FaceLoadReason {
    /// Reads the status that the outline engine answered to a request to open
    /// a face.
    pub fn from_status(status: i32, path_exists: bool) -> (reason: Option<FaceLoadReason>)
        ensures
            reason == load_failure(status, path_exists),
    {
        if freetype::succeeded(status) {
            None
        } else if status == STATUS_CANNOT_OPEN_RESOURCE || status == STATUS_CANNOT_OPEN_STREAM {
            if path_exists {
                Some(FaceLoadReason::Unreadable)
            } else {
                Some(FaceLoadReason::NotFound)
            }
        } else if STATUS_CANNOT_OPEN_STREAM < status && status <= STATUS_INVALID_FRAME_READ {
            Some(FaceLoadReason::Unreadable)
        } else if status == STATUS_INVALID_ARGUMENT {
            Some(FaceLoadReason::IndexOutOfRange)
        } else {
            Some(FaceLoadReason::UnsupportedFormat)
        }
    }
}

impl LayoutError {
    /// Whether the caller can recover by correcting its own usage or input.
    /// Only a failed engine start is fatal.
    pub open spec fn recoverable(self) -> bool {
        self != LayoutError::EngineInit
    }

    pub fn is_recoverable(&self) -> (r: bool)
        ensures
            r == self.recoverable(),
    {
        match self {
            LayoutError::EngineInit => false,
            _ => true,
        }
    }
}

} // verus!

//! Why a resolution fails.

use vstd::prelude::*;

verus! {

/// The four kinds of failure a caller tells apart.
#[derive(Debug, Clone, Copy, PartialEq, Eq, Hash, Structural)]
pub enum ErrorKind {
    /// The operating system refused a call: the path or the device cannot be
    /// opened or queried.
    Os,
    /// The resolved path has no parent directory or no final component, or
    /// the resolver was handed an answer to a question it had not asked.
    InvalidInput,
    /// An attribute file holds something other than a number.
    InvalidData,
    /// The platform cannot furnish the attribute that was asked for.
    Unsupported,
}

/// A failed resolution.
#[derive(Debug, Clone, Copy, PartialEq, Eq, Hash, Structural)]
pub enum Error {
    /// An operating-system call that the resolution depends on failed with
    /// this raw error code.
    Os { code: i32 },
    /// The canonical path has no parent directory.
    NoParent,
    /// The canonical path has no final component.
    NoFileName,
    /// An attribute file is not UTF-8 text.
    NotUtf8,
    /// An attribute file is text, but not an unsigned number.
    NotANumber,
    /// The extended status query did not report direct I/O alignment.
    DioAlignUnsupported,
    /// No directory from the device up to the top of the block devices holds
    /// the attribute file.
    QueueNotFound,
    /// The answer handed in does not belong to the question last asked.
    UnexpectedAnswer,
}

impl Error {
    /// The kind of this failure.
    pub open spec fn spec_kind(&self) -> ErrorKind {
        match *self {
            Error::Os { .. } => ErrorKind::Os,
            Error::NoParent | Error::NoFileName | Error::UnexpectedAnswer => {
                ErrorKind::InvalidInput
            },
            Error::NotUtf8 | Error::NotANumber => ErrorKind::InvalidData,
            Error::DioAlignUnsupported | Error::QueueNotFound => ErrorKind::Unsupported,
        }
    }

    /// Returns the kind of this failure.
    #[verifier::when_used_as_spec(spec_kind)]
    pub fn kind(&self) -> (kind: ErrorKind)
        ensures
            kind == self.spec_kind(),
    {
        match *self {
            Error::Os { .. } => ErrorKind::Os,
            Error::NoParent | Error::NoFileName | Error::UnexpectedAnswer => {
                ErrorKind::InvalidInput
            },
            Error::NotUtf8 | Error::NotANumber => ErrorKind::InvalidData,
            Error::DioAlignUnsupported | Error::QueueNotFound => ErrorKind::Unsupported,
        }
    }
}

} // verus!

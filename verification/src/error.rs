//! The error taxonomy of the discovery and extraction subsystem.

use vstd::prelude::*;

verus! {

/// Everything that can go wrong while discovering or extracting documents.
///
/// Every error is fatal to the discovery call it arises in: the library has
/// no retry logic and no partial-success mode.
#[derive(Debug, Clone)]
pub enum LoaderError {
    /// The root path handed to the enumerator does not exist.
    NotFound { path: String },
    /// The root path exists but is neither a regular file nor a directory.
    NotADirectory { path: String },
    /// A glob-like input opened a brace extension list but closed it badly.
    InvalidPattern { path: String },
    /// An external converter binary is absent from the host.
    MissingDependency { tool: String, install_hint: String },
    /// An external converter ran but exited with a non-zero status.
    ToolExecutionFailed { message: String },
    /// A plain-text file could not be read or decoded.
    IoError { message: String },
}

/// The one-line description of an error, as a sequence of characters.
pub open spec fn error_message(e: LoaderError) -> Seq<char> {
    match e {
        LoaderError::NotFound { path } => "Not found: "@ + path@,
        LoaderError::NotADirectory { path } => "Not a directory: "@ + path@,
        LoaderError::InvalidPattern { path } => "Invalid path '"@ + path@ + "'"@,
        LoaderError::MissingDependency { tool: _, install_hint } => install_hint@,
        LoaderError::ToolExecutionFailed { message } => message@,
        LoaderError::IoError { message } => message@,
    }
}

impl LoaderError {
    /// Render the error as the single terminal message shown to a caller.
    pub fn describe(&self) -> (r: String)
        ensures
            r@ == error_message(*self),
    {
        match self {
            LoaderError::NotFound { path } => String::from_str("Not found: ").concat(
                path.as_str(),
            ),
            LoaderError::NotADirectory { path } => String::from_str("Not a directory: ").concat(
                path.as_str(),
            ),
            LoaderError::InvalidPattern { path } => String::from_str("Invalid path '").concat(
                path.as_str(),
            ).concat("'"),
            LoaderError::MissingDependency { tool: _, install_hint } => install_hint.clone(),
            LoaderError::ToolExecutionFailed { message } => message.clone(),
            LoaderError::IoError { message } => message.clone(),
        }
    }
}

} // verus!

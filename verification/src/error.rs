//! Error types shared by every engine operation.

use vstd::prelude::*;

verus! {

/// Error raised by the file-system engine.  Each variant carries a
/// human-readable message describing the failing input or operation.
#[derive(Debug, Clone)]
pub enum FsError {
    /// An input/output failure reported by the surrounding process.
    Io(String),
    /// A path that does not denote an existing or well-formed location.
    InvalidPath(String),
    /// A failure while translating a raw change notification.
    FsEvent(String),
    /// An operation the engine deliberately does not implement.
    NotSupported(String),
    /// A search pattern that is not a valid regular expression.
    InvalidRegex(String),
    /// A failure during a search.
    Search(String),
    /// A permission failure.
    Permission(String),
    /// A failure while computing a digest.
    Hash(String),
    /// A failure while comparing files or trees.
    Comparison(String),
    /// A failure while setting up or running a watch.
    Monitoring(String),
    /// A failure while persisting or restoring settings or history.
    Serialization(String),
}

/// The message prefix that belongs to each error variant.
pub open spec fn spec_error_prefix(e: FsError) -> Seq<char> {
    match e {
        FsError::Io(_) => "IO error: "@,
        FsError::InvalidPath(_) => "Invalid path: "@,
        FsError::FsEvent(_) => "File system event error: "@,
        FsError::NotSupported(_) => "Operation not supported: "@,
        FsError::InvalidRegex(_) => "Invalid regex pattern: "@,
        FsError::Search(_) => "Search error: "@,
        FsError::Permission(_) => "Permission error: "@,
        FsError::Hash(_) => "Hash error: "@,
        FsError::Comparison(_) => "Comparison error: "@,
        FsError::Monitoring(_) => "Monitoring error: "@,
        FsError::Serialization(_) => "Serialization error: "@,
    }
}

/// The payload carried by an error.
pub open spec fn spec_error_detail(e: FsError) -> Seq<char> {
    match e {
        FsError::Io(m) => m@,
        FsError::InvalidPath(m) => m@,
        FsError::FsEvent(m) => m@,
        FsError::NotSupported(m) => m@,
        FsError::InvalidRegex(m) => m@,
        FsError::Search(m) => m@,
        FsError::Permission(m) => m@,
        FsError::Hash(m) => m@,
        FsError::Comparison(m) => m@,
        FsError::Monitoring(m) => m@,
        FsError::Serialization(m) => m@,
    }
}

impl FsError {
    /// The full display message: the variant's prefix followed by the detail.
    pub fn message(&self) -> (r: String)
        ensures
            r@ == spec_error_prefix(*self) + spec_error_detail(*self),
    {
        let (prefix, detail): (&str, &String) = match self {
            FsError::Io(m) => ("IO error: ", m),
            FsError::InvalidPath(m) => ("Invalid path: ", m),
            FsError::FsEvent(m) => ("File system event error: ", m),
            FsError::NotSupported(m) => ("Operation not supported: ", m),
            FsError::InvalidRegex(m) => ("Invalid regex pattern: ", m),
            FsError::Search(m) => ("Search error: ", m),
            FsError::Permission(m) => ("Permission error: ", m),
            FsError::Hash(m) => ("Hash error: ", m),
            FsError::Comparison(m) => ("Comparison error: ", m),
            FsError::Monitoring(m) => ("Monitoring error: ", m),
            FsError::Serialization(m) => ("Serialization error: ", m),
        };
        let mut out = prefix.to_owned();
        out.append(detail.as_str());
        out
    }
}

/// Error raised by the configuration layer around the engine.
#[derive(Debug, Clone)]
pub enum CoreError {
    /// An input/output failure reported by the surrounding process.
    Io(String),
    /// A path that does not denote an existing or well-formed location.
    InvalidPath(String),
    /// An operation the engine deliberately does not implement.
    NotSupported(String),
}

} // verus!

//! The entry model: an immutable snapshot of one file-system entry, plus
//! the engine's configuration types.

use vstd::prelude::*;
use crate::paths::{extension_of, extension_spec, file_name_of, file_name_spec};

verus! {

/// A snapshot of one file-system entry.  Timestamps are milliseconds
/// since the Unix epoch, as handed in by the process that read the
/// metadata.  Directory entries report size 0.
#[derive(Debug, Clone)]
pub struct FileEntry {
    /// File name: the part of `path` after the last separator.
    pub name: String,
    /// Full path.
    pub path: String,
    /// Byte size; 0 for directories.
    pub size: u64,
    /// Whether the entry is a directory.
    pub is_dir: bool,
    /// Creation time, in milliseconds since the Unix epoch.
    pub created: i64,
    /// Last modification time, in milliseconds since the Unix epoch.
    pub modified: i64,
    /// Extension of the file name, when it has one.
    pub extension: Option<String>,
}

impl FileEntry {
    /// The entry's derived fields agree with its path.
    pub open spec fn wf(&self) -> bool {
        &&& self.name@ == file_name_spec(self.path@)
        &&& match self.extension {
            Some(e) => extension_spec(self.path@) == Some(e@),
            None => extension_spec(self.path@) is None,
        }
        &&& (self.is_dir ==> self.size == 0)
    }

    /// Build an entry from the plain metadata of one file-system object.
    /// The name and extension are derived from the path; a directory's
    /// size is forced to 0.
    pub fn new(path: String, size: u64, is_dir: bool, created: i64, modified: i64) -> (r:
        FileEntry)
        ensures
            r.wf(),
            r.path@ == path@,
            r.is_dir == is_dir,
            r.size == (if is_dir {
                0u64
            } else {
                size
            }),
            r.created == created,
            r.modified == modified,
    {
        let name = file_name_of(path.as_str());
        let extension = extension_of(path.as_str());
        FileEntry {
            name,
            path,
            size: if is_dir {
                0
            } else {
                size
            },
            is_dir,
            created,
            modified,
            extension,
        }
    }
}

/// File sorting options for presentation layers.
#[derive(Debug, Clone, Copy, PartialEq, Eq, Structural)]
pub enum SortBy {
    Name,
    Size,
    Modified,
    Created,
}

/// Engine configuration.
#[derive(Debug, Clone)]
pub struct Config {
    /// The directory operations start from.
    pub default_path: String,
    /// Whether hidden entries are shown.
    pub show_hidden: bool,
    /// The ordering presented to callers.
    pub sort_by: SortBy,
}

impl Default for Config {
    /// The default configuration: the current directory, hidden entries
    /// suppressed, sorted by name.
    fn default() -> (r: Config)
        ensures
            r.default_path@ == "."@,
            r.show_hidden == false,
            r.sort_by == SortBy::Name,
    {
        Config { default_path: ".".to_owned(), show_hidden: false, sort_by: SortBy::Name }
    }
}

} // verus!

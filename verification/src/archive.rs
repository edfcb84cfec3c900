//! Archive-format detection from file names.  The packing and
//! unpacking pass-through over the compression libraries lives outside
//! the crate; the format decision is plain string logic and is
//! verified here.

use vstd::prelude::*;
use crate::paths::{file_name_of, file_name_spec, lower_ext_chars, spec_lower_ext};
use crate::text::{chars_end_with, chars_eq, chars_to_vec, lower_chars, spec_lower};

verus! {

/// The archive formats the application recognizes.
#[derive(Debug, Clone, Copy, PartialEq, Eq, Structural)]
pub enum ArchiveType {
    Zip,
    Lzh,
    Tar,
    TarGz,
    TarBz2,
    Gz,
    SevenZ,
    Rar,
    Cab,
    Unknown,
}

/// Whether `s` ends with `suffix`.
pub open spec fn spec_ends_with(s: Seq<char>, suffix: Seq<char>) -> bool {
    s.len() >= suffix.len() && s.skip(s.len() - suffix.len()) == suffix
}

/// The archive format a path denotes: decided by its lower-cased
/// extension, with a second look at the whole lower-cased file name
/// for the compound `.tar.gz` / `.tar.bz2` endings.
pub open spec fn spec_archive_type(p: Seq<char>) -> ArchiveType {
    let ext = spec_lower_ext(p);
    if ext == "zip"@ || ext == "jar"@ || ext == "war"@ || ext == "ear"@ {
        ArchiveType::Zip
    } else if ext == "lzh"@ || ext == "lha"@ {
        ArchiveType::Lzh
    } else if ext == "tar"@ {
        ArchiveType::Tar
    } else if ext == "tgz"@ {
        ArchiveType::TarGz
    } else if ext == "tbz2"@ {
        ArchiveType::TarBz2
    } else if ext == "gz"@ {
        ArchiveType::Gz
    } else if ext == "7z"@ {
        ArchiveType::SevenZ
    } else if ext == "rar"@ {
        ArchiveType::Rar
    } else if ext == "cab"@ {
        ArchiveType::Cab
    } else if spec_ends_with(spec_lower(file_name_spec(p)), ".tar.gz"@) {
        ArchiveType::TarGz
    } else if spec_ends_with(spec_lower(file_name_spec(p)), ".tar.bz2"@) {
        ArchiveType::TarBz2
    } else {
        ArchiveType::Unknown
    }
}

/// Handle for archive-format decisions.
pub struct ArchiveHandler;

fn lower_name_ends_with(file_path: &str, suffix: &str) -> (r: bool)
    ensures
        r == spec_ends_with(spec_lower(file_name_spec(file_path@)), suffix@),
{
    let name = file_name_of(file_path);
    let nv = chars_to_vec(name.as_str());
    let nl = lower_chars(&nv);
    let sv = chars_to_vec(suffix);
    chars_end_with(&nl, &sv)
}

impl ArchiveHandler {
    /// Decide the archive format from the file's extension, falling
    /// back to the whole file name for compound endings.
    pub fn detect_archive_type(file_path: &str) -> (r: ArchiveType)
        ensures
            r == spec_archive_type(file_path@),
    {
        let ext = lower_ext_chars(file_path);
        if chars_eq(&ext, &chars_to_vec("zip")) || chars_eq(&ext, &chars_to_vec("jar"))
            || chars_eq(&ext, &chars_to_vec("war")) || chars_eq(&ext, &chars_to_vec("ear")) {
            ArchiveType::Zip
        } else if chars_eq(&ext, &chars_to_vec("lzh")) || chars_eq(&ext, &chars_to_vec("lha")) {
            ArchiveType::Lzh
        } else if chars_eq(&ext, &chars_to_vec("tar")) {
            ArchiveType::Tar
        } else if chars_eq(&ext, &chars_to_vec("tgz")) {
            ArchiveType::TarGz
        } else if chars_eq(&ext, &chars_to_vec("tbz2")) {
            ArchiveType::TarBz2
        } else if chars_eq(&ext, &chars_to_vec("gz")) {
            ArchiveType::Gz
        } else if chars_eq(&ext, &chars_to_vec("7z")) {
            ArchiveType::SevenZ
        } else if chars_eq(&ext, &chars_to_vec("rar")) {
            ArchiveType::Rar
        } else if chars_eq(&ext, &chars_to_vec("cab")) {
            ArchiveType::Cab
        } else if lower_name_ends_with(file_path, ".tar.gz") {
            ArchiveType::TarGz
        } else if lower_name_ends_with(file_path, ".tar.bz2") {
            ArchiveType::TarBz2
        } else {
            ArchiveType::Unknown
        }
    }

    /// Whether the path denotes a recognized archive format.
    pub fn is_archive(file_path: &str) -> (r: bool)
        ensures
            r == (spec_archive_type(file_path@) != ArchiveType::Unknown),
    {
        let t = Self::detect_archive_type(file_path);
        !(t == ArchiveType::Unknown)
    }
}

} // verus!

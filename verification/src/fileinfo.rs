//! Descriptive file information derived from a path: the displayed
//! file type, the MIME type, the static metadata shown for executable
//! files, and the default program associations.  Reading metadata from
//! disk happens outside the crate; the caller hands in what it read.

use vstd::prelude::*;
use crate::paths::{lower_ext_chars, spec_lower_ext};
use crate::text::{
    chars_eq, chars_to_vec, lower_chars, spec_lower, spec_upper, string_of_chars, upper_chars,
};

verus! {

/// The capacity of the disk an entry lives on.
#[derive(Debug, Clone, Copy, PartialEq, Eq, Structural)]
pub struct DiskSpaceInfo {
    /// Total capacity in bytes.
    pub total_space: u64,
    /// Free capacity in bytes.
    pub free_space: u64,
    /// Used capacity in bytes.
    pub used_space: u64,
}

/// Collector of descriptive file information.
pub struct FileInfoCollector;

/// The displayed type of an entry: directories have a fixed label,
/// known extensions have their own names, and anything else is
/// labelled by its upper-cased extension.
pub open spec fn spec_file_type(p: Seq<char>, is_dir: bool) -> Seq<char> {
    let ext = spec_lower_ext(p);
    if is_dir {
        "フォルダー"@
    } else if ext == "txt"@ {
        "テキストファイル"@
    } else if ext == "doc"@ || ext == "docx"@ {
        "Microsoft Word 文書"@
    } else if ext == "xls"@ || ext == "xlsx"@ {
        "Microsoft Excel ワークシート"@
    } else if ext == "ppt"@ || ext == "pptx"@ {
        "Microsoft PowerPoint プレゼンテーション"@
    } else if ext == "pdf"@ {
        "Adobe Acrobat Document"@
    } else if ext == "jpg"@ || ext == "jpeg"@ {
        "JPEG画像"@
    } else if ext == "png"@ {
        "PNG画像"@
    } else if ext == "gif"@ {
        "GIF画像"@
    } else if ext == "mp4"@ {
        "MP4動画ファイル"@
    } else if ext == "mp3"@ {
        "MP3音声ファイル"@
    } else if ext == "zip"@ {
        "ZIP圧縮ファイル"@
    } else if ext == "rar"@ {
        "RAR圧縮ファイル"@
    } else if ext == "exe"@ {
        "アプリケーション"@
    } else if ext == "dll"@ {
        "アプリケーション拡張"@
    } else if ext == "rs"@ {
        "Rustソースファイル"@
    } else if ext == "py"@ {
        "Pythonスクリプト"@
    } else if ext == "js"@ {
        "JavaScriptファイル"@
    } else if ext == "html"@ {
        "HTMLファイル"@
    } else if ext == "css"@ {
        "CSSスタイルシート"@
    } else if ext == "json"@ {
        "JSONファイル"@
    } else if ext == "xml"@ {
        "XMLファイル"@
    } else if ext == "yaml"@ || ext == "yml"@ {
        "YAMLファイル"@
    } else if ext == "toml"@ {
        "TOMLファイル"@
    } else if ext.len() == 0 {
        "ファイル"@
    } else {
        spec_upper(ext) + "ファイル"@
    }
}

/// The MIME type guessed from an entry's extension.
pub open spec fn spec_mime_type(p: Seq<char>) -> Seq<char> {
    let ext = spec_lower_ext(p);
    if ext == "txt"@ {
        "text/plain"@
    } else if ext == "html"@ {
        "text/html"@
    } else if ext == "css"@ {
        "text/css"@
    } else if ext == "js"@ {
        "application/javascript"@
    } else if ext == "json"@ {
        "application/json"@
    } else if ext == "xml"@ {
        "application/xml"@
    } else if ext == "pdf"@ {
        "application/pdf"@
    } else if ext == "jpg"@ || ext == "jpeg"@ {
        "image/jpeg"@
    } else if ext == "png"@ {
        "image/png"@
    } else if ext == "gif"@ {
        "image/gif"@
    } else if ext == "mp4"@ {
        "video/mp4"@
    } else if ext == "mp3"@ {
        "audio/mpeg"@
    } else if ext == "zip"@ {
        "application/zip"@
    } else {
        "application/octet-stream"@
    }
}

impl FileInfoCollector {
    /// The displayed type of an entry; whether it is a directory is
    /// handed in by the caller that read the metadata.
    pub fn determine_file_type(path: &str, is_dir: bool) -> (r: String)
        ensures
            r@ == spec_file_type(path@, is_dir),
    {
        if is_dir {
            return "フォルダー".to_owned();
        }
        let ext = lower_ext_chars(path);
        if chars_eq(&ext, &chars_to_vec("txt")) {
            "テキストファイル".to_owned()
        } else if chars_eq(&ext, &chars_to_vec("doc")) || chars_eq(&ext, &chars_to_vec("docx")) {
            "Microsoft Word 文書".to_owned()
        } else if chars_eq(&ext, &chars_to_vec("xls")) || chars_eq(&ext, &chars_to_vec("xlsx")) {
            "Microsoft Excel ワークシート".to_owned()
        } else if chars_eq(&ext, &chars_to_vec("ppt")) || chars_eq(&ext, &chars_to_vec("pptx")) {
            "Microsoft PowerPoint プレゼンテーション".to_owned()
        } else if chars_eq(&ext, &chars_to_vec("pdf")) {
            "Adobe Acrobat Document".to_owned()
        } else if chars_eq(&ext, &chars_to_vec("jpg")) || chars_eq(&ext, &chars_to_vec("jpeg")) {
            "JPEG画像".to_owned()
        } else if chars_eq(&ext, &chars_to_vec("png")) {
            "PNG画像".to_owned()
        } else if chars_eq(&ext, &chars_to_vec("gif")) {
            "GIF画像".to_owned()
        } else if chars_eq(&ext, &chars_to_vec("mp4")) {
            "MP4動画ファイル".to_owned()
        } else if chars_eq(&ext, &chars_to_vec("mp3")) {
            "MP3音声ファイル".to_owned()
        } else if chars_eq(&ext, &chars_to_vec("zip")) {
            "ZIP圧縮ファイル".to_owned()
        } else if chars_eq(&ext, &chars_to_vec("rar")) {
            "RAR圧縮ファイル".to_owned()
        } else if chars_eq(&ext, &chars_to_vec("exe")) {
            "アプリケーション".to_owned()
        } else if chars_eq(&ext, &chars_to_vec("dll")) {
            "アプリケーション拡張".to_owned()
        } else if chars_eq(&ext, &chars_to_vec("rs")) {
            "Rustソースファイル".to_owned()
        } else if chars_eq(&ext, &chars_to_vec("py")) {
            "Pythonスクリプト".to_owned()
        } else if chars_eq(&ext, &chars_to_vec("js")) {
            "JavaScriptファイル".to_owned()
        } else if chars_eq(&ext, &chars_to_vec("html")) {
            "HTMLファイル".to_owned()
        } else if chars_eq(&ext, &chars_to_vec("css")) {
            "CSSスタイルシート".to_owned()
        } else if chars_eq(&ext, &chars_to_vec("json")) {
            "JSONファイル".to_owned()
        } else if chars_eq(&ext, &chars_to_vec("xml")) {
            "XMLファイル".to_owned()
        } else if chars_eq(&ext, &chars_to_vec("yaml")) || chars_eq(&ext, &chars_to_vec("yml")) {
            "YAMLファイル".to_owned()
        } else if chars_eq(&ext, &chars_to_vec("toml")) {
            "TOMLファイル".to_owned()
        } else if ext.len() == 0 {
            "ファイル".to_owned()
        } else {
            let mut v = upper_chars(&ext);
            let suffix = chars_to_vec("ファイル");
            v.extend_from_slice(suffix.as_slice());
            string_of_chars(&v)
        }
    }

    /// The MIME type guessed from an entry's extension.
    pub fn get_mime_type(path: &str) -> (r: String)
        ensures
            r@ == spec_mime_type(path@),
    {
        let ext = lower_ext_chars(path);
        if chars_eq(&ext, &chars_to_vec("txt")) {
            "text/plain".to_owned()
        } else if chars_eq(&ext, &chars_to_vec("html")) {
            "text/html".to_owned()
        } else if chars_eq(&ext, &chars_to_vec("css")) {
            "text/css".to_owned()
        } else if chars_eq(&ext, &chars_to_vec("js")) {
            "application/javascript".to_owned()
        } else if chars_eq(&ext, &chars_to_vec("json")) {
            "application/json".to_owned()
        } else if chars_eq(&ext, &chars_to_vec("xml")) {
            "application/xml".to_owned()
        } else if chars_eq(&ext, &chars_to_vec("pdf")) {
            "application/pdf".to_owned()
        } else if chars_eq(&ext, &chars_to_vec("jpg")) || chars_eq(&ext, &chars_to_vec("jpeg")) {
            "image/jpeg".to_owned()
        } else if chars_eq(&ext, &chars_to_vec("png")) {
            "image/png".to_owned()
        } else if chars_eq(&ext, &chars_to_vec("gif")) {
            "image/gif".to_owned()
        } else if chars_eq(&ext, &chars_to_vec("mp4")) {
            "video/mp4".to_owned()
        } else if chars_eq(&ext, &chars_to_vec("mp3")) {
            "audio/mpeg".to_owned()
        } else if chars_eq(&ext, &chars_to_vec("zip")) {
            "application/zip".to_owned()
        } else {
            "application/octet-stream".to_owned()
        }
    }

    /// The static metadata shown for executable files: a version,
    /// company, description and copyright for `exe` / `dll` entries,
    /// nothing for anything else.
    pub fn get_pe_metadata(path: &str) -> (r: (
        Option<String>,
        Option<String>,
        Option<String>,
        Option<String>,
    ))
        ensures
            ({
                let ext = spec_lower_ext(path@);
                if ext == "exe"@ || ext == "dll"@ {
                    match (r.0, r.1, r.2, r.3) {
                        (Some(a), Some(b), Some(c), Some(d)) => a@ == "1.0.0"@ && b@
                            == "Unknown Company"@ && c@ == "Windows Application"@ && d@
                            == "Copyright © 2024"@,
                        _ => false,
                    }
                } else {
                    r.0 is None && r.1 is None && r.2 is None && r.3 is None
                }
            }),
    {
        let ext = lower_ext_chars(path);
        if chars_eq(&ext, &chars_to_vec("exe")) || chars_eq(&ext, &chars_to_vec("dll")) {
            (
                Some("1.0.0".to_owned()),
                Some("Unknown Company".to_owned()),
                Some("Windows Application".to_owned()),
                Some("Copyright © 2024".to_owned()),
            )
        } else {
            (None, None, None, None)
        }
    }

    /// The program associated with an extension and the command that
    /// opens it, for the extensions with a fixed association.
    pub fn get_file_associations(extension: &str) -> (r: (Option<String>, Option<String>))
        ensures
            ({
                let ext = spec_lower(extension@);
                match (r.0, r.1) {
                    (Some(program), Some(command)) => spec_association(
                        ext,
                    ) matches Some(pair) && program@ == pair.0 && command@ == pair.1,
                    (None, None) => extension@.len() == 0 || (spec_association(ext) is None),
                    _ => false,
                }
            }),
    {
        if extension.unicode_len() == 0 {
            return (None, None);
        }
        let ev = chars_to_vec(extension);
        let ext = lower_chars(&ev);
        if chars_eq(&ext, &chars_to_vec("txt")) {
            (Some("メモ帳".to_owned()), Some("notepad.exe".to_owned()))
        } else if chars_eq(&ext, &chars_to_vec("rs")) {
            (Some("Visual Studio Code".to_owned()), Some("code.exe".to_owned()))
        } else if chars_eq(&ext, &chars_to_vec("py")) {
            (Some("Python".to_owned()), Some("python.exe".to_owned()))
        } else if chars_eq(&ext, &chars_to_vec("html")) {
            (Some("既定のブラウザー".to_owned()), Some("browser.exe".to_owned()))
        } else if chars_eq(&ext, &chars_to_vec("jpg")) || chars_eq(&ext, &chars_to_vec("png"))
            || chars_eq(&ext, &chars_to_vec("gif")) {
            (Some("フォト".to_owned()), Some("photos.exe".to_owned()))
        } else if chars_eq(&ext, &chars_to_vec("mp4")) {
            (Some("映画&テレビ".to_owned()), Some("movies.exe".to_owned()))
        } else if chars_eq(&ext, &chars_to_vec("mp3")) {
            (Some("Groove ミュージック".to_owned()), Some("music.exe".to_owned()))
        } else if chars_eq(&ext, &chars_to_vec("pdf")) {
            (Some("Adobe Acrobat Reader".to_owned()), Some("acrobat.exe".to_owned()))
        } else if chars_eq(&ext, &chars_to_vec("zip")) {
            (Some("エクスプローラー".to_owned()), Some("explorer.exe".to_owned()))
        } else {
            (None, None)
        }
    }

    /// The disk capacity reported for an entry; a fixed placeholder
    /// until a platform query is wired in by the surrounding process.
    pub fn get_disk_space_info(_path: &str) -> (r: Option<DiskSpaceInfo>)
        ensures
            r == Some(
                DiskSpaceInfo {
                    total_space: 1000000000000u64,
                    free_space: 500000000000u64,
                    used_space: 500000000000u64,
                },
            ),
    {
        Some(
            DiskSpaceInfo {
                total_space: 1000000000000,
                free_space: 500000000000,
                used_space: 500000000000,
            },
        )
    }
}

/// The dialog that presents an entry's details.
pub struct FileInfoDialog;

/// The icon shown for a lower-cased extension.
pub open spec fn spec_file_icon(ext: Seq<char>) -> Seq<char> {
    if ext == "txt"@ {
        "📄"@
    } else if ext == "doc"@ || ext == "docx"@ {
        "📝"@
    } else if ext == "xls"@ || ext == "xlsx"@ {
        "📊"@
    } else if ext == "ppt"@ || ext == "pptx"@ {
        "📊"@
    } else if ext == "pdf"@ {
        "📕"@
    } else if ext == "jpg"@ || ext == "jpeg"@ || ext == "png"@ || ext == "gif"@ || ext == "bmp"@ {
        "🖼️"@
    } else if ext == "mp4"@ || ext == "avi"@ || ext == "mkv"@ || ext == "mov"@ {
        "🎬"@
    } else if ext == "mp3"@ || ext == "wav"@ || ext == "ogg"@ || ext == "flac"@ {
        "🎵"@
    } else if ext == "zip"@ || ext == "rar"@ || ext == "7z"@ || ext == "tar"@ || ext == "gz"@ {
        "📦"@
    } else if ext == "exe"@ || ext == "msi"@ {
        "⚙️"@
    } else if ext == "dll"@ {
        "🔧"@
    } else if ext == "rs"@ || ext == "py"@ || ext == "js"@ || ext == "html"@ || ext == "css"@ {
        "💻"@
    } else if ext == "json"@ || ext == "xml"@ || ext == "yaml"@ || ext == "yml"@ || ext
        == "toml"@ {
        "📋"@
    } else {
        "📄"@
    }
}

impl FileInfoDialog {
    /// The icon shown for a file extension.
    pub fn get_file_icon(extension: &str) -> (r: &'static str)
        ensures
            r@ == spec_file_icon(spec_lower(extension@)),
    {
        let ev = chars_to_vec(extension);
        let ext = lower_chars(&ev);
        if chars_eq(&ext, &chars_to_vec("txt")) {
            "📄"
        } else if chars_eq(&ext, &chars_to_vec("doc")) || chars_eq(&ext, &chars_to_vec("docx")) {
            "📝"
        } else if chars_eq(&ext, &chars_to_vec("xls")) || chars_eq(&ext, &chars_to_vec("xlsx")) {
            "📊"
        } else if chars_eq(&ext, &chars_to_vec("ppt")) || chars_eq(&ext, &chars_to_vec("pptx")) {
            "📊"
        } else if chars_eq(&ext, &chars_to_vec("pdf")) {
            "📕"
        } else if chars_eq(&ext, &chars_to_vec("jpg")) || chars_eq(&ext, &chars_to_vec("jpeg"))
            || chars_eq(&ext, &chars_to_vec("png")) || chars_eq(&ext, &chars_to_vec("gif"))
            || chars_eq(&ext, &chars_to_vec("bmp")) {
            "🖼️"
        } else if chars_eq(&ext, &chars_to_vec("mp4")) || chars_eq(&ext, &chars_to_vec("avi"))
            || chars_eq(&ext, &chars_to_vec("mkv")) || chars_eq(&ext, &chars_to_vec("mov")) {
            "🎬"
        } else if chars_eq(&ext, &chars_to_vec("mp3")) || chars_eq(&ext, &chars_to_vec("wav"))
            || chars_eq(&ext, &chars_to_vec("ogg")) || chars_eq(&ext, &chars_to_vec("flac")) {
            "🎵"
        } else if chars_eq(&ext, &chars_to_vec("zip")) || chars_eq(&ext, &chars_to_vec("rar"))
            || chars_eq(&ext, &chars_to_vec("7z")) || chars_eq(&ext, &chars_to_vec("tar"))
            || chars_eq(&ext, &chars_to_vec("gz")) {
            "📦"
        } else if chars_eq(&ext, &chars_to_vec("exe")) || chars_eq(&ext, &chars_to_vec("msi")) {
            "⚙️"
        } else if chars_eq(&ext, &chars_to_vec("dll")) {
            "🔧"
        } else if chars_eq(&ext, &chars_to_vec("rs")) || chars_eq(&ext, &chars_to_vec("py"))
            || chars_eq(&ext, &chars_to_vec("js")) || chars_eq(&ext, &chars_to_vec("html"))
            || chars_eq(&ext, &chars_to_vec("css")) {
            "💻"
        } else if chars_eq(&ext, &chars_to_vec("json")) || chars_eq(&ext, &chars_to_vec("xml"))
            || chars_eq(&ext, &chars_to_vec("yaml")) || chars_eq(&ext, &chars_to_vec("yml"))
            || chars_eq(&ext, &chars_to_vec("toml")) {
            "📋"
        } else {
            "📄"
        }
    }
}

/// The fixed program association for a lower-cased extension.
pub open spec fn spec_association(ext: Seq<char>) -> Option<(Seq<char>, Seq<char>)> {
    if ext == "txt"@ {
        Some(("メモ帳"@, "notepad.exe"@))
    } else if ext == "rs"@ {
        Some(("Visual Studio Code"@, "code.exe"@))
    } else if ext == "py"@ {
        Some(("Python"@, "python.exe"@))
    } else if ext == "html"@ {
        Some(("既定のブラウザー"@, "browser.exe"@))
    } else if ext == "jpg"@ || ext == "png"@ || ext == "gif"@ {
        Some(("フォト"@, "photos.exe"@))
    } else if ext == "mp4"@ {
        Some(("映画&テレビ"@, "movies.exe"@))
    } else if ext == "mp3"@ {
        Some(("Groove ミュージック"@, "music.exe"@))
    } else if ext == "pdf"@ {
        Some(("Adobe Acrobat Reader"@, "acrobat.exe"@))
    } else if ext == "zip"@ {
        Some(("エクスプローラー"@, "explorer.exe"@))
    } else {
        None
    }
}

} // verus!

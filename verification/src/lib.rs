//! A local file-system intelligence engine.
//!
//! The crate models and verifies the decision logic of a file manager's
//! core: recursive search with pattern, extension and depth filtering,
//! cryptographic digests of files and directory trees, byte- and
//! line-level comparison of files and directories, and change monitoring
//! with filtering, per-path debouncing and a bounded event history.
//!
//! All file and directory contents enter through plain values (bytes,
//! strings, entry records); the process that reads them from disk and the
//! process that delivers raw change notifications live outside the crate.

pub mod archive;
pub mod clipboard;
pub mod compare;
pub mod dragdrop;
pub mod entry;
pub mod error;
pub mod fileinfo;
pub mod fileops;
pub mod fileviewer;
pub mod hashing;
pub mod monitor;
pub mod paths;
pub mod plugin;
pub mod search;
pub mod shortcuts;
pub mod state;
pub mod text;
pub mod util;

pub use error::{CoreError, FsError};

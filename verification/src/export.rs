//! Settings for an export run: which backend feeds it, where it writes, and
//! which static assets it copies first. The drain loop that performs the
//! copying and writing is I/O and lives outside the library.

use vstd::prelude::*;

verus! {

/// A failure while exporting.
pub enum Error {
    StorageError(crate::storage::Error),
}

/// The type of storage an export run draws from.
pub enum StorageType {
    Fs(FsSettings),
}

/// A series of settings for the Fs storage type.
pub struct FsSettings {
    pub storage_dir: String,
}

/// A series of settings for an Exporter to be created from and run.
///
/// Primarily existing for easily converting CLI arguments to a usable
/// Exporter, but also can be used to easily construct an exporter.
pub struct ExportSettings {
    /// The type of storage to use.
    pub storage: StorageType,
    /// An optional static directory to copy to the output directory.
    pub static_dir: Option<String>,
    /// The target directory to export to.
    pub export_dir: String,
}

/// The target of an export run: the directory written to, and an optional
/// static-asset directory copied into it beforehand.
pub struct Exporter {
    pub export_dir: String,
    pub static_dir: Option<String>,
}

impl Exporter {
    pub fn new(export_dir: String, static_dir: Option<String>) -> (e: Exporter)
        ensures
            e.export_dir == export_dir,
            e.static_dir == static_dir,
    {
        Exporter { export_dir: export_dir, static_dir: static_dir }
    }
}

} // verus!

pub mod file_system;

use vstd::prelude::*;

verus! {

/// The failures the providers and the resource cache can report.
#[derive(Debug, Clone, PartialEq, Eq, Structural)]
pub enum ProviderError {
    /// The archive path's extension is not a recognized container format.
    UnsupportedFormat,
    /// The container could not be listed, or an entry could not be extracted.
    ArchiveReadError,
    /// An extracted entry is not a recognizable raster image.
    DecodeError,
    /// A comic or page index beyond the end was requested.
    IndexOutOfRange,
    /// Converting a decoded image into a display-ready resource failed.
    LoadError,
}

/// An opened archive container: it lists its member entry names and extracts
/// a named member's raw bytes. The file-system-backed implementation lives
/// outside the library, beside the file I/O it needs; further sources can be
/// added behind this same boundary without changing any caller.
pub trait ArchiveSource {
    /// Lists every member entry name, in the container's own order.
    fn list_entries(&mut self) -> Result<Vec<String>, ProviderError>;

    /// Extracts the named member's raw bytes into memory.
    fn extract_entry(&mut self, name: &String) -> Result<Vec<u8>, ProviderError>;
}

} // verus!

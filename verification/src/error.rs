//! Failure conditions of the binary map-data decoders.

use vstd::prelude::*;

verus! {

/// Why loading a cell or texture-quadtree file failed.  A decode failure
/// aborts the whole load of that file: no partial tree is ever returned.
#[derive(Clone, Copy, Debug, PartialEq, Eq, Structural)]
pub enum LoadError {
    /// Opening, seeking or reading the underlying file failed.
    IoFailure,
    /// The file does not begin with the format's magic number, or an
    /// embedded payload is not of the expected format.
    InvalidFormat,
    /// The cell is marked compressed; compression is not implemented.
    UnsupportedFeature,
    /// The texture-quadtree format version is not the supported one.
    UnsupportedVersion,
    /// The cell's stored size differs from the map's configured cell width.
    SizeMismatch,
    /// The stored tree depth lies outside the supported range.
    DepthOutOfRange,
    /// A decoded texture tile's dimensions differ from the stored tile size.
    TileSizeMismatch,
    /// Fewer bytes were available than a fixed-width field requires.
    TruncatedRead,
}

impl LoadError {
    /// A short description, for reporting outside the library.
    pub fn describe(&self) -> (r: &'static str)
    {
        match self {
            LoadError::IoFailure => "unable to read file",
            LoadError::InvalidFormat => "invalid magic number",
            LoadError::UnsupportedFeature => "compressed cells are not supported",
            LoadError::UnsupportedVersion => "invalid version number",
            LoadError::SizeMismatch => "cell size does not match map cell size",
            LoadError::DepthOutOfRange => "depth out of supported range",
            LoadError::TileSizeMismatch => "invalid tile size",
            LoadError::TruncatedRead => "unexpected end of data",
        }
    }
}

} // verus!

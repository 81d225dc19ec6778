//! Error taxonomy shared by the archive layer and the image pipeline.

use vstd::prelude::*;

verus! {

/// A failure reported by the engine.  Every component returns a typed
/// error rather than retrying internally; the variant tells the caller
/// whether the failure is an archive problem, an image problem, or a
/// malformed request.
#[derive(Debug, Clone)]
pub enum CbxError {
    /// The archive container is malformed, an entry is missing or too
    /// large, or the container holds no usable entry.
    Archive(String),
    /// The image bytes could not be recognised or decoded, or the
    /// requested raster dimensions are invalid.
    Image(String),
    /// An input/output failure reported by the byte source.
    Io(String),
    /// A configuration-store failure.
    Registry(String),
    /// The archive holds no entry with a supported image extension.
    NoImageFound,
    /// The container or image format is not one of the supported kinds.
    UnsupportedFormat(String),
    /// The supplied path or name carries no usable extension.
    InvalidPath,
}

impl CbxError {
    /// A short label for the error kind, for host-side reporting.
    pub fn kind(&self) -> (r: &'static str)
        ensures
            r@ == self.kind_spec(),
    {
        match self {
            CbxError::Archive(_) => "archive error",
            CbxError::Image(_) => "image error",
            CbxError::Io(_) => "io error",
            CbxError::Registry(_) => "registry error",
            CbxError::NoImageFound => "no image found in archive",
            CbxError::UnsupportedFormat(_) => "unsupported format",
            CbxError::InvalidPath => "invalid file path",
        }
    }

    /// The label returned by [`Self::kind`].
    pub open spec fn kind_spec(&self) -> Seq<char> {
        match self {
            CbxError::Archive(_) => "archive error"@,
            CbxError::Image(_) => "image error"@,
            CbxError::Io(_) => "io error"@,
            CbxError::Registry(_) => "registry error"@,
            CbxError::NoImageFound => "no image found in archive"@,
            CbxError::UnsupportedFormat(_) => "unsupported format"@,
            CbxError::InvalidPath => "invalid file path"@,
        }
    }
}

} // verus!

use vstd::prelude::*;

verus! {

/// Pixel dimensions of an image, in the 64-bit signed range. A value returned
/// to a caller is fully resolved; some scans use a negative sentinel while a
/// field is still unknown, which is never visible outside the probe.
#[derive(Debug, Clone, Copy, PartialEq, Eq, Structural)]
pub struct ImageSize {
    pub width: i64,
    pub height: i64,
}

/// The opaque error type of the standard library's I/O layer, carried inside
/// `ImageInfoError::IoError` so that callers can inspect the original cause.
#[verifier::external_type_specification]
#[verifier::external_body]
pub struct ExIoError(std::io::Error);

/// Why a detection attempt failed: either no known format matched the header
/// bytes, or the underlying byte source itself failed.
#[derive(Debug)]
pub enum ImageInfoError {
    UnrecognizedFormat,
    IoError(std::io::Error),
}

pub type ImageInfoResult<T> = Result<T, ImageInfoError>;

impl From<std::io::Error> for ImageInfoError {
    fn from(err: std::io::Error) -> (r: ImageInfoError)
        ensures
            r == ImageInfoError::IoError(err),
    {
        ImageInfoError::IoError(err)
    }
}

impl vstd::std_specs::convert::FromSpecImpl<std::io::Error> for ImageInfoError {
    open spec fn obeys_from_spec() -> bool {
        true
    }

    open spec fn from_spec(err: std::io::Error) -> ImageInfoError {
        ImageInfoError::IoError(err)
    }
}

} // verus!

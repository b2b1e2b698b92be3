//! The ways an operation of this crate can fail.

use vstd::prelude::*;
use vstd::string::StringExecFns;

verus! {

/// Why an operation was refused, or why a material kept its placeholder
/// colour.
#[derive(Clone, Copy, Debug, PartialEq, Eq, Structural)]
pub enum Error {
    /// A cube face was named by an index outside `0..6`, or by a name that
    /// is not one of the six face names.
    InvalidFaceIndex,
    /// An image stores its pixels in a layout that the operation does not
    /// read.
    UnsupportedImageEncoding,
    /// The images handed to one compute pass differ in width or height.
    DimensionMismatch,
    /// A material has a texture entry, but neither its own colour table nor
    /// the default one holds an average colour for that texture.
    UnresolvedMaterialColor,
    /// A material name has no texture entry at all.
    UnknownMaterial,
    /// An average colour was found but does not have exactly three
    /// channels.
    InvalidColorFormat,
}

impl Error {
    /// A short description for logs and user-facing reports.
    pub fn message(&self) -> (text: String)
        ensures
            text@ == match *self {
                Error::InvalidFaceIndex => "invalid face index"@,
                Error::UnsupportedImageEncoding => "unsupported image encoding"@,
                Error::DimensionMismatch => "input images differ in size"@,
                Error::UnresolvedMaterialColor => "no average colour for material"@,
                Error::UnknownMaterial => "unknown material"@,
                Error::InvalidColorFormat => "invalid colour format"@,
            },
    {
        match self {
            Error::InvalidFaceIndex => String::from_str("invalid face index"),
            Error::UnsupportedImageEncoding => String::from_str("unsupported image encoding"),
            Error::DimensionMismatch => String::from_str("input images differ in size"),
            Error::UnresolvedMaterialColor => String::from_str("no average colour for material"),
            Error::UnknownMaterial => String::from_str("unknown material"),
            Error::InvalidColorFormat => String::from_str("invalid colour format"),
        }
    }
}

} // verus!

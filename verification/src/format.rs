//! Format registry: maps a user-facing format selection to a target format,
//! and every target format to its file extension and to the backend that
//! produces it. Pure lookup, no state.

use vstd::prelude::*;

use crate::error::ConversionError;

verus! {

/// A target output format.
#[derive(Clone, Copy, Debug, PartialEq, Eq, Structural)]
pub enum FormatTag {
    Png,
    Jpeg,
    WebP,
    Bmp,
    Svg,
    Pdf,
}

/// Which backend produces a format: the in-process raster codec, or the
/// out-of-process vector renderer.
#[derive(Clone, Copy, Debug, PartialEq, Eq, Structural)]
pub enum BackendKind {
    Raster,
    External,
}

/// The file extension of a format.
pub open spec fn spec_extension(tag: FormatTag) -> Seq<char> {
    match tag {
        FormatTag::Png => "png"@,
        FormatTag::Jpeg => "jpeg"@,
        FormatTag::WebP => "webp"@,
        FormatTag::Bmp => "bmp"@,
        FormatTag::Svg => "svg"@,
        FormatTag::Pdf => "pdf"@,
    }
}

/// The backend responsible for a format. This registry serves the vector
/// pipeline: the formats the external renderer exports (including raster
/// export of vector sources) go out of process, the rest go to the raster
/// codec.
pub open spec fn spec_backend(tag: FormatTag) -> BackendKind {
    match tag {
        FormatTag::Png => BackendKind::External,
        FormatTag::Jpeg => BackendKind::Raster,
        FormatTag::WebP => BackendKind::Raster,
        FormatTag::Bmp => BackendKind::Raster,
        FormatTag::Svg => BackendKind::External,
        FormatTag::Pdf => BackendKind::External,
    }
}

/// Whether a format is itself a vector or document format. The external
/// renderer needs no rasterization hint when the target is one of these.
pub open spec fn spec_is_vector(tag: FormatTag) -> bool {
    tag == FormatTag::Svg || tag == FormatTag::Pdf
}

/// Whether a format is itself a vector or document format.
pub fn is_vector(tag: FormatTag) -> (r: bool)
    ensures
        r == spec_is_vector(tag),
{
    match tag {
        FormatTag::Svg => true,
        FormatTag::Pdf => true,
        _ => false,
    }
}

/// The extension string of a format.
pub fn extension_of(tag: FormatTag) -> (r: &'static str)
    ensures
        r@ == spec_extension(tag),
{
    match tag {
        FormatTag::Png => "png",
        FormatTag::Jpeg => "jpeg",
        FormatTag::WebP => "webp",
        FormatTag::Bmp => "bmp",
        FormatTag::Svg => "svg",
        FormatTag::Pdf => "pdf",
    }
}

/// The backend responsible for a format.
pub fn backend_of(tag: FormatTag) -> (r: BackendKind)
    ensures
        r == spec_backend(tag),
{
    match tag {
        FormatTag::Png => BackendKind::External,
        FormatTag::Jpeg => BackendKind::Raster,
        FormatTag::WebP => BackendKind::Raster,
        FormatTag::Bmp => BackendKind::Raster,
        FormatTag::Svg => BackendKind::External,
        FormatTag::Pdf => BackendKind::External,
    }
}

/// The format a selection index denotes, if any: the indices follow the
/// order of the user-facing format list.
pub open spec fn spec_selected_format(index: i32) -> Option<FormatTag> {
    if index == 0 {
        Some(FormatTag::Svg)
    } else if index == 1 {
        Some(FormatTag::Pdf)
    } else if index == 2 {
        Some(FormatTag::Png)
    } else {
        None
    }
}

/// Resolve a user-facing format selection index. An index outside the
/// enumerated list is a configuration error, never silently defaulted.
pub fn selected_format(index: i32) -> (r: Result<FormatTag, ConversionError>)
    ensures
        r is Ok <==> spec_selected_format(index) is Some,
        r is Ok ==> spec_selected_format(index) == Some(r->Ok_0),
        r is Err ==> r->Err_0 == ConversionError::ConfigError,
{
    if index == 0 {
        Ok(FormatTag::Svg)
    } else if index == 1 {
        Ok(FormatTag::Pdf)
    } else if index == 2 {
        Ok(FormatTag::Png)
    } else {
        Err(ConversionError::ConfigError)
    }
}

} // verus!

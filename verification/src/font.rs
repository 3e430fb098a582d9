//! Resolving the caption font from what the host's font catalog gave.

use vstd::prelude::*;
use rusttype::Font;

verus! {

/// `rusttype::Font`, a parsed font. Opaque here.
#[verifier::external_type_specification]
#[verifier::external_body]
pub struct ExFont<'a>(Font<'a>);

/// Whether `rusttype` accepts `data` as the bytes of a font.
pub uninterp spec fn is_font_data(data: Seq<u8>) -> bool;

/// `Font::try_from_vec`: the font that `data` holds, or `None` for data that
/// is not a valid font. Whether data is valid depends on the data alone.
#[verifier::external_body]
fn try_parse(data: Vec<u8>) -> (font: Option<Font<'static>>)
    ensures
        font is Some <==> is_font_data(data@),
{
    Font::try_from_vec(data)
}

/// What the lookup of a serif font in the host's catalog came to.
#[derive(Debug)]
pub enum FontSource {
    /// The catalog has no serif font.
    NotFound,
    /// The catalog named a font whose bytes could not be read.
    Unreadable,
    /// The bytes of the font that the catalog named.
    Data(Vec<u8>),
}

/// Why no font could be had.
#[derive(Clone, Copy, Debug, PartialEq, Eq, Structural)]
pub enum FontResolutionError {
    /// The host has no serif font.
    NoSerifFont,
    /// The bytes of the matched font could not be read.
    UnreadableFont,
    /// The bytes of the matched font are not a valid font.
    InvalidFontData,
}

/// What parsing came to: the font, or the error for invalid data.
pub fn parsed_or_invalid(parsed: Option<Font<'static>>) -> (result: Result<Font<'static>, FontResolutionError>)
    ensures
        result == match parsed {
            Some(font) => Ok::<Font<'static>, FontResolutionError>(font),
            None => Err(FontResolutionError::InvalidFontData),
        },
{
    match parsed {
        Some(font) => Ok(font),
        None => Err(FontResolutionError::InvalidFontData),
    }
}

/// Turns the outcome of the catalog lookup into a parsed font. Fails when
/// there was no serif font, when its bytes could not be read, and when the
/// bytes are not a valid font; succeeds in every other case.
pub fn resolve_font(source: FontSource) -> (result: Result<Font<'static>, FontResolutionError>)
    ensures
        match source {
            FontSource::NotFound => result == Err::<Font<'static>, FontResolutionError>(
                FontResolutionError::NoSerifFont,
            ),
            FontSource::Unreadable => result == Err::<Font<'static>, FontResolutionError>(
                FontResolutionError::UnreadableFont,
            ),
            FontSource::Data(data) => if is_font_data(data@) {
                result is Ok
            } else {
                result == Err::<Font<'static>, FontResolutionError>(FontResolutionError::InvalidFontData)
            },
        },
{
    match source {
        FontSource::NotFound => Err(FontResolutionError::NoSerifFont),
        FontSource::Unreadable => Err(FontResolutionError::UnreadableFont),
        FontSource::Data(data) => parsed_or_invalid(try_parse(data)),
    }
}

} // verus!

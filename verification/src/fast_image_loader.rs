//! Decoding an image file's bytes into pixels, with as little work as the
//! display needs.
//!
//! A JPEG can be decoded at a fraction of its size at no extra cost, so the
//! loader picks the smallest fraction that still serves the target size.
//! Decoders are tried in turn: a fast JPEG decoder that the caller may
//! bring, a general JPEG decoder, and a decoder for many formats.
use vstd::prelude::*;

use crate::pixel_buffer::{byte_count, PixelBuffer, PixelLayout};
use crate::strings::{chars_of, ends_with, ends_with_chars, to_lowercase, unicode_lowercase};

verus! {

/// The fractions at which a JPEG can be decoded.
#[derive(Debug, Clone, Copy, PartialEq, Eq, Structural)]
pub enum ScalingFactor {
    One,
    OneHalf,
    OneQuarter,
    OneEighth,
}

impl ScalingFactor {
    /// The denominator of the fraction.
    pub open spec fn spec_denominator(&self) -> u32 {
        match self {
            ScalingFactor::One => 1,
            ScalingFactor::OneHalf => 2,
            ScalingFactor::OneQuarter => 4,
            ScalingFactor::OneEighth => 8,
        }
    }

    #[verifier::when_used_as_spec(spec_denominator)]
    pub fn denominator(&self) -> (r: u32)
        ensures
            r == self.spec_denominator(),
    {
        match self {
            ScalingFactor::One => 1,
            ScalingFactor::OneHalf => 2,
            ScalingFactor::OneQuarter => 4,
            ScalingFactor::OneEighth => 8,
        }
    }
}

/// The fraction to decode at, for an image whose longer side has `native`
/// pixels and a display that needs `target`: an eighth from 7.5 times the
/// target on, a quarter from 3.7 times, a half from 1.9 times, else the
/// full size.
pub open spec fn scaling_for(native: u32, target: u32) -> ScalingFactor {
    if native * 10 >= target * 75 {
        ScalingFactor::OneEighth
    } else if native * 10 >= target * 37 {
        ScalingFactor::OneQuarter
    } else if native * 10 >= target * 19 {
        ScalingFactor::OneHalf
    } else {
        ScalingFactor::One
    }
}

/// Whether a path names a JPEG file: lower-cased, it ends in `.jpg` or
/// `.jpeg`.
pub open spec fn names_jpeg(path: Seq<char>) -> bool {
    let lower = unicode_lowercase(path);
    ends_with_chars(lower, ".jpg"@) || ends_with_chars(lower, ".jpeg"@)
}

/// What a decoder hands back: width, height and the pixel bytes.
pub type RawImage = (u32, u32, Vec<u8>);

/// Decodes a JPEG with the general decoder, to RGB.
///
/// Wraps `zune_jpeg::JpegDecoder`: `new_with_options` with the RGB output
/// colour space, `decode_headers`, `output_buffer_size`, `decode_into` and
/// `info`.  Which pixels come out of which bytes may depend on the
/// processor's instruction set, so nothing is promised of the result; the
/// caller checks it.
#[verifier::external_body]
fn decode_jpeg_general(bytes: &[u8]) -> (r: Result<RawImage, String>) {
    let options = zune_jpeg::zune_core::options::DecoderOptions::default()
        .jpeg_set_out_colorspace(zune_jpeg::zune_core::colorspace::ColorSpace::RGB);
    let mut decoder = zune_jpeg::JpegDecoder::new_with_options(bytes, options);
    decoder.decode_headers().map_err(|e| format!("JPEG decode failed: {:?}", e))?;
    let size = decoder.output_buffer_size().ok_or_else(|| "Failed to get decoder info".to_string())?;
    let mut pixels = vec![0u8; size];
    decoder.decode_into(&mut pixels).map_err(|e| format!("JPEG decode failed: {:?}", e))?;
    let info = decoder.info().ok_or_else(|| "Failed to get decoder info".to_string())?;
    Ok((info.width as u32, info.height as u32, pixels))
}

/// Decodes an image of any supported format, to RGBA.
///
/// Wraps `image::ImageReader`: `new` over the bytes, `set_format` with the
/// format that `image::ImageFormat::from_path` reads off the path's
/// extension, and `decode`; then `DynamicImage::into_rgba8`.  Nothing is
/// promised of the result; the caller checks it.
#[verifier::external_body]
fn decode_generic(path: &str, bytes: &[u8]) -> (r: Result<RawImage, String>) {
    let mut reader = image::ImageReader::new(std::io::Cursor::new(bytes));
    if let Ok(format) = image::ImageFormat::from_path(path) {
        reader.set_format(format);
    }
    let decoded = reader.decode().map_err(|e| format!("Failed to load image: {}", e))?;
    let rgba = decoded.into_rgba8();
    Ok((rgba.width(), rgba.height(), rgba.into_raw()))
}

/// A way to decode an image.
#[derive(Debug, Clone, Copy, PartialEq, Eq, Structural)]
pub enum Decoder {
    /// The caller's fast JPEG decoder, which decodes at a fraction of the
    /// size.
    FastJpeg,
    /// The general JPEG decoder, at full size.
    GeneralJpeg,
    /// The decoder for many formats.
    Generic,
}

/// The decoder that is tried first: for a JPEG the fast one where the
/// caller has one, else the general JPEG decoder; for any other file the
/// decoder for many formats.
pub open spec fn first_decoder(is_jpeg: bool, has_fast: bool) -> Decoder {
    if !is_jpeg {
        Decoder::Generic
    } else if has_fast {
        Decoder::FastJpeg
    } else {
        Decoder::GeneralJpeg
    }
}

/// The decoder that is tried when `failed` has failed, if any is left.
pub open spec fn decoder_after(failed: Decoder) -> Option<Decoder> {
    match failed {
        Decoder::FastJpeg => Some(Decoder::GeneralJpeg),
        Decoder::GeneralJpeg => Some(Decoder::Generic),
        Decoder::Generic => None,
    }
}

/// The number of decoders that are left to try after `decoder`.
pub open spec fn decoders_left(decoder: Decoder) -> nat {
    match decoder {
        Decoder::FastJpeg => 2,
        Decoder::GeneralJpeg => 1,
        Decoder::Generic => 0,
    }
}

/// From whichever decoder the chain starts, it ends with the decoder for
/// many formats after at most two fallbacks.
pub proof fn lemma_decoder_chain_ends(first: Decoder)
    ensures
        decoder_after(Decoder::Generic) is None,
        first != Decoder::Generic ==> decoder_after(first) is Some,
        first == Decoder::FastJpeg ==> decoder_after(decoder_after(first)->0) == Some(
            Decoder::Generic,
        ),
        first == Decoder::GeneralJpeg ==> decoder_after(first) == Some(Decoder::Generic),
        decoder_after(first) matches Some(next) ==> decoders_left(next) < decoders_left(first),
{
}

/// How the chain of decoders goes on after one attempt.
#[derive(Debug)]
pub enum Attempt {
    /// The chain ends with this result.
    Done(Result<PixelBuffer, String>),
    /// This decoder is tried next.
    Next(Decoder),
}

/// How the chain goes on when `decoder` has ended with `outcome`: an image
/// is the result; after a failure the next decoder is tried; the failure
/// of the last decoder is the result.
pub open spec fn after_attempt(decoder: Decoder, outcome: Result<PixelBuffer, String>) -> Attempt {
    match outcome {
        Ok(image) => Attempt::Done(Ok(image)),
        Err(e) => match decoder_after(decoder) {
            Some(next) => Attempt::Next(next),
            None => Attempt::Done(Err(e)),
        },
    }
}

/// The chain returns the first image that a decoder gives, and an error
/// only when the last decoder, the one for many formats, has failed.
pub proof fn lemma_chain_result(decoder: Decoder, outcome: Result<PixelBuffer, String>)
    ensures
        outcome matches Ok(image) ==> after_attempt(decoder, outcome) == Attempt::Done(
            Ok(image),
        ),
        after_attempt(decoder, outcome) matches Attempt::Done(Err(e)) ==> decoder
            == Decoder::Generic && outcome == Err::<PixelBuffer, String>(e),
        after_attempt(decoder, outcome) matches Attempt::Next(next) ==> outcome is Err
            && decoder_after(decoder) == Some(next) && decoders_left(next) < decoders_left(
            decoder,
        ),
{
}

/// Namespace of the loading functions.
#[derive(Debug)]
pub struct FastImageLoader;

impl FastImageLoader {
    /// Picks the fraction to decode a JPEG at.
    pub fn select_scaling_factor(native_max_dimension: u32, target_max_dimension: u32) -> (r:
        ScalingFactor)
        ensures
            r == scaling_for(native_max_dimension, target_max_dimension),
    {
        let native: u64 = native_max_dimension as u64 * 10;
        let target: u64 = target_max_dimension as u64;
        if native >= target * 75 {
            ScalingFactor::OneEighth
        } else if native >= target * 37 {
            ScalingFactor::OneQuarter
        } else if native >= target * 19 {
            ScalingFactor::OneHalf
        } else {
            ScalingFactor::One
        }
    }

    /// Tests whether a path names a JPEG file.
    pub fn is_jpeg_path(path: &str) -> (r: bool)
        ensures
            r == names_jpeg(path@),
    {
        let lower = to_lowercase(path);
        let lower_chars = chars_of(lower.as_str());
        let jpg = chars_of(".jpg");
        let jpeg = chars_of(".jpeg");
        ends_with(&lower_chars, &jpg) || ends_with(&lower_chars, &jpeg)
    }

    /// Says which decoder is tried first.
    pub fn choose_first(is_jpeg: bool, has_fast: bool) -> (r: Decoder)
        ensures
            r == first_decoder(is_jpeg, has_fast),
    {
        if !is_jpeg {
            Decoder::Generic
        } else if has_fast {
            Decoder::FastJpeg
        } else {
            Decoder::GeneralJpeg
        }
    }

    /// Says which decoder is tried after one that failed.
    pub fn fall_back(failed: Decoder) -> (r: Option<Decoder>)
        ensures
            r == decoder_after(failed),
    {
        match failed {
            Decoder::FastJpeg => Some(Decoder::GeneralJpeg),
            Decoder::GeneralJpeg => Some(Decoder::Generic),
            Decoder::Generic => None,
        }
    }

    /// Takes what a decoder handed back: the image, where the bytes suffice
    /// for the size that the decoder reports, else `failure` as the error.
    pub fn accept(raw: RawImage, layout: PixelLayout, failure: &str) -> (r: Result<
        PixelBuffer,
        String,
    >)
        ensures
            match r {
                Ok(image) => {
                    &&& raw.2@.len() >= byte_count(raw.0, raw.1, layout)
                    &&& image.spec_width() == raw.0
                    &&& image.spec_height() == raw.1
                    &&& image.spec_layout() == layout
                    &&& image.raw() == raw.2@.take(byte_count(raw.0, raw.1, layout) as int)
                },
                Err(e) => raw.2@.len() < byte_count(raw.0, raw.1, layout) && e@ == failure@,
            },
    {
        let (width, height, pixels) = raw;
        match PixelBuffer::from_raw(width, height, layout, pixels) {
            Some(image) => Ok(image),
            None => Err(failure.to_owned()),
        }
    }

    /// Says how the chain goes on when `decoder` has ended with `outcome`.
    pub fn conclude(decoder: Decoder, outcome: Result<PixelBuffer, String>) -> (r: Attempt)
        ensures
            r == after_attempt(decoder, outcome),
    {
        match outcome {
            Ok(image) => Attempt::Done(Ok(image)),
            Err(e) => match Self::fall_back(decoder) {
                Some(next) => Attempt::Next(next),
                None => Attempt::Done(Err(e)),
            },
        }
    }

    /// Makes one attempt.  The fast decoder's attempt is what the caller
    /// hands in (a failure where it hands in nothing); an image from the
    /// general JPEG decoder is RGB, one from the decoder for many formats
    /// RGBA.
    fn attempt(
        decoder: Decoder,
        path: &str,
        bytes: &[u8],
        fast: Option<Result<PixelBuffer, String>>,
    ) -> (r: Result<PixelBuffer, String>)
        ensures
            decoder == Decoder::FastJpeg && fast is Some ==> r == fast->0,
            decoder == Decoder::FastJpeg && fast is None ==> r is Err,
            decoder == Decoder::GeneralJpeg ==> (r matches Ok(image) ==> image.spec_layout()
                == PixelLayout::Rgb8),
            decoder == Decoder::Generic ==> (r matches Ok(image) ==> image.spec_layout()
                == PixelLayout::Rgba8),
    {
        match decoder {
            Decoder::FastJpeg => match fast {
                Some(outcome) => outcome,
                None => Err("No fast decoder".to_owned()),
            },
            Decoder::GeneralJpeg => match decode_jpeg_general(bytes) {
                Ok(raw) => Self::accept(
                    raw,
                    PixelLayout::Rgb8,
                    "Failed to create image buffer from zune-jpeg output",
                ),
                Err(e) => Err(e),
            },
            Decoder::Generic => match decode_generic(path, bytes) {
                Ok(raw) => Self::accept(raw, PixelLayout::Rgba8, "Failed to create image buffer"),
                Err(e) => Err(e),
            },
        }
    }

    /// Decodes the bytes of the file at `path`.
    ///
    /// For a JPEG, `fast` is how the caller's fast decoder fared, if there
    /// is one: an image from it is the result.  Failing that, the general
    /// JPEG decoder is tried, then the decoder for many formats.  Any other
    /// file goes to the latter alone, and `fast` is not looked at.  The
    /// chain begins with [`first_decoder`] and goes on as
    /// [`after_attempt`] says: the first image is the result, and an error
    /// is that of the last decoder.
    ///
    /// What a decoder makes of given bytes is its own affair; so of its
    /// images no more is said than their layout.
    pub fn load_for_display(path: &str, bytes: &[u8], fast: Option<Result<PixelBuffer, String>>) -> (r:
        Result<PixelBuffer, String>)
        ensures
            names_jpeg(path@) ==> (fast matches Some(Ok(image)) ==> r == Ok::<PixelBuffer, String>(
                image,
            )),
            !names_jpeg(path@) ==> (r matches Ok(image) ==> image.spec_layout()
                == PixelLayout::Rgba8),
    {
        let is_jpeg = Self::is_jpeg_path(path);
        let mut decoder = Self::choose_first(is_jpeg, fast.is_some());
        let mut unused = fast;
        loop
            invariant
                is_jpeg == names_jpeg(path@),
                !is_jpeg ==> decoder == Decoder::Generic,
                decoder == Decoder::FastJpeg ==> unused == fast && fast is Some,
                decoder != Decoder::FastJpeg ==> !(is_jpeg && fast matches Some(Ok(_))),
            decreases decoders_left(decoder),
        {
            let outcome = Self::attempt(decoder, path, bytes, unused);
            unused = None;
            match Self::conclude(decoder, outcome) {
                Attempt::Done(result) => {
                    return result;
                },
                Attempt::Next(next) => {
                    decoder = next;
                },
            }
        }
    }
}

} // verus!
